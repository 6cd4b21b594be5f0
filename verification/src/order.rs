//! The order in which rows are listed: by value, and by row number among
//! rows of one value.

use vstd::prelude::*;
use crate::triee::Triee;
use crate::triee::triee_rows;
use crate::triee::triee_value;
use vstd::seq_lib::lemma_multiset_commutative;
use vstd::seq_lib::to_multiset_contains;
use vstd::seq_lib::to_multiset_insert;

verus! {

/// Whether row `a` is listed before row `b`.
pub open spec fn precedes(rows: Map<u32, u64>, a: u32, b: u32) -> bool {
    rows[a] < rows[b] || (rows[a] == rows[b] && a < b)
}

/// Whether `s` lists its rows in order, none of them twice.
pub open spec fn ascending(rows: Map<u32, u64>, s: Seq<u32>) -> bool {
    forall|i: int, j: int| 0 <= i < j < s.len() ==> precedes(rows, s[i], s[j])
}

/// Whether `row` is held with a value in `lo..=hi`.
pub open spec fn in_range(rows: Map<u32, u64>, row: u32, lo: u64, hi: u64) -> bool {
    rows.dom().contains(row) && lo <= rows[row] <= hi
}

/// Whether `s` lists every row with a value in `lo..=hi`, and no other row.
pub open spec fn lists_range(rows: Map<u32, u64>, s: Seq<u32>, lo: u64, hi: u64) -> bool {
    forall|r: u32| s.contains(r) <==> in_range(rows, r, lo, hi)
}

/// Whether `s` is the listing of the rows with a value in `lo..=hi`: all of
/// them, no other row, in order.
pub open spec fn is_selection(rows: Map<u32, u64>, s: Seq<u32>, lo: u64, hi: u64) -> bool {
    ascending(rows, s) && lists_range(rows, s, lo, hi)
}

/// Whether the values of the rows in `s` never go down.
pub open spec fn by_value(rows: Map<u32, u64>, s: Seq<u32>) -> bool {
    forall|i: int, j: int| 0 <= i <= j < s.len() ==> rows[s[i]] <= rows[s[j]]
}

/// Along a listing the values never go down.
pub proof fn lemma_listing_by_value(rows: Map<u32, u64>, s: Seq<u32>)
    requires
        ascending(rows, s),
    ensures
        by_value(rows, s),
        s.no_duplicates(),
{
    assert forall|i: int, j: int| 0 <= i <= j < s.len() implies rows[s[i]] <= rows[s[j]] by {
        if i < j {
            assert(precedes(rows, s[i], s[j]));
        }
    }
    assert forall|i: int, j: int| 0 <= i < s.len() && 0 <= j < s.len() && i != j implies s[i]
        != s[j] by {
        if i < j {
            assert(precedes(rows, s[i], s[j]));
        } else {
            assert(precedes(rows, s[j], s[i]));
        }
    }
}

/// In a listing the rows of one value stand together: between two rows of
/// equal value there is no row of another value.
pub proof fn lemma_equal_values_together(rows: Map<u32, u64>, s: Seq<u32>, i: int, k: int, j: int)
    requires
        ascending(rows, s),
        0 <= i <= k <= j < s.len(),
        rows[s[i]] == rows[s[j]],
    ensures
        rows[s[k]] == rows[s[i]],
{
    lemma_listing_by_value(rows, s);
}

/// The rows of a range have one listing only: it depends on the rows and
/// their values, not on how they came to be.
pub proof fn lemma_selection_is_unique(
    rows: Map<u32, u64>,
    s: Seq<u32>,
    t: Seq<u32>,
    lo: u64,
    hi: u64,
)
    requires
        is_selection(rows, s, lo, hi),
        is_selection(rows, t, lo, hi),
    ensures
        s == t,
{
    broadcast use vstd::multiset::group_multiset_axioms;

    let leq = |a: u32, b: u32| a == b || precedes(rows, a, b);
    lemma_listing_by_value(rows, s);
    lemma_listing_by_value(rows, t);
    s.lemma_multiset_has_no_duplicates();
    t.lemma_multiset_has_no_duplicates();
    assert forall|r: u32| s.to_multiset().count(r) == t.to_multiset().count(r) by {
        to_multiset_contains(s, r);
        to_multiset_contains(t, r);
    }
    assert(s.to_multiset() =~= t.to_multiset());
    assert(vstd::relations::sorted_by(s, leq));
    assert(vstd::relations::sorted_by(t, leq));
    assert(vstd::relations::total_ordering(leq));
    vstd::seq_lib::lemma_sorted_unique(s, t, leq);
}

/// The listing of one value holds the rows with that value, all of them
/// and no other row.
pub proof fn lemma_selection_of_value(rows: Map<u32, u64>, s: Seq<u32>, value: u64, row: u32)
    requires
        is_selection(rows, s, value, value),
    ensures
        s.contains(row) <==> rows.dom().contains(row) && rows[row] == value,
{
}

/// A range whose lower end lies above its upper end lists no row.
pub proof fn lemma_selection_of_empty_range(rows: Map<u32, u64>, s: Seq<u32>, lo: u64, hi: u64)
    requires
        is_selection(rows, s, lo, hi),
        lo > hi,
    ensures
        s == Seq::<u32>::empty(),
{
    if s.len() > 0 {
        assert(s.contains(s[0]));
    }
    assert(s =~= Seq::<u32>::empty());
}

/// Puts `row` into the part of `out` that starts at `from`, which is sorted
/// by row number, at its place, and tells where that is.
fn place(out: &mut Vec<u32>, from: usize, row: u32) -> (pos: usize)
    requires
        from <= old(out).len(),
        forall|i: int, j: int| from <= i <= j < old(out).len() ==> old(out)[i] <= old(out)[j],
    ensures
        from <= pos <= old(out).len(),
        final(out)@ == old(out)@.insert(pos as int, row),
        forall|i: int, j: int| from <= i <= j < final(out).len() ==> final(out)[i] <= final(out)[j],
{
    let ghost before = out@;
    out.push(row);
    let mut j: usize = out.len() - 1;
    assert(out@ =~= before.insert(j as int, row));
    while j > from && out[j - 1] > row
        invariant
            from <= j <= before.len(),
            out@ == before.insert(j as int, row),
            forall|i: int| j <= i < before.len() ==> row < before[i],
            forall|i: int, k: int| from <= i <= k < before.len() ==> before[i] <= before[k],
        decreases j,
    {
        let prev: u32 = out[j - 1];
        out.set(j, prev);
        out.set(j - 1, row);
        j = j - 1;
        assert(out@ =~= before.insert(j as int, row));
    }
    j
}

/// Lists in order the rows that `found` lists by value.
pub(crate) fn arrange(tree: &Triee, found: Vec<u32>) -> (out: Vec<u32>)
    requires
        found@.no_duplicates(),
        by_value(triee_rows(*tree), found@),
        forall|i: int| 0 <= i < found@.len() ==> triee_rows(*tree).dom().contains(found@[i]),
        !triee_rows(*tree).dom().contains(0),
    ensures
        ascending(triee_rows(*tree), out@),
        forall|r: u32| out@.contains(r) <==> found@.contains(r),
{
    let ghost rows = triee_rows(*tree);
    let n: usize = found.len();
    let mut out: Vec<u32> = Vec::new();
    let mut a: usize = 0;
    assert(found@.take(0) =~= out@);
    while a < n
        invariant
            a <= n,
            n == found.len(),
            rows == triee_rows(*tree),
            by_value(rows, found@),
            forall|i: int| 0 <= i < found@.len() ==> rows.dom().contains(found@[i]),
            !rows.dom().contains(0),
            out.len() == a,
            out@.to_multiset() == found@.take(a as int).to_multiset(),
            a < n ==> forall|i: int| 0 <= i < a ==> rows[found@[i]] < rows[found@[a as int]],
            forall|i: int| 0 <= i < a ==> rows[out@[i]] == rows[found@[i]],
            forall|i: int, j: int|
                0 <= i <= j < a && rows[out@[i]] == rows[out@[j]] ==> out@[i] <= out@[j],
        decreases n - a,
    {
        let value: Option<u64> = triee_value(tree, found[a]);
        // The rows from `a` up to `b` share this value.
        let mut b: usize = a + 1;
        loop
            invariant
                a < b <= n,
                n == found.len(),
                rows == triee_rows(*tree),
                value == Some(rows[found@[a as int]]),
                forall|i: int| 0 <= i < found@.len() ==> rows.dom().contains(found@[i]),
                !rows.dom().contains(0),
                by_value(rows, found@),
                forall|i: int| a <= i < b ==> rows[found@[i]] == rows[found@[a as int]],
            ensures
                b < n ==> rows[found@[a as int]] < rows[found@[b as int]],
            decreases n - b,
        {
            if b >= n {
                break ;
            }
            let next: Option<u64> = triee_value(tree, found[b]);
            if next != value {
                break ;
            }
            b = b + 1;
        }
        // They come with the latest row first as a rule: taken from the
        // back, each one is placed at the end.
        let ghost head = out@;
        let mut i: usize = b;
        proof {
            let none = found@.subrange(b as int, b as int);
            lemma_multiset_commutative(head, none);
            assert(head + none =~= head);
        }
        while i > a
            invariant
                a <= i <= b <= n,
                n == found.len(),
                head.len() == a,
                out.len() == a + (b - i),
                out@.take(a as int) == head,
                forall|k: int, l: int| a <= k <= l < out.len() ==> out@[k] <= out@[l],
                forall|k: int| a <= k < out.len() ==> rows[out@[k]] == rows[found@[a as int]],
                forall|k: int| a <= k < b ==> rows[found@[k]] == rows[found@[a as int]],
                out@.to_multiset() == head.to_multiset().add(
                    found@.subrange(i as int, b as int).to_multiset(),
                ),
            decreases i,
        {
            i = i - 1;
            let ghost sofar = out@;
            let pos: usize = place(&mut out, a, found[i]);
            proof {
                broadcast use vstd::multiset::group_multiset_axioms;

                let rest = found@.subrange(i + 1, b as int);
                assert(found@.subrange(i as int, b as int) =~= rest.insert(0, found@[i as int]));
                to_multiset_insert(rest, 0, found@[i as int]);
                to_multiset_insert(sofar, pos as int, found@[i as int]);
                assert(out@.take(a as int) =~= sofar.take(a as int));
                assert(out@.to_multiset() =~= head.to_multiset().add(
                    found@.subrange(i as int, b as int).to_multiset(),
                ));
            }
        }
        proof {
            lemma_multiset_commutative(found@.take(a as int), found@.subrange(a as int, b as int));
            assert(found@.take(a as int) + found@.subrange(a as int, b as int) =~= found@.take(
                b as int,
            ));
            assert forall|k: int| 0 <= k < a implies out@[k] == head[k] by {
                assert(out@.take(a as int)[k] == out@[k]);
            }
            assert forall|k: int, l: int|
                0 <= k <= l < b && rows[out@[k]] == rows[out@[l]] implies out@[k] <= out@[l] by {
                if l < a {
                    assert(out@[k] == head[k] && out@[l] == head[l]);
                } else if k < a {
                    assert(rows[out@[k]] == rows[found@[k]]);
                    assert(rows[out@[l]] == rows[found@[a as int]]);
                }
            }
        }
        a = b;
    }
    proof {
        assert(found@.take(n as int) =~= found@);
        found@.lemma_multiset_has_no_duplicates();
        out@.lemma_multiset_has_no_duplicates_conv();
        assert forall|r: u32| out@.contains(r) <==> found@.contains(r) by {
            to_multiset_contains(out@, r);
            to_multiset_contains(found@, r);
        }
    }
    out
}

} // verus!
