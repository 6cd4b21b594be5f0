//! The rows of an index as a map from row number to value, and what the
//! operations of the index make of such a map.

use vstd::prelude::*;

verus! {

/// Whether `top` is the highest row of `rows`, or 0 where there is no row.
pub open spec fn is_top_row(rows: Map<u32, u64>, top: u32) -> bool {
    &&& forall|r: u32| rows.dom().contains(r) ==> r <= top
    &&& top != 0 ==> rows.dom().contains(top)
}

/// The value of `row`, if it is held.
pub open spec fn value_of(rows: Map<u32, u64>, row: u32) -> Option<u64> {
    if rows.dom().contains(row) {
        Some(rows[row])
    } else {
        None
    }
}

/// The rows of `rows` up to `bound`, with their values.
pub open spec fn upto(rows: Map<u32, u64>, bound: u32) -> Map<u32, u64> {
    Map::new(|r: u32| rows.dom().contains(r) && r <= bound, |r: u32| rows[r])
}

/// The row that a write to `row` goes to: `row` itself, or for 0 the row
/// after `top`.
pub open spec fn target_row(top: u32, row: u32) -> nat {
    if row == 0 {
        (top + 1) as nat
    } else {
        row as nat
    }
}

/// A map without row 0 has one highest row.
pub proof fn lemma_top_row_is_unique(rows: Map<u32, u64>, a: u32, b: u32)
    requires
        !rows.dom().contains(0),
        is_top_row(rows, a),
        is_top_row(rows, b),
    ensures
        a == b,
{
}

/// A row that was written holds the value written.
pub proof fn lemma_written_value_is_read(rows: Map<u32, u64>, row: u32, value: u64)
    ensures
        value_of(rows.insert(row, value), row) == Some(value),
        forall|r: u32| r != row ==> value_of(rows.insert(row, value), r) == value_of(rows, r),
{
}

/// A row that was deleted is not held.
pub proof fn lemma_deleted_row_is_gone(rows: Map<u32, u64>, row: u32)
    ensures
        !rows.remove(row).dom().contains(row),
        value_of(rows.remove(row), row) is None,
        forall|r: u32| r != row ==> value_of(rows.remove(row), r) == value_of(rows, r),
{
}

/// Writes to different rows give the same rows in either order.
pub proof fn lemma_writes_commute(rows: Map<u32, u64>, a: u32, x: u64, b: u32, y: u64)
    requires
        a != b,
    ensures
        rows.insert(a, x).insert(b, y) == rows.insert(b, y).insert(a, x),
{
    assert(rows.insert(a, x).insert(b, y) =~= rows.insert(b, y).insert(a, x));
}

/// Where the highest row is deleted, the highest row that is left is the
/// next row below that is held, or 0 where none is.
pub proof fn lemma_top_after_delete(rows: Map<u32, u64>, top: u32, left: u32)
    requires
        !rows.dom().contains(0),
        top != 0,
        is_top_row(rows, top),
        is_top_row(rows.remove(top), left),
    ensures
        left < top,
        left != 0 ==> rows.dom().contains(left),
        forall|r: u32| left < r < top ==> !rows.dom().contains(r),
{
    assert forall|r: u32| left < r < top implies !rows.dom().contains(r) by {
        if rows.dom().contains(r) {
            assert(rows.remove(top).dom().contains(r));
        }
    }
    if left >= top {
        assert(rows.remove(top).dom().contains(left));
    }
}

} // verus!
