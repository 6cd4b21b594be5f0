//! The tree that keeps the rows sorted.
//!
//! The tree is `avltriee`'s: a balanced search tree whose nodes are
//! addressed by row number, with rows of one value chained to a single node
//! of the tree. Nothing in this module is proved. Each function states what
//! the call it makes does to the rows of the tree, as that crate's source
//! shows it, and the rest of the library is verified against these
//! statements.

use vstd::prelude::*;
use avltriee::AvltrieeSearch;
use avltriee::AvltrieeUpdate;
use crate::order::by_value;
use crate::order::lists_range;

verus! {

/// An `avltriee::Avltriee<u64>` on its default, in-memory allocator.
///
/// Held in a struct of this crate because the allocator's type cannot be
/// named from outside `avltriee`.
#[verifier::external_body]
pub struct Triee {
    inner: avltriee::Avltriee<u64>,
}

/// The rows of a tree and their values: the rows for which
/// `Avltriee::node` answers, each with the value stored in its node.
pub uninterp spec fn triee_rows(t: Triee) -> Map<u32, u64>;

/// `Avltriee::new`: a tree without rows.
#[verifier::external_body]
pub(crate) fn triee_new() -> (tree: Triee)
    ensures
        triee_rows(tree) =~= Map::empty(),
{
    Triee { inner: avltriee::Avltriee::new() }
}

/// `AvltrieeSearch::value`: the value of a row, `None` for a row that the
/// tree does not hold, however large.
#[verifier::external_body]
pub(crate) fn triee_value(tree: &Triee, row: u32) -> (found: Option<u64>)
    requires
        row != 0,
    ensures
        found == (if triee_rows(*tree).dom().contains(row) {
            Some(triee_rows(*tree)[row])
        } else {
            None
        }),
{
    tree.inner.value(std::num::NonZeroU32::new(row).unwrap()).copied()
}

/// `AvltrieeUpdate::update`: gives `row` the value `value`, whether the tree
/// held the row or not; the other rows keep their values.
///
/// The call sizes the tree's storage to end at `row`, so it is made only
/// where the tree holds no row above `row`.
#[verifier::external_body]
pub(crate) fn triee_update(tree: &mut Triee, row: u32, value: u64)
    requires
        row != 0,
        forall|r: u32| triee_rows(*old(tree)).dom().contains(r) ==> r <= row,
    ensures
        triee_rows(*final(tree)) == triee_rows(*old(tree)).insert(row, value),
{
    tree.inner.update(std::num::NonZeroU32::new(row).unwrap(), &value)
}

/// `AvltrieeUpdate::delete`: takes `row` out of the tree; the other rows keep
/// their values. A row that the tree does not hold changes nothing.
#[verifier::external_body]
pub(crate) fn triee_delete(tree: &mut Triee, row: u32)
    requires
        row != 0,
    ensures
        triee_rows(*final(tree)) == triee_rows(*old(tree)).remove(row),
{
    tree.inner.delete(std::num::NonZeroU32::new(row).unwrap())
}

/// `Avltriee::iter_range`, collected: the rows whose value lies in
/// `lo..=hi`, each once, in the order of their values. The order among rows
/// of one value is the tree's own and is not stated.
#[verifier::external_body]
pub(crate) fn triee_range(tree: &Triee, lo: u64, hi: u64) -> (found: Vec<u32>)
    ensures
        found@.no_duplicates(),
        lists_range(triee_rows(*tree), found@, lo, hi),
        by_value(triee_rows(*tree), found@),
{
    tree.inner.iter_range(&lo, &hi).map(|row| row.get()).collect()
}

/// `std::mem::size_of` of `avltriee::AvltrieeNode<u64>`: the bytes that one
/// node takes in an arena.
///
/// The number is the compiler's. A node holds four row links of four bytes
/// each, a height of one byte and the value of eight: 25 bytes, and what it
/// takes to align them. So it is not zero, and 64 is well above it.
#[verifier::external_body]
pub(crate) fn node_size() -> (bytes: u64)
    ensures
        0 < bytes <= 64,
{
    std::mem::size_of::<avltriee::AvltrieeNode<u64>>() as u64
}

} // verus!
