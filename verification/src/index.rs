//! The index: rows with values, listed in order.

use vstd::prelude::*;
use crate::allocator::Arena;
use crate::allocator::IdxFileAvltrieeAllocator;
use crate::allocator::lemma_round_up;
use crate::allocator::round_up;
use crate::error::IdxError;
use crate::order::arrange;
use crate::order::is_selection;
use crate::rows::is_top_row;
use crate::rows::target_row;
use crate::rows::upto;
use crate::rows::value_of;
use crate::triee::Triee;
use crate::triee::node_size;
use crate::triee::triee_delete;
use crate::triee::triee_new;
use crate::triee::triee_range;
use crate::triee::triee_rows;
use crate::triee::triee_update;
use crate::triee::triee_value;

verus! {

/// An index of rows by value.
///
/// Seen as a map from row number to value. Beside the rows it keeps the
/// arena that their slots take: room is made before a row is written, and
/// given back when the highest row goes.
pub struct IdxFile {
    triee: Triee,
    allocator: IdxFileAvltrieeAllocator,
    rows_count: u32,
}

impl View for IdxFile {
    type V = Map<u32, u64>;

    closed spec fn view(&self) -> Map<u32, u64> {
        triee_rows(self.triee)
    }
}

/// Gives `row`, which lies below `top`, the value `value` in a tree whose
/// rows end at `top`.
///
/// The tree takes a write only at its end, so the rows above `row` are
/// taken out first, from the top down, and put back after the write.
fn rewrite(tree: &mut Triee, top: u32, row: u32, value: u64)
    requires
        0 < row < top,
        !triee_rows(*old(tree)).dom().contains(0),
        forall|r: u32| triee_rows(*old(tree)).dom().contains(r) ==> r <= top,
    ensures
        triee_rows(*final(tree)) == triee_rows(*old(tree)).insert(row, value),
{
    let ghost before = triee_rows(*tree);
    let ghost after = before.insert(row, value);
    let mut lifted: Vec<Option<u64>> = Vec::new();
    let mut r: u32 = top;
    assert(triee_rows(*tree) =~= upto(before, r));
    while r > row
        invariant
            row <= r <= top,
            0 < row,
            lifted.len() == top - r,
            forall|p: int| 0 <= p < lifted.len() ==> lifted[p] == value_of(before, (top - p) as u32),
            triee_rows(*tree) == upto(before, r),
        decreases r,
    {
        let held: Option<u64> = triee_value(tree, r);
        triee_delete(tree, r);
        lifted.push(held);
        r = r - 1;
        assert(triee_rows(*tree) =~= upto(before, r));
    }
    triee_update(tree, row, value);
    assert(triee_rows(*tree) =~= upto(after, row));
    let mut p: usize = lifted.len();
    while p > 0
        invariant
            0 < row < top,
            p <= lifted.len(),
            lifted.len() == top - row,
            after == before.insert(row, value),
            forall|q: int| 0 <= q < lifted.len() ==> lifted[q] == value_of(before, (top - q) as u32),
            triee_rows(*tree) == upto(after, (top - p) as u32),
        decreases p,
    {
        p = p - 1;
        let at: u32 = top - (p as u32);
        match lifted[p] {
            Some(v) => {
                triee_update(tree, at, v);
            },
            None => {},
        }
        assert(triee_rows(*tree) =~= upto(after, at));
    }
    assert(triee_rows(*tree) =~= after);
}

impl IdxFile {
    /// The arena that the rows take.
    pub closed spec fn arena(&self) -> Arena {
        self.allocator@
    }

    /// The highest row, or 0 where there is no row.
    pub closed spec fn top(&self) -> u32 {
        self.rows_count
    }

    /// What holds of every index: row 0 is never held, the highest row is
    /// known, the arena reaches it, and a slot is as small as a node of the
    /// tree.
    pub open spec fn wf(&self) -> bool {
        &&& !self@.dom().contains(0)
        &&& is_top_row(self@, self.top())
        &&& self.arena().wf()
        &&& self.arena().unit_size <= 64
        &&& self.top() <= self.arena().capacity
    }

    /// What a write to `row` answers: the row written, or why it is refused.
    pub open spec fn write_result(&self, row: u32) -> Result<u32, IdxError> {
        let target = target_row(self.top(), row);
        if target > u32::MAX {
            Err(IdxError::TooLarge)
        } else if self.arena().must_grow(target) && !self.arena().fits(
            round_up(target, self.arena().allocation_lot),
        ) {
            Err(IdxError::TooLarge)
        } else {
            Ok(target as u32)
        }
    }

    /// Slots are small, so a write is refused only where the rows cannot be
    /// counted: where there is no row after the highest one, or where the
    /// arena would have to grow past the last row number.
    pub proof fn lemma_write_result(&self, row: u32)
        requires
            self.wf(),
        ensures
            self.write_result(row) is Err <==> target_row(self.top(), row) > u32::MAX || (
            self.arena().must_grow(target_row(self.top(), row)) && round_up(
                target_row(self.top(), row),
                self.arena().allocation_lot,
            ) > u32::MAX),
            self.write_result(row) is Ok ==> self.write_result(row)->Ok_0 == target_row(
                self.top(),
                row,
            ),
    {
        let grown = round_up(target_row(self.top(), row), self.arena().allocation_lot);
        if grown <= u32::MAX {
            assert(self.arena().unit_size * (grown + 1) <= u64::MAX) by (nonlinear_arith)
                requires
                    self.arena().unit_size <= 64,
                    grown <= u32::MAX,
            ;
        }
    }

    /// An index without rows, whose arena grows by `allocation_lot` rows at
    /// a time and holds the sentinel alone.
    pub fn new(allocation_lot: u32) -> (idx: IdxFile)
        requires
            allocation_lot > 0,
        ensures
            idx.wf(),
            idx@ == Map::<u32, u64>::empty(),
            idx.top() == 0,
            idx.arena().capacity == 0,
            idx.arena().allocation_lot == allocation_lot,
            0 < idx.arena().unit_size <= 64,
    {
        let triee = triee_new();
        let unit_size: u64 = node_size();
        let allocator = match IdxFileAvltrieeAllocator::new(0, unit_size, allocation_lot) {
            Ok(a) => a,
            Err(_) => { vstd::pervasive::unreached() },
        };
        IdxFile { triee, allocator, rows_count: 0 }
    }

    /// The highest row, or 0 where there is no row.
    pub fn rows_count(&self) -> (n: u32)
        ensures
            n == self.top(),
    {
        self.rows_count
    }

    /// The size in bytes of the slot that a row takes: the size of a node of
    /// the tree.
    pub fn unit_size(&self) -> (n: u64)
        ensures
            n == self.arena().unit_size,
    {
        self.allocator.unit_size()
    }

    /// The number of rows by which the arena grows.
    pub fn allocation_lot(&self) -> (n: u32)
        ensures
            n == self.arena().allocation_lot,
    {
        self.allocator.allocation_lot()
    }

    /// The number of rows that the arena has room for.
    pub fn capacity(&self) -> (n: u32)
        ensures
            n == self.arena().capacity,
    {
        self.allocator.capacity()
    }

    /// The length of the arena in bytes: the sentinel and one slot for each
    /// row that there is room for.
    pub fn file_len(&self) -> (n: u64)
        requires
            self.wf(),
        ensures
            n == self.arena().file_len(),
    {
        self.allocator.file_len()
    }

    /// The value of `row`, if it is held.
    pub fn value(&self, row: u32) -> (found: Option<u64>)
        requires
            self.wf(),
        ensures
            found == value_of(self@, row),
    {
        if row == 0 || row > self.rows_count {
            None
        } else {
            triee_value(&self.triee, row)
        }
    }

    /// Whether `row` is held.
    pub fn contains(&self, row: u32) -> (held: bool)
        requires
            self.wf(),
        ensures
            held == self@.dom().contains(row),
    {
        self.value(row).is_some()
    }

    /// Gives the row after the highest one the value `value`, and tells
    /// which row that is.
    pub fn insert(&mut self, value: u64) -> (res: Result<u32, IdxError>)
        requires
            old(self).wf(),
        ensures
            final(self).wf(),
            res == old(self).write_result(0),
            res is Ok ==> final(self)@ == old(self)@.insert(res->Ok_0, value),
            res is Ok ==> final(self).arena() == old(self).arena().grown(res->Ok_0 as nat),
            res is Ok ==> final(self).top() == (if res->Ok_0 > old(self).top() {
                res->Ok_0
            } else {
                old(self).top()
            }),
            res is Err ==> final(self)@ == old(self)@ && final(self).arena() == old(self).arena(),
            res is Err ==> final(self).top() == old(self).top(),
    {
        self.update(0, value)
    }

    /// Gives `row` the value `value`, whether it is held or not, and tells
    /// which row was written. Row 0 stands for the row after the highest one.
    ///
    /// Room for the row is made first. Where there is no such row, or no
    /// room can be made, nothing changes. A write at or above the highest
    /// row goes straight to the tree; one below it moves the rows above out
    /// of the tree and back in, and takes that much longer.
    pub fn update(&mut self, row: u32, value: u64) -> (res: Result<u32, IdxError>)
        requires
            old(self).wf(),
        ensures
            final(self).wf(),
            res == old(self).write_result(row),
            res is Ok ==> final(self)@ == old(self)@.insert(res->Ok_0, value),
            res is Ok ==> final(self).arena() == old(self).arena().grown(res->Ok_0 as nat),
            res is Ok ==> final(self).top() == (if res->Ok_0 > old(self).top() {
                res->Ok_0
            } else {
                old(self).top()
            }),
            res is Err ==> final(self)@ == old(self)@ && final(self).arena() == old(self).arena(),
            res is Err ==> final(self).top() == old(self).top(),
    {
        let target: u32 = if row == 0 {
            if self.rows_count == 0xffff_ffff {
                return Err(IdxError::TooLarge);
            }
            self.rows_count + 1
        } else {
            row
        };
        proof {
            lemma_round_up(target as nat, self.arena().allocation_lot);
        }
        match self.allocator.resize(target) {
            Ok(_) => {},
            Err(e) => {
                return Err(e);
            },
        }
        if target >= self.rows_count {
            triee_update(&mut self.triee, target, value);
            self.rows_count = target;
        } else {
            let held: Option<u64> = triee_value(&self.triee, target);
            if held != Some(value) {
                rewrite(&mut self.triee, self.rows_count, target, value);
            } else {
                assert(self@ =~= old(self)@.insert(target, value));
            }
        }
        Ok(target)
    }

    /// Takes `row` out. A row that is not held changes nothing.
    ///
    /// Where the highest row goes, the arena is cut back to the highest row
    /// that is left.
    pub fn delete(&mut self, row: u32)
        requires
            old(self).wf(),
        ensures
            final(self).wf(),
            final(self)@ == old(self)@.remove(row),
            final(self).arena() == (if old(self)@.dom().contains(row) && row == old(self).top() {
                old(self).arena().truncated(final(self).top() as nat)
            } else {
                old(self).arena()
            }),
            final(self).top() <= old(self).top(),
            !(old(self)@.dom().contains(row) && row == old(self).top()) ==> final(self).top()
                == old(self).top(),
    {
        if row == 0 || row > self.rows_count {
            assert(self@ =~= old(self)@.remove(row));
            return ;
        }
        let held: Option<u64> = triee_value(&self.triee, row);
        if held.is_none() {
            assert(self@ =~= old(self)@.remove(row));
            return ;
        }
        triee_delete(&mut self.triee, row);
        if row == self.rows_count {
            let mut top: u32 = row - 1;
            while top > 0 && triee_value(&self.triee, top).is_none()
                invariant
                    forall|r: u32| triee_rows(self.triee).dom().contains(r) ==> r <= top,
                    !triee_rows(self.triee).dom().contains(0),
                decreases top,
            {
                top = top - 1;
            }
            self.rows_count = top;
            self.allocator.truncate(top);
        }
    }

    /// The rows with a value in `lo..=hi`, in order.
    fn select(&self, lo: u64, hi: u64) -> (listed: Vec<u32>)
        requires
            self.wf(),
        ensures
            is_selection(self@, listed@, lo, hi),
    {
        let found: Vec<u32> = triee_range(&self.triee, lo, hi);
        assert forall|i: int| 0 <= i < found@.len() implies self@.dom().contains(found@[i]) by {
            assert(found@.contains(found@[i]));
        }
        arrange(&self.triee, found)
    }

    /// All rows, in order: by value, and by row number among rows of one
    /// value.
    pub fn iter(&self) -> (listed: Vec<u32>)
        requires
            self.wf(),
        ensures
            is_selection(self@, listed@, 0, u64::MAX),
    {
        self.select(0, 0xffff_ffff_ffff_ffff)
    }

    /// The rows with the value `value`, in order.
    pub fn select_by_value(&self, value: u64) -> (listed: Vec<u32>)
        requires
            self.wf(),
        ensures
            is_selection(self@, listed@, value, value),
    {
        self.select(value, value)
    }

    /// The rows with a value of `lo` or more, in order.
    pub fn select_by_value_from(&self, lo: u64) -> (listed: Vec<u32>)
        requires
            self.wf(),
        ensures
            is_selection(self@, listed@, lo, u64::MAX),
    {
        self.select(lo, 0xffff_ffff_ffff_ffff)
    }

    /// The rows with a value of `hi` or less, in order.
    pub fn select_by_value_to(&self, hi: u64) -> (listed: Vec<u32>)
        requires
            self.wf(),
        ensures
            is_selection(self@, listed@, 0, hi),
    {
        self.select(0, hi)
    }

    /// The rows with a value in `lo..=hi`, in order; none where `lo` is
    /// above `hi`.
    pub fn select_by_value_from_to(&self, lo: u64, hi: u64) -> (listed: Vec<u32>)
        requires
            self.wf(),
        ensures
            is_selection(self@, listed@, lo, hi),
    {
        self.select(lo, hi)
    }
}

} // verus!
