//! Sizing of the record arena.
//!
//! The arena is a run of fixed-size slots: slot 0 is the sentinel, slots
//! `1..=capacity` hold the rows. This module decides how many slots there
//! are and where each one lies; whoever owns the storage applies the
//! lengths it gives.

use vstd::prelude::*;
use vstd::arithmetic::div_mod::lemma_fundamental_div_mod;
use vstd::arithmetic::mul::lemma_mul_is_commutative;
use crate::error::IdxError;

verus! {

/// What an arena is, as numbers: the size of a slot in bytes, the growth
/// step in rows, and the number of rows that can be addressed.
pub struct Arena {
    pub unit_size: nat,
    pub allocation_lot: nat,
    pub capacity: nat,
}

/// The least multiple of `lot` that is not below `rows`.
pub open spec fn round_up(rows: nat, lot: nat) -> nat
    recommends
        lot > 0,
{
    (((rows + lot - 1) / (lot as int)) * lot) as nat
}

/// The number of rows that storage of `len` bytes holds beside the sentinel.
/// Empty storage counts as holding the sentinel alone.
pub open spec fn rows_in(len: nat, unit_size: nat) -> int
    recommends
        unit_size > 0,
{
    if len == 0 {
        0
    } else {
        len as int / unit_size as int - 1
    }
}

impl Arena {
    /// A slot has a size, growth has a step, and the bytes can be counted.
    pub open spec fn wf(self) -> bool {
        &&& self.unit_size > 0
        &&& self.allocation_lot > 0
        &&& self.capacity <= u32::MAX
        &&& self.file_len() <= u64::MAX
    }

    /// The length of the storage in bytes: the sentinel and one slot per row.
    pub open spec fn file_len(self) -> nat {
        self.unit_size * (self.capacity + 1)
    }

    /// The same arena with another number of rows.
    pub open spec fn with_capacity(self, capacity: nat) -> Arena {
        Arena { capacity, ..self }
    }

    /// Whether an arena of `capacity` rows can be described at all.
    pub open spec fn fits(self, capacity: nat) -> bool {
        capacity <= u32::MAX && self.with_capacity(capacity).file_len() <= u64::MAX
    }

    /// Whether making room for `min_rows` rows changes the arena.
    pub open spec fn must_grow(self, min_rows: nat) -> bool {
        min_rows > self.capacity
    }

    /// The arena after room was made for `min_rows` rows.
    pub open spec fn grown(self, min_rows: nat) -> Arena {
        if self.must_grow(min_rows) {
            self.with_capacity(round_up(min_rows, self.allocation_lot))
        } else {
            self
        }
    }

    /// The arena after everything above `rows` was given back.
    pub open spec fn truncated(self, rows: nat) -> Arena {
        if rows < self.capacity {
            self.with_capacity(rows)
        } else {
            self
        }
    }

    /// The byte offset of a row's slot, for the sentinel and the rows in reach.
    pub open spec fn slot(self, row: nat) -> Option<nat> {
        if row <= self.capacity {
            Some(self.unit_size * row)
        } else {
            None
        }
    }
}

/// The bookkeeping of a record arena: slot size, growth step and capacity.
#[derive(Clone, Copy, Debug, PartialEq, Eq, Structural)]
pub struct IdxFileAvltrieeAllocator {
    unit_size: u64,
    allocation_lot: u32,
    rows_capacity: u32,
}

impl View for IdxFileAvltrieeAllocator {
    type V = Arena;

    closed spec fn view(&self) -> Arena {
        Arena {
            unit_size: self.unit_size as nat,
            allocation_lot: self.allocation_lot as nat,
            capacity: self.rows_capacity as nat,
        }
    }
}

/// `round_up` gives a multiple of the lot that is at least `rows` and less
/// than one lot above it.
pub proof fn lemma_round_up(rows: nat, lot: nat)
    requires
        lot > 0,
    ensures
        round_up(rows, lot) % lot == 0,
        rows <= round_up(rows, lot) < rows + lot,
{
    let n: int = rows + lot - 1;
    let d: int = lot as int;
    let q: int = n / d;
    lemma_fundamental_div_mod(n, d);
    lemma_mul_is_commutative(d, q);
    assert(q * d >= 0) by (nonlinear_arith)
        requires
            q * d + n % d >= 0,
            n % d < d,
            d > 0,
    ;
    assert((q * d) % d == 0) by (nonlinear_arith)
        requires
            d > 0,
    ;
}

/// No multiple of the lot lies between `rows` and `round_up(rows, lot)`:
/// every multiple `m` that is at least `rows` is at least the rounded value.
pub proof fn lemma_round_up_is_least(rows: nat, lot: nat, m: nat)
    requires
        lot > 0,
        m % lot == 0,
        rows <= m,
    ensures
        round_up(rows, lot) <= m,
{
    let n: int = rows + lot - 1;
    let d: int = lot as int;
    let q: int = n / d;
    let k: int = m as int / d;
    lemma_fundamental_div_mod(n, d);
    lemma_mul_is_commutative(d, q);
    lemma_fundamental_div_mod(m as int, d);
    lemma_mul_is_commutative(d, k);
    lemma_round_up(rows, lot);
    if k < q {
        assert(k * d + d <= q * d) by (nonlinear_arith)
            requires
                k + 1 <= q,
                d > 0,
        ;
    } else {
        assert(q * d <= k * d) by (nonlinear_arith)
            requires
                q <= k,
                d > 0,
        ;
    }
}

/// An arena that is cut back to `rows` rows takes the sentinel and that many
/// slots, and no byte more.
pub proof fn lemma_truncated_len(arena: Arena, rows: nat)
    requires
        arena.wf(),
        rows <= arena.capacity,
    ensures
        arena.truncated(rows).wf(),
        arena.truncated(rows).capacity == rows,
        arena.truncated(rows).file_len() == arena.unit_size * (rows + 1),
{
    assert(arena.unit_size * (rows + 1) <= arena.unit_size * (arena.capacity + 1))
        by (nonlinear_arith)
        requires
            rows <= arena.capacity,
    ;
}

/// An arena that grew reaches the row it grew for, with less than one lot
/// to spare.
pub proof fn lemma_grown_capacity(arena: Arena, min_rows: nat)
    requires
        arena.wf(),
        arena.must_grow(min_rows),
    ensures
        min_rows <= arena.grown(min_rows).capacity < min_rows + arena.allocation_lot,
        arena.grown(min_rows).capacity % arena.allocation_lot == 0,
{
    lemma_round_up(min_rows, arena.allocation_lot);
}

impl IdxFileAvltrieeAllocator {
    /// Reads the arena off storage that is `file_len` bytes long.
    ///
    /// Empty storage becomes an arena of the sentinel alone, so the storage
    /// has to be brought to `file_len()` before it is used. Storage that
    /// holds a part of the sentinel only is refused, and so is storage with
    /// more rows than a `u32` counts.
    pub fn new(file_len: u64, unit_size: u64, allocation_lot: u32) -> (res: Result<
        Self,
        IdxError,
    >)
        requires
            unit_size > 0,
            allocation_lot > 0,
        ensures
            res is Ok <==> 0 <= rows_in(file_len as nat, unit_size as nat) <= u32::MAX,
            res is Ok ==> res->Ok_0@.wf() && res->Ok_0@ == (Arena {
                unit_size: unit_size as nat,
                allocation_lot: allocation_lot as nat,
                capacity: rows_in(file_len as nat, unit_size as nat) as nat,
            }),
            res is Err ==> res->Err_0 == (if rows_in(file_len as nat, unit_size as nat) < 0 {
                IdxError::ShortStorage
            } else {
                IdxError::TooLarge
            }),
    {
        if file_len == 0 {
            assert(unit_size as nat * 1 == unit_size as nat) by (nonlinear_arith);
            return Ok(IdxFileAvltrieeAllocator { unit_size, allocation_lot, rows_capacity: 0 });
        }
        let slots: u64 = file_len / unit_size;
        if slots == 0 {
            return Err(IdxError::ShortStorage);
        }
        let rows: u64 = slots - 1;
        if rows > 0xffff_ffff {
            return Err(IdxError::TooLarge);
        }
        proof {
            lemma_fundamental_div_mod(file_len as int, unit_size as int);
            assert(unit_size as nat * (rows as nat + 1) <= file_len as nat) by (nonlinear_arith)
                requires
                    file_len as int == unit_size as int * (rows as int + 1) + (file_len as int % (
                    unit_size as int)),
                    file_len as int % (unit_size as int) >= 0,
            ;
        }
        Ok(IdxFileAvltrieeAllocator { unit_size, allocation_lot, rows_capacity: rows as u32 })
    }

    /// The size of one slot in bytes.
    pub fn unit_size(&self) -> (n: u64)
        ensures
            n == self@.unit_size,
    {
        self.unit_size
    }

    /// The growth step in rows.
    pub fn allocation_lot(&self) -> (n: u32)
        ensures
            n == self@.allocation_lot,
    {
        self.allocation_lot
    }

    /// The number of rows that can be addressed, the sentinel not counted.
    pub fn capacity(&self) -> (n: u32)
        ensures
            n == self@.capacity,
    {
        self.rows_capacity
    }

    /// The length in bytes that the storage must have.
    pub fn file_len(&self) -> (n: u64)
        requires
            self@.wf(),
        ensures
            n == self@.file_len(),
    {
        let slots: u64 = self.rows_capacity as u64 + 1;
        self.unit_size * slots
    }

    /// Makes room for `min_rows` rows.
    ///
    /// An arena that already reaches that far is left alone. Otherwise the
    /// capacity becomes the least multiple of the growth step that holds
    /// `min_rows`, and the storage has to be brought to `file_len()`. Where
    /// that capacity cannot be described the arena stays as it was.
    pub fn resize(&mut self, min_rows: u32) -> (res: Result<bool, IdxError>)
        requires
            old(self)@.wf(),
        ensures
            final(self)@.wf(),
            res is Err <==> old(self)@.must_grow(min_rows as nat) && !old(self)@.fits(
                round_up(min_rows as nat, old(self)@.allocation_lot),
            ),
            res is Err ==> res->Err_0 == IdxError::TooLarge && final(self)@ == old(self)@,
            res is Ok ==> res->Ok_0 == old(self)@.must_grow(min_rows as nat) && final(self)@
                == old(self)@.grown(min_rows as nat),
    {
        if min_rows <= self.rows_capacity {
            return Ok(false);
        }
        let lot: u64 = self.allocation_lot as u64;
        let lots: u64 = (min_rows as u64 + lot - 1) / lot;
        proof {
            lemma_round_up(min_rows as nat, lot as nat);
        }
        let rows: u64 = lots * lot;
        if rows > 0xffff_ffff {
            return Err(IdxError::TooLarge);
        }
        match self.unit_size.checked_mul(rows + 1) {
            Some(_) => {
                self.rows_capacity = rows as u32;
                Ok(true)
            },
            None => Err(IdxError::TooLarge),
        }
    }

    /// Gives back every slot above `rows`; an arena that ends at or below
    /// `rows` is left alone. The storage has to be brought to `file_len()`.
    pub fn truncate(&mut self, rows: u32) -> (cut: bool)
        requires
            old(self)@.wf(),
        ensures
            final(self)@.wf(),
            final(self)@ == old(self)@.truncated(rows as nat),
            cut == (rows < old(self)@.capacity),
    {
        if rows < self.rows_capacity {
            proof {
                assert(self.unit_size as nat * (rows as nat + 1) <= self.unit_size as nat * (
                self.rows_capacity as nat + 1)) by (nonlinear_arith)
                    requires
                        rows < self.rows_capacity,
                ;
            }
            self.rows_capacity = rows;
            true
        } else {
            false
        }
    }

    /// The byte offset of the slot of `row`, where the arena reaches it:
    /// row 0 is the sentinel, at offset 0.
    pub fn get(&self, row: u32) -> (offset: Option<u64>)
        requires
            self@.wf(),
        ensures
            offset is Some <==> self@.slot(row as nat) is Some,
            offset is Some ==> self@.slot(row as nat) == Some(offset->Some_0 as nat),
    {
        if row <= self.rows_capacity {
            proof {
                assert(self.unit_size as nat * row as nat <= self.unit_size as nat * (
                self.rows_capacity as nat + 1)) by (nonlinear_arith)
                    requires
                        row <= self.rows_capacity,
                ;
            }
            Some(self.unit_size * (row as u64))
        } else {
            None
        }
    }
}

} // verus!
