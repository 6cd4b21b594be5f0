use vstd::prelude::*;

verus! {

/// Why an operation on the arena or on the index was refused.
#[derive(Clone, Copy, Debug, PartialEq, Eq, Structural)]
pub enum IdxError {
    /// The backing storage is not empty, yet shorter than the sentinel slot.
    ShortStorage,
    /// The rows asked for cannot be counted in a `u32`, or the bytes of
    /// their slots in a `u64`.
    TooLarge,
}

} // verus!
