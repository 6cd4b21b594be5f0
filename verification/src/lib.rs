//! An ordered index over rows.
//!
//! Every row holds one `u64` value and is addressed by a stable, 1-based row
//! number; row 0 stands for "no row". The rows are kept sorted by value in an
//! `avltriee` tree, and the slots they occupy follow the sizing rules of a
//! growable record arena: one sentinel slot, then one slot per row, grown in
//! lots and cut back when the highest rows are deleted.

pub mod allocator;
pub mod error;
pub mod index;
pub mod order;
pub mod rows;
pub mod triee;

pub use allocator::IdxFileAvltrieeAllocator;
pub use error::IdxError;
pub use index::IdxFile;
