use idx_file::IdxError;
use idx_file::IdxFileAvltrieeAllocator;

#[test]
fn empty_storage_holds_the_sentinel_alone() {
    let arena = IdxFileAvltrieeAllocator::new(0, 32, 1000).unwrap();
    assert_eq!(arena.capacity(), 0);
    assert_eq!(arena.file_len(), 32);
    assert_eq!(arena.unit_size(), 32);
    assert_eq!(arena.allocation_lot(), 1000);
}

#[test]
fn capacity_is_read_off_the_length() {
    let arena = IdxFileAvltrieeAllocator::new(160, 32, 10).unwrap();
    assert_eq!(arena.capacity(), 4);
    assert_eq!(arena.file_len(), 160);
}

#[test]
fn a_broken_last_slot_is_not_counted() {
    let arena = IdxFileAvltrieeAllocator::new(170, 32, 10).unwrap();
    assert_eq!(arena.capacity(), 4);
    assert_eq!(arena.file_len(), 160);
}

#[test]
fn storage_below_one_slot_is_refused() {
    assert_eq!(IdxFileAvltrieeAllocator::new(31, 32, 10), Err(IdxError::ShortStorage));
    assert_eq!(IdxFileAvltrieeAllocator::new(1, 32, 10), Err(IdxError::ShortStorage));
}

#[test]
fn storage_with_too_many_rows_is_refused() {
    assert_eq!(IdxFileAvltrieeAllocator::new(u64::MAX, 1, 1), Err(IdxError::TooLarge));
    assert_eq!(IdxFileAvltrieeAllocator::new(1 << 33, 1, 1), Err(IdxError::TooLarge));
    let full = IdxFileAvltrieeAllocator::new(1 << 32, 1, 1).unwrap();
    assert_eq!(full.capacity(), u32::MAX);
    assert_eq!(full.file_len(), 1 << 32);
}

#[test]
fn growth_rounds_up_to_the_lot() {
    let mut arena = IdxFileAvltrieeAllocator::new(0, 32, 1000).unwrap();
    assert_eq!(arena.resize(1), Ok(true));
    assert_eq!(arena.capacity(), 1000);
    assert_eq!(arena.file_len(), 32 * 1001);
    assert_eq!(arena.resize(1000), Ok(false));
    assert_eq!(arena.resize(7), Ok(false));
    assert_eq!(arena.capacity(), 1000);
    assert_eq!(arena.resize(1001), Ok(true));
    assert_eq!(arena.capacity(), 2000);
    assert_eq!(arena.file_len(), 32 * 2001);
}

#[test]
fn growth_to_a_full_lot_takes_no_further_lot() {
    let mut arena = IdxFileAvltrieeAllocator::new(0, 8, 1000).unwrap();
    assert_eq!(arena.resize(1000), Ok(true));
    assert_eq!(arena.capacity(), 1000);
    let mut other = IdxFileAvltrieeAllocator::new(0, 8, 7).unwrap();
    assert_eq!(other.resize(15), Ok(true));
    assert_eq!(other.capacity(), 21);
}

#[test]
fn growth_that_does_not_fit_changes_nothing() {
    let mut rows = IdxFileAvltrieeAllocator::new(0, 1, 2).unwrap();
    assert_eq!(rows.resize(u32::MAX), Err(IdxError::TooLarge));
    assert_eq!(rows.capacity(), 0);
    assert_eq!(rows.file_len(), 1);
    assert_eq!(rows.resize(u32::MAX - 1), Ok(true));
    assert_eq!(rows.capacity(), u32::MAX - 1);

    let mut bytes = IdxFileAvltrieeAllocator::new(0, u64::MAX / 2, 1).unwrap();
    assert_eq!(bytes.resize(1), Ok(true));
    assert_eq!(bytes.capacity(), 1);
    assert_eq!(bytes.resize(2), Err(IdxError::TooLarge));
    assert_eq!(bytes.capacity(), 1);
    assert_eq!(bytes.file_len(), (u64::MAX / 2) * 2);
}

#[test]
fn truncation_only_shrinks() {
    let mut arena = IdxFileAvltrieeAllocator::new(0, 32, 1000).unwrap();
    assert_eq!(arena.resize(1500), Ok(true));
    assert_eq!(arena.capacity(), 2000);
    assert!(arena.truncate(1500));
    assert_eq!(arena.capacity(), 1500);
    assert_eq!(arena.file_len(), 32 * 1501);
    assert!(!arena.truncate(1500));
    assert!(!arena.truncate(3000));
    assert_eq!(arena.capacity(), 1500);
    assert!(arena.truncate(0));
    assert_eq!(arena.capacity(), 0);
    assert_eq!(arena.file_len(), 32);
}

#[test]
fn slots_lie_one_after_the_other() {
    let arena = IdxFileAvltrieeAllocator::new(160, 32, 10).unwrap();
    assert_eq!(arena.get(0), Some(0));
    assert_eq!(arena.get(1), Some(32));
    assert_eq!(arena.get(4), Some(128));
    assert_eq!(arena.get(5), None);
    assert_eq!(arena.get(u32::MAX), None);
}
