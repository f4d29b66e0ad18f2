use nfs::locking::{LockType, LockingState};
use nfs::proto::{NfsFh4, NfsLockType4};

fn make_byte_lock(
    fh_id: NfsFh4,
    client_id: u64,
    owner: &[u8],
    lock_type: NfsLockType4,
    offset: u64,
    length: u64,
) -> LockingState {
    LockingState::new_byte_range_lock(fh_id, [0u8; 12], client_id, owner.to_vec(), lock_type, offset, length)
}

#[test]
fn test_open_lock_never_conflicts() {
    let fh_id = [1u8; 26];
    let lock = LockingState::new_shared_reservation(fh_id, [0u8; 12], 1, b"owner".to_vec(), 1, 0);
    assert!(!lock.conflicts_with(0, 100, &NfsLockType4::WriteLt, b"other", 2));
}

#[test]
fn test_write_vs_write_conflict() {
    let fh_id = [1u8; 26];
    let lock = make_byte_lock(fh_id, 1, b"owner1", NfsLockType4::WriteLt, 0, 100);
    assert!(lock.conflicts_with(50, 100, &NfsLockType4::WriteLt, b"owner2", 2));
}

#[test]
fn test_read_vs_read_no_conflict() {
    let fh_id = [1u8; 26];
    let lock = make_byte_lock(fh_id, 1, b"owner1", NfsLockType4::ReadLt, 0, 100);
    assert!(!lock.conflicts_with(50, 50, &NfsLockType4::ReadLt, b"owner2", 2));
}

#[test]
fn test_read_vs_write_conflict() {
    let fh_id = [1u8; 26];
    let lock = make_byte_lock(fh_id, 1, b"owner1", NfsLockType4::ReadLt, 0, 100);
    assert!(lock.conflicts_with(50, 50, &NfsLockType4::WriteLt, b"owner2", 2));
}

#[test]
fn test_write_vs_read_conflict() {
    let fh_id = [1u8; 26];
    let lock = make_byte_lock(fh_id, 1, b"owner1", NfsLockType4::WriteLt, 0, 100);
    assert!(lock.conflicts_with(50, 50, &NfsLockType4::ReadLt, b"owner2", 2));
}

#[test]
fn test_same_owner_no_conflict() {
    let fh_id = [1u8; 26];
    let lock = make_byte_lock(fh_id, 1, b"owner1", NfsLockType4::WriteLt, 0, 100);
    assert!(!lock.conflicts_with(50, 100, &NfsLockType4::WriteLt, b"owner1", 1));
}

#[test]
fn test_non_overlapping_ranges() {
    let fh_id = [1u8; 26];
    let lock = make_byte_lock(fh_id, 1, b"owner1", NfsLockType4::WriteLt, 0, 100);
    assert!(!lock.conflicts_with(100, 100, &NfsLockType4::WriteLt, b"owner2", 2));
}

#[test]
fn test_adjacent_ranges_no_conflict() {
    let fh_id = [1u8; 26];
    let lock = make_byte_lock(fh_id, 1, b"owner1", NfsLockType4::WriteLt, 0, 50);
    assert!(!lock.conflicts_with(50, 50, &NfsLockType4::WriteLt, b"owner2", 2));
}

#[test]
fn test_zero_length_means_eof() {
    let fh_id = [1u8; 26];
    let lock = make_byte_lock(fh_id, 1, b"owner1", NfsLockType4::WriteLt, 0, 0);
    assert!(lock.conflicts_with(999999, 1, &NfsLockType4::WriteLt, b"owner2", 2));
}

#[test]
fn test_request_zero_length_means_eof() {
    let fh_id = [1u8; 26];
    let lock = make_byte_lock(fh_id, 1, b"owner1", NfsLockType4::WriteLt, 100, 50);
    assert!(lock.conflicts_with(0, 0, &NfsLockType4::WriteLt, b"owner2", 2));
}

#[test]
fn test_writew_lt_is_write() {
    let fh_id = [1u8; 26];
    let lock = make_byte_lock(fh_id, 1, b"owner1", NfsLockType4::WritewLt, 0, 100);
    assert!(lock.conflicts_with(50, 50, &NfsLockType4::ReadLt, b"owner2", 2));
}

#[test]
fn test_shared_reservation_fields() {
    let fh_id = [1u8; 26];
    let lock = LockingState::new_shared_reservation(fh_id, [5u8; 12], 42, b"myowner".to_vec(), 3, 1);
    assert_eq!(lock.client_id, 42);
    assert_eq!(lock.owner, b"myowner");
    assert_eq!(lock.share_access, Some(3));
    assert_eq!(lock.share_deny, Some(1));
    assert!(lock.start.is_none());
    assert!(lock.length.is_none());
    assert!(matches!(lock.lock_type, LockType::Open));
}

#[test]
fn test_byte_range_lock_fields() {
    let fh_id = [2u8; 26];
    let lock = LockingState::new_byte_range_lock(
        fh_id,
        [7u8; 12],
        99,
        b"lockowner".to_vec(),
        NfsLockType4::ReadLt,
        1024,
        4096,
    );
    assert_eq!(lock.client_id, 99);
    assert_eq!(lock.start, Some(1024));
    assert_eq!(lock.length, Some(4096));
    assert!(matches!(lock.lock_type, LockType::ByteRange));
    assert!(matches!(lock.nfs_lock_type, Some(NfsLockType4::ReadLt)));
    assert_eq!(lock.seqid, 1);
}

#[test]
fn lock_ranges_past_the_end_of_the_file_still_overlap() {
    let lock = make_byte_lock([3u8; 26], 1, b"a", NfsLockType4::ReadLt, u64::MAX - 10, 100);
    assert!(lock.conflicts_with(u64::MAX - 1, 1, &NfsLockType4::WriteLt, b"b", 2));
    assert!(!lock.conflicts_with(0, u64::MAX - 10, &NfsLockType4::WriteLt, b"b", 2));
}
