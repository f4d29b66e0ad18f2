//! Open-share reservations and byte-range locks, and when two of them conflict.

use vstd::prelude::*;

use crate::proto::{NfsFh4, NfsLockType4};

verus! {

/// Whether a state entry records an OPEN share reservation or a byte-range lock.
#[derive(Debug, Clone, Copy, PartialEq, Eq, Structural)]
pub enum LockType {
    Open,
    ByteRange,
}

/// One piece of locking state held by a client: an open share reservation
/// or a byte-range lock.
#[derive(Debug)]
pub struct LockingState {
    pub stateid: [u8; 12],
    pub seqid: u32,
    pub client_id: u64,
    pub owner: Vec<u8>,
    pub lock_type: LockType,
    pub filehandle_id: NfsFh4,
    pub start: Option<u64>,
    pub length: Option<u64>,
    pub share_access: Option<u32>,
    pub share_deny: Option<u32>,
    /// For byte-range locks: read vs write
    pub nfs_lock_type: Option<NfsLockType4>,
}

/// The mathematical value of a [`LockingState`]: the owner taken as a byte sequence.
pub struct LockingStateView {
    pub stateid: Seq<u8>,
    pub seqid: u32,
    pub client_id: u64,
    pub owner: Seq<u8>,
    pub lock_type: LockType,
    pub filehandle_id: Seq<u8>,
    pub start: Option<u64>,
    pub length: Option<u64>,
    pub share_access: Option<u32>,
    pub share_deny: Option<u32>,
    pub nfs_lock_type: Option<NfsLockType4>,
}

impl View for LockingState {
    type V = LockingStateView;

    open spec fn view(&self) -> LockingStateView {
        LockingStateView {
            stateid: self.stateid@,
            seqid: self.seqid,
            client_id: self.client_id,
            owner: self.owner@,
            lock_type: self.lock_type,
            filehandle_id: self.filehandle_id@,
            start: self.start,
            length: self.length,
            share_access: self.share_access,
            share_deny: self.share_deny,
            nfs_lock_type: self.nfs_lock_type,
        }
    }
}

/// Copies a byte vector element by element.
pub fn copy_bytes(v: &[u8]) -> (r: Vec<u8>)
    ensures
        r@ == v@,
{
    let mut r: Vec<u8> = Vec::new();
    let mut i: usize = 0;
    while i < v.len()
        invariant
            i <= v.len(),
            r@ == v@.subrange(0, i as int),
        decreases v.len() - i,
    {
        r.push(v[i]);
        i = i + 1;
        assert(r@ =~= v@.subrange(0, i as int));
    }
    assert(r@ =~= v@);
    r
}

/// Compares two byte strings.
pub fn bytes_eq(a: &[u8], b: &[u8]) -> (r: bool)
    ensures
        r == (a@ == b@),
{
    if a.len() != b.len() {
        return false;
    }
    let mut i: usize = 0;
    while i < a.len()
        invariant
            i <= a.len(),
            a.len() == b.len(),
            forall|j: int| 0 <= j < i ==> a@[j] == b@[j],
        decreases a.len() - i,
    {
        if a[i] != b[i] {
            return false;
        }
        i = i + 1;
    }
    assert(a@ =~= b@);
    true
}

impl Clone for LockingState {
    fn clone(&self) -> (r: Self)
        ensures
            r@ == self@,
    {
        LockingState {
            stateid: self.stateid,
            seqid: self.seqid,
            client_id: self.client_id,
            owner: copy_bytes(self.owner.as_slice()),
            lock_type: self.lock_type,
            filehandle_id: self.filehandle_id,
            start: self.start,
            length: self.length,
            share_access: self.share_access,
            share_deny: self.share_deny,
            nfs_lock_type: self.nfs_lock_type,
        }
    }
}

/// Whether a lock type excludes every other lock on the range.
pub open spec fn is_write_lock(t: NfsLockType4) -> bool {
    t == NfsLockType4::WriteLt || t == NfsLockType4::WritewLt
}

/// The end (exclusive) of the range `[start, start + length)`; a length of 0
/// reaches to the end of the file, and the sum saturates at `u64::MAX`.
pub open spec fn range_end(start: u64, length: u64) -> int {
    if length == 0 {
        u64::MAX as int
    } else if start + length > u64::MAX {
        u64::MAX as int
    } else {
        start + length
    }
}

/// Whether `[s1, s1 + l1)` and `[s2, s2 + l2)` share a byte.
pub open spec fn ranges_overlap(s1: u64, l1: u64, s2: u64, l2: u64) -> bool {
    s1 < range_end(s2, l2) && s2 < range_end(s1, l1)
}

/// Whether the held state `lock` conflicts with a proposed byte-range lock:
/// both are byte-range locks, of different owners, on overlapping ranges,
/// and at least one of them is a write lock.
pub open spec fn lock_conflicts(
    lock: LockingStateView,
    offset: u64,
    length: u64,
    lock_type: NfsLockType4,
    owner: Seq<u8>,
    client_id: u64,
) -> bool {
    &&& lock.lock_type == LockType::ByteRange
    &&& lock.start is Some
    &&& lock.length is Some
    &&& !(lock.client_id == client_id && lock.owner == owner)
    &&& ranges_overlap(lock.start->0, lock.length->0, offset, length)
    &&& ((lock.nfs_lock_type is Some && is_write_lock(lock.nfs_lock_type->0)) || is_write_lock(lock_type))
}

/// Whether two held byte-range locks exclude each other.
pub open spec fn held_locks_conflict(a: LockingStateView, b: LockingStateView) -> bool {
    &&& b.lock_type == LockType::ByteRange
    &&& b.start is Some
    &&& b.length is Some
    &&& b.nfs_lock_type is Some
    &&& lock_conflicts(a, b.start->0, b.length->0, b.nfs_lock_type->0, b.owner, b.client_id)
}

fn saturating_end(start: u64, length: u64) -> (e: u64)
    ensures
        e == range_end(start, length),
{
    if length == 0 {
        u64::MAX
    } else {
        start.saturating_add(length)
    }
}

fn is_write(t: &NfsLockType4) -> (r: bool)
    ensures
        r == is_write_lock(*t),
{
    match t {
        NfsLockType4::WriteLt | NfsLockType4::WritewLt => true,
        _ => false,
    }
}

impl LockingState {
    pub fn new_shared_reservation(
        filehandle_id: NfsFh4,
        stateid: [u8; 12],
        client_id: u64,
        owner: Vec<u8>,
        share_access: u32,
        share_deny: u32,
    ) -> (r: Self)
        ensures
            r.stateid == stateid,
            r.seqid == 1,
            r.client_id == client_id,
            r.owner@ == owner@,
            r.lock_type == LockType::Open,
            r.filehandle_id == filehandle_id,
            r.start is None,
            r.length is None,
            r.share_access == Some(share_access),
            r.share_deny == Some(share_deny),
            r.nfs_lock_type is None,
    {
        LockingState {
            stateid,
            seqid: 1,
            client_id,
            owner,
            lock_type: LockType::Open,
            filehandle_id,
            start: None,
            length: None,
            share_access: Some(share_access),
            share_deny: Some(share_deny),
            nfs_lock_type: None,
        }
    }

    pub fn new_byte_range_lock(
        filehandle_id: NfsFh4,
        stateid: [u8; 12],
        client_id: u64,
        owner: Vec<u8>,
        lock_type: NfsLockType4,
        offset: u64,
        length: u64,
    ) -> (r: Self)
        ensures
            r.stateid == stateid,
            r.seqid == 1,
            r.client_id == client_id,
            r.owner@ == owner@,
            r.lock_type == LockType::ByteRange,
            r.filehandle_id == filehandle_id,
            r.start == Some(offset),
            r.length == Some(length),
            r.share_access is None,
            r.share_deny is None,
            r.nfs_lock_type == Some(lock_type),
    {
        LockingState {
            stateid,
            seqid: 1,
            client_id,
            owner,
            lock_type: LockType::ByteRange,
            filehandle_id,
            start: Some(offset),
            length: Some(length),
            share_access: None,
            share_deny: None,
            nfs_lock_type: Some(lock_type),
        }
    }

    /// Check if this byte-range lock conflicts with a proposed lock.
    /// Returns true if there IS a conflict.
    pub fn conflicts_with(
        &self,
        offset: u64,
        length: u64,
        lock_type: &NfsLockType4,
        owner: &[u8],
        client_id: u64,
    ) -> (r: bool)
        ensures
            r == lock_conflicts(self@, offset, length, *lock_type, owner@, client_id),
    {
        // Only byte-range locks can conflict
        let (my_start, my_length) = match (self.lock_type, self.start, self.length) {
            (LockType::ByteRange, Some(s), Some(l)) => (s, l),
            _ => return false,
        };

        // Same owner on same client: no conflict (lock upgrade/coalesce)
        if self.client_id == client_id && bytes_eq(self.owner.as_slice(), owner) {
            return false;
        }

        // NFS length 0 means "to end of file"
        let my_end = saturating_end(my_start, my_length);
        let req_end = saturating_end(offset, length);

        if my_start >= req_end || offset >= my_end {
            return false;  // no overlap
        }

        // Overlapping ranges: read locks don't conflict with each other
        let my_is_write = match &self.nfs_lock_type {
            Some(t) => is_write(t),
            None => false,
        };
        let req_is_write = is_write(lock_type);

        // Conflict if either is a write lock
        my_is_write || req_is_write
    }
}

/// Conflict between two held byte-range locks does not depend on which one
/// is taken as held and which as proposed.
pub proof fn lemma_held_conflict_symmetric(a: LockingStateView, b: LockingStateView)
    requires
        a.lock_type == LockType::ByteRange && a.start is Some && a.length is Some
            && a.nfs_lock_type is Some,
        b.lock_type == LockType::ByteRange && b.start is Some && b.length is Some
            && b.nfs_lock_type is Some,
    ensures
        held_locks_conflict(a, b) == held_locks_conflict(b, a),
{
}

} // verus!
