//! The state that a file manager keeps for one export: filehandles, open and
//! lock state, and the identifiers it hands out.

use vstd::prelude::*;
use vstd::string::StrSliceExecFns;

use crate::locking::{
    bytes_eq, copy_bytes, held_locks_conflict, lock_conflicts, LockType, LockingState,
    LockingStateView,
};
use crate::attrs::{attr_answer, attr_served, collect_attrs, AttrContext};
use crate::export_manager::str_eq;
use crate::filehandle::{fallback_view, real_view, recorded_path, Filehandle, FilehandleView, RealMeta};
use crate::proto::{FileAttr, FileAttrValue, NfsFh4, NfsLockType4, NfsStat4, Stateid4};

verus! {

/// Outcome of a LOCK request.
#[derive(Debug)]
pub enum LockResult {
    Success(Stateid4),
    Denied { offset: u64, length: u64, lock_type: NfsLockType4, owner_clientid: u64, owner: Vec<u8> },
    Error(NfsStat4),
}

/// Outcome of a LOCKU request.
#[derive(Debug)]
pub enum UnlockResult {
    Success(Stateid4),
    Error(NfsStat4),
}

/// Outcome of a LOCKT request.
#[derive(Debug)]
pub enum TestLockResult {
    Success,
    Denied { offset: u64, length: u64, lock_type: NfsLockType4, owner_clientid: u64, owner: Vec<u8> },
}

/// Who asks for a byte-range lock: a new lock owner coming from an open
/// owner, or the holder of an existing lock stateid.
#[derive(Debug)]
pub enum Locker {
    OpenOwner { clientid: u64, owner: Vec<u8> },
    LockOwner { lock_stateid: Stateid4 },
}

/// The client and owner a LOCK is made for: those of the new lock owner, or
/// client 0 and the bytes of the existing lock stateid.
pub fn locker_identity(locker: &Locker) -> (r: (u64, Vec<u8>))
    ensures
        match locker {
            Locker::OpenOwner { clientid, owner } => r.0 == *clientid && r.1@ == owner@,
            Locker::LockOwner { lock_stateid } => r.0 == 0 && r.1@ == lock_stateid.other@,
        },
{
    match locker {
        Locker::OpenOwner { clientid, owner } => (*clientid, copy_bytes(owner.as_slice())),
        Locker::LockOwner { lock_stateid } => (0, copy_bytes(lock_stateid.other.as_slice())),
    }
}

/// The status a LOCK reply carries: OK when granted, DENIED when another
/// lock conflicts, else the error.
pub fn lock_result_status(r: &LockResult) -> (s: NfsStat4)
    ensures
        s == (match r {
            LockResult::Success(_) => NfsStat4::Nfs4Ok,
            LockResult::Denied { .. } => NfsStat4::Nfs4errDenied,
            LockResult::Error(e) => *e,
        }),
{
    match r {
        LockResult::Success(_) => NfsStat4::Nfs4Ok,
        LockResult::Denied { .. } => NfsStat4::Nfs4errDenied,
        LockResult::Error(e) => *e,
    }
}

/// The twelve stateid bytes for state number `n`: four zero bytes, then `n`
/// big-endian.
pub open spec fn stateid_seq(n: u64) -> Seq<u8> {
    seq![
        0u8, 0u8, 0u8, 0u8,
        (n >> 56u64) as u8, (n >> 48u64) as u8, (n >> 40u64) as u8, (n >> 32u64) as u8,
        (n >> 24u64) as u8, (n >> 16u64) as u8, (n >> 8u64) as u8, n as u8,
    ]
}

/// The state number that the last eight bytes of a stateid encode, big-endian.
pub open spec fn stateid_number(s: Seq<u8>) -> u64 {
    ((s[4] as u64) << 56u64) | ((s[5] as u64) << 48u64) | ((s[6] as u64) << 40u64)
        | ((s[7] as u64) << 32u64) | ((s[8] as u64) << 24u64) | ((s[9] as u64) << 16u64)
        | ((s[10] as u64) << 8u64) | (s[11] as u64)
}

proof fn lemma_be_bytes_roundtrip(n: u64)
    ensures
        ((((n >> 56u64) as u8) as u64) << 56u64) | ((((n >> 48u64) as u8) as u64) << 48u64)
            | ((((n >> 40u64) as u8) as u64) << 40u64) | ((((n >> 32u64) as u8) as u64) << 32u64)
            | ((((n >> 24u64) as u8) as u64) << 24u64) | ((((n >> 16u64) as u8) as u64) << 16u64)
            | ((((n >> 8u64) as u8) as u64) << 8u64) | ((n as u8) as u64) == n,
{
    assert(((((n >> 56u64) as u8) as u64) << 56u64) | ((((n >> 48u64) as u8) as u64) << 48u64)
            | ((((n >> 40u64) as u8) as u64) << 40u64) | ((((n >> 32u64) as u8) as u64) << 32u64)
            | ((((n >> 24u64) as u8) as u64) << 24u64) | ((((n >> 16u64) as u8) as u64) << 16u64)
            | ((((n >> 8u64) as u8) as u64) << 8u64) | ((n as u8) as u64) == n) by (bit_vector);
}

/// Decoding the stateid of state number `n` gives back `n`.
pub proof fn lemma_stateid_number(n: u64)
    ensures
        stateid_number(stateid_seq(n)) == n,
{
    lemma_be_bytes_roundtrip(n);
}

/// The views of a table of locking state.
pub open spec fn locks_view(v: Seq<LockingState>) -> Seq<LockingStateView> {
    v.map_values(|l: LockingState| l@)
}

/// Well-formedness of a lock table whose next state number is `next`:
/// every stateid encodes a state number below `next`, no two entries share a
/// stateid, every sequence number can still be advanced, and no two byte-range
/// locks on one file exclude each other.
pub open spec fn lock_table_wf(locks: Seq<LockingStateView>, next: u64) -> bool {
    &&& forall|i: int| 0 <= i < locks.len() ==> {
        &&& #[trigger] locks[i].stateid == stateid_seq(stateid_number(locks[i].stateid))
        &&& stateid_number(locks[i].stateid) < next
        &&& locks[i].seqid < u32::MAX
    }
    &&& forall|i: int, j: int|
        #![trigger locks[i], locks[j]]
        0 <= i < locks.len() && 0 <= j < locks.len() && i != j ==> locks[i].stateid != locks[j].stateid
    &&& forall|i: int, j: int|
        #![trigger locks[i], locks[j]]
        0 <= i < locks.len() && 0 <= j < locks.len() && locks[i].filehandle_id == locks[j].filehandle_id
            ==> !held_locks_conflict(locks[i], locks[j])
}

/// Whether entry `l` lies on file `fh` and conflicts with the proposed lock.
pub open spec fn blocks_request(
    l: LockingStateView,
    fh: Seq<u8>,
    offset: u64,
    length: u64,
    lock_type: NfsLockType4,
    owner: Seq<u8>,
    client_id: u64,
) -> bool {
    l.filehandle_id == fh && lock_conflicts(l, offset, length, lock_type, owner, client_id)
}

/// The view of the byte-range lock that a granted LOCK request adds.
pub open spec fn granted_lock_view(
    fh: Seq<u8>,
    stateid: Seq<u8>,
    client_id: u64,
    owner: Seq<u8>,
    lock_type: NfsLockType4,
    offset: u64,
    length: u64,
) -> LockingStateView {
    LockingStateView {
        stateid,
        seqid: 1,
        client_id,
        owner,
        lock_type: LockType::ByteRange,
        filehandle_id: fh,
        start: Some(offset),
        length: Some(length),
        share_access: None,
        share_deny: None,
        nfs_lock_type: Some(lock_type),
    }
}

/// Whether the denial fields describe entry `l`: its range (0 where absent),
/// its lock type (read where absent), its client and owner.
pub open spec fn denial_describes(
    l: LockingStateView,
    offset: u64,
    length: u64,
    lock_type: NfsLockType4,
    owner_clientid: u64,
    owner: Seq<u8>,
) -> bool {
    &&& offset == (match l.start { Some(s) => s, None => 0 })
    &&& length == (match l.length { Some(s) => s, None => 0 })
    &&& lock_type == (match l.nfs_lock_type { Some(t) => t, None => NfsLockType4::ReadLt })
    &&& owner_clientid == l.client_id
    &&& owner == l.owner
}

/// Whether every entry of `sub` is an entry of `locks` below index `bound`.
pub open spec fn drawn_from(sub: Seq<LockingStateView>, locks: Seq<LockingStateView>, bound: int) -> bool {
    forall|k: int| 0 <= k < sub.len() ==> exists|m: int| 0 <= m < bound && #[trigger] sub[k] == locks[m]
}

/// Compares two filehandles byte by byte.
pub fn fh_eq(a: &NfsFh4, b: &NfsFh4) -> (r: bool)
    ensures
        r == (a@ == b@),
{
    let mut i: usize = 0;
    while i < 26
        invariant
            i <= 26,
            a@.len() == 26,
            b@.len() == 26,
            forall|j: int| 0 <= j < i ==> a@[j] == b@[j],
        decreases 26 - i,
    {
        if a[i] != b[i] {
            return false;
        }
        i = i + 1;
    }
    assert(a@ =~= b@);
    true
}

/// Compares two stateids byte by byte.
pub fn stateid_eq(a: &[u8; 12], b: &[u8; 12]) -> (r: bool)
    ensures
        r == (a@ == b@),
{
    let mut i: usize = 0;
    while i < 12
        invariant
            i <= 12,
            a@.len() == 12,
            b@.len() == 12,
            forall|j: int| 0 <= j < i ==> a@[j] == b@[j],
        decreases 12 - i,
    {
        if a[i] != b[i] {
            return false;
        }
        i = i + 1;
    }
    assert(a@ =~= b@);
    true
}

/// Well-formedness of a filehandle table: every entry records a path, and no
/// two entries share an id or a path.
pub open spec fn fhdb_wf(db: Seq<FilehandleView>) -> bool {
    &&& forall|i: int| 0 <= i < db.len() ==> (#[trigger] db[i]).path.len() > 0
    &&& forall|i: int, j: int|
        #![trigger db[i], db[j]]
        0 <= i < db.len() && 0 <= j < db.len() && i != j ==> db[i].id != db[j].id && db[i].path
            != db[j].path
}

/// The eight bytes of `n`, big-endian.
pub open spec fn be64(n: u64) -> Seq<u8> {
    seq![
        (n >> 56u64) as u8, (n >> 48u64) as u8, (n >> 40u64) as u8, (n >> 32u64) as u8,
        (n >> 24u64) as u8, (n >> 16u64) as u8, (n >> 8u64) as u8, n as u8,
    ]
}

/// The sixteen bytes of `n`, big-endian.
pub open spec fn be128(n: u128) -> Seq<u8> {
    be64((n >> 64u128) as u64) + be64(n as u64)
}

/// A persistent filehandle for inode `ino` of device `dev`: version byte 1, a
/// reserved zero, device and inode big-endian, then zero padding.
pub open spec fn inode_fh(dev: u64, ino: u64) -> Seq<u8> {
    seq![0x01u8, 0u8] + be64(dev) + be64(ino) + seq![0u8, 0u8, 0u8, 0u8, 0u8, 0u8, 0u8, 0u8]
}

/// A volatile filehandle: version byte 0x80, a reserved zero, the boot time
/// and a sequence number, big-endian.
pub open spec fn volatile_fh(boot_time: u64, seq_no: u128) -> Seq<u8> {
    seq![0x80u8, 0u8] + be64(boot_time) + be128(seq_no)
}

fn be64_bytes(n: u64) -> (r: [u8; 8])
    ensures
        r@ == be64(n),
{
    let r = [
        (n >> 56) as u8, (n >> 48) as u8, (n >> 40) as u8, (n >> 32) as u8,
        (n >> 24) as u8, (n >> 16) as u8, (n >> 8) as u8, n as u8,
    ];
    assert(r@ =~= be64(n));
    r
}

fn write_bytes_at(id: &mut [u8; 26], at: usize, bytes: &[u8; 8])
    requires
        at + 8 <= 26,
    ensures
        final(id)@ == old(id)@.subrange(0, at as int) + bytes@ + old(id)@.subrange(at + 8, 26),
{
    let ghost orig = id@;
    let mut k: usize = 0;
    while k < 8
        invariant
            k <= 8,
            at + 8 <= 26,
            id@.len() == 26,
            forall|j: int| 0 <= j < at ==> id@[j] == orig[j],
            forall|j: int| at + 8 <= j < 26 ==> id@[j] == orig[j],
            forall|j: int| 0 <= j < k ==> id@[at + j] == bytes@[j],
            forall|j: int| at + k <= j < at + 8 ==> id@[j] == orig[j],
        decreases 8 - k,
    {
        id[at + k] = bytes[k];
        k = k + 1;
    }
    assert(id@ =~= orig.subrange(0, at as int) + bytes@ + orig.subrange(at + 8, 26));
}

/// A request to refresh the recorded state of a filehandle after its file
/// changed.
#[derive(Debug, Clone)]
pub struct TouchFileRequest {
    pub id: NfsFh4,
}

/// A request to drop the write cache of a filehandle.
#[derive(Debug, Clone)]
pub struct DropCacheHandleRequest {
    pub filehandle_id: NfsFh4,
}

/// The per-export file manager state: the filehandles it has handed out, the
/// open and byte-range locking state, and the numbers from which new
/// filehandles and state identifiers are drawn.
pub struct FileManager {
    pub export_root: String,
    /// The filehandles handed out, looked up by id and by path. The table is
    /// a `Vec` in place of a multi-index map (`multi_index_map`, which is not
    /// a dependency here); the uniqueness of ids and paths that such a map's
    /// unique indexes would enforce is the invariant `fhdb_wf`.
    pub fhdb: Vec<Filehandle>,
    pub lease_time: u32,
    pub hard_link_support: bool,
    pub symlink_support: bool,
    pub unique_handles: bool,
    pub fsid: u64,
    pub next_fh_id: u128,
    /// The open and byte-range locking state, looked up by stateid, by
    /// filehandle and by owner. A `Vec` in place of a multi-index map; the
    /// uniqueness of stateids is part of the invariant `lock_table_wf`.
    pub lockdb: Vec<LockingState>,
    pub next_stateid_id: u64,
    pub boot_time: u64,
}

impl FileManager {
    /// The views of the locking state table.
    pub open spec fn lock_views(&self) -> Seq<LockingStateView> {
        locks_view(self.lockdb@)
    }

    /// The invariant of the locking state table.
    pub open spec fn locks_wf(&self) -> bool {
        lock_table_wf(self.lock_views(), self.next_stateid_id)
    }

    /// The views of the filehandle table.
    pub open spec fn fh_views(&self) -> Seq<FilehandleView> {
        self.fhdb@.map_values(|f: Filehandle| f@)
    }

    /// Whether `self` and `other` agree on everything but the filehandle table
    /// and the filehandle sequence number.
    pub open spec fn same_but_fhdb(&self, other: &FileManager) -> bool {
        &&& self.export_root@ == other.export_root@
        &&& self.lease_time == other.lease_time
        &&& self.hard_link_support == other.hard_link_support
        &&& self.symlink_support == other.symlink_support
        &&& self.unique_handles == other.unique_handles
        &&& self.fsid == other.fsid
        &&& self.lockdb@ == other.lockdb@
        &&& self.next_stateid_id == other.next_stateid_id
        &&& self.boot_time == other.boot_time
    }

    /// Whether `self` and `other` agree on everything but the locking state.
    pub open spec fn same_but_locks(&self, other: &FileManager) -> bool {
        &&& self.export_root@ == other.export_root@
        &&& self.fhdb@ == other.fhdb@
        &&& self.lease_time == other.lease_time
        &&& self.hard_link_support == other.hard_link_support
        &&& self.symlink_support == other.symlink_support
        &&& self.unique_handles == other.unique_handles
        &&& self.fsid == other.fsid
        &&& self.next_fh_id == other.next_fh_id
        &&& self.boot_time == other.boot_time
    }

    /// Draws a fresh stateid: four zero bytes, then the next state number big-endian.
    fn get_new_lockingstate_id(&mut self) -> (id: [u8; 12])
        requires
            old(self).next_stateid_id < u64::MAX,
        ensures
            id@ == stateid_seq(old(self).next_stateid_id),
            final(self).next_stateid_id == old(self).next_stateid_id + 1,
            final(self).lockdb == old(self).lockdb,
            final(self).same_but_locks(old(self)),
    {
        let n = self.next_stateid_id;
        let id: [u8; 12] = [
            0u8, 0u8, 0u8, 0u8,
            (n >> 56u64) as u8, (n >> 48u64) as u8, (n >> 40u64) as u8, (n >> 32u64) as u8,
            (n >> 24u64) as u8, (n >> 16u64) as u8, (n >> 8u64) as u8, n as u8,
        ];
        assert(id@ =~= stateid_seq(n));
        self.next_stateid_id = n + 1;
        id
    }

    /// LOCK: grants a byte-range lock unless a lock on the same file conflicts.
    pub fn handle_lock(
        &mut self,
        filehandle_id: &NfsFh4,
        client_id: u64,
        owner: Vec<u8>,
        lock_type: NfsLockType4,
        offset: u64,
        length: u64,
    ) -> (r: LockResult)
        requires
            old(self).locks_wf(),
            old(self).next_stateid_id < u64::MAX,
        ensures
            final(self).locks_wf(),
            final(self).same_but_locks(old(self)),
            match r {
                LockResult::Success(sid) => {
                    &&& forall|i: int| 0 <= i < old(self).lock_views().len()
                        ==> !blocks_request(old(self).lock_views()[i], filehandle_id@, offset, length, lock_type, owner@, client_id)
                    &&& sid.seqid == 1
                    &&& sid.other@ == stateid_seq(old(self).next_stateid_id)
                    &&& final(self).next_stateid_id == old(self).next_stateid_id + 1
                    &&& final(self).lock_views() == old(self).lock_views().push(
                        granted_lock_view(filehandle_id@, sid.other@, client_id, owner@, lock_type, offset, length))
                },
                LockResult::Denied { offset: o, length: l, lock_type: t, owner_clientid: c, owner: w } => {
                    &&& exists|i: int| 0 <= i < old(self).lock_views().len()
                        && blocks_request(old(self).lock_views()[i], filehandle_id@, offset, length, lock_type, owner@, client_id)
                        && (forall|j: int| 0 <= j < i ==> !blocks_request(old(self).lock_views()[j], filehandle_id@, offset, length, lock_type, owner@, client_id))
                        && denial_describes(old(self).lock_views()[i], o, l, t, c, w@)
                    &&& final(self).lockdb == old(self).lockdb
                    &&& final(self).next_stateid_id == old(self).next_stateid_id
                },
                LockResult::Error(_) => false,
            },
    {
        let ghost old_views = self.lock_views();
        // Check for conflicts against all existing byte-range locks on this file
        let mut i: usize = 0;
        while i < self.lockdb.len()
            invariant
                i <= self.lockdb.len(),
                self.lock_views() == old_views,
                *self == *old(self),
                old(self).locks_wf(),
                forall|j: int| 0 <= j < i ==> !blocks_request(old_views[j], filehandle_id@, offset, length, lock_type, owner@, client_id),
            decreases self.lockdb.len() - i,
        {
            let lock = &self.lockdb[i];
            if fh_eq(&lock.filehandle_id, filehandle_id)
                && lock.conflicts_with(offset, length, &lock_type, owner.as_slice(), client_id) {
                let denied_type = match lock.nfs_lock_type {
                    Some(t) => t,
                    None => NfsLockType4::ReadLt,
                };
                let r = LockResult::Denied {
                    offset: match lock.start { Some(s) => s, None => 0 },
                    length: match lock.length { Some(s) => s, None => 0 },
                    lock_type: denied_type,
                    owner_clientid: lock.client_id,
                    owner: copy_bytes(lock.owner.as_slice()),
                };
                assert(blocks_request(old_views[i as int], filehandle_id@, offset, length, lock_type, owner@, client_id));
                return r;
            }
            i = i + 1;
        }

        // No conflict: grant the lock
        let stateid = self.get_new_lockingstate_id();
        proof {
            lemma_stateid_number(old(self).next_stateid_id);
        }
        let lock = LockingState::new_byte_range_lock(
            *filehandle_id,
            stateid,
            client_id,
            owner,
            lock_type,
            offset,
            length,
        );
        let seqid = lock.seqid;
        let ghost new_view = lock@;
        self.lockdb.push(lock);
        proof {
            let nv = self.lock_views();
            assert(nv =~= old_views.push(new_view));
            assert forall|a: int, b: int|
                #![trigger nv[a], nv[b]]
                0 <= a < nv.len() && 0 <= b < nv.len() && nv[a].filehandle_id == nv[b].filehandle_id
                    implies !held_locks_conflict(nv[a], nv[b]) by {
                let n = old_views.len() as int;
                if a == n && b < n {
                    let o = nv[b];
                    if o.lock_type == LockType::ByteRange && o.start is Some && o.length is Some
                        && o.nfs_lock_type is Some {
                        crate::locking::lemma_held_conflict_symmetric(nv[a], o);
                        assert(!blocks_request(old_views[b], filehandle_id@, offset, length, lock_type, owner@, client_id));
                    }
                } else if a < n && b == n {
                    assert(!blocks_request(old_views[a], filehandle_id@, offset, length, lock_type, owner@, client_id));
                }
            }
            assert forall|a: int, b: int|
                #![trigger nv[a], nv[b]]
                0 <= a < nv.len() && 0 <= b < nv.len() && a != b implies nv[a].stateid != nv[b].stateid by {
                let n = old_views.len() as int;
                if a == n {
                    assert(stateid_number(nv[b].stateid) < old(self).next_stateid_id);
                } else if b == n {
                    assert(stateid_number(nv[a].stateid) < old(self).next_stateid_id);
                }
            }
        }
        LockResult::Success(Stateid4 { seqid, other: stateid })
    }

    /// LOCKT: reports the first lock on the same file that conflicts with the
    /// proposed lock, without taking it.
    pub fn handle_test_lock(
        &self,
        filehandle_id: &NfsFh4,
        client_id: u64,
        owner: &[u8],
        lock_type: &NfsLockType4,
        offset: u64,
        length: u64,
    ) -> (r: TestLockResult)
        ensures
            match r {
                TestLockResult::Success => forall|i: int| 0 <= i < self.lock_views().len()
                    ==> !blocks_request(self.lock_views()[i], filehandle_id@, offset, length, *lock_type, owner@, client_id),
                TestLockResult::Denied { offset: o, length: l, lock_type: t, owner_clientid: c, owner: w } =>
                    exists|i: int| 0 <= i < self.lock_views().len()
                        && blocks_request(self.lock_views()[i], filehandle_id@, offset, length, *lock_type, owner@, client_id)
                        && (forall|j: int| 0 <= j < i ==> !blocks_request(self.lock_views()[j], filehandle_id@, offset, length, *lock_type, owner@, client_id))
                        && denial_describes(self.lock_views()[i], o, l, t, c, w@),
            },
    {
        let mut i: usize = 0;
        while i < self.lockdb.len()
            invariant
                i <= self.lockdb.len(),
                forall|j: int| 0 <= j < i ==> !blocks_request(self.lock_views()[j], filehandle_id@, offset, length, *lock_type, owner@, client_id),
            decreases self.lockdb.len() - i,
        {
            let lock = &self.lockdb[i];
            if fh_eq(&lock.filehandle_id, filehandle_id)
                && lock.conflicts_with(offset, length, lock_type, owner, client_id) {
                let denied_type = match lock.nfs_lock_type {
                    Some(t) => t,
                    None => NfsLockType4::ReadLt,
                };
                assert(blocks_request(self.lock_views()[i as int], filehandle_id@, offset, length, *lock_type, owner@, client_id));
                return TestLockResult::Denied {
                    offset: match lock.start { Some(s) => s, None => 0 },
                    length: match lock.length { Some(s) => s, None => 0 },
                    lock_type: denied_type,
                    owner_clientid: lock.client_id,
                    owner: copy_bytes(lock.owner.as_slice()),
                };
            }
            i = i + 1;
        }
        TestLockResult::Success
    }

    /// The index of the entry holding `stateid`, if any.
    fn find_state(&self, stateid: &[u8; 12]) -> (r: Option<usize>)
        ensures
            match r {
                Some(i) => i < self.lockdb.len() && self.lock_views()[i as int].stateid == stateid@,
                None => forall|i: int| 0 <= i < self.lock_views().len() ==> self.lock_views()[i].stateid != stateid@,
            },
    {
        let mut i: usize = 0;
        while i < self.lockdb.len()
            invariant
                i <= self.lockdb.len(),
                forall|j: int| 0 <= j < i ==> self.lock_views()[j].stateid != stateid@,
            decreases self.lockdb.len() - i,
        {
            if stateid_eq(&self.lockdb[i].stateid, stateid) {
                return Some(i);
            }
            i = i + 1;
        }
        None
    }

    /// Removes entry `i` of the locking state table.
    fn remove_state_at(&mut self, i: usize) -> (removed: LockingState)
        requires
            old(self).locks_wf(),
            i < old(self).lockdb.len(),
        ensures
            final(self).locks_wf(),
            final(self).same_but_locks(old(self)),
            final(self).next_stateid_id == old(self).next_stateid_id,
            final(self).lock_views() == old(self).lock_views().remove(i as int),
            removed@ == old(self).lock_views()[i as int],
    {
        let ghost ov = self.lock_views();
        let removed = self.lockdb.remove(i);
        proof {
            let nv = self.lock_views();
            assert(nv =~= ov.remove(i as int));
            assert forall|a: int| 0 <= a < nv.len() implies #[trigger] nv[a] == ov[if a < i { a } else { a + 1 }] by {}
            assert forall|a: int, b: int|
                #![trigger nv[a], nv[b]]
                0 <= a < nv.len() && 0 <= b < nv.len() && a != b implies nv[a].stateid != nv[b].stateid by {
                let oa = if a < i { a } else { a + 1 };
                let ob = if b < i { b } else { b + 1 };
                assert(nv[a] == ov[oa] && nv[b] == ov[ob]);
            }
            assert forall|a: int, b: int|
                #![trigger nv[a], nv[b]]
                0 <= a < nv.len() && 0 <= b < nv.len() && nv[a].filehandle_id == nv[b].filehandle_id
                    implies !held_locks_conflict(nv[a], nv[b]) by {
                let oa = if a < i { a } else { a + 1 };
                let ob = if b < i { b } else { b + 1 };
                assert(nv[a] == ov[oa] && nv[b] == ov[ob]);
            }
        }
        removed
    }

    /// LOCKU: releases the lock state named by `lock_stateid` and returns its
    /// stateid with the sequence number advanced.
    pub fn handle_unlock(&mut self, lock_stateid: &[u8; 12], _offset: u64, _length: u64) -> (r: UnlockResult)
        requires
            old(self).locks_wf(),
        ensures
            final(self).locks_wf(),
            final(self).same_but_locks(old(self)),
            final(self).next_stateid_id == old(self).next_stateid_id,
            match r {
                UnlockResult::Success(sid) => exists|i: int|
                    0 <= i < old(self).lock_views().len()
                        && old(self).lock_views()[i].stateid == lock_stateid@
                        && sid.seqid == old(self).lock_views()[i].seqid + 1
                        && sid.other@ == lock_stateid@
                        && final(self).lock_views() == old(self).lock_views().remove(i),
                UnlockResult::Error(e) => {
                    &&& e == NfsStat4::Nfs4errBadStateid
                    &&& forall|i: int| 0 <= i < old(self).lock_views().len() ==> old(self).lock_views()[i].stateid != lock_stateid@
                    &&& final(self).lockdb == old(self).lockdb
                },
            },
    {
        match self.find_state(lock_stateid) {
            Some(i) => {
                let new_seqid = self.lockdb[i].seqid + 1;
                let stateid_copy = self.lockdb[i].stateid;
                let _ = self.remove_state_at(i);
                UnlockResult::Success(Stateid4 { seqid: new_seqid, other: stateid_copy })
            },
            None => UnlockResult::Error(NfsStat4::Nfs4errBadStateid),
        }
    }

    /// CLOSE: releases the open state named by `stateid`, if it is held.
    pub fn close_file(&mut self, stateid: &[u8; 12])
        requires
            old(self).locks_wf(),
        ensures
            final(self).locks_wf(),
            final(self).same_but_locks(old(self)),
            final(self).next_stateid_id == old(self).next_stateid_id,
            (exists|i: int| 0 <= i < old(self).lock_views().len() && old(self).lock_views()[i].stateid == stateid@
                && final(self).lock_views() == old(self).lock_views().remove(i))
            || ((forall|i: int| 0 <= i < old(self).lock_views().len() ==> old(self).lock_views()[i].stateid != stateid@)
                && final(self).lockdb == old(self).lockdb),
    {
        match self.find_state(stateid) {
            Some(i) => {
                let _ = self.remove_state_at(i);
            },
            None => {},
        }
    }

    /// RELEASE_LOCKOWNER: removes every byte-range lock that `owner` of
    /// `client_id` holds; open state is kept.
    pub fn handle_release_lock_owner(&mut self, client_id: u64, owner: &[u8]) -> (r: NfsStat4)
        requires
            old(self).locks_wf(),
        ensures
            r == NfsStat4::Nfs4Ok,
            final(self).locks_wf(),
            final(self).same_but_locks(old(self)),
            final(self).next_stateid_id == old(self).next_stateid_id,
            final(self).lock_views() == old(self).lock_views().filter(kept_by_release(client_id, owner@)),
    {
        let ghost ov = self.lock_views();
        let ghost pred = kept_by_release(client_id, owner@);
        let mut kept: Vec<LockingState> = Vec::new();
        let mut i: usize = 0;
        while i < self.lockdb.len()
            invariant
                i <= self.lockdb.len(),
                self.lock_views() == ov,
                lock_table_wf(ov, self.next_stateid_id),
                lock_table_wf(locks_view(kept@), self.next_stateid_id),
                drawn_from(locks_view(kept@), ov, i as int),
                pred == kept_by_release(client_id, owner@),
                locks_view(kept@) == ov.take(i as int).filter(pred),
            decreases self.lockdb.len() - i,
        {
            let l = &self.lockdb[i];
            let is_byte_range = match l.lock_type {
                LockType::ByteRange => true,
                LockType::Open => false,
            };
            let release = l.client_id == client_id && is_byte_range && bytes_eq(l.owner.as_slice(), owner);
            let ghost ii = i as int;
            proof {
                reveal(Seq::filter);
                assert(ov[ii] == self.lockdb@[ii]@);
                assert(ov.take(ii + 1).drop_last() =~= ov.take(ii));
                assert(ov.take(ii + 1).last() == ov[ii]);
                assert(ov.take(ii + 1).filter(pred) == (if pred(ov[ii]) {
                    ov.take(ii).filter(pred).push(ov[ii])
                } else {
                    ov.take(ii).filter(pred)
                }));
                assert(release == !pred(ov[ii]));
            }
            if !release {
                let c = l.clone();
                let ghost before = locks_view(kept@);
                proof {
                    lemma_wf_push_drawn(locks_view(kept@), ov, i as int, self.next_stateid_id);
                }
                kept.push(c);
                proof {
                    assert(locks_view(kept@) =~= before.push(ov[i as int]));
                }
            }
            i = i + 1;
            proof {
                if release {
                    assert forall|k: int| 0 <= k < locks_view(kept@).len() implies exists|m: int| 0 <= m < i && #[trigger] locks_view(kept@)[k] == ov[m] by {
                        let m = choose|m: int| 0 <= m < ii && locks_view(kept@)[k] == ov[m];
                    }
                }
            }
        }
        proof {
            assert(ov.take(ov.len() as int) =~= ov);
        }
        self.lockdb = kept;
        NfsStat4::Nfs4Ok
    }
}

/// The view of the open state that creating a file for `owner` of
/// `client_id` records.
pub open spec fn open_state_view(
    fh: Seq<u8>,
    stateid: Seq<u8>,
    client_id: u64,
    owner: Seq<u8>,
    share_access: u32,
    share_deny: u32,
) -> LockingStateView {
    LockingStateView {
        stateid,
        seqid: 1,
        client_id,
        owner,
        lock_type: LockType::Open,
        filehandle_id: fh,
        start: None,
        length: None,
        share_access: Some(share_access),
        share_deny: Some(share_deny),
        nfs_lock_type: None,
    }
}

/// The parent of a VFS path: everything before its last slash, or "/" where
/// that is empty.
pub open spec fn parent_of(path: Seq<char>) -> Seq<char> {
    let cut = last_slash(path);
    if cut <= 0 {
        seq!['/']
    } else {
        path.subrange(0, cut)
    }
}

/// The index of the last slash of `path`, or -1.
pub open spec fn last_slash(path: Seq<char>) -> int
    decreases path.len(),
{
    if path.len() == 0 {
        -1
    } else if path.last() == '/' {
        path.len() - 1
    } else {
        last_slash(path.drop_last())
    }
}

/// The parent of a VFS path: everything before its last slash, or "/" where
/// that is empty.
pub fn parent_path(path: &str) -> (p: String)
    ensures
        p@ == parent_of(path@),
{
    let n = path.unicode_len();
    let mut k: usize = n;
    assert(path@.subrange(0, n as int) =~= path@);
    while k > 0 && path.get_char(k - 1) != '/'
        invariant
            k <= n,
            n == path@.len(),
            last_slash(path@) == last_slash(path@.subrange(0, k as int)),
        decreases k,
    {
        proof {
            assert(path@.subrange(0, k as int).drop_last() =~= path@.subrange(0, k - 1));
        }
        k = k - 1;
    }
    proof {
        if k > 0 {
            assert(path@.subrange(0, k as int).last() == '/');
        } else {
            assert(path@.subrange(0, 0) =~= Seq::<char>::empty());
        }
        assert(path@.subrange(0, n as int) =~= path@);
        reveal_strlit("/");
    }
    if k <= 1 {
        "/".to_owned()
    } else {
        path.substring_char(0, k - 1).to_owned()
    }
}

/// The table without the entry whose id is `id`.
pub open spec fn without_id(db: Seq<FilehandleView>, id: NfsFh4) -> Seq<FilehandleView> {
    db.filter(|f: FilehandleView| f.id != id)
}

impl FileManager {
    /// The index of the filehandle recorded for `path`, if any.
    fn find_fh_by_path(&self, path: &str) -> (r: Option<usize>)
        ensures
            match r {
                Some(i) => i < self.fh_views().len() && self.fh_views()[i as int].path == path@,
                None => forall|i: int| 0 <= i < self.fh_views().len() ==> (#[trigger] self.fh_views()[i]).path != path@,
            },
    {
        let mut i: usize = 0;
        while i < self.fhdb.len()
            invariant
                i <= self.fhdb.len(),
                forall|j: int| 0 <= j < i ==> (#[trigger] self.fh_views()[j]).path != path@,
            decreases self.fhdb.len() - i,
        {
            if str_eq(self.fhdb[i].path.as_str(), path) {
                return Some(i);
            }
            i = i + 1;
        }
        None
    }

    /// The index of the filehandle with id `id`, if any.
    fn find_fh_by_id(&self, id: &NfsFh4) -> (r: Option<usize>)
        ensures
            match r {
                Some(i) => i < self.fh_views().len() && self.fh_views()[i as int].id == *id,
                None => forall|i: int| 0 <= i < self.fh_views().len() ==> (#[trigger] self.fh_views()[i]).id != *id,
            },
    {
        let mut i: usize = 0;
        while i < self.fhdb.len()
            invariant
                i <= self.fhdb.len(),
                forall|j: int| 0 <= j < i ==> (#[trigger] self.fh_views()[j]).id != *id,
            decreases self.fhdb.len() - i,
        {
            if fh_eq(&self.fhdb[i].id, id) {
                assert(self.fhdb@[i as int].id@ == id@);
                assert(self.fhdb@[i as int].id =~= *id);
                return Some(i);
            }
            proof {
                if self.fh_views()[i as int].id == *id {
                    assert(self.fhdb@[i as int].id@ == id@);
                }
            }
            i = i + 1;
        }
        None
    }

    /// The filehandle recorded for `path`, if any.
    pub fn get_filehandle_by_path(&self, path: &String) -> (r: Option<Filehandle>)
        ensures
            match r {
                Some(fh) => exists|i: int|
                    0 <= i < self.fh_views().len() && #[trigger] self.fh_views()[i] == fh@
                        && fh@.path == path@,
                None => forall|i: int| 0 <= i < self.fh_views().len() ==> (#[trigger] self.fh_views()[i]).path != path@,
            },
    {
        match self.find_fh_by_path(path.as_str()) {
            Some(i) => {
                let fh = self.fhdb[i].clone();
                assert(self.fh_views()[i as int] == fh@);
                Some(fh)
            },
            None => None,
        }
    }

    /// Drops the entry whose id is `id`, if any.
    fn remove_fh_by_id(&mut self, id: &NfsFh4)
        requires
            fhdb_wf(old(self).fh_views()),
        ensures
            final(self).fh_views() == without_id(old(self).fh_views(), *id),
            fhdb_wf(final(self).fh_views()),
            final(self).same_but_fhdb(old(self)),
            final(self).next_fh_id == old(self).next_fh_id,
    {
        let ghost old_views = self.fh_views();
        let mut kept: Vec<Filehandle> = Vec::new();
        let mut i: usize = 0;
        while i < self.fhdb.len()
            invariant
                i <= self.fhdb.len(),
                *self == *old(self),
                old_views == self.fh_views(),
                fhdb_wf(old_views),
                kept@.map_values(|f: Filehandle| f@) == without_id(old_views.take(i as int), *id),
                fhdb_wf(kept@.map_values(|f: Filehandle| f@)),
                forall|k: int| 0 <= k < kept@.len() ==> exists|m: int| 0 <= m < i && #[trigger] kept@[k]@ == old_views[m],
            decreases self.fhdb.len() - i,
        {
            let keep = !fh_eq(&self.fhdb[i].id, id);
            proof {
                reveal(Seq::filter);
                assert(old_views.take(i as int + 1).drop_last() =~= old_views.take(i as int));
                assert(keep == (old_views[i as int].id != *id)) by {
                    if old_views[i as int].id != *id {
                        assert(old_views[i as int].id@ != id@) by {
                            if old_views[i as int].id@ == id@ {
                                assert(old_views[i as int].id =~= *id);
                            }
                        }
                    }
                }
            }
            if keep {
                let f = self.fhdb[i].clone();
                let ghost kv = kept@.map_values(|f: Filehandle| f@);
                kept.push(f);
                proof {
                    let nv = kept@.map_values(|f: Filehandle| f@);
                    assert(nv =~= kv.push(old_views[i as int]));
                    assert forall|k: int| 0 <= k < kept@.len() implies exists|m: int| 0 <= m < i + 1 && #[trigger] kept@[k]@ == old_views[m] by {
                        if k == kept@.len() - 1 {
                            assert(kept@[k]@ == old_views[i as int]);
                        } else {
                            let m = choose|m: int| 0 <= m < i && kept@[k]@ == old_views[m];
                        }
                    }
                    assert forall|a: int, b: int|
                        #![trigger nv[a], nv[b]]
                        0 <= a < nv.len() && 0 <= b < nv.len() && a != b implies nv[a].id != nv[b].id && nv[a].path != nv[b].path by {
                        let n = kv.len() as int;
                        if a == n {
                            let mb = choose|m: int| 0 <= m < i && kept@[b]@ == old_views[m];
                            assert(nv[b] == old_views[mb]);
                            assert(old_views[i as int] != old_views[mb] ==> true);
                            assert(old_views[mb].id != old_views[i as int].id && old_views[mb].path != old_views[i as int].path);
                        } else if b == n {
                            let ma = choose|m: int| 0 <= m < i && kept@[a]@ == old_views[m];
                            assert(nv[a] == old_views[ma]);
                            assert(old_views[ma].id != old_views[i as int].id && old_views[ma].path != old_views[i as int].path);
                        } else {
                            assert(nv[a] == kv[a] && nv[b] == kv[b]);
                        }
                    }
                }
            }
            i = i + 1;
        }
        proof {
            assert(old_views.take(i as int) =~= old_views);
        }
        self.fhdb = kept;
    }

    /// Appends an entry whose id and path are new to the table.
    fn insert_fh(&mut self, fh: Filehandle)
        requires
            fhdb_wf(old(self).fh_views()),
            fh@.path.len() > 0,
            forall|i: int| 0 <= i < old(self).fh_views().len()
                ==> (#[trigger] old(self).fh_views()[i]).id != fh.id && old(self).fh_views()[i].path != fh@.path,
        ensures
            final(self).fh_views() == old(self).fh_views().push(fh@),
            fhdb_wf(final(self).fh_views()),
            final(self).same_but_fhdb(old(self)),
            final(self).next_fh_id == old(self).next_fh_id,
    {
        let ghost ov = self.fh_views();
        let ghost v = fh@;
        self.fhdb.push(fh);
        proof {
            let nv = self.fh_views();
            assert(nv =~= ov.push(v));
            assert forall|a: int, b: int|
                #![trigger nv[a], nv[b]]
                0 <= a < nv.len() && 0 <= b < nv.len() && a != b implies nv[a].id != nv[b].id && nv[a].path != nv[b].path by {
                let n = ov.len() as int;
                if a == n {
                    assert(ov[b].id != v.id && ov[b].path != v.path);
                } else if b == n {
                    assert(ov[a].id != v.id && ov[a].path != v.path);
                } else {
                    assert(nv[a] == ov[a] && nv[b] == ov[b]);
                }
            }
        }
    }

    /// Replaces the entry with the id of `filehandle` by `filehandle`, or adds
    /// it. No other entry may record its path.
    pub fn update_filehandle(&mut self, filehandle: Filehandle)
        requires
            fhdb_wf(old(self).fh_views()),
            filehandle@.path.len() > 0,
            forall|i: int| 0 <= i < old(self).fh_views().len() && (#[trigger] old(self).fh_views()[i]).path == filehandle@.path
                ==> old(self).fh_views()[i].id == filehandle.id,
        ensures
            final(self).fh_views() == without_id(old(self).fh_views(), filehandle.id).push(filehandle@),
            fhdb_wf(final(self).fh_views()),
            final(self).same_but_fhdb(old(self)),
            final(self).next_fh_id == old(self).next_fh_id,
    {
        let id = filehandle.id;
        self.remove_fh_by_id(&id);
        proof {
            lemma_without_id(old(self).fh_views(), id, filehandle@.path);
        }
        self.insert_fh(filehandle);
    }

    /// The id for the file at `vfs_path`: that of its recorded filehandle; else
    /// a persistent one from its device and inode, where `stat` gave them;
    /// else a fresh volatile one, which advances the sequence number.
    pub fn get_filehandle_id(&mut self, vfs_path: &str, real_meta: Option<&RealMeta>) -> (id: NfsFh4)
        requires
            old(self).next_fh_id < u128::MAX,
        ensures
            final(self).same_but_fhdb(old(self)),
            final(self).fhdb@ == old(self).fhdb@,
            ({
                let p = recorded_path(vfs_path@);
                let views = old(self).fh_views();
                if exists|i: int| 0 <= i < views.len() && (#[trigger] views[i]).path == p {
                    &&& exists|i: int| 0 <= i < views.len() && (#[trigger] views[i]).path == p && views[i].id == id
                    &&& final(self).next_fh_id == old(self).next_fh_id
                } else {
                    match real_meta {
                        Some(m) => id@ == inode_fh(m.dev, m.ino) && final(self).next_fh_id == old(self).next_fh_id,
                        None => id@ == volatile_fh(old(self).boot_time, old(self).next_fh_id)
                            && final(self).next_fh_id == old(self).next_fh_id + 1,
                    }
                }
            }),
    {
        let path = crate::filehandle::record_path(vfs_path);
        match self.find_fh_by_path(path.as_str()) {
            Some(i) => {
                return self.fhdb[i].id;
            },
            None => {},
        }
        let mut id = [0u8; 26];
        match real_meta {
            Some(meta) => {
                id[0] = 0x01;
                write_bytes_at(&mut id, 2, &be64_bytes(meta.dev));
                write_bytes_at(&mut id, 10, &be64_bytes(meta.ino));
                assert(id@ =~= inode_fh(meta.dev, meta.ino));
                id
            },
            None => {
                id[0] = 0x80;
                let seq_no = self.next_fh_id;
                write_bytes_at(&mut id, 2, &be64_bytes(self.boot_time));
                write_bytes_at(&mut id, 10, &be64_bytes((seq_no >> 64) as u64));
                write_bytes_at(&mut id, 18, &be64_bytes(seq_no as u64));
                assert(id@ =~= volatile_fh(self.boot_time, seq_no));
                self.next_fh_id = self.next_fh_id + 1;
                id
            },
        }
    }

    /// The filehandle with id `id`. Where `file_exists` says that its file is
    /// gone, the entry is dropped and nothing is returned.
    pub fn get_filehandle_by_id(&mut self, id: &NfsFh4, file_exists: bool) -> (r: Option<Filehandle>)
        requires
            fhdb_wf(old(self).fh_views()),
        ensures
            fhdb_wf(final(self).fh_views()),
            final(self).same_but_fhdb(old(self)),
            final(self).next_fh_id == old(self).next_fh_id,
            ({
                let views = old(self).fh_views();
                if exists|i: int| 0 <= i < views.len() && (#[trigger] views[i]).id == *id {
                    if file_exists {
                        &&& r matches Some(fh) && exists|i: int| 0 <= i < views.len() && (#[trigger] views[i]) == fh@ && fh.id == *id
                        &&& final(self).fhdb@ == old(self).fhdb@
                    } else {
                        &&& r is None
                        &&& final(self).fh_views() == without_id(views, *id)
                    }
                } else {
                    r is None && final(self).fhdb@ == old(self).fhdb@
                }
            }),
    {
        match self.find_fh_by_id(id) {
            Some(i) => {
                if file_exists {
                    let fh = self.fhdb[i].clone();
                    assert(self.fh_views()[i as int] == fh@);
                    Some(fh)
                } else {
                    self.remove_fh_by_id(id);
                    None
                }
            },
            None => None,
        }
    }

    /// A copy of `filehandle` carrying the locking state recorded on its id,
    /// in table order.
    pub fn attach_locks(&self, filehandle: Filehandle) -> (r: Filehandle)
        ensures
            r@ == (FilehandleView {
                locks: self.lock_views().filter(|l: LockingStateView| l.filehandle_id == filehandle.id@),
                ..filehandle@
            }),
    {
        let mut filehandle = filehandle;
        let mut locks: Vec<LockingState> = Vec::new();
        let mut i: usize = 0;
        while i < self.lockdb.len()
            invariant
                i <= self.lockdb.len(),
                locks@.map_values(|l: LockingState| l@) == self.lock_views().take(i as int).filter(
                    |l: LockingStateView| l.filehandle_id == filehandle.id@,
                ),
            decreases self.lockdb.len() - i,
        {
            let on_file = bytes_eq(self.lockdb[i].filehandle_id.as_slice(), filehandle.id.as_slice());
            proof {
                reveal(Seq::filter);
                assert(self.lock_views().take(i as int + 1).drop_last() =~= self.lock_views().take(i as int));
            }
            if on_file {
                let ghost lv = locks@.map_values(|l: LockingState| l@);
                let l = self.lockdb[i].clone();
                locks.push(l);
                assert(locks@.map_values(|l: LockingState| l@) =~= lv.push(self.lock_views()[i as int]));
            }
            i = i + 1;
        }
        assert(self.lock_views().take(i as int) =~= self.lock_views());
        filehandle.locks = locks;
        filehandle
    }

    /// The filehandle for the file at `vfs_path`, given the id that
    /// [`FileManager::get_filehandle_id`] drew for it: the recorded entry with
    /// that id where `recorded_exists` says its file is still there, else a
    /// new entry (from `real_meta` where `stat` gave it, else from what the VFS
    /// reports: `is_dir`, `size`), which is recorded.
    pub fn get_filehandle(
        &mut self,
        id: NfsFh4,
        vfs_path: &str,
        real_meta: Option<&RealMeta>,
        is_dir: bool,
        size: u64,
        recorded_exists: bool,
    ) -> (r: Filehandle)
        requires
            fhdb_wf(old(self).fh_views()),
            forall|i: int| 0 <= i < old(self).fh_views().len() && (#[trigger] old(self).fh_views()[i]).path
                == recorded_path(vfs_path@) ==> old(self).fh_views()[i].id == id,
            real_meta matches Some(m) ==> m.blocks <= u64::MAX / 512,
        ensures
            fhdb_wf(final(self).fh_views()),
            final(self).same_but_fhdb(old(self)),
            final(self).next_fh_id == old(self).next_fh_id,
            r.id == id,
            ({
                let views = old(self).fh_views();
                if recorded_exists && exists|i: int| 0 <= i < views.len() && (#[trigger] views[i]).id == id {
                    &&& exists|i: int| 0 <= i < views.len() && (#[trigger] views[i]) == r@
                    &&& final(self).fhdb@ == old(self).fhdb@
                } else {
                    &&& final(self).fh_views() == without_id(views, id).push(r@)
                    &&& r@.path == recorded_path(vfs_path@)
                    &&& r.version == 1
                    &&& (real_meta matches Some(m) ==> r@ == real_view(vfs_path@, id, old(self).fsid, old(self).fsid, 0, *m))
                    &&& (real_meta is None ==> fallback_view(r@, vfs_path@, is_dir, size, id, old(self).fsid, old(self).fsid, 0))
                }
            }),
    {
        let ghost views = self.fh_views();
        match self.get_filehandle_by_id(&id, recorded_exists) {
            Some(fh) => fh,
            None => {
                proof {
                    lemma_without_id(views, id, recorded_path(vfs_path@));
                    if !(exists|i: int| 0 <= i < views.len() && (#[trigger] views[i]).id == id) {
                        lemma_without_absent_id(views, id);
                    }
                }
                let fh = match real_meta {
                    Some(meta) => Filehandle::new_real(vfs_path, id, self.fsid, self.fsid, 0, meta),
                    None => Filehandle::new(vfs_path, is_dir, size, id, self.fsid, self.fsid, 0),
                };
                self.insert_fh(fh.clone());
                fh
            },
        }
    }

    /// A file manager for the export rooted at `export_root`, with its file
    /// system id (152 where none is given) and the boot time that volatile
    /// filehandles carry; nothing is recorded yet.
    pub fn new(fsid: Option<u64>, export_root: String, boot_time: u64) -> (fm: Self)
        ensures
            fm.export_root@ == export_root@,
            fm.fsid == (match fsid { Some(f) => f, None => 152 }),
            fm.boot_time == boot_time,
            fm.lease_time == 90,
            fm.hard_link_support,
            fm.symlink_support,
            fm.unique_handles,
            fm.next_fh_id == 100,
            fm.next_stateid_id == 100,
            fm.fh_views().len() == 0,
            fm.lock_views().len() == 0,
            fhdb_wf(fm.fh_views()),
            fm.locks_wf(),
    {
        let fm = FileManager {
            export_root,
            fhdb: Vec::new(),
            lease_time: 90,
            hard_link_support: true,
            symlink_support: true,
            unique_handles: true,
            fsid: match fsid {
                Some(f) => f,
                None => 152,
            },
            next_fh_id: 100,
            lockdb: Vec::new(),
            next_stateid_id: 100,
            boot_time,
        };
        assert(fm.fh_views() =~= Seq::<FilehandleView>::empty());
        assert(fm.lock_views() =~= Seq::<LockingStateView>::empty());
        fm
    }

    /// The real file system path of a VFS path of this export.
    pub fn real_path(&self, vfs_path: &str) -> (p: String)
        ensures
            p@ == crate::handle::real_path_of(self.export_root@, vfs_path@),
    {
        crate::handle::real_path_below(&self.export_root, vfs_path)
    }

    /// The attributes the file manager advertises as supported.
    pub fn attr_supported_attrs(&self) -> (v: Vec<FileAttr>)
        ensures
            v@ == crate::attrs::supported_attr_list(false),
    {
        crate::attrs::supported_attrs(false)
    }

    /// Drops the recorded filehandle with id `id`, if any.
    pub fn remove_filehandle(&mut self, id: &NfsFh4)
        requires
            fhdb_wf(old(self).fh_views()),
        ensures
            final(self).fh_views() == without_id(old(self).fh_views(), *id),
            fhdb_wf(final(self).fh_views()),
            final(self).same_but_fhdb(old(self)),
            final(self).next_fh_id == old(self).next_fh_id,
    {
        self.remove_fh_by_id(id);
    }

    /// Records the open state of a file just created for `owner` of
    /// `client_id`, under a fresh stateid, and returns `filehandle` carrying
    /// it as its only lock.
    pub fn open_created_file(
        &mut self,
        filehandle: Filehandle,
        client_id: u64,
        owner: Vec<u8>,
        share_access: u32,
        share_deny: u32,
    ) -> (r: Filehandle)
        requires
            old(self).locks_wf(),
            old(self).next_stateid_id < u64::MAX,
        ensures
            final(self).locks_wf(),
            final(self).same_but_locks(old(self)),
            final(self).next_stateid_id == old(self).next_stateid_id + 1,
            ({
                let st = open_state_view(
                    filehandle.id@,
                    stateid_seq(old(self).next_stateid_id),
                    client_id,
                    owner@,
                    share_access,
                    share_deny,
                );
                &&& final(self).lock_views() == old(self).lock_views().push(st)
                &&& r@ == (FilehandleView { locks: seq![st], ..filehandle@ })
            }),
    {
        let ghost old_views = self.lock_views();
        let stateid = self.get_new_lockingstate_id();
        proof {
            lemma_stateid_number(old(self).next_stateid_id);
        }
        let lock = LockingState::new_shared_reservation(
            filehandle.id,
            stateid,
            client_id,
            owner,
            share_access,
            share_deny,
        );
        let ghost st = lock@;
        let copy = lock.clone();
        self.lockdb.push(lock);
        proof {
            let nv = self.lock_views();
            assert(nv =~= old_views.push(st));
            assert forall|a: int, b: int|
                #![trigger nv[a], nv[b]]
                0 <= a < nv.len() && 0 <= b < nv.len() && a != b implies nv[a].stateid != nv[b].stateid by {
                let n = old_views.len() as int;
                if a == n {
                    assert(stateid_number(nv[b].stateid) < old(self).next_stateid_id);
                } else if b == n {
                    assert(stateid_number(nv[a].stateid) < old(self).next_stateid_id);
                }
            }
        }
        let mut filehandle = filehandle;
        let mut locks: Vec<LockingState> = Vec::new();
        locks.push(copy);
        filehandle.locks = locks;
        assert(filehandle@.locks =~= seq![st]);
        filehandle
    }

    /// The attribute context of the file manager.
    pub open spec fn manager_context(&self) -> AttrContext {
        AttrContext {
            lease_time: self.lease_time,
            hard_link_support: self.hard_link_support,
            symlink_support: self.symlink_support,
            unique_handles: self.unique_handles,
            named_attr: false,
            extended: false,
        }
    }

    /// The requested attributes of the filehandle with id `filehandle_id`:
    /// `None` where there is none (or, per `recorded_exists`, its file is
    /// gone). Where `stat` gave `real_meta`, the entry is first refreshed from
    /// it and recorded so.
    pub fn filehandle_attrs(
        &mut self,
        attr_request: &Vec<FileAttr>,
        filehandle_id: &NfsFh4,
        real_meta: Option<&RealMeta>,
        recorded_exists: bool,
    ) -> (r: Option<(Vec<FileAttr>, Vec<FileAttrValue>)>)
        requires
            fhdb_wf(old(self).fh_views()),
            real_meta is Some ==> forall|i: int| 0 <= i < old(self).fh_views().len()
                ==> (#[trigger] old(self).fh_views()[i]).version < u64::MAX,
            real_meta matches Some(m) ==> m.blocks <= u64::MAX / 512,
        ensures
            fhdb_wf(final(self).fh_views()),
            final(self).same_but_fhdb(old(self)),
            final(self).next_fh_id == old(self).next_fh_id,
            ({
                let views = old(self).fh_views();
                if recorded_exists && exists|i: int| 0 <= i < views.len() && (#[trigger] views[i]).id == *filehandle_id {
                    exists|i: int| 0 <= i < views.len() && (#[trigger] views[i]).id == *filehandle_id && {
                        let e = views[i];
                        let src = match real_meta {
                            Some(m) => real_view(e.path, e.id, old(self).fsid, old(self).fsid, e.version, *m),
                            None => e,
                        };
                        let ctx = old(self).manager_context();
                        &&& r matches Some(res) && {
                            &&& res.0@ == attr_request@.filter(|a: FileAttr| attr_served(a, ctx))
                            &&& res.1@.len() == res.0@.len()
                            &&& forall|k: int| 0 <= k < res.0@.len() ==> attr_answer(
                                #[trigger] res.0@[k],
                                res.1@[k],
                                src,
                                ctx,
                                None,
                            )
                        }
                        &&& match real_meta {
                            Some(_) => final(self).fh_views() == without_id(views, *filehandle_id).push(src),
                            None => final(self).fhdb@ == old(self).fhdb@,
                        }
                    }
                } else {
                    &&& r is None
                    &&& !recorded_exists && (exists|i: int| 0 <= i < views.len() && (#[trigger] views[i]).id == *filehandle_id)
                        ==> final(self).fh_views() == without_id(views, *filehandle_id)
                    &&& !(exists|i: int| 0 <= i < views.len() && (#[trigger] views[i]).id == *filehandle_id)
                        ==> final(self).fhdb@ == old(self).fhdb@
                }
            }),
    {
        let ghost views = self.fh_views();
        let ctx = AttrContext {
            lease_time: self.lease_time,
            hard_link_support: self.hard_link_support,
            symlink_support: self.symlink_support,
            unique_handles: self.unique_handles,
            named_attr: false,
            extended: false,
        };
        let found = self.get_filehandle_by_id(filehandle_id, recorded_exists);
        match found {
            None => None,
            Some(old_fh) => {
                let ghost e = old_fh@;
                match real_meta {
                    Some(meta) => {
                        let refreshed = Filehandle::new_real(
                            old_fh.path.as_str(),
                            old_fh.id,
                            self.fsid,
                            self.fsid,
                            old_fh.version,
                            meta,
                        );
                        let ans = collect_attrs(attr_request, &refreshed, &ctx, None);
                        proof {
                            let i = choose|i: int| 0 <= i < views.len() && (#[trigger] views[i]) == e;
                            assert(recorded_path(e.path) =~= e.path);
                            assert forall|j: int| 0 <= j < views.len() && (#[trigger] views[j]).path
                                == refreshed@.path implies views[j].id == refreshed.id by {
                                if i != j {
                                    assert(views[j].path != views[i].path);
                                }
                            }
                        }
                        self.update_filehandle(refreshed);
                        Some(ans)
                    },
                    None => Some(collect_attrs(attr_request, &old_fh, &ctx, None)),
                }
            },
        }
    }

    /// Refreshes the entry of `filehandle` from `real_meta` (or, where `stat`
    /// gave nothing, from what the VFS reports), advancing its version.
    pub fn touch_filehandle(
        &mut self,
        filehandle: Filehandle,
        real_meta: Option<&RealMeta>,
        is_dir: bool,
        size: u64,
    )
        requires
            fhdb_wf(old(self).fh_views()),
            forall|i: int| 0 <= i < old(self).fh_views().len() && (#[trigger] old(self).fh_views()[i]).path
                == recorded_path(filehandle@.path) ==> old(self).fh_views()[i].id == filehandle.id,
            filehandle.version < u64::MAX,
            real_meta matches Some(m) ==> m.blocks <= u64::MAX / 512,
        ensures
            fhdb_wf(final(self).fh_views()),
            final(self).same_but_fhdb(old(self)),
            final(self).next_fh_id == old(self).next_fh_id,
            exists|v: FilehandleView| {
                &&& final(self).fh_views() == without_id(old(self).fh_views(), filehandle.id).push(v)
                &&& v.id == filehandle.id
                &&& v.path == recorded_path(filehandle@.path)
                &&& v.version == filehandle.version + 1
                &&& (real_meta matches Some(m) ==> v == real_view(
                    filehandle@.path,
                    filehandle.id,
                    old(self).fsid,
                    old(self).fsid,
                    filehandle.version,
                    *m,
                ))
                &&& (real_meta is None ==> fallback_view(
                    v,
                    filehandle@.path,
                    is_dir,
                    size,
                    filehandle.id,
                    old(self).fsid,
                    old(self).fsid,
                    filehandle.version,
                ))
            },
    {
        let fh = match real_meta {
            Some(meta) => Filehandle::new_real(
                filehandle.path.as_str(),
                filehandle.id,
                self.fsid,
                self.fsid,
                filehandle.version,
                meta,
            ),
            None => Filehandle::new(
                filehandle.path.as_str(),
                is_dir,
                size,
                filehandle.id,
                self.fsid,
                self.fsid,
                filehandle.version,
            ),
        };
        let id = filehandle.id;
        self.remove_fh_by_id(&id);
        proof {
            lemma_without_id(old(self).fh_views(), id, recorded_path(filehandle@.path));
        }
        self.insert_fh(fh);
    }
}

/// Dropping an id that no entry has leaves the table as it is.
proof fn lemma_without_absent_id(db: Seq<FilehandleView>, id: NfsFh4)
    requires
        forall|i: int| 0 <= i < db.len() ==> (#[trigger] db[i]).id != id,
    ensures
        without_id(db, id) == db,
    decreases db.len(),
{
    reveal(Seq::filter);
    if db.len() > 0 {
        lemma_without_absent_id(db.drop_last(), id);
        assert(db.drop_last().push(db.last()) =~= db);
    } else {
        assert(without_id(db, id) =~= db);
    }
}

/// After dropping the entry with id `id` from a table where only that id
/// records path `p`, no entry has that id or path.
proof fn lemma_without_id(db: Seq<FilehandleView>, id: NfsFh4, p: Seq<char>)
    requires
        forall|i: int| 0 <= i < db.len() && (#[trigger] db[i]).path == p ==> db[i].id == id,
    ensures
        forall|j: int| 0 <= j < without_id(db, id).len()
            ==> (#[trigger] without_id(db, id)[j]).id != id && without_id(db, id)[j].path != p,
{
    let pred = |f: FilehandleView| f.id != id;
    assert forall|j: int| 0 <= j < without_id(db, id).len()
        implies (#[trigger] without_id(db, id)[j]).id != id && without_id(db, id)[j].path != p by {
        let e = without_id(db, id)[j];
        db.lemma_filter_pred(pred, j);
        assert(db.filter(pred).contains(e));
        db.lemma_filter_contains_rev(pred, e);
        let k = choose|k: int| 0 <= k < db.len() && db[k] == e;
    }
}

/// The entries that RELEASE_LOCKOWNER for `owner` of `client_id` keeps.
pub open spec fn kept_by_release(client_id: u64, owner: Seq<u8>) -> spec_fn(LockingStateView) -> bool {
    |l: LockingStateView| !released_with_owner(l, client_id, owner)
}

/// Whether RELEASE_LOCKOWNER for `owner` of `client_id` removes entry `l`.
pub open spec fn released_with_owner(l: LockingStateView, client_id: u64, owner: Seq<u8>) -> bool {
    l.client_id == client_id && l.lock_type == LockType::ByteRange && l.owner == owner
}

proof fn lemma_wf_push_drawn(kept: Seq<LockingStateView>, locks: Seq<LockingStateView>, i: int, next: u64)
    requires
        lock_table_wf(kept, next),
        lock_table_wf(locks, next),
        drawn_from(kept, locks, i),
        0 <= i < locks.len(),
    ensures
        lock_table_wf(kept.push(locks[i]), next),
        drawn_from(kept.push(locks[i]), locks, i + 1),
{
    let nk = kept.push(locks[i]);
    let n = kept.len() as int;
    assert forall|k: int| 0 <= k < nk.len() implies exists|m: int| 0 <= m < i + 1 && #[trigger] nk[k] == locks[m] by {
        if k == n {
            assert(nk[k] == locks[i]);
        } else {
            assert(nk[k] == kept[k]);
            let m = choose|m: int| 0 <= m < i && kept[k] == locks[m];
        }
    }
    assert forall|a: int| 0 <= a < nk.len() implies {
        &&& #[trigger] nk[a].stateid == stateid_seq(stateid_number(nk[a].stateid))
        &&& stateid_number(nk[a].stateid) < next
        &&& nk[a].seqid < u32::MAX
    } by {
        if a == n {
            assert(nk[a] == locks[i]);
        } else {
            assert(nk[a] == kept[a]);
        }
    }
    assert forall|a: int, b: int|
        #![trigger nk[a], nk[b]]
        0 <= a < nk.len() && 0 <= b < nk.len() && a != b implies nk[a].stateid != nk[b].stateid by {
        if a == n {
            let mb = choose|m: int| 0 <= m < i && kept[b] == locks[m];
            assert(nk[b] == locks[mb]);
            assert(locks[i].stateid != locks[mb].stateid);
        } else if b == n {
            let ma = choose|m: int| 0 <= m < i && kept[a] == locks[m];
            assert(nk[a] == locks[ma]);
            assert(locks[ma].stateid != locks[i].stateid);
        } else {
            assert(nk[a] == kept[a] && nk[b] == kept[b]);
        }
    }
    assert forall|a: int, b: int|
        #![trigger nk[a], nk[b]]
        0 <= a < nk.len() && 0 <= b < nk.len() && nk[a].filehandle_id == nk[b].filehandle_id
            implies !held_locks_conflict(nk[a], nk[b]) by {
        let ma = if a == n { i } else { choose|m: int| 0 <= m < i && kept[a] == locks[m] };
        let mb = if b == n { i } else { choose|m: int| 0 <= m < i && kept[b] == locks[m] };
        assert(nk[a] == locks[ma]);
        assert(nk[b] == locks[mb]);
    }
}

} // verus!
