//! The checks and arithmetic of operations that write to the file system:
//! CREATE's preconditions, COPY's byte count and chunking, how I/O failures
//! map to NFS status codes, and the dirty state of a write cache.

use vstd::prelude::*;

use crate::export_manager::{write_allowed, QuotaManager};
use crate::proto::{ChangeInfo4, Createtype4, NfsStat4};
use vstd::string::{StrSliceExecFns, StringExecFns};

verus! {

/// The kinds of I/O failure that the server tells apart.
#[derive(Debug, Clone, Copy, PartialEq, Eq, Structural)]
pub enum IoFailure {
    PermissionDenied,
    AlreadyExists,
    Other,
}

/// The status a failed file system call is reported with: ACCESS for a
/// permission failure, EXIST for an existing target, else IO.
pub fn io_failure_status(kind: IoFailure) -> (s: NfsStat4)
    ensures
        s == (match kind {
            IoFailure::PermissionDenied => NfsStat4::Nfs4errAccess,
            IoFailure::AlreadyExists => NfsStat4::Nfs4errExist,
            IoFailure::Other => NfsStat4::Nfs4errIo,
        }),
{
    match kind {
        IoFailure::PermissionDenied => NfsStat4::Nfs4errAccess,
        IoFailure::AlreadyExists => NfsStat4::Nfs4errExist,
        IoFailure::Other => NfsStat4::Nfs4errIo,
    }
}

/// The status CREATE stops with before touching the file system: FHEXPIRED
/// without a current filehandle, INVAL for an empty name, DQUOT where the
/// export's quota (if any) admits no further write; `None` lets it proceed.
pub fn create_precheck(has_current_fh: bool, objname: &str, quota_admits: Option<bool>) -> (r: Option<NfsStat4>)
    ensures
        r == (if !has_current_fh {
            Some(NfsStat4::Nfs4errFhexpired)
        } else if objname@.len() == 0 {
            Some(NfsStat4::Nfs4errInval)
        } else if quota_admits == Some(false) {
            Some(NfsStat4::Nfs4errDquot)
        } else {
            None
        }),
{
    if !has_current_fh {
        Some(NfsStat4::Nfs4errFhexpired)
    } else if objname.is_empty() {
        Some(NfsStat4::Nfs4errInval)
    } else {
        match quota_admits {
            Some(false) => Some(NfsStat4::Nfs4errDquot),
            _ => None,
        }
    }
}

/// What CREATE makes once its checks pass.
#[derive(Debug, Clone)]
pub enum CreateObject {
    /// A symbolic link to the given target.
    Symlink(String),
    /// A directory.
    Directory,
}

/// What CREATE does once its checks pass: the object to make, and whether
/// it goes into the parent of the current filehandle's file (where the
/// current filehandle is a file) rather than into the current directory.
#[derive(Debug, Clone)]
pub struct CreatePlan {
    pub object: CreateObject,
    pub in_parent: bool,
}

/// CREATE up to the file system call: the checks of [`create_precheck`],
/// then BADTYPE for any object type other than a symbolic link or a
/// directory.
pub fn create_plan(
    has_current_fh: bool,
    current_is_file: bool,
    objname: &str,
    quota_admits: Option<bool>,
    objtype: &Createtype4,
) -> (r: Result<CreatePlan, NfsStat4>)
    ensures
        !has_current_fh ==> r == Err::<CreatePlan, NfsStat4>(NfsStat4::Nfs4errFhexpired),
        has_current_fh && objname@.len() == 0 ==> r == Err::<CreatePlan, NfsStat4>(NfsStat4::Nfs4errInval),
        has_current_fh && objname@.len() != 0 && quota_admits == Some(false)
            ==> r == Err::<CreatePlan, NfsStat4>(NfsStat4::Nfs4errDquot),
        has_current_fh && objname@.len() != 0 && quota_admits != Some(false) ==> match *objtype {
            Createtype4::Nf4lnk(target) => (r matches Ok(p) && p.in_parent == current_is_file
                && (p.object matches CreateObject::Symlink(t) && t@ == target@)),
            Createtype4::Nf4dir => (r matches Ok(p) && p.in_parent == current_is_file
                && (p.object matches CreateObject::Directory)),
            _ => r == Err::<CreatePlan, NfsStat4>(NfsStat4::Nfs4errBadtype),
        },
{
    if let Some(e) = create_precheck(has_current_fh, objname, quota_admits) {
        return Err(e);
    }
    match objtype {
        Createtype4::Nf4lnk(target) => {
            let t = target.clone();
            Ok(CreatePlan { object: CreateObject::Symlink(t), in_parent: current_is_file })
        },
        Createtype4::Nf4dir => Ok(CreatePlan { object: CreateObject::Directory, in_parent: current_is_file }),
        _ => Err(NfsStat4::Nfs4errBadtype),
    }
}

/// The change info CREATE reports: the new object's change attribute as both
/// the value before and after, atomically.
pub fn create_cinfo(change: u64) -> (c: ChangeInfo4)
    ensures
        c == (ChangeInfo4 { atomic: true, before: change, after: change }),
{
    ChangeInfo4 { atomic: true, before: change, after: change }
}

/// The status COPY stops with before reading: FHEXPIRED without a current
/// (destination) or saved (source) filehandle, DQUOT where the quota (if
/// any) does not admit the requested count; `None` lets it proceed.
pub fn copy_precheck(has_current_fh: bool, has_saved_fh: bool, quota_admits: Option<bool>) -> (r: Option<NfsStat4>)
    ensures
        r == (if !has_current_fh || !has_saved_fh {
            Some(NfsStat4::Nfs4errFhexpired)
        } else if quota_admits == Some(false) {
            Some(NfsStat4::Nfs4errDquot)
        } else {
            None
        }),
{
    if !has_current_fh || !has_saved_fh {
        Some(NfsStat4::Nfs4errFhexpired)
    } else {
        match quota_admits {
            Some(false) => Some(NfsStat4::Nfs4errDquot),
            _ => None,
        }
    }
}

/// How many bytes COPY moves: what the source holds past the offset, and no
/// more than asked for unless 0 was asked for (to the end of the file).
pub open spec fn copy_count_spec(src_size: u64, src_offset: u64, requested: u64) -> u64 {
    let available: u64 = if src_size > src_offset { (src_size - src_offset) as u64 } else { 0 };
    if requested == 0 {
        available
    } else if requested < available {
        requested
    } else {
        available
    }
}

/// How many bytes COPY moves.
pub fn copy_count(src_size: u64, src_offset: u64, requested: u64) -> (n: u64)
    ensures
        n == copy_count_spec(src_size, src_offset, requested),
        n <= src_size,
        requested != 0 ==> n <= requested,
{
    let available = src_size.saturating_sub(src_offset);
    if requested == 0 {
        available
    } else if requested < available {
        requested
    } else {
        available
    }
}

/// The size of COPY's chunks: 256 KiB.
pub const COPY_CHUNK: u64 = 262144;

/// The size of the next chunk to read when `copied` of `total` bytes have
/// been copied: the rest, but at most one chunk.
pub fn next_copy_chunk(total: u64, copied: u64) -> (n: u64)
    requires
        copied <= total,
    ensures
        n == (if total - copied < COPY_CHUNK { total - copied } else { COPY_CHUNK as int }),
        copied + n <= total,
{
    let rest = total - copied;
    if rest < COPY_CHUNK {
        rest
    } else {
        COPY_CHUNK
    }
}

/// How many bytes READ reads: what was asked for, but no more than the file
/// holds past the offset.
pub fn read_size(file_size: u64, offset: u64, count: u32) -> (n: u64)
    ensures
        n == (if file_size > offset {
            if (count as int) < file_size - offset { count as int } else { file_size - offset }
        } else {
            0
        }),
{
    let remaining = file_size.saturating_sub(offset);
    if (count as u64) < remaining {
        count as u64
    } else {
        remaining
    }
}

/// Whether a READ of `bytes_read` bytes at `offset` reached the end of a file
/// of `file_size` bytes.
pub fn read_eof(offset: u64, bytes_read: u64, file_size: u64) -> (eof: bool)
    ensures
        eof == (offset + bytes_read >= file_size),
{
    offset as u128 + bytes_read as u128 >= file_size as u128
}

/// What SEEK looks for.
#[derive(Debug, Clone, Copy, PartialEq, Eq, Structural)]
pub enum SeekWhat {
    Data,
    Hole,
}

/// SEEK's answer on a file without holes: at or past the end, the end of the
/// file with eof set; data starts at the offset itself; the only hole is at
/// the end of the file.
pub fn seek_result(offset: u64, file_size: u64, what: SeekWhat) -> (r: (bool, u64))
    ensures
        r == (if offset >= file_size {
            (true, file_size)
        } else {
            match what {
                SeekWhat::Data => (false, offset),
                SeekWhat::Hole => (false, file_size),
            }
        }),
{
    if offset >= file_size {
        return (true, file_size);
    }
    match what {
        SeekWhat::Data => (false, offset),
        SeekWhat::Hole => (false, file_size),
    }
}

/// `s` without its trailing slashes.
pub open spec fn trim_trailing_slashes(s: Seq<char>) -> Seq<char>
    decreases s.len(),
{
    if s.len() > 0 && s.last() == '/' {
        trim_trailing_slashes(s.drop_last())
    } else {
        s
    }
}

/// The path RENAME uses for entry `name` of directory `dir`: the directory
/// without trailing slashes, a slash, and the name.
pub open spec fn entry_path_spec(dir: Seq<char>, name: Seq<char>) -> Seq<char> {
    trim_trailing_slashes(dir).push('/') + name
}

/// The path RENAME uses for entry `name` of directory `dir`.
pub fn entry_path(dir: &str, name: &str) -> (p: String)
    ensures
        p@ == entry_path_spec(dir@, name@),
{
    let mut n = dir.unicode_len();
    assert(dir@.subrange(0, n as int) =~= dir@);
    while n > 0 && dir.get_char(n - 1) == '/'
        invariant
            n <= dir@.len(),
            trim_trailing_slashes(dir@.subrange(0, n as int)) == trim_trailing_slashes(dir@),
        decreases n,
    {
        assert(dir@.subrange(0, n as int).drop_last() =~= dir@.subrange(0, n - 1));
        n = n - 1;
    }
    let head = dir.substring_char(0, n);
    proof {
        reveal_strlit("/");
        if n > 0 {
            assert(dir@.subrange(0, n as int).last() == dir@[n - 1]);
        }
    }
    let mut p = head.to_owned();
    p.append("/");
    p.append(name);
    p
}

/// RENAME's status before touching the file system: NOFILEHANDLE without a
/// saved (source) or current (target) directory.
pub fn rename_precheck(has_saved_fh: bool, has_current_fh: bool) -> (r: Option<NfsStat4>)
    ensures
        r == (if !has_saved_fh || !has_current_fh { Some(NfsStat4::Nfs4errNofilehandle) } else { None }),
{
    if !has_saved_fh || !has_current_fh {
        Some(NfsStat4::Nfs4errNofilehandle)
    } else {
        None
    }
}

/// The change information reported for a directory changed by one
/// operation: atomic, from its change attribute to one past it.
pub fn bumped_change(change: u64) -> (c: ChangeInfo4)
    requires
        change < u64::MAX,
    ensures
        c == (ChangeInfo4 { atomic: true, before: change, after: (change + 1) as u64 }),
{
    ChangeInfo4 { atomic: true, before: change, after: change + 1 }
}

/// What a COPY reply carries once the bytes are written: the count of bytes
/// copied, whether it is committed to stable storage (FILE_SYNC), and
/// whether it was copied consecutively and synchronously. The reply's write
/// verifier is all zeros and it carries no callback id.
#[derive(Debug, Clone, Copy, PartialEq, Eq, Structural)]
pub struct CopyReply {
    pub wr_count: u64,
    pub file_sync: bool,
    pub consecutive: bool,
    pub synchronous: bool,
}

/// The reply of a COPY that copied `total_copied` bytes.
pub fn copy_reply(total_copied: u64) -> (r: CopyReply)
    ensures
        r == (CopyReply {
            wr_count: total_copied,
            file_sync: true,
            consecutive: true,
            synchronous: true,
        }),
{
    CopyReply { wr_count: total_copied, file_sync: true, consecutive: true, synchronous: true }
}

/// The end of a COPY that wrote `total_copied` bytes: they are recorded
/// against the export's quota, where it has one, and the reply reports them.
pub fn finish_copy(quota: &mut Option<QuotaManager>, total_copied: u64) -> (r: CopyReply)
    ensures
        r == copy_reply_spec(total_copied),
        match *old(quota) {
            Some(q) => *final(quota) == Some(QuotaManager {
                config: q.config,
                bytes_used: ((q.bytes_used + total_copied) % 0x1_0000_0000_0000_0000) as u64,
            }),
            None => final(quota).is_none(),
        },
{
    if let Some(mut q) = quota.take() {
        q.record_write(total_copied);
        *quota = Some(q);
    }
    copy_reply(total_copied)
}

/// The reply of a COPY that copied `total_copied` bytes.
pub open spec fn copy_reply_spec(total_copied: u64) -> CopyReply {
    CopyReply { wr_count: total_copied, file_sync: true, consecutive: true, synchronous: true }
}

/// The status ALLOCATE stops with before touching the file: FHEXPIRED
/// without a current filehandle, DQUOT where the quota (if any) does not
/// admit `length` more bytes; `None` lets it proceed.
pub fn allocate_precheck(has_current_fh: bool, quota: Option<&QuotaManager>, length: u64) -> (r: Option<NfsStat4>)
    ensures
        r == (if !has_current_fh {
            Some(NfsStat4::Nfs4errFhexpired)
        } else if (quota matches Some(q) && !write_allowed(q.config.hard_limit_bytes, q.bytes_used, length)) {
            Some(NfsStat4::Nfs4errDquot)
        } else {
            None
        }),
{
    if !has_current_fh {
        return Some(NfsStat4::Nfs4errFhexpired);
    }
    match quota {
        Some(q) => if q.check_write(length) { None } else { Some(NfsStat4::Nfs4errDquot) },
        None => None,
    }
}

/// How many zero bytes ALLOCATE appends to a file of `file_size` bytes so
/// that it reaches `offset + length`: none where it already does.
pub fn allocate_padding(offset: u64, length: u64, file_size: u64) -> (pad: u64)
    requires
        offset + length <= u64::MAX,
    ensures
        pad == (if offset + length > file_size { offset + length - file_size } else { 0 }),
{
    let end = offset + length;
    if end > file_size { end - file_size } else { 0 }
}

/// The size of the zero chunks ALLOCATE writes: 64 KiB.
pub const ALLOCATE_CHUNK: u64 = 65536;

/// The next chunk of padding to write with `remaining` bytes left.
pub fn next_pad_chunk(remaining: u64) -> (n: u64)
    ensures
        n == (if remaining < ALLOCATE_CHUNK { remaining } else { ALLOCATE_CHUNK }),
{
    if remaining < ALLOCATE_CHUNK { remaining } else { ALLOCATE_CHUNK }
}

/// The end of an ALLOCATE that appended `pad` zero bytes: where it appended
/// any and the export has a quota, they are recorded against it.
pub fn finish_allocate(quota: &mut Option<QuotaManager>, pad: u64)
    ensures
        match *old(quota) {
            Some(q) => *final(quota) == Some(QuotaManager {
                config: q.config,
                bytes_used: if pad > 0 {
                    ((q.bytes_used + pad) % 0x1_0000_0000_0000_0000) as u64
                } else {
                    q.bytes_used
                },
            }),
            None => final(quota).is_none(),
        },
{
    if pad > 0 {
        if let Some(mut q) = quota.take() {
            q.record_write(pad);
            *quota = Some(q);
        }
    }
}

/// A write handed to a write cache: the bytes and the offset at which they go.
#[derive(Debug, Clone)]
pub struct WriteBytesRequest {
    /// Seek offset.
    pub offset: u64,
    /// Bytes to write there.
    pub data: Vec<u8>,
}

/// What a write cache does on COMMIT.
#[derive(Debug, Clone, Copy, PartialEq, Eq, Structural)]
pub struct CommitActions {
    /// Flush the file to stable storage.
    pub sync: bool,
    /// Refresh the file's filehandle.
    pub touch: bool,
}

/// The state of a write cache: whether it holds writes not yet committed.
#[derive(Debug, Clone, Copy)]
pub struct WriteCacheState {
    pub dirty: bool,
}

impl WriteCacheState {
    /// A cache with nothing written.
    pub fn new() -> (s: Self)
        ensures
            !s.dirty,
    {
        WriteCacheState { dirty: false }
    }

    /// Records the outcome of a write: a write that reached the file makes
    /// the cache dirty; a failed one changes nothing.
    pub fn on_write(&mut self, written: bool)
        ensures
            final(self).dirty == (old(self).dirty || written),
    {
        if written {
            self.dirty = true;
        }
    }

    /// COMMIT: a dirty cache is synced and its filehandle refreshed, and the
    /// cache is clean afterwards.
    pub fn on_commit(&mut self) -> (a: CommitActions)
        ensures
            a == (CommitActions { sync: old(self).dirty, touch: old(self).dirty }),
            !final(self).dirty,
    {
        let was_dirty = self.dirty;
        self.dirty = false;
        CommitActions { sync: was_dirty, touch: was_dirty }
    }
}

} // verus!
