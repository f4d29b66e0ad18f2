//! Filehandles: what the server knows of one file, built from the metadata
//! that a `stat` call returned.

use std::hash::{Hash, Hasher};

use vstd::prelude::*;

use crate::locking::{LockingState, LockingStateView};
use crate::proto::{Fsid4, NfsFh4, NfsFtype4, Nfstime4};

verus! {

/// Metadata of a file as a `stat` call reports it.
#[derive(Debug, Clone, Copy)]
pub struct RealMeta {
    pub ino: u64,
    pub dev: u64,
    pub mode: u32,
    pub nlink: u64,
    pub uid: u32,
    pub gid: u32,
    pub size: u64,
    pub blocks: u64,
    pub atime: i64,
    pub atime_nsec: i64,
    pub mtime: i64,
    pub mtime_nsec: i64,
    pub ctime: i64,
    pub ctime_nsec: i64,
}

/// What the server knows of one file.
#[derive(Debug)]
pub struct Filehandle {
    pub id: NfsFh4,
    pub path: String,
    pub attr_type: NfsFtype4,
    pub attr_change: u64,
    pub attr_size: u64,
    pub attr_fileid: u64,
    pub attr_fsid: Fsid4,
    pub attr_mode: u32,
    pub attr_nlink: u32,
    pub attr_owner: String,
    pub attr_owner_group: String,
    pub attr_space_used: u64,
    pub attr_time_access: Nfstime4,
    pub attr_time_metadata: Nfstime4,
    pub attr_time_modify: Nfstime4,
    pub verifier: Option<[u8; 8]>,
    pub locks: Vec<LockingState>,
    pub version: u64,
}

/// The abstract content of a filehandle.
pub struct FilehandleView {
    pub id: NfsFh4,
    pub path: Seq<char>,
    pub attr_type: NfsFtype4,
    pub attr_change: u64,
    pub attr_size: u64,
    pub attr_fileid: u64,
    pub attr_fsid: Fsid4,
    pub attr_mode: u32,
    pub attr_nlink: u32,
    pub attr_owner: Seq<char>,
    pub attr_owner_group: Seq<char>,
    pub attr_space_used: u64,
    pub attr_time_access: Nfstime4,
    pub attr_time_metadata: Nfstime4,
    pub attr_time_modify: Nfstime4,
    pub verifier: Option<[u8; 8]>,
    pub locks: Seq<LockingStateView>,
    pub version: u64,
}

impl View for Filehandle {
    type V = FilehandleView;

    open spec fn view(&self) -> FilehandleView {
        FilehandleView {
            id: self.id,
            path: self.path@,
            attr_type: self.attr_type,
            attr_change: self.attr_change,
            attr_size: self.attr_size,
            attr_fileid: self.attr_fileid,
            attr_fsid: self.attr_fsid,
            attr_mode: self.attr_mode,
            attr_nlink: self.attr_nlink,
            attr_owner: self.attr_owner@,
            attr_owner_group: self.attr_owner_group@,
            attr_space_used: self.attr_space_used,
            attr_time_access: self.attr_time_access,
            attr_time_metadata: self.attr_time_metadata,
            attr_time_modify: self.attr_time_modify,
            verifier: self.verifier,
            locks: self.locks@.map_values(|l: LockingState| l@),
            version: self.version,
        }
    }
}

/// The filehandle content that `stat` metadata `m` gives the file at
/// `vfs_path` whose stored version was `version`.
pub open spec fn real_view(
    vfs_path: Seq<char>,
    id: NfsFh4,
    major: u64,
    minor: u64,
    version: u64,
    m: RealMeta,
) -> FilehandleView {
    FilehandleView {
        id,
        path: recorded_path(vfs_path),
        attr_type: ftype_of_mode_bits(m.mode & MODE_TYPE_MASK),
        attr_change: change_stamp(m.mtime, m.mtime_nsec),
        attr_size: m.size,
        attr_fileid: m.ino,
        attr_fsid: Fsid4 { major, minor },
        attr_mode: m.mode & 0o7777u32,
        attr_nlink: m.nlink as u32,
        attr_owner: decimal(m.uid as nat),
        attr_owner_group: decimal(m.gid as nat),
        attr_space_used: (m.blocks * 512) as u64,
        attr_time_access: Nfstime4 { seconds: m.atime, nseconds: m.atime_nsec as u32 },
        attr_time_metadata: Nfstime4 { seconds: m.ctime, nseconds: m.ctime_nsec as u32 },
        attr_time_modify: Nfstime4 { seconds: m.mtime, nseconds: m.mtime_nsec as u32 },
        verifier: None,
        locks: Seq::empty(),
        version: (version + 1) as u64,
    }
}

/// Whether `v` is what a filehandle for `vfs_path` holds when no `stat` of
/// it could be had: the VFS's `is_dir` and `size`, fixed defaults, and one
/// clock reading for all three times, and the hash of the recorded path as
/// its file id.
pub open spec fn fallback_view(
    v: FilehandleView,
    vfs_path: Seq<char>,
    is_dir: bool,
    size: u64,
    id: NfsFh4,
    major: u64,
    minor: u64,
    version: u64,
) -> bool {
    &&& v.id == id
    &&& v.path == recorded_path(vfs_path)
    &&& v.version == version + 1
    &&& v.attr_type == (if is_dir { NfsFtype4::Nf4dir } else { NfsFtype4::Nf4reg })
    &&& v.attr_mode == (if is_dir { 0o755u32 } else { 0o644u32 })
    &&& v.attr_change == version + 1
    &&& v.attr_size == size
    &&& v.attr_space_used == size
    &&& v.attr_fileid == default_hash_of(recorded_path(vfs_path))
    &&& v.attr_fsid == (Fsid4 { major, minor })
    &&& v.attr_nlink == 1
    &&& v.attr_owner == seq!['0']
    &&& v.attr_owner_group == seq!['0']
    &&& v.attr_time_access == v.attr_time_modify
    &&& v.attr_time_metadata == v.attr_time_modify
    &&& v.attr_time_modify.nseconds < 1_000_000_000
    &&& v.verifier is None
    &&& v.locks.len() == 0
}

/// The mask of the POSIX file-type bits of a mode (`S_IFMT`).
pub const MODE_TYPE_MASK: u32 = 0o170000;

/// POSIX file-type bits of a directory (`S_IFDIR`).
pub const MODE_DIR: u32 = 0o040000;
/// POSIX file-type bits of a regular file (`S_IFREG`).
pub const MODE_REG: u32 = 0o100000;
/// POSIX file-type bits of a symbolic link (`S_IFLNK`).
pub const MODE_LNK: u32 = 0o120000;
/// POSIX file-type bits of a block device (`S_IFBLK`).
pub const MODE_BLK: u32 = 0o060000;
/// POSIX file-type bits of a character device (`S_IFCHR`).
pub const MODE_CHR: u32 = 0o020000;
/// POSIX file-type bits of a FIFO (`S_IFIFO`).
pub const MODE_FIFO: u32 = 0o010000;
/// POSIX file-type bits of a socket (`S_IFSOCK`).
pub const MODE_SOCK: u32 = 0o140000;

/// The NFS file type of the file-type bits `t` of a POSIX mode.
pub open spec fn ftype_of_mode_bits(t: u32) -> NfsFtype4 {
    if t == MODE_DIR {
        NfsFtype4::Nf4dir
    } else if t == MODE_REG {
        NfsFtype4::Nf4reg
    } else if t == MODE_LNK {
        NfsFtype4::Nf4lnk
    } else if t == MODE_BLK {
        NfsFtype4::Nf4blk
    } else if t == MODE_CHR {
        NfsFtype4::Nf4chr
    } else if t == MODE_FIFO {
        NfsFtype4::Nf4fifo
    } else if t == MODE_SOCK {
        NfsFtype4::Nf4sock
    } else {
        NfsFtype4::Nf4Undef
    }
}

/// The character of a decimal digit.
pub open spec fn digit_char(d: nat) -> char {
    (48 + d) as char
}

/// The decimal representation of `n`, without sign or leading zeros.
pub open spec fn decimal(n: nat) -> Seq<char>
    decreases n,
{
    if n < 10 {
        seq![digit_char(n)]
    } else {
        decimal(n / 10).push(digit_char(n % 10))
    }
}

/// The path that a filehandle records for a VFS path: the root is "/".
pub open spec fn recorded_path(vfs_path: Seq<char>) -> Seq<char> {
    if vfs_path.len() == 0 {
        seq!['/']
    } else {
        vfs_path
    }
}

/// The change attribute of a file modified at `secs` seconds and `nsecs`
/// nanoseconds: seconds times 10^9 plus nanoseconds, modulo 2^64.
pub open spec fn change_stamp(secs: i64, nsecs: i64) -> u64 {
    (((secs as u64) as int * 1_000_000_000 + (nsecs as u64) as int) % 0x1_0000_0000_0000_0000)
        as u64
}

/// `to_string` on a `u32` (std's `Display`): its decimal representation.
#[verifier::external_body]
fn decimal_string(n: u32) -> (s: String)
    ensures
        s@ == decimal(n as nat),
{
    n.to_string()
}

/// The value that std's `DefaultHasher`, made by `DefaultHasher::new`, gives
/// for a path string.
pub uninterp spec fn default_hash_of(path: Seq<char>) -> u64;

/// Hashes a path with a `DefaultHasher` made by `DefaultHasher::new`
/// (`Hash::hash` of the string, then `Hasher::finish`). The claim is that the
/// result is a function of the path alone: std documents that every hasher
/// made by `new` is the same, and that hasher takes no per-process seed. Its
/// algorithm is not stated.
#[verifier::external_body]
fn path_hash(path: &String) -> (h: u64)
    ensures
        h == default_hash_of(path@),
{
    let mut hasher = std::collections::hash_map::DefaultHasher::new();
    path.hash(&mut hasher);
    hasher.finish()
}

/// The path string recorded for a VFS path.
pub fn record_path(vfs_path: &str) -> (p: String)
    ensures
        p@ == recorded_path(vfs_path@),
{
    if vfs_path.is_empty() {
        proof {
            reveal_strlit("/");
        }
        "/".to_owned()
    } else {
        vfs_path.to_owned()
    }
}

fn change_from_mtime(secs: i64, nsecs: i64) -> (c: u64)
    ensures
        c == change_stamp(secs, nsecs),
{
    let m = (secs as u64).wrapping_mul(1_000_000_000);
    let c = m.wrapping_add(nsecs as u64);
    proof {
        let a = (secs as u64) as int;
        let b = (nsecs as u64) as int;
        let md: int = 0x1_0000_0000_0000_0000;
        vstd::arithmetic::div_mod::lemma_add_mod_noop(a * 1_000_000_000, b, md);
        vstd::arithmetic::div_mod::lemma_mod_twice(b, md);
        vstd::arithmetic::div_mod::lemma_small_mod(b as nat, md as nat);
        assert(m as int == (a * 1_000_000_000) % md) by {
            if a * 1_000_000_000 < md {
                vstd::arithmetic::div_mod::lemma_small_mod((a * 1_000_000_000) as nat, md as nat);
            }
        }
        assert(c as int == (m as int + b) % md) by {
            if m as int + b < md {
                vstd::arithmetic::div_mod::lemma_small_mod((m as int + b) as nat, md as nat);
            }
        }
    }
    c
}

/// Copies a table of locking state entry by entry.
pub fn clone_locks(v: &Vec<LockingState>) -> (r: Vec<LockingState>)
    ensures
        r@.map_values(|l: LockingState| l@) == v@.map_values(|l: LockingState| l@),
{
    let mut r: Vec<LockingState> = Vec::new();
    let mut i: usize = 0;
    while i < v.len()
        invariant
            i <= v.len(),
            r@.len() == i,
            forall|j: int| 0 <= j < i ==> (#[trigger] r@[j])@ == v@[j]@,
        decreases v.len() - i,
    {
        r.push(v[i].clone());
        i = i + 1;
    }
    assert(r@.map_values(|l: LockingState| l@) =~= v@.map_values(|l: LockingState| l@));
    r
}

impl Clone for Filehandle {
    fn clone(&self) -> (r: Self)
        ensures
            r@ == self@,
    {
        Filehandle {
            id: self.id,
            path: self.path.clone(),
            attr_type: self.attr_type,
            attr_change: self.attr_change,
            attr_size: self.attr_size,
            attr_fileid: self.attr_fileid,
            attr_fsid: self.attr_fsid,
            attr_mode: self.attr_mode,
            attr_nlink: self.attr_nlink,
            attr_owner: self.attr_owner.clone(),
            attr_owner_group: self.attr_owner_group.clone(),
            attr_space_used: self.attr_space_used,
            attr_time_access: self.attr_time_access,
            attr_time_metadata: self.attr_time_metadata,
            attr_time_modify: self.attr_time_modify,
            verifier: self.verifier,
            locks: clone_locks(&self.locks),
            version: self.version,
        }
    }
}

impl Filehandle {
    /// A filehandle with the attributes that `real_meta` reports of the file
    /// at `vfs_path`, whose stored version was `version`.
    pub fn new_real(
        vfs_path: &str,
        id: NfsFh4,
        major: u64,
        minor: u64,
        version: u64,
        real_meta: &RealMeta,
    ) -> (fh: Self)
        requires
            version < u64::MAX,
            real_meta.blocks <= u64::MAX / 512,
        ensures
            fh@ == real_view(vfs_path@, id, major, minor, version, *real_meta),
    {
        let path = record_path(vfs_path);
        let file_type = real_meta.mode & MODE_TYPE_MASK;
        let attr_type = if file_type == MODE_DIR {
            NfsFtype4::Nf4dir
        } else if file_type == MODE_REG {
            NfsFtype4::Nf4reg
        } else if file_type == MODE_LNK {
            NfsFtype4::Nf4lnk
        } else if file_type == MODE_BLK {
            NfsFtype4::Nf4blk
        } else if file_type == MODE_CHR {
            NfsFtype4::Nf4chr
        } else if file_type == MODE_FIFO {
            NfsFtype4::Nf4fifo
        } else if file_type == MODE_SOCK {
            NfsFtype4::Nf4sock
        } else {
            NfsFtype4::Nf4Undef
        };
        let fh = Filehandle {
            id,
            path,
            attr_type,
            attr_change: change_from_mtime(real_meta.mtime, real_meta.mtime_nsec),
            attr_size: real_meta.size,
            attr_fileid: real_meta.ino,
            attr_fsid: Fsid4 { major, minor },
            attr_mode: real_meta.mode & 0o7777,
            attr_nlink: real_meta.nlink as u32,
            attr_owner: decimal_string(real_meta.uid),
            attr_owner_group: decimal_string(real_meta.gid),
            attr_space_used: real_meta.blocks * 512,
            attr_time_access: Nfstime4 {
                seconds: real_meta.atime,
                nseconds: real_meta.atime_nsec as u32,
            },
            attr_time_metadata: Nfstime4 {
                seconds: real_meta.ctime,
                nseconds: real_meta.ctime_nsec as u32,
            },
            attr_time_modify: Nfstime4 {
                seconds: real_meta.mtime,
                nseconds: real_meta.mtime_nsec as u32,
            },
            verifier: None,
            locks: Vec::new(),
            version: version + 1,
        };
        assert(fh@.locks =~= Seq::<LockingStateView>::empty());
        fh
    }

    /// A filehandle for the file at `vfs_path` when no `stat` of it could be
    /// had: what the VFS says (`is_dir`, `size`) and fixed defaults, stamped
    /// with the current time.
    pub fn new(
        vfs_path: &str,
        is_dir: bool,
        size: u64,
        id: NfsFh4,
        major: u64,
        minor: u64,
        version: u64,
    ) -> (fh: Self)
        requires
            version < u64::MAX,
        ensures
            fallback_view(fh@, vfs_path@, is_dir, size, id, major, minor, version),
    {
        let init_time = Self::current_time();
        let path = record_path(vfs_path);
        let fileid = path_hash(&path);
        let version = version + 1;
        proof {
            reveal_strlit("0");
        }
        let fh = Filehandle {
            id,
            path,
            attr_type: if is_dir { NfsFtype4::Nf4dir } else { NfsFtype4::Nf4reg },
            attr_change: version,
            attr_size: size,
            attr_fileid: fileid,
            attr_fsid: Fsid4 { major, minor },
            attr_mode: if is_dir { 0o755 } else { 0o644 },
            attr_nlink: 1,
            attr_owner: "0".to_owned(),
            attr_owner_group: "0".to_owned(),
            attr_space_used: size,
            attr_time_access: init_time,
            attr_time_metadata: init_time,
            attr_time_modify: init_time,
            verifier: None,
            locks: Vec::new(),
            version,
        };
        assert(fh@.locks =~= Seq::<LockingStateView>::empty());
        assert(fh.attr_owner@ =~= seq!['0']);
        assert(fh.attr_owner_group@ =~= seq!['0']);
        fh
    }

    /// The synthetic filehandle of the pseudo-filesystem root.
    pub fn pseudo_root(id: NfsFh4) -> (fh: Self)
        ensures
            fh.id == id,
            fh.path@ == seq!['/'],
            fh.attr_type == NfsFtype4::Nf4dir,
            fh.attr_change == 1,
            fh.attr_size == 4096,
            fh.attr_fileid == 1,
            fh.attr_fsid == (Fsid4 { major: 0, minor: 0 }),
            fh.attr_mode == 0o755,
            fh.attr_nlink == 2,
            fh.attr_owner@ == seq!['0'],
            fh.attr_owner_group@ == seq!['0'],
            fh.attr_space_used == 4096,
            fh.attr_time_access == fh.attr_time_modify,
            fh.attr_time_metadata == fh.attr_time_modify,
            fh.attr_time_modify.nseconds < 1_000_000_000,
            fh.verifier is None,
            fh.locks@.len() == 0,
            fh.version == 1,
    {
        let now = Self::current_time();
        proof {
            reveal_strlit("/");
            reveal_strlit("0");
        }
        Filehandle {
            id,
            path: "/".to_owned(),
            attr_type: NfsFtype4::Nf4dir,
            attr_change: 1,
            attr_size: 4096,
            attr_fileid: 1,
            attr_fsid: Fsid4 { major: 0, minor: 0 },
            attr_mode: 0o755,
            attr_nlink: 2,
            attr_owner: "0".to_owned(),
            attr_owner_group: "0".to_owned(),
            attr_space_used: 4096,
            attr_time_access: now,
            attr_time_metadata: now,
            attr_time_modify: now,
            verifier: None,
            locks: Vec::new(),
            version: 1,
        }
    }

    /// The current time from the system clock (`SystemTime::now` since the
    /// epoch, or zero before it). Only the range of the nanoseconds is stated:
    /// the value depends on the clock.
    #[verifier::external_body]
    pub fn current_time() -> (t: Nfstime4)
        ensures
            t.nseconds < 1_000_000_000,
    {
        let since_epoch = std::time::SystemTime::now()
            .duration_since(std::time::UNIX_EPOCH)
            .unwrap_or_default();
        Nfstime4 { seconds: since_epoch.as_secs() as i64, nseconds: since_epoch.subsec_nanos() }
    }
}

} // verus!
