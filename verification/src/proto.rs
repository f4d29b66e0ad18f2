//! Protocol values of NFSv4.0 (RFC 7530) that the server logic reads and produces.

use vstd::prelude::*;

verus! {

/// An NFSv4 filehandle as handed to clients: 26 opaque bytes.
pub type NfsFh4 = [u8; 26];

/// NFSv4 status codes (RFC 7530, Section 13).
#[derive(Debug, Clone, Copy, PartialEq, Eq, Structural)]
pub enum NfsStat4 {
    Nfs4Ok,
    Nfs4errPerm,
    Nfs4errNoent,
    Nfs4errIo,
    Nfs4errAccess,
    Nfs4errExist,
    Nfs4errNotdir,
    Nfs4errIsdir,
    Nfs4errInval,
    Nfs4errFbig,
    Nfs4errNospc,
    Nfs4errRofs,
    Nfs4errNametoolong,
    Nfs4errNotempty,
    Nfs4errDquot,
    Nfs4errStale,
    Nfs4errBadhandle,
    Nfs4errBadtype,
    Nfs4errNotsupp,
    Nfs4errServerfault,
    Nfs4errDelay,
    Nfs4errSame,
    Nfs4errDenied,
    Nfs4errExpired,
    Nfs4errLocked,
    Nfs4errGrace,
    Nfs4errFhexpired,
    Nfs4errShareDenied,
    Nfs4errClidInuse,
    Nfs4errMoved,
    Nfs4errNofilehandle,
    Nfs4errMinorVersMismatch,
    Nfs4errStaleClientid,
    Nfs4errStaleStateid,
    Nfs4errOldStateid,
    Nfs4errBadStateid,
    Nfs4errBadSeqid,
    Nfs4errNotSame,
    Nfs4errLockRange,
    Nfs4errSymlink,
    Nfs4errRestorefh,
    Nfs4errAttrnotsupp,
    Nfs4errNoGrace,
    Nfs4errReclaimBad,
    Nfs4errBadxdr,
    Nfs4errLocksHeld,
    Nfs4errOpenmode,
    Nfs4errBadowner,
    Nfs4errBadchar,
    Nfs4errBadname,
    Nfs4errBadRange,
    Nfs4errLockNotsupp,
    Nfs4errOpIllegal,
    Nfs4errDeadlock,
    Nfs4errFileOpen,
    Nfs4errAdminRevoked,
    Nfs4errCbPathDown,
    Nfs4errBadSession,
    Nfs4errBadSlot,
}

/// Byte-range lock types (RFC 7530, Section 16.10).
#[derive(Debug, Clone, Copy, PartialEq, Eq, Structural)]
pub enum NfsLockType4 {
    ReadLt,
    WriteLt,
    ReadwLt,
    WritewLt,
}

/// A state identifier: a sequence number and twelve opaque bytes.
#[derive(Debug, Clone, Copy, PartialEq, Eq)]
pub struct Stateid4 {
    pub seqid: u32,
    pub other: [u8; 12],
}

/// A time value: seconds and nanoseconds since the epoch.
#[derive(Debug, Clone, Copy, PartialEq, Eq, Structural)]
pub struct Nfstime4 {
    pub seconds: i64,
    pub nseconds: u32,
}

/// A file system identifier.
#[derive(Debug, Clone, Copy, PartialEq, Eq, Structural)]
pub struct Fsid4 {
    pub major: u64,
    pub minor: u64,
}

/// File types (RFC 7530, Section 3.3.4).
#[derive(Debug, Clone, Copy, PartialEq, Eq, Structural)]
pub enum NfsFtype4 {
    Nf4Undef,
    Nf4reg,
    Nf4dir,
    Nf4blk,
    Nf4chr,
    Nf4lnk,
    Nf4sock,
    Nf4fifo,
    Nf4attrdir,
    Nf4namedattr,
}

/// One access control entry of an NFSv4 ACL.
#[derive(Debug, Clone, PartialEq, Eq)]
pub struct Nfsace4 {
    pub acetype: u32,
    pub flag: u32,
    pub access_mask: u32,
    pub who: String,
}

/// One server location of a file system.
#[derive(Debug, Clone, PartialEq, Eq)]
pub struct FsLocation4 {
    pub server: Vec<String>,
    pub rootpath: Vec<String>,
}

/// The `fs_locations` attribute.
#[derive(Debug, Clone, PartialEq, Eq)]
pub struct FsLocations4 {
    pub fs_root: Vec<String>,
    pub locations: Vec<FsLocation4>,
}

/// File attributes that a client can ask for by number.
#[derive(Debug, Clone, Copy, PartialEq, Eq, Structural)]
pub enum FileAttr {
    SupportedAttrs,
    Type,
    FhExpireType,
    Change,
    Size,
    LinkSupport,
    SymlinkSupport,
    NamedAttr,
    Fsid,
    UniqueHandles,
    LeaseTime,
    RdattrError,
    Acl,
    AclSupport,
    Archive,
    Cansettime,
    CaseInsensitive,
    CasePreserving,
    ChownRestricted,
    Filehandle,
    Fileid,
    FilesAvail,
    FilesFree,
    FilesTotal,
    FsLocations,
    Hidden,
    Homogeneous,
    Maxfilesize,
    Maxlink,
    Maxname,
    Maxread,
    Maxwrite,
    Mimetype,
    Mode,
    NoTrunc,
    Numlinks,
    Owner,
    OwnerGroup,
    QuotaAvailHard,
    QuotaAvailSoft,
    QuotaUsed,
    Rawdev,
    SpaceAvail,
    SpaceFree,
    SpaceTotal,
    SpaceUsed,
    System,
    TimeAccess,
    TimeAccessSet,
    TimeBackup,
    TimeCreate,
    TimeDelta,
    TimeMetadata,
    TimeModify,
    TimeModifySet,
    MountedOnFileid,
}

/// The value of one file attribute.
#[derive(Debug, Clone, PartialEq, Eq)]
pub enum FileAttrValue {
    SupportedAttrs(Vec<FileAttr>),
    Type(NfsFtype4),
    FhExpireType(u32),
    Change(u64),
    Size(u64),
    LinkSupport(bool),
    SymlinkSupport(bool),
    NamedAttr(bool),
    Fsid(Fsid4),
    UniqueHandles(bool),
    LeaseTime(u32),
    RdattrError(NfsStat4),
    Acl(Vec<Nfsace4>),
    AclSupport(u32),
    Archive(bool),
    Cansettime(bool),
    CaseInsensitive(bool),
    CasePreserving(bool),
    ChownRestricted(bool),
    Filehandle(NfsFh4),
    Fileid(u64),
    FilesAvail(u64),
    FilesFree(u64),
    FilesTotal(u64),
    FsLocations(FsLocations4),
    Hidden(bool),
    Homogeneous(bool),
    Maxfilesize(u64),
    Maxlink(u32),
    Maxname(u32),
    Maxread(u64),
    Maxwrite(u64),
    Mode(u32),
    NoTrunc(bool),
    Numlinks(u32),
    Owner(String),
    OwnerGroup(String),
    QuotaAvailHard(u64),
    QuotaAvailSoft(u64),
    QuotaUsed(u64),
    SpaceAvail(u64),
    SpaceFree(u64),
    SpaceTotal(u64),
    SpaceUsed(u64),
    System(bool),
    TimeAccess(Nfstime4),
    TimeAccessSet(Nfstime4),
    TimeCreate(Nfstime4),
    TimeDelta(Nfstime4),
    TimeMetadata(Nfstime4),
    TimeModify(Nfstime4),
    TimeModifySet,
    MountedOnFileid(u64),
}

/// The device numbers of a block or character device.
#[derive(Debug, Clone, Copy, PartialEq, Eq, Structural)]
pub struct Specdata4 {
    pub specdata1: u32,
    pub specdata2: u32,
}

/// The kind of object CREATE is asked to make, with its data.
#[derive(Debug, Clone)]
pub enum Createtype4 {
    /// A symbolic link to the given target.
    Nf4lnk(String),
    Nf4blk(Specdata4),
    Nf4chr(Specdata4),
    Nf4sock,
    Nf4fifo,
    Nf4dir,
}

/// How a directory changed across an operation.
#[derive(Debug, Clone, Copy, PartialEq, Eq, Structural)]
pub struct ChangeInfo4 {
    pub atomic: bool,
    pub before: u64,
    pub after: u64,
}

/// A set of attributes and their values, as sent on the wire.
#[derive(Debug, Clone, PartialEq, Eq)]
pub struct Fattr4 {
    pub attrmask: Vec<FileAttr>,
    pub attr_vals: Vec<FileAttrValue>,
}

/// One directory entry of a READDIR reply.
#[derive(Debug)]
pub struct Entry4 {
    pub name: String,
    pub cookie: u64,
    pub attrs: Fattr4,
    pub nextentry: Option<Box<Entry4>>,
}

/// ACE type: access allowed.
pub const ACE4_ACCESS_ALLOWED_ACE_TYPE: u32 = 0;
/// ACE flag: the `who` field names a group.
pub const ACE4_IDENTIFIER_GROUP: u32 = 0x40;
pub const ACE4_READ_DATA: u32 = 0x1;
pub const ACE4_WRITE_DATA: u32 = 0x2;
pub const ACE4_APPEND_DATA: u32 = 0x4;
pub const ACE4_EXECUTE: u32 = 0x20;
pub const ACE4_DELETE_CHILD: u32 = 0x40;
pub const ACE4_READ_ATTRIBUTES: u32 = 0x80;
pub const ACE4_WRITE_ATTRIBUTES: u32 = 0x100;
pub const ACE4_DELETE: u32 = 0x10000;
pub const ACE4_READ_ACL: u32 = 0x20000;
pub const ACE4_WRITE_ACL: u32 = 0x40000;
pub const ACE4_WRITE_OWNER: u32 = 0x80000;
pub const ACE4_SYNCHRONIZE: u32 = 0x100000;
/// `aclsupport` bit: ALLOW entries are supported.
pub const ACL4_SUPPORT_ALLOW_ACL: u32 = 0x1;
/// `fh_expire_type`: filehandles never expire.
pub const FH4_PERSISTENT: u32 = 0x0;

/// ACCESS operation bits (RFC 7530, Section 16.1).
pub const ACCESS4_READ: u32 = 0x1;
pub const ACCESS4_LOOKUP: u32 = 0x2;
pub const ACCESS4_MODIFY: u32 = 0x4;
pub const ACCESS4_EXTEND: u32 = 0x8;
pub const ACCESS4_DELETE: u32 = 0x10;
pub const ACCESS4_EXECUTE: u32 = 0x20;

} // verus!
