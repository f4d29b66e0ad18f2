//! File attributes as GETATTR and READDIR report them: which attributes are
//! answered, and the value of each, from a filehandle and the export's quota.

use vstd::prelude::*;

use crate::filehandle::{Filehandle, FilehandleView};
use crate::proto::{
    FileAttr, FileAttrValue, FsLocations4, Nfsace4, NfsStat4, Nfstime4,
    ACE4_ACCESS_ALLOWED_ACE_TYPE, ACE4_APPEND_DATA, ACE4_DELETE, ACE4_DELETE_CHILD, ACE4_EXECUTE,
    ACE4_IDENTIFIER_GROUP, ACE4_READ_ACL, ACE4_READ_ATTRIBUTES, ACE4_READ_DATA, ACE4_SYNCHRONIZE,
    ACE4_WRITE_ACL, ACE4_WRITE_ATTRIBUTES, ACE4_WRITE_DATA, ACE4_WRITE_OWNER,
    ACL4_SUPPORT_ALLOW_ACL, FH4_PERSISTENT,
};

verus! {

/// Export-level quota and space figures that attributes report.
#[derive(Debug, Clone, Copy, Default)]
pub struct QuotaInfo {
    pub quota_avail_hard: u64,
    pub quota_avail_soft: u64,
    pub quota_used: u64,
    pub space_avail: u64,
    pub space_free: u64,
    pub space_total: u64,
}

/// What an attribute source answers with besides the filehandle itself.
#[derive(Debug, Clone, Copy)]
pub struct AttrContext {
    pub lease_time: u32,
    pub hard_link_support: bool,
    pub symlink_support: bool,
    pub unique_handles: bool,
    /// The value reported for `named_attr`.
    pub named_attr: bool,
    /// Whether the ACL, quota, space, limit and extra time attributes are
    /// answered too, beyond the base set.
    pub extended: bool,
}

/// The write-class permissions that the `w` bit of a mode grants.
pub open spec fn ace_write_set() -> u32 {
    ACE4_WRITE_DATA | ACE4_APPEND_DATA | ACE4_WRITE_ATTRIBUTES | ACE4_WRITE_ACL | ACE4_WRITE_OWNER
        | ACE4_DELETE | ACE4_DELETE_CHILD
}

/// The ACE access mask that three POSIX permission bits (`rwx`) grant.
pub open spec fn ace_mask(bits: u32) -> u32 {
    (ACE4_READ_ATTRIBUTES | ACE4_READ_ACL | ACE4_SYNCHRONIZE)
        | (if bits & 4 != 0 { ACE4_READ_DATA } else { 0u32 })
        | (if bits & 2 != 0 { ace_write_set() } else { 0u32 })
        | (if bits & 1 != 0 { ACE4_EXECUTE } else { 0u32 })
}

/// An ALLOW entry with the given flag, mask and principal.
pub open spec fn ace_is(ace: Nfsace4, flag: u32, mask: u32, who: Seq<char>) -> bool {
    &&& ace.acetype == ACE4_ACCESS_ALLOWED_ACE_TYPE
    &&& ace.flag == flag
    &&& ace.access_mask == mask
    &&& ace.who@ == who
}

/// The principal that stands for everyone.
pub open spec fn everyone() -> Seq<char> {
    seq!['E', 'V', 'E', 'R', 'Y', 'O', 'N', 'E', '@']
}

/// The ACL that a mode gives: ALLOW entries for the owner, the group and
/// everyone, from the three permission triples.
pub open spec fn acl_of_mode(aces: Seq<Nfsace4>, mode: u32, owner: Seq<char>, group: Seq<char>) -> bool {
    &&& aces.len() == 3
    &&& ace_is(aces[0], 0, ace_mask((mode >> 6u32) & 7), owner)
    &&& ace_is(aces[1], ACE4_IDENTIFIER_GROUP, ace_mask((mode >> 3u32) & 7), group)
    &&& ace_is(aces[2], 0, ace_mask(mode & 7), everyone())
}

fn mode_bits_to_mask(bits: u32) -> (mask: u32)
    ensures
        mask == ace_mask(bits),
{
    let r = if bits & 4 != 0 { ACE4_READ_DATA } else { 0 };
    let w = if bits & 2 != 0 {
        ACE4_WRITE_DATA | ACE4_APPEND_DATA | ACE4_WRITE_ATTRIBUTES | ACE4_WRITE_ACL
            | ACE4_WRITE_OWNER | ACE4_DELETE | ACE4_DELETE_CHILD
    } else {
        0
    };
    let x = if bits & 1 != 0 { ACE4_EXECUTE } else { 0 };
    (ACE4_READ_ATTRIBUTES | ACE4_READ_ACL | ACE4_SYNCHRONIZE) | r | w | x
}

/// The NFSv4 ACL that POSIX mode bits amount to: three ALLOW entries, for
/// the owner, the group and everyone.
pub fn mode_to_acl(mode: u32, owner: &str, group: &str) -> (aces: Vec<Nfsace4>)
    ensures
        acl_of_mode(aces@, mode, owner@, group@),
{
    let owner_bits = (mode >> 6) & 7;
    let group_bits = (mode >> 3) & 7;
    let other_bits = mode & 7;
    proof {
        reveal_strlit("EVERYONE@");
    }
    let mut aces: Vec<Nfsace4> = Vec::new();
    aces.push(
        Nfsace4 {
            acetype: ACE4_ACCESS_ALLOWED_ACE_TYPE,
            flag: 0,
            access_mask: mode_bits_to_mask(owner_bits),
            who: owner.to_owned(),
        },
    );
    aces.push(
        Nfsace4 {
            acetype: ACE4_ACCESS_ALLOWED_ACE_TYPE,
            flag: ACE4_IDENTIFIER_GROUP,
            access_mask: mode_bits_to_mask(group_bits),
            who: group.to_owned(),
        },
    );
    aces.push(
        Nfsace4 {
            acetype: ACE4_ACCESS_ALLOWED_ACE_TYPE,
            flag: 0,
            access_mask: mode_bits_to_mask(other_bits),
            who: "EVERYONE@".to_owned(),
        },
    );
    assert(aces@[2].who@ =~= everyone());
    aces
}

/// The attributes answered by every attribute source.
pub open spec fn base_attr(a: FileAttr) -> bool {
    match a {
        FileAttr::SupportedAttrs | FileAttr::Type | FileAttr::LeaseTime | FileAttr::Change
        | FileAttr::Size | FileAttr::LinkSupport | FileAttr::SymlinkSupport
        | FileAttr::NamedAttr | FileAttr::AclSupport | FileAttr::Fsid
        | FileAttr::UniqueHandles | FileAttr::FhExpireType | FileAttr::RdattrError
        | FileAttr::Fileid | FileAttr::Mode | FileAttr::Numlinks | FileAttr::Owner
        | FileAttr::OwnerGroup | FileAttr::SpaceUsed | FileAttr::TimeAccess
        | FileAttr::TimeMetadata | FileAttr::TimeModify => true,
        _ => false,
    }
}

/// The attributes answered only by an extended attribute source.
pub open spec fn extended_attr(a: FileAttr) -> bool {
    match a {
        FileAttr::Acl | FileAttr::QuotaAvailHard | FileAttr::QuotaAvailSoft
        | FileAttr::QuotaUsed | FileAttr::SpaceAvail | FileAttr::SpaceFree
        | FileAttr::SpaceTotal | FileAttr::Maxfilesize | FileAttr::Maxread
        | FileAttr::Maxwrite | FileAttr::Maxlink | FileAttr::Maxname | FileAttr::Homogeneous
        | FileAttr::NoTrunc | FileAttr::Cansettime | FileAttr::ChownRestricted
        | FileAttr::CaseInsensitive | FileAttr::CasePreserving | FileAttr::FilesAvail
        | FileAttr::FilesFree | FileAttr::FilesTotal | FileAttr::FsLocations
        | FileAttr::TimeDelta | FileAttr::TimeCreate | FileAttr::MountedOnFileid => true,
        _ => false,
    }
}

/// Whether a source with context `ctx` answers attribute `a`.
pub open spec fn attr_served(a: FileAttr, ctx: AttrContext) -> bool {
    base_attr(a) || (ctx.extended && extended_attr(a))
}

/// The attributes that a source advertises in `supported_attrs`.
pub open spec fn supported_attr_list(extended: bool) -> Seq<FileAttr> {
    if extended {
        seq![
            FileAttr::SupportedAttrs, FileAttr::Type, FileAttr::FhExpireType, FileAttr::Change,
            FileAttr::Size, FileAttr::LinkSupport, FileAttr::SymlinkSupport, FileAttr::NamedAttr,
            FileAttr::Fsid, FileAttr::UniqueHandles, FileAttr::LeaseTime, FileAttr::RdattrError,
            FileAttr::Acl, FileAttr::AclSupport, FileAttr::Archive, FileAttr::Cansettime,
            FileAttr::CaseInsensitive, FileAttr::CasePreserving, FileAttr::ChownRestricted,
            FileAttr::Filehandle, FileAttr::Fileid, FileAttr::FilesAvail, FileAttr::FilesFree,
            FileAttr::FilesTotal, FileAttr::FsLocations, FileAttr::Homogeneous,
            FileAttr::Maxfilesize, FileAttr::Maxlink, FileAttr::Maxname, FileAttr::Maxread,
            FileAttr::Maxwrite, FileAttr::Mode, FileAttr::NoTrunc, FileAttr::Numlinks,
            FileAttr::Owner, FileAttr::OwnerGroup, FileAttr::QuotaAvailHard,
            FileAttr::QuotaAvailSoft, FileAttr::QuotaUsed, FileAttr::SpaceAvail,
            FileAttr::SpaceFree, FileAttr::SpaceTotal, FileAttr::SpaceUsed, FileAttr::TimeAccess,
            FileAttr::TimeCreate, FileAttr::TimeDelta, FileAttr::TimeMetadata,
            FileAttr::TimeModify, FileAttr::MountedOnFileid,
        ]
    } else {
        seq![
            FileAttr::SupportedAttrs, FileAttr::Type, FileAttr::FhExpireType, FileAttr::Change,
            FileAttr::Size, FileAttr::LinkSupport, FileAttr::SymlinkSupport, FileAttr::NamedAttr,
            FileAttr::Fsid, FileAttr::UniqueHandles, FileAttr::LeaseTime, FileAttr::RdattrError,
            FileAttr::Acl, FileAttr::AclSupport, FileAttr::Archive, FileAttr::Filehandle,
            FileAttr::Fileid, FileAttr::Mode, FileAttr::Numlinks, FileAttr::Owner,
            FileAttr::OwnerGroup, FileAttr::SpaceUsed, FileAttr::TimeAccess,
            FileAttr::TimeMetadata, FileAttr::TimeModify,
        ]
    }
}

/// The attributes that a source advertises in `supported_attrs`.
pub fn supported_attrs(extended: bool) -> (v: Vec<FileAttr>)
    ensures
        v@ == supported_attr_list(extended),
{
    if extended {
        let v = vec![
            FileAttr::SupportedAttrs, FileAttr::Type, FileAttr::FhExpireType, FileAttr::Change,
            FileAttr::Size, FileAttr::LinkSupport, FileAttr::SymlinkSupport, FileAttr::NamedAttr,
            FileAttr::Fsid, FileAttr::UniqueHandles, FileAttr::LeaseTime, FileAttr::RdattrError,
            FileAttr::Acl, FileAttr::AclSupport, FileAttr::Archive, FileAttr::Cansettime,
            FileAttr::CaseInsensitive, FileAttr::CasePreserving, FileAttr::ChownRestricted,
            FileAttr::Filehandle, FileAttr::Fileid, FileAttr::FilesAvail, FileAttr::FilesFree,
            FileAttr::FilesTotal, FileAttr::FsLocations, FileAttr::Homogeneous,
            FileAttr::Maxfilesize, FileAttr::Maxlink, FileAttr::Maxname, FileAttr::Maxread,
            FileAttr::Maxwrite, FileAttr::Mode, FileAttr::NoTrunc, FileAttr::Numlinks,
            FileAttr::Owner, FileAttr::OwnerGroup, FileAttr::QuotaAvailHard,
            FileAttr::QuotaAvailSoft, FileAttr::QuotaUsed, FileAttr::SpaceAvail,
            FileAttr::SpaceFree, FileAttr::SpaceTotal, FileAttr::SpaceUsed, FileAttr::TimeAccess,
            FileAttr::TimeCreate, FileAttr::TimeDelta, FileAttr::TimeMetadata,
            FileAttr::TimeModify, FileAttr::MountedOnFileid,
        ];
        assert(v@ =~= supported_attr_list(extended));
        v
    } else {
        let v = vec![
            FileAttr::SupportedAttrs, FileAttr::Type, FileAttr::FhExpireType, FileAttr::Change,
            FileAttr::Size, FileAttr::LinkSupport, FileAttr::SymlinkSupport, FileAttr::NamedAttr,
            FileAttr::Fsid, FileAttr::UniqueHandles, FileAttr::LeaseTime, FileAttr::RdattrError,
            FileAttr::Acl, FileAttr::AclSupport, FileAttr::Archive, FileAttr::Filehandle,
            FileAttr::Fileid, FileAttr::Mode, FileAttr::Numlinks, FileAttr::Owner,
            FileAttr::OwnerGroup, FileAttr::SpaceUsed, FileAttr::TimeAccess,
            FileAttr::TimeMetadata, FileAttr::TimeModify,
        ];
        assert(v@ =~= supported_attr_list(extended));
        v
    }
}

/// A quota figure, or zero when the export has no quota information.
pub open spec fn quota_or_zero(q: Option<QuotaInfo>, v: u64) -> u64 {
    match q {
        Some(_) => v,
        None => 0,
    }
}

/// An estimate of a file count from a byte figure: one file per 4096 bytes,
/// or unlimited when the export reports no space total.
pub open spec fn files_estimate(q: Option<QuotaInfo>, bytes: u64) -> u64 {
    match q {
        Some(q) => if q.space_total == 0 { u64::MAX } else { bytes / 4096 },
        None => u64::MAX,
    }
}

/// The figures of a quota, or all zero.
pub open spec fn quota_of(q: Option<QuotaInfo>) -> QuotaInfo {
    match q {
        Some(q) => q,
        None => QuotaInfo {
            quota_avail_hard: 0,
            quota_avail_soft: 0,
            quota_used: 0,
            space_avail: 0,
            space_free: 0,
            space_total: 0,
        },
    }
}

/// Whether `v` is the value reported for attribute `a` of the file `fh`.
pub open spec fn attr_answer(
    a: FileAttr,
    v: FileAttrValue,
    fh: FilehandleView,
    ctx: AttrContext,
    q: Option<QuotaInfo>,
) -> bool {
    let qi = quota_of(q);
    match a {
        FileAttr::SupportedAttrs => v matches FileAttrValue::SupportedAttrs(l) && l@
            == supported_attr_list(ctx.extended),
        FileAttr::Type => v == FileAttrValue::Type(fh.attr_type),
        FileAttr::LeaseTime => v == FileAttrValue::LeaseTime(ctx.lease_time),
        FileAttr::Change => v == FileAttrValue::Change(fh.attr_change),
        FileAttr::Size => v == FileAttrValue::Size(fh.attr_size),
        FileAttr::LinkSupport => v == FileAttrValue::LinkSupport(ctx.hard_link_support),
        FileAttr::SymlinkSupport => v == FileAttrValue::SymlinkSupport(ctx.symlink_support),
        FileAttr::NamedAttr => v == FileAttrValue::NamedAttr(ctx.named_attr),
        FileAttr::Acl => v matches FileAttrValue::Acl(aces) && acl_of_mode(
            aces@,
            fh.attr_mode,
            fh.attr_owner,
            fh.attr_owner_group,
        ),
        FileAttr::AclSupport => v == FileAttrValue::AclSupport(ACL4_SUPPORT_ALLOW_ACL),
        FileAttr::Fsid => v == FileAttrValue::Fsid(fh.attr_fsid),
        FileAttr::UniqueHandles => v == FileAttrValue::UniqueHandles(ctx.unique_handles),
        FileAttr::FhExpireType => v == FileAttrValue::FhExpireType(FH4_PERSISTENT),
        FileAttr::RdattrError => v == FileAttrValue::RdattrError(NfsStat4::Nfs4errInval),
        FileAttr::Fileid => v == FileAttrValue::Fileid(fh.attr_fileid),
        FileAttr::Mode => v == FileAttrValue::Mode(fh.attr_mode),
        FileAttr::Numlinks => v == FileAttrValue::Numlinks(fh.attr_nlink),
        FileAttr::Owner => v matches FileAttrValue::Owner(s) && s@ == fh.attr_owner,
        FileAttr::OwnerGroup => v matches FileAttrValue::OwnerGroup(s) && s@
            == fh.attr_owner_group,
        FileAttr::QuotaAvailHard => v == FileAttrValue::QuotaAvailHard(qi.quota_avail_hard),
        FileAttr::QuotaAvailSoft => v == FileAttrValue::QuotaAvailSoft(qi.quota_avail_soft),
        FileAttr::QuotaUsed => v == FileAttrValue::QuotaUsed(qi.quota_used),
        FileAttr::SpaceAvail => v == FileAttrValue::SpaceAvail(qi.space_avail),
        FileAttr::SpaceFree => v == FileAttrValue::SpaceFree(qi.space_free),
        FileAttr::SpaceTotal => v == FileAttrValue::SpaceTotal(qi.space_total),
        FileAttr::SpaceUsed => v == FileAttrValue::SpaceUsed(fh.attr_space_used),
        FileAttr::TimeAccess => v == FileAttrValue::TimeAccess(fh.attr_time_access),
        FileAttr::TimeMetadata => v == FileAttrValue::TimeMetadata(fh.attr_time_metadata),
        FileAttr::TimeModify => v == FileAttrValue::TimeModify(fh.attr_time_modify),
        FileAttr::Maxfilesize => v == FileAttrValue::Maxfilesize(0x7fff_ffff_ffff_ffff),
        FileAttr::Maxread => v == FileAttrValue::Maxread(1048576),
        FileAttr::Maxwrite => v == FileAttrValue::Maxwrite(1048576),
        FileAttr::Maxlink => v == FileAttrValue::Maxlink(32000),
        FileAttr::Maxname => v == FileAttrValue::Maxname(255),
        FileAttr::Homogeneous => v == FileAttrValue::Homogeneous(true),
        FileAttr::NoTrunc => v == FileAttrValue::NoTrunc(true),
        FileAttr::Cansettime => v == FileAttrValue::Cansettime(true),
        FileAttr::ChownRestricted => v == FileAttrValue::ChownRestricted(true),
        FileAttr::CaseInsensitive => v == FileAttrValue::CaseInsensitive(false),
        FileAttr::CasePreserving => v == FileAttrValue::CasePreserving(true),
        FileAttr::FilesAvail => v == FileAttrValue::FilesAvail(files_estimate(q, qi.space_avail)),
        FileAttr::FilesFree => v == FileAttrValue::FilesFree(files_estimate(q, qi.space_free)),
        FileAttr::FilesTotal => v == FileAttrValue::FilesTotal(files_estimate(q, qi.space_total)),
        FileAttr::FsLocations => v matches FileAttrValue::FsLocations(l) && l.fs_root@.len() == 1
            && l.fs_root@[0]@ == seq!['/'] && l.locations@.len() == 0,
        FileAttr::TimeDelta => v == FileAttrValue::TimeDelta(Nfstime4 { seconds: 0, nseconds: 1 }),
        FileAttr::TimeCreate => v == FileAttrValue::TimeCreate(fh.attr_time_modify),
        FileAttr::MountedOnFileid => v == FileAttrValue::MountedOnFileid(fh.attr_fileid),
        _ => false,
    }
}

fn quota_figures(q: Option<&QuotaInfo>) -> (r: QuotaInfo)
    ensures
        r == quota_of(match q {
            Some(q) => Some(*q),
            None => None,
        }),
{
    match q {
        Some(q) => *q,
        None => QuotaInfo {
            quota_avail_hard: 0,
            quota_avail_soft: 0,
            quota_used: 0,
            space_avail: 0,
            space_free: 0,
            space_total: 0,
        },
    }
}

/// The quota passed by reference, as a value.
pub open spec fn deref_quota(q: Option<&QuotaInfo>) -> Option<QuotaInfo> {
    match q {
        Some(q) => Some(*q),
        None => None,
    }
}

fn files_count(q: Option<&QuotaInfo>, bytes: u64) -> (r: u64)
    ensures
        r == files_estimate(deref_quota(q), bytes),
{
    match q {
        Some(q) => if q.space_total == 0 { u64::MAX } else { bytes / 4096 },
        None => u64::MAX,
    }
}

/// The value of attribute `a` of file `fh`, or `None` where the source does
/// not answer it.
pub fn attr_value(a: FileAttr, fh: &Filehandle, ctx: &AttrContext, q: Option<&QuotaInfo>) -> (r:
    Option<FileAttrValue>)
    ensures
        r is Some <==> attr_served(a, *ctx),
        r matches Some(v) ==> attr_answer(a, v, fh@, *ctx, deref_quota(q)),
{
    let qi = quota_figures(q);
    match a {
        FileAttr::SupportedAttrs => Some(FileAttrValue::SupportedAttrs(supported_attrs(ctx.extended))),
        FileAttr::Type => Some(FileAttrValue::Type(fh.attr_type)),
        FileAttr::LeaseTime => Some(FileAttrValue::LeaseTime(ctx.lease_time)),
        FileAttr::Change => Some(FileAttrValue::Change(fh.attr_change)),
        FileAttr::Size => Some(FileAttrValue::Size(fh.attr_size)),
        FileAttr::LinkSupport => Some(FileAttrValue::LinkSupport(ctx.hard_link_support)),
        FileAttr::SymlinkSupport => Some(FileAttrValue::SymlinkSupport(ctx.symlink_support)),
        FileAttr::NamedAttr => Some(FileAttrValue::NamedAttr(ctx.named_attr)),
        FileAttr::AclSupport => Some(FileAttrValue::AclSupport(ACL4_SUPPORT_ALLOW_ACL)),
        FileAttr::Fsid => Some(FileAttrValue::Fsid(fh.attr_fsid)),
        FileAttr::UniqueHandles => Some(FileAttrValue::UniqueHandles(ctx.unique_handles)),
        FileAttr::FhExpireType => Some(FileAttrValue::FhExpireType(FH4_PERSISTENT)),
        FileAttr::RdattrError => Some(FileAttrValue::RdattrError(NfsStat4::Nfs4errInval)),
        FileAttr::Fileid => Some(FileAttrValue::Fileid(fh.attr_fileid)),
        FileAttr::Mode => Some(FileAttrValue::Mode(fh.attr_mode)),
        FileAttr::Numlinks => Some(FileAttrValue::Numlinks(fh.attr_nlink)),
        FileAttr::Owner => Some(FileAttrValue::Owner(fh.attr_owner.clone())),
        FileAttr::OwnerGroup => Some(FileAttrValue::OwnerGroup(fh.attr_owner_group.clone())),
        FileAttr::SpaceUsed => Some(FileAttrValue::SpaceUsed(fh.attr_space_used)),
        FileAttr::TimeAccess => Some(FileAttrValue::TimeAccess(fh.attr_time_access)),
        FileAttr::TimeMetadata => Some(FileAttrValue::TimeMetadata(fh.attr_time_metadata)),
        FileAttr::TimeModify => Some(FileAttrValue::TimeModify(fh.attr_time_modify)),
        _ => {
            if !ctx.extended {
                None
            } else {
                match a {
                    FileAttr::Acl => Some(
                        FileAttrValue::Acl(
                            mode_to_acl(
                                fh.attr_mode,
                                fh.attr_owner.as_str(),
                                fh.attr_owner_group.as_str(),
                            ),
                        ),
                    ),
                    FileAttr::QuotaAvailHard => Some(FileAttrValue::QuotaAvailHard(qi.quota_avail_hard)),
                    FileAttr::QuotaAvailSoft => Some(FileAttrValue::QuotaAvailSoft(qi.quota_avail_soft)),
                    FileAttr::QuotaUsed => Some(FileAttrValue::QuotaUsed(qi.quota_used)),
                    FileAttr::SpaceAvail => Some(FileAttrValue::SpaceAvail(qi.space_avail)),
                    FileAttr::SpaceFree => Some(FileAttrValue::SpaceFree(qi.space_free)),
                    FileAttr::SpaceTotal => Some(FileAttrValue::SpaceTotal(qi.space_total)),
                    FileAttr::Maxfilesize => Some(FileAttrValue::Maxfilesize(0x7fff_ffff_ffff_ffff)),
                    FileAttr::Maxread => Some(FileAttrValue::Maxread(1048576)),
                    FileAttr::Maxwrite => Some(FileAttrValue::Maxwrite(1048576)),
                    FileAttr::Maxlink => Some(FileAttrValue::Maxlink(32000)),
                    FileAttr::Maxname => Some(FileAttrValue::Maxname(255)),
                    FileAttr::Homogeneous => Some(FileAttrValue::Homogeneous(true)),
                    FileAttr::NoTrunc => Some(FileAttrValue::NoTrunc(true)),
                    FileAttr::Cansettime => Some(FileAttrValue::Cansettime(true)),
                    FileAttr::ChownRestricted => Some(FileAttrValue::ChownRestricted(true)),
                    FileAttr::CaseInsensitive => Some(FileAttrValue::CaseInsensitive(false)),
                    FileAttr::CasePreserving => Some(FileAttrValue::CasePreserving(true)),
                    FileAttr::FilesAvail => Some(FileAttrValue::FilesAvail(files_count(q, qi.space_avail))),
                    FileAttr::FilesFree => Some(FileAttrValue::FilesFree(files_count(q, qi.space_free))),
                    FileAttr::FilesTotal => Some(FileAttrValue::FilesTotal(files_count(q, qi.space_total))),
                    FileAttr::FsLocations => {
                        proof {
                            reveal_strlit("/");
                        }
                        let root = "/".to_owned();
                        assert(root@ =~= seq!['/']);
                        let mut fs_root: Vec<String> = Vec::new();
                        fs_root.push(root);
                        Some(
                            FileAttrValue::FsLocations(
                                FsLocations4 { fs_root, locations: Vec::new() },
                            ),
                        )
                    },
                    FileAttr::TimeDelta => Some(
                        FileAttrValue::TimeDelta(Nfstime4 { seconds: 0, nseconds: 1 }),
                    ),
                    FileAttr::TimeCreate => Some(FileAttrValue::TimeCreate(fh.attr_time_modify)),
                    FileAttr::MountedOnFileid => Some(FileAttrValue::MountedOnFileid(fh.attr_fileid)),
                    _ => None,
                }
            }
        },
    }
}

/// The attributes of `fh` that a request asks for, in the order asked: the
/// answered ones, each with its value.
pub fn collect_attrs(
    attr_request: &Vec<FileAttr>,
    fh: &Filehandle,
    ctx: &AttrContext,
    q: Option<&QuotaInfo>,
) -> (r: (Vec<FileAttr>, Vec<FileAttrValue>))
    ensures
        r.0@ == attr_request@.filter(|a: FileAttr| attr_served(a, *ctx)),
        r.1@.len() == r.0@.len(),
        forall|i: int|
            0 <= i < r.0@.len() ==> attr_answer(#[trigger] r.0@[i], r.1@[i], fh@, *ctx, deref_quota(q)),
{
    let mut answer_attrs: Vec<FileAttr> = Vec::new();
    let mut attrs: Vec<FileAttrValue> = Vec::new();
    let mut i: usize = 0;
    while i < attr_request.len()
        invariant
            i <= attr_request.len(),
            answer_attrs@ == attr_request@.take(i as int).filter(|a: FileAttr| attr_served(a, *ctx)),
            attrs@.len() == answer_attrs@.len(),
            forall|j: int|
                0 <= j < answer_attrs@.len() ==> attr_answer(
                    #[trigger] answer_attrs@[j],
                    attrs@[j],
                    fh@,
                    *ctx,
                    deref_quota(q),
                ),
        decreases attr_request.len() - i,
    {
        let a = attr_request[i];
        let v = attr_value(a, fh, ctx, q);
        proof {
            reveal(Seq::filter);
            assert(attr_request@.take(i as int + 1).drop_last() =~= attr_request@.take(i as int));
        }
        match v {
            Some(v) => {
                answer_attrs.push(a);
                attrs.push(v);
            },
            None => {},
        }
        i = i + 1;
    }
    assert(attr_request@.take(i as int) =~= attr_request@);
    (answer_attrs, attrs)
}

} // verus!
