//! The pseudo-filesystem root: a synthetic directory that lists the exports,
//! its filehandle, and the attributes it and its entries report.

use vstd::prelude::*;

use crate::export_manager::ExportInfo;
use crate::filehandle::Filehandle;
use crate::proto::{
    Entry4, Fattr4, FileAttr, FileAttrValue, FsLocations4, Fsid4, NfsFh4, NfsFtype4, NfsStat4,
    Nfstime4, FH4_PERSISTENT,
};

verus! {

/// The export id reserved for the pseudo-filesystem root.
pub const PSEUDO_ROOT_EXPORT_ID: u8 = 0xFF;

/// The bytes of the pseudo-root filehandle: version byte 2, the reserved
/// export id, then zeros.
pub open spec fn pseudo_root_bytes() -> Seq<u8> {
    seq![0x02u8, PSEUDO_ROOT_EXPORT_ID].add(Seq::new(24, |i: int| 0u8))
}

/// Whether a filehandle is the pseudo-root's: version byte 2 and the reserved
/// export id.
pub open spec fn spec_is_pseudo_root(fh: NfsFh4) -> bool {
    fh[0] == 0x02 && fh[1] == PSEUDO_ROOT_EXPORT_ID
}

/// The pseudo-root filehandle.
pub fn pseudo_root_fh() -> (fh: NfsFh4)
    ensures
        fh@ == pseudo_root_bytes(),
{
    let mut id = [0u8; 26];
    id[0] = 0x02;
    id[1] = PSEUDO_ROOT_EXPORT_ID;
    assert(id@ =~= pseudo_root_bytes());
    id
}

/// Whether `fh` is the pseudo-root filehandle.
pub fn is_pseudo_root(fh: &NfsFh4) -> (r: bool)
    ensures
        r == spec_is_pseudo_root(*fh),
{
    fh[0] == 0x02 && fh[1] == PSEUDO_ROOT_EXPORT_ID
}

/// The export a filehandle belongs to: the reserved id for the pseudo-root,
/// else its second byte.
pub fn export_id_from_fh(fh: &NfsFh4) -> (id: u8)
    ensures
        id == (if spec_is_pseudo_root(*fh) { PSEUDO_ROOT_EXPORT_ID } else { fh[1] }),
{
    if is_pseudo_root(fh) {
        PSEUDO_ROOT_EXPORT_ID
    } else {
        fh[1]
    }
}

/// Marks a filehandle as belonging to export `export_id` (its second byte).
pub fn stamp_export_id(fh: &mut NfsFh4, export_id: u8)
    ensures
        final(fh)@ == old(fh)@.update(1, export_id),
{
    fh[1] = export_id;
}

/// The attributes the pseudo-filesystem answers.
pub open spec fn pseudo_served(a: FileAttr) -> bool {
    match a {
        FileAttr::SupportedAttrs | FileAttr::Type | FileAttr::FhExpireType | FileAttr::Change
        | FileAttr::Size | FileAttr::LinkSupport | FileAttr::SymlinkSupport
        | FileAttr::NamedAttr | FileAttr::Fsid | FileAttr::UniqueHandles | FileAttr::LeaseTime
        | FileAttr::RdattrError | FileAttr::Fileid | FileAttr::Mode | FileAttr::Numlinks
        | FileAttr::Owner | FileAttr::OwnerGroup | FileAttr::SpaceUsed | FileAttr::TimeAccess
        | FileAttr::TimeMetadata | FileAttr::TimeModify | FileAttr::Acl | FileAttr::AclSupport
        | FileAttr::FsLocations | FileAttr::Maxfilesize | FileAttr::Maxread
        | FileAttr::Maxwrite | FileAttr::Maxlink | FileAttr::Maxname | FileAttr::Homogeneous
        | FileAttr::NoTrunc | FileAttr::Cansettime | FileAttr::ChownRestricted => true,
        _ => false,
    }
}

/// The attributes the pseudo-filesystem advertises as supported.
pub open spec fn pseudo_supported_list() -> Seq<FileAttr> {
    seq![
        FileAttr::SupportedAttrs, FileAttr::Type, FileAttr::FhExpireType, FileAttr::Change,
        FileAttr::Size, FileAttr::LinkSupport, FileAttr::SymlinkSupport, FileAttr::NamedAttr,
        FileAttr::Fsid, FileAttr::UniqueHandles, FileAttr::LeaseTime, FileAttr::RdattrError,
        FileAttr::AclSupport, FileAttr::Cansettime, FileAttr::ChownRestricted, FileAttr::Fileid,
        FileAttr::Homogeneous, FileAttr::Maxfilesize, FileAttr::Maxlink, FileAttr::Maxname,
        FileAttr::Maxread, FileAttr::Maxwrite, FileAttr::Mode, FileAttr::NoTrunc,
        FileAttr::Numlinks, FileAttr::Owner, FileAttr::OwnerGroup, FileAttr::SpaceUsed,
        FileAttr::TimeAccess, FileAttr::TimeMetadata, FileAttr::TimeModify,
    ]
}

/// The attributes the pseudo-filesystem advertises as supported.
pub fn pseudo_supported_attrs() -> (v: Vec<FileAttr>)
    ensures
        v@ == pseudo_supported_list(),
{
    let v = vec![
        FileAttr::SupportedAttrs, FileAttr::Type, FileAttr::FhExpireType, FileAttr::Change,
        FileAttr::Size, FileAttr::LinkSupport, FileAttr::SymlinkSupport, FileAttr::NamedAttr,
        FileAttr::Fsid, FileAttr::UniqueHandles, FileAttr::LeaseTime, FileAttr::RdattrError,
        FileAttr::AclSupport, FileAttr::Cansettime, FileAttr::ChownRestricted, FileAttr::Fileid,
        FileAttr::Homogeneous, FileAttr::Maxfilesize, FileAttr::Maxlink, FileAttr::Maxname,
        FileAttr::Maxread, FileAttr::Maxwrite, FileAttr::Mode, FileAttr::NoTrunc,
        FileAttr::Numlinks, FileAttr::Owner, FileAttr::OwnerGroup, FileAttr::SpaceUsed,
        FileAttr::TimeAccess, FileAttr::TimeMetadata, FileAttr::TimeModify,
    ];
    assert(v@ =~= pseudo_supported_list());
    v
}

/// Whether `v` is the value a pseudo directory with file system id `fsid`
/// and file id `fileid` reports for attribute `a` at time `now`.
pub open spec fn pseudo_answer(a: FileAttr, v: FileAttrValue, fsid: Fsid4, fileid: u64, now: Nfstime4) -> bool {
    match a {
        FileAttr::SupportedAttrs => v matches FileAttrValue::SupportedAttrs(l) && l@ == pseudo_supported_list(),
        FileAttr::Type => v == FileAttrValue::Type(NfsFtype4::Nf4dir),
        FileAttr::FhExpireType => v == FileAttrValue::FhExpireType(FH4_PERSISTENT),
        FileAttr::Change => v == FileAttrValue::Change(1),
        FileAttr::Size => v == FileAttrValue::Size(4096),
        FileAttr::LinkSupport => v == FileAttrValue::LinkSupport(false),
        FileAttr::SymlinkSupport => v == FileAttrValue::SymlinkSupport(false),
        FileAttr::NamedAttr => v == FileAttrValue::NamedAttr(true),
        FileAttr::Fsid => v == FileAttrValue::Fsid(fsid),
        FileAttr::UniqueHandles => v == FileAttrValue::UniqueHandles(true),
        FileAttr::LeaseTime => v == FileAttrValue::LeaseTime(90),
        FileAttr::RdattrError => v == FileAttrValue::RdattrError(NfsStat4::Nfs4errInval),
        FileAttr::Fileid => v == FileAttrValue::Fileid(fileid),
        FileAttr::Mode => v == FileAttrValue::Mode(0o755),
        FileAttr::Numlinks => v == FileAttrValue::Numlinks(2),
        FileAttr::Owner => v matches FileAttrValue::Owner(s) && s@ == seq!['0'],
        FileAttr::OwnerGroup => v matches FileAttrValue::OwnerGroup(s) && s@ == seq!['0'],
        FileAttr::SpaceUsed => v == FileAttrValue::SpaceUsed(4096),
        FileAttr::TimeAccess => v == FileAttrValue::TimeAccess(now),
        FileAttr::TimeMetadata => v == FileAttrValue::TimeMetadata(now),
        FileAttr::TimeModify => v == FileAttrValue::TimeModify(now),
        FileAttr::Acl => v matches FileAttrValue::Acl(l) && l@.len() == 0,
        FileAttr::AclSupport => v == FileAttrValue::AclSupport(0),
        FileAttr::FsLocations => v matches FileAttrValue::FsLocations(l) && l.fs_root@.len() == 1
            && l.fs_root@[0]@ == seq!['/'] && l.locations@.len() == 0,
        FileAttr::Maxfilesize => v == FileAttrValue::Maxfilesize(0x7fff_ffff_ffff_ffff),
        FileAttr::Maxread => v == FileAttrValue::Maxread(1048576),
        FileAttr::Maxwrite => v == FileAttrValue::Maxwrite(1048576),
        FileAttr::Maxlink => v == FileAttrValue::Maxlink(32000),
        FileAttr::Maxname => v == FileAttrValue::Maxname(255),
        FileAttr::Homogeneous => v == FileAttrValue::Homogeneous(true),
        FileAttr::NoTrunc => v == FileAttrValue::NoTrunc(true),
        FileAttr::Cansettime => v == FileAttrValue::Cansettime(true),
        FileAttr::ChownRestricted => v == FileAttrValue::ChownRestricted(true),
        _ => false,
    }
}

fn zero_string() -> (s: String)
    ensures
        s@ == seq!['0'],
{
    proof {
        reveal_strlit("0");
    }
    let s = "0".to_owned();
    assert(s@ =~= seq!['0']);
    s
}

fn pseudo_attr_value(a: FileAttr, fsid: Fsid4, fileid: u64, now: Nfstime4) -> (r: Option<FileAttrValue>)
    ensures
        r is Some <==> pseudo_served(a),
        r matches Some(v) ==> pseudo_answer(a, v, fsid, fileid, now),
{
    match a {
        FileAttr::SupportedAttrs => Some(FileAttrValue::SupportedAttrs(pseudo_supported_attrs())),
        FileAttr::Type => Some(FileAttrValue::Type(NfsFtype4::Nf4dir)),
        FileAttr::FhExpireType => Some(FileAttrValue::FhExpireType(FH4_PERSISTENT)),
        FileAttr::Change => Some(FileAttrValue::Change(1)),
        FileAttr::Size => Some(FileAttrValue::Size(4096)),
        FileAttr::LinkSupport => Some(FileAttrValue::LinkSupport(false)),
        FileAttr::SymlinkSupport => Some(FileAttrValue::SymlinkSupport(false)),
        FileAttr::NamedAttr => Some(FileAttrValue::NamedAttr(true)),
        FileAttr::Fsid => Some(FileAttrValue::Fsid(fsid)),
        FileAttr::UniqueHandles => Some(FileAttrValue::UniqueHandles(true)),
        FileAttr::LeaseTime => Some(FileAttrValue::LeaseTime(90)),
        FileAttr::RdattrError => Some(FileAttrValue::RdattrError(NfsStat4::Nfs4errInval)),
        FileAttr::Fileid => Some(FileAttrValue::Fileid(fileid)),
        FileAttr::Mode => Some(FileAttrValue::Mode(0o755)),
        FileAttr::Numlinks => Some(FileAttrValue::Numlinks(2)),
        FileAttr::Owner => Some(FileAttrValue::Owner(zero_string())),
        FileAttr::OwnerGroup => Some(FileAttrValue::OwnerGroup(zero_string())),
        FileAttr::SpaceUsed => Some(FileAttrValue::SpaceUsed(4096)),
        FileAttr::TimeAccess => Some(FileAttrValue::TimeAccess(now)),
        FileAttr::TimeMetadata => Some(FileAttrValue::TimeMetadata(now)),
        FileAttr::TimeModify => Some(FileAttrValue::TimeModify(now)),
        FileAttr::Acl => Some(FileAttrValue::Acl(Vec::new())),
        FileAttr::AclSupport => Some(FileAttrValue::AclSupport(0)),
        FileAttr::FsLocations => {
            proof {
                reveal_strlit("/");
            }
            let root = "/".to_owned();
            assert(root@ =~= seq!['/']);
            let mut fs_root: Vec<String> = Vec::new();
            fs_root.push(root);
            Some(FileAttrValue::FsLocations(FsLocations4 { fs_root, locations: Vec::new() }))
        },
        FileAttr::Maxfilesize => Some(FileAttrValue::Maxfilesize(0x7fff_ffff_ffff_ffff)),
        FileAttr::Maxread => Some(FileAttrValue::Maxread(1048576)),
        FileAttr::Maxwrite => Some(FileAttrValue::Maxwrite(1048576)),
        FileAttr::Maxlink => Some(FileAttrValue::Maxlink(32000)),
        FileAttr::Maxname => Some(FileAttrValue::Maxname(255)),
        FileAttr::Homogeneous => Some(FileAttrValue::Homogeneous(true)),
        FileAttr::NoTrunc => Some(FileAttrValue::NoTrunc(true)),
        FileAttr::Cansettime => Some(FileAttrValue::Cansettime(true)),
        FileAttr::ChownRestricted => Some(FileAttrValue::ChownRestricted(true)),
        _ => None,
    }
}

/// Whether `(answered, values)` answers `request` for a pseudo directory
/// with file system id `fsid` and file id `fileid` at time `now`.
pub open spec fn pseudo_reply(
    request: Seq<FileAttr>,
    answered: Seq<FileAttr>,
    values: Seq<FileAttrValue>,
    fsid: Fsid4,
    fileid: u64,
    now: Nfstime4,
) -> bool {
    &&& answered == request.filter(|a: FileAttr| pseudo_served(a))
    &&& values.len() == answered.len()
    &&& forall|i: int| 0 <= i < answered.len() ==> pseudo_answer(#[trigger] answered[i], values[i], fsid, fileid, now)
}

/// The requested attributes of a pseudo directory with file system id
/// `fsid` and file id `fileid`, with `now` as its times.
pub fn pseudo_dir_attrs(attr_request: &[FileAttr], fsid: Fsid4, fileid: u64, now: Nfstime4) -> (r: (
    Vec<FileAttr>,
    Vec<FileAttrValue>,
))
    ensures
        pseudo_reply(attr_request@, r.0@, r.1@, fsid, fileid, now),
{
    let mut answer_attrs: Vec<FileAttr> = Vec::new();
    let mut attrs: Vec<FileAttrValue> = Vec::new();
    let mut i: usize = 0;
    proof {
        reveal(Seq::filter);
        assert(attr_request@.take(0) =~= Seq::<FileAttr>::empty());
    }
    while i < attr_request.len()
        invariant
            i <= attr_request.len(),
            pseudo_reply(attr_request@.take(i as int), answer_attrs@, attrs@, fsid, fileid, now),
        decreases attr_request.len() - i,
    {
        let a = attr_request[i];
        let v = pseudo_attr_value(a, fsid, fileid, now);
        proof {
            reveal(Seq::filter);
            assert(attr_request@.take(i as int + 1).drop_last() =~= attr_request@.take(i as int));
        }
        match v {
            Some(v) => {
                answer_attrs.push(a);
                attrs.push(v);
            },
            None => {},
        }
        i = i + 1;
    }
    assert(attr_request@.take(i as int) =~= attr_request@);
    (answer_attrs, attrs)
}

/// The requested attributes of the pseudo-root: a directory of file system
/// 0/0 and file id 1, stamped with the current time.
pub fn pseudo_root_getattr(attr_request: &[FileAttr]) -> (r: (Vec<FileAttr>, Vec<FileAttrValue>))
    ensures
        exists|now: Nfstime4|
            now.nseconds < 1_000_000_000 && pseudo_reply(
                attr_request@,
                r.0@,
                r.1@,
                Fsid4 { major: 0, minor: 0 },
                1,
                now,
            ),
{
    let now = Filehandle::current_time();
    pseudo_dir_attrs(attr_request, Fsid4 { major: 0, minor: 0 }, 1, now)
}

/// The requested attributes of the pseudo-root entry for export `export_id`:
/// a directory whose file system id is the export id and whose file id is
/// the export id plus 100, stamped with the current time.
pub fn pseudo_export_entry_attrs(attr_request: &[FileAttr], export_id: u8) -> (r: (
    Vec<FileAttr>,
    Vec<FileAttrValue>,
))
    ensures
        exists|now: Nfstime4|
            now.nseconds < 1_000_000_000 && pseudo_reply(
                attr_request@,
                r.0@,
                r.1@,
                Fsid4 { major: export_id as u64, minor: export_id as u64 },
                (export_id as u64 + 100) as u64,
                now,
            ),
{
    let now = Filehandle::current_time();
    pseudo_dir_attrs(
        attr_request,
        Fsid4 { major: export_id as u64, minor: export_id as u64 },
        export_id as u64 + 100,
        now,
    )
}

/// The READDIR cookie of the `i`-th export in the pseudo-root: cookies 0 to
/// 2 are reserved.
pub open spec fn pseudo_cookie(i: int) -> int {
    i + 3
}

/// How many exports a READDIR of the pseudo-root from `cookie` passes over.
pub open spec fn pseudo_skip(cookie: u64) -> int {
    if (cookie as int) < 3 {
        0
    } else {
        cookie - 2
    }
}

/// READDIR of the pseudo-root from `cookie`: one entry per export whose
/// cookie lies past `cookie`, in the order listed, each with the export's
/// name and entry attributes; the listing always ends (eof).
pub fn pseudo_readdir(exports: &Vec<ExportInfo>, attr_request: &[FileAttr], cookie: u64) -> (r: (
    Vec<Entry4>,
    bool,
))
    requires
        exports@.len() + 3 <= u64::MAX,
    ensures
        r.1,
        r.0@.len() == (if pseudo_skip(cookie) <= exports@.len() {
            exports@.len() - pseudo_skip(cookie)
        } else {
            0
        }),
        forall|k: int|
            0 <= k < r.0@.len() ==> {
                let i = k + pseudo_skip(cookie);
                &&& (#[trigger] r.0@[k]).cookie == pseudo_cookie(i)
                &&& r.0@[k].name@ == exports@[i].name@
                &&& r.0@[k].nextentry is None
                &&& exists|now: Nfstime4|
                    #[trigger] pseudo_reply(
                        attr_request@,
                        r.0@[k].attrs.attrmask@,
                        r.0@[k].attrs.attr_vals@,
                        Fsid4 { major: exports@[i].export_id as u64, minor: exports@[i].export_id as u64 },
                        (exports@[i].export_id as u64 + 100) as u64,
                        now,
                    )
            },
{
    let mut entries: Vec<Entry4> = Vec::new();
    let ghost skip: int = pseudo_skip(cookie);
    let mut i: usize = 0;
    while i < exports.len()
        invariant
            i <= exports@.len(),
            exports@.len() + 3 <= u64::MAX,
            skip == pseudo_skip(cookie),
            entries@.len() == (if i <= skip { 0 } else { i - skip }),
            forall|k: int|
                0 <= k < entries@.len() ==> {
                    let j = k + skip;
                    &&& (#[trigger] entries@[k]).cookie == pseudo_cookie(j)
                    &&& entries@[k].name@ == exports@[j].name@
                    &&& entries@[k].nextentry is None
                    &&& exists|now: Nfstime4|
                        #[trigger] pseudo_reply(
                            attr_request@,
                            entries@[k].attrs.attrmask@,
                            entries@[k].attrs.attr_vals@,
                            Fsid4 { major: exports@[j].export_id as u64, minor: exports@[j].export_id as u64 },
                            (exports@[j].export_id as u64 + 100) as u64,
                            now,
                        )
                },
        decreases exports@.len() - i,
    {
        let entry_cookie = i as u64 + 3;
        if entry_cookie > cookie {
            let export = &exports[i];
            let (answer_attrs, attr_vals) = pseudo_export_entry_attrs(attr_request, export.export_id);
            let ghost old_entries = entries@;
            let e = Entry4 {
                name: export.name.clone(),
                cookie: entry_cookie,
                attrs: Fattr4 { attrmask: answer_attrs, attr_vals },
                nextentry: None,
            };
            proof {
                let now = choose|now: Nfstime4|
                    now.nseconds < 1_000_000_000 && pseudo_reply(
                        attr_request@,
                        e.attrs.attrmask@,
                        e.attrs.attr_vals@,
                        Fsid4 { major: export.export_id as u64, minor: export.export_id as u64 },
                        (export.export_id as u64 + 100) as u64,
                        now,
                    );
                assert(pseudo_reply(
                    attr_request@,
                    e.attrs.attrmask@,
                    e.attrs.attr_vals@,
                    Fsid4 { major: export.export_id as u64, minor: export.export_id as u64 },
                    (export.export_id as u64 + 100) as u64,
                    now,
                ));
            }
            entries.push(e);
            proof {
                assert(old_entries.len() == i - skip);
                assert forall|k: int| 0 <= k < entries@.len() implies {
                    let j = k + skip;
                    &&& (#[trigger] entries@[k]).cookie == pseudo_cookie(j)
                    &&& entries@[k].name@ == exports@[j].name@
                    &&& entries@[k].nextentry is None
                    &&& exists|now: Nfstime4|
                        #[trigger] pseudo_reply(
                            attr_request@,
                            entries@[k].attrs.attrmask@,
                            entries@[k].attrs.attr_vals@,
                            Fsid4 { major: exports@[j].export_id as u64, minor: exports@[j].export_id as u64 },
                            (exports@[j].export_id as u64 + 100) as u64,
                            now,
                        )
                } by {
                    if k < old_entries.len() {
                        assert(entries@[k] == old_entries[k]);
                    } else {
                        assert(k + skip == i);
                    }
                }
            }
        }
        i = i + 1;
    }
    (entries, true)
}

} // verus!
