//! What the request handlers need of a file manager besides its state: the
//! export root, the server's advertised limits, and attribute answers.

use vstd::prelude::*;
use vstd::string::StrSliceExecFns;
use vstd::string::StringExecFns;

use crate::attrs::{attr_answer, attr_served, collect_attrs, deref_quota, supported_attrs,
    supported_attr_list, AttrContext, QuotaInfo};
use crate::filehandle::{real_view, Filehandle, FilehandleView, RealMeta};
use crate::export_manager::{avail_under, QuotaManager};
use crate::proto::{FileAttr, FileAttrValue, NfsStat4};
use crate::pseudo::{pseudo_reply, pseudo_root_getattr};

verus! {

/// `path` joined below `root`, as `PathBuf::join` does with a relative path:
/// a separator is put between them unless `root` is empty or ends in one.
pub open spec fn join_path(root: Seq<char>, rel: Seq<char>) -> Seq<char> {
    if root.len() == 0 || root.last() == '/' {
        root + rel
    } else {
        root.push('/') + rel
    }
}

/// `s` without its leading slashes.
pub open spec fn trim_leading_slashes(s: Seq<char>) -> Seq<char>
    decreases s.len(),
{
    if s.len() > 0 && s[0] == '/' {
        trim_leading_slashes(s.drop_first())
    } else {
        s
    }
}

/// The real file system path of a VFS path below an export root.
pub open spec fn real_path_of(root: Seq<char>, vfs_path: Seq<char>) -> Seq<char> {
    if vfs_path.len() == 0 || vfs_path == seq!['/'] {
        root
    } else {
        join_path(root, trim_leading_slashes(vfs_path))
    }
}

/// The attribute context of a file manager handle.
pub open spec fn handle_context(h: FileManagerHandle) -> AttrContext {
    AttrContext {
        lease_time: h.lease_time,
        hard_link_support: h.hard_link_support,
        symlink_support: h.symlink_support,
        unique_handles: h.unique_handles,
        named_attr: true,
        extended: true,
    }
}

/// The file content that attributes are reported from: the one `stat` gave
/// when it gave one, else the filehandle as it stands.
pub open spec fn refreshed_view(fh: FilehandleView, meta: Option<RealMeta>) -> FilehandleView {
    match meta {
        Some(m) => real_view(fh.path, fh.id, fh.attr_fsid.major, fh.attr_fsid.minor, fh.version, m),
        None => fh,
    }
}

/// The meta passed by reference, as a value.
pub open spec fn deref_meta(m: Option<&RealMeta>) -> Option<RealMeta> {
    match m {
        Some(m) => Some(*m),
        None => None,
    }
}

/// The settings that request handlers read from a file manager.
#[derive(Debug, Clone)]
pub struct FileManagerHandle {
    pub export_root: String,
    pub lease_time: u32,
    pub hard_link_support: bool,
    pub symlink_support: bool,
    pub unique_handles: bool,
}

fn trim_start_slashes(s: &str) -> (r: &str)
    ensures
        r@ == trim_leading_slashes(s@),
{
    let mut rest: &str = s;
    loop
        invariant
            trim_leading_slashes(rest@) == trim_leading_slashes(s@),
        ensures
            rest@ == trim_leading_slashes(s@),
        decreases rest@.len(),
    {
        let n = rest.unicode_len();
        if n == 0 || rest.get_char(0) != '/' {
            break;
        }
        let ghost before = rest@;
        rest = rest.substring_char(1, n);
        assert(rest@ =~= before.drop_first());
    }
    rest
}

/// The real file system path of VFS path `vfs_path` of an export rooted at
/// `root`: the root itself for "" and "/", else the path without its leading
/// slashes joined below the root.
pub fn real_path_below(root: &String, vfs_path: &str) -> (p: String)
    ensures
        p@ == real_path_of(root@, vfs_path@),
{
    proof {
        reveal_strlit("/");
    }
    if vfs_path.is_empty() || vfs_path.unicode_len() == 1 && vfs_path.get_char(0) == '/' {
        proof {
            if vfs_path@.len() == 1 {
                assert(vfs_path@ =~= seq!['/']);
            }
        }
        root.clone()
    } else {
        let rel = trim_start_slashes(vfs_path);
        let r = root.as_str();
        let n = r.unicode_len();
        let mut p = root.clone();
        if n > 0 && r.get_char(n - 1) != '/' {
            p.append("/");
        }
        p.append(rel);
        proof {
            if vfs_path@.len() == 1 && vfs_path@ == seq!['/'] {
                assert(vfs_path@[0] == '/');
            }
        }
        p
    }
}

impl FileManagerHandle {
    /// A handle for the export rooted at `export_root`, with the server's
    /// defaults: a 90 second lease, hard links, symlinks and unique handles.
    pub fn new(export_root: String) -> (h: Self)
        ensures
            h.export_root@ == export_root@,
            h.lease_time == 90,
            h.hard_link_support,
            h.symlink_support,
            h.unique_handles,
    {
        FileManagerHandle {
            export_root,
            lease_time: 90,
            hard_link_support: true,
            symlink_support: true,
            unique_handles: true,
        }
    }

    /// The export root.
    pub fn export_root(&self) -> (r: &String)
        ensures
            r@ == self.export_root@,
    {
        &self.export_root
    }

    /// The real file system path of a VFS path of this export.
    pub fn real_path(&self, vfs_path: &str) -> (p: String)
        ensures
            p@ == real_path_of(self.export_root@, vfs_path@),
    {
        real_path_below(&self.export_root, vfs_path)
    }

    /// The lease time advertised to clients, in seconds.
    pub fn attr_lease_time(&self) -> (t: u32)
        ensures
            t == self.lease_time,
    {
        self.lease_time
    }

    /// The `rdattr_error` reported: always `NFS4ERR_INVAL`.
    pub fn attr_rdattr_error(&self) -> (e: NfsStat4)
        ensures
            e == NfsStat4::Nfs4errInval,
    {
        NfsStat4::Nfs4errInval
    }

    /// The attributes advertised as supported.
    pub fn attr_supported_attrs(&self) -> (v: Vec<FileAttr>)
        ensures
            v@ == supported_attr_list(true),
    {
        supported_attrs(true)
    }

    /// The requested attributes of `filehandle`, refreshed from `real_meta`
    /// (what `stat` reported of its real path, if anything), with the
    /// export's quota figures: the answered attributes in the order asked and
    /// their values.
    pub fn filehandle_attrs(
        &self,
        attr_request: &Vec<FileAttr>,
        filehandle: &Filehandle,
        quota_info: Option<&QuotaInfo>,
        real_meta: Option<&RealMeta>,
    ) -> (r: Option<(Vec<FileAttr>, Vec<FileAttrValue>)>)
        requires
            real_meta is Some ==> filehandle.version < u64::MAX,
            real_meta matches Some(m) ==> m.blocks <= u64::MAX / 512,
        ensures
            r matches Some(res) && {
                let src = refreshed_view(filehandle@, deref_meta(real_meta));
                let ctx = handle_context(*self);
                &&& res.0@ == attr_request@.filter(|a: FileAttr| attr_served(a, ctx))
                &&& res.1@.len() == res.0@.len()
                &&& forall|i: int|
                    0 <= i < res.0@.len() ==> attr_answer(
                        #[trigger] res.0@[i],
                        res.1@[i],
                        src,
                        ctx,
                        deref_quota(quota_info),
                    )
            },
    {
        let ctx = AttrContext {
            lease_time: self.lease_time,
            hard_link_support: self.hard_link_support,
            symlink_support: self.symlink_support,
            unique_handles: self.unique_handles,
            named_attr: true,
            extended: true,
        };
        match real_meta {
            Some(meta) => {
                let refreshed = Filehandle::new_real(
                    filehandle.path.as_str(),
                    filehandle.id,
                    filehandle.attr_fsid.major,
                    filehandle.attr_fsid.minor,
                    filehandle.version,
                    meta,
                );
                Some(collect_attrs(attr_request, &refreshed, &ctx, quota_info))
            },
            None => Some(collect_attrs(attr_request, filehandle, &ctx, quota_info)),
        }
    }
}

/// The size reported for an export's file system: 1 TiB.
pub const DEFAULT_SPACE_TOTAL: u64 = 1_099_511_627_776;

/// The quota and space figures an export with quota manager `qm` reports:
/// its usage and what remains under its limits, out of 1 TiB of space.
pub open spec fn quota_figures_of(qm: QuotaManager) -> QuotaInfo {
    let used = qm.bytes_used;
    let free: u64 = if used >= DEFAULT_SPACE_TOTAL { 0 } else { (DEFAULT_SPACE_TOTAL - used) as u64 };
    QuotaInfo {
        quota_avail_hard: avail_under(qm.config.hard_limit_bytes, used),
        quota_avail_soft: avail_under(qm.config.soft_limit_bytes, used),
        quota_used: used,
        space_avail: free,
        space_free: free,
        space_total: DEFAULT_SPACE_TOTAL,
    }
}

/// The quota and space figures of an export.
pub fn quota_info_of(qm: &QuotaManager) -> (q: QuotaInfo)
    ensures
        q == quota_figures_of(*qm),
{
    let used = qm.bytes_used();
    QuotaInfo {
        quota_avail_hard: qm.quota_avail_hard(),
        quota_avail_soft: qm.quota_avail_soft(),
        quota_used: used,
        space_total: DEFAULT_SPACE_TOTAL,
        space_free: DEFAULT_SPACE_TOTAL.saturating_sub(used),
        space_avail: DEFAULT_SPACE_TOTAL.saturating_sub(used),
    }
}

/// GETATTR: on the pseudo-root its synthetic attributes; without a current
/// filehandle STALE; else the filehandle's attributes, refreshed from
/// `real_meta`, with the export's quota figures where it has a quota
/// manager.
pub fn getattr(
    handle: &FileManagerHandle,
    on_pseudo_root: bool,
    current: Option<&Filehandle>,
    attr_request: &Vec<FileAttr>,
    quota: Option<&QuotaManager>,
    real_meta: Option<&RealMeta>,
) -> (r: Result<(Vec<FileAttr>, Vec<FileAttrValue>), NfsStat4>)
    requires
        real_meta is Some ==> (current matches Some(fh) ==> fh.version < u64::MAX),
        real_meta matches Some(m) ==> m.blocks <= u64::MAX / 512,
    ensures
        on_pseudo_root ==> (r matches Ok(res) && exists|now: crate::proto::Nfstime4| #[trigger] pseudo_reply(
            attr_request@,
            res.0@,
            res.1@,
            crate::proto::Fsid4 { major: 0, minor: 0 },
            1,
            now,
        )),
        !on_pseudo_root && current is None ==> r == Err::<(Vec<FileAttr>, Vec<FileAttrValue>), NfsStat4>(NfsStat4::Nfs4errStale),
        !on_pseudo_root ==> (current matches Some(fh) ==> (r matches Ok(res) && {
            let src = refreshed_view(fh@, deref_meta(real_meta));
            let ctx = handle_context(*handle);
            let q = match quota {
                Some(qm) => Some(quota_figures_of(*qm)),
                None => None,
            };
            &&& res.0@ == attr_request@.filter(|a: FileAttr| attr_served(a, ctx))
            &&& res.1@.len() == res.0@.len()
            &&& forall|i: int|
                0 <= i < res.0@.len() ==> attr_answer(#[trigger] res.0@[i], res.1@[i], src, ctx, q)
        })),
{
    if on_pseudo_root {
        let res = pseudo_root_getattr(attr_request.as_slice());
        let r = Ok(res);
        proof {
            let res2 = r->Ok_0;
            let now = choose|now: crate::proto::Nfstime4|
                now.nseconds < 1_000_000_000 && pseudo_reply(
                    attr_request@,
                    res2.0@,
                    res2.1@,
                    crate::proto::Fsid4 { major: 0, minor: 0 },
                    1,
                    now,
                );
            assert(pseudo_reply(attr_request@, res2.0@, res2.1@, crate::proto::Fsid4 { major: 0, minor: 0 }, 1u64, now));
        }
        return r;
    }
    match current {
        None => Err(NfsStat4::Nfs4errStale),
        Some(fh) => {
            let q = match quota {
                Some(qm) => Some(quota_info_of(qm)),
                None => None,
            };
            let qref = match &q {
                Some(v) => Some(v),
                None => None,
            };
            match handle.filehandle_attrs(attr_request, fh, qref, real_meta) {
                Some(res) => Ok(res),
                None => Err(NfsStat4::Nfs4errServerfault),
            }
        },
    }
}

} // verus!
