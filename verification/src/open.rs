//! OPEN: how a request is classified before any file is touched, and the
//! path of the file it names.

use vstd::prelude::*;

use crate::proto::NfsStat4;
use vstd::string::{StrSliceExecFns, StringExecFns};

verus! {

/// How an OPEN names its file.
#[derive(Debug, Clone, Copy, PartialEq, Eq, Structural)]
pub enum OpenClaimKind {
    /// By name in the current directory (CLAIM_NULL).
    Null,
    /// Reclaiming the current file after a restart (CLAIM_PREVIOUS).
    Previous,
    /// Any delegation claim.
    Delegation,
}

/// Whether and how an OPEN creates its file.
#[derive(Debug, Clone, Copy, PartialEq, Eq, Structural)]
pub enum OpenHowKind {
    /// OPEN4_NOCREATE.
    NoCreate,
    /// UNCHECKED4.
    Unchecked,
    /// EXCLUSIVE4.
    Exclusive,
    /// GUARDED4, or any other create mode.
    Guarded,
}

/// What an OPEN goes on to do.
#[derive(Debug, Clone, Copy, PartialEq, Eq, Structural)]
pub enum OpenPlan {
    /// Record open state for the current file, reclaimed.
    Reclaim,
    /// Open the named file for reading.
    Read,
    /// Create (or open) the named file for writing.
    Create { exclusive: bool },
    /// Fail with this status.
    Fail(NfsStat4),
}

/// The plan of an OPEN, checked in the order the server checks: a reclaim
/// needs a current filehandle (NOFILEHANDLE); otherwise the current
/// filehandle must exist (FHEXPIRED) and be a directory (NOTDIR), the claim
/// must be by name (NOTSUPP) and the name not empty (INVAL); creating needs
/// room under the quota (DQUOT) and an UNCHECKED or EXCLUSIVE mode (NOTSUPP).
pub open spec fn open_plan_spec(
    claim: OpenClaimKind,
    has_fh: bool,
    fh_is_dir: bool,
    name: Seq<char>,
    how: OpenHowKind,
    quota_admits: Option<bool>,
) -> OpenPlan {
    if claim == OpenClaimKind::Previous {
        if has_fh { OpenPlan::Reclaim } else { OpenPlan::Fail(NfsStat4::Nfs4errNofilehandle) }
    } else if !has_fh {
        OpenPlan::Fail(NfsStat4::Nfs4errFhexpired)
    } else if !fh_is_dir {
        OpenPlan::Fail(NfsStat4::Nfs4errNotdir)
    } else if claim != OpenClaimKind::Null {
        OpenPlan::Fail(NfsStat4::Nfs4errNotsupp)
    } else if name.len() == 0 {
        OpenPlan::Fail(NfsStat4::Nfs4errInval)
    } else if how == OpenHowKind::NoCreate {
        OpenPlan::Read
    } else if quota_admits == Some(false) {
        OpenPlan::Fail(NfsStat4::Nfs4errDquot)
    } else if how == OpenHowKind::Unchecked {
        OpenPlan::Create { exclusive: false }
    } else if how == OpenHowKind::Exclusive {
        OpenPlan::Create { exclusive: true }
    } else {
        OpenPlan::Fail(NfsStat4::Nfs4errNotsupp)
    }
}

/// The plan of an OPEN.
pub fn open_plan(
    claim: OpenClaimKind,
    has_fh: bool,
    fh_is_dir: bool,
    name: &str,
    how: OpenHowKind,
    quota_admits: Option<bool>,
) -> (p: OpenPlan)
    ensures
        p == open_plan_spec(claim, has_fh, fh_is_dir, name@, how, quota_admits),
{
    match claim {
        OpenClaimKind::Previous => {
            return if has_fh { OpenPlan::Reclaim } else { OpenPlan::Fail(NfsStat4::Nfs4errNofilehandle) };
        },
        _ => {},
    }
    if !has_fh {
        return OpenPlan::Fail(NfsStat4::Nfs4errFhexpired);
    }
    if !fh_is_dir {
        return OpenPlan::Fail(NfsStat4::Nfs4errNotdir);
    }
    match claim {
        OpenClaimKind::Null => {},
        _ => {
            return OpenPlan::Fail(NfsStat4::Nfs4errNotsupp);
        },
    }
    if name.is_empty() {
        return OpenPlan::Fail(NfsStat4::Nfs4errInval);
    }
    match how {
        OpenHowKind::NoCreate => OpenPlan::Read,
        _ => {
            match quota_admits {
                Some(false) => OpenPlan::Fail(NfsStat4::Nfs4errDquot),
                _ => match how {
                    OpenHowKind::Unchecked => OpenPlan::Create { exclusive: false },
                    OpenHowKind::Exclusive => OpenPlan::Create { exclusive: true },
                    _ => OpenPlan::Fail(NfsStat4::Nfs4errNotsupp),
                },
            }
        },
    }
}

/// The path of entry `name` of directory `dir`: "/" + name below the root,
/// else `dir` + "/" + name.
pub open spec fn child_path_spec(dir: Seq<char>, name: Seq<char>) -> Seq<char> {
    if dir == seq!['/'] {
        dir + name
    } else {
        dir.push('/') + name
    }
}

/// The path of entry `name` of directory `dir`.
pub fn child_path(dir: &String, name: &str) -> (p: String)
    ensures
        p@ == child_path_spec(dir@, name@),
{
    proof {
        reveal_strlit("/");
    }
    let d = dir.as_str();
    let at_root = d.unicode_len() == 1 && d.get_char(0) == '/';
    proof {
        if dir@ == seq!['/'] {
            assert(dir@.len() == 1 && dir@[0] == '/');
        }
        if dir@.len() == 1 && dir@[0] == '/' {
            assert(dir@ =~= seq!['/']);
        }
    }
    let mut p = dir.clone();
    if !at_root {
        p.append("/");
    }
    p.append(name);
    p
}

} // verus!
