//! The current and saved filehandles of a COMPOUND, and the operations that
//! move between them: GETFH, SAVEFH, RESTOREFH, PUTROOTFH and LOOKUPP.

use vstd::prelude::*;

use crate::filehandle::{Filehandle, FilehandleView};
use crate::filemanager::{parent_of, parent_path};
use crate::open::{child_path, child_path_spec};
use crate::proto::{NfsFh4, NfsStat4, Stateid4};
use crate::pseudo::{export_id_from_fh, is_pseudo_root, spec_is_pseudo_root};
use vstd::string::StrSliceExecFns;

verus! {

/// The filehandles a COMPOUND carries from one operation to the next.
#[derive(Debug)]
pub struct FilehandleState {
    pub current: Option<Filehandle>,
    pub saved: Option<Filehandle>,
}

/// The view of an optional filehandle.
pub open spec fn opt_view(f: Option<Filehandle>) -> Option<FilehandleView> {
    match f {
        Some(f) => Some(f@),
        None => None,
    }
}

impl FilehandleState {
    /// A COMPOUND's state before any filehandle is set.
    pub fn new() -> (s: Self)
        ensures
            s.current is None,
            s.saved is None,
    {
        FilehandleState { current: None, saved: None }
    }

    /// Makes `fh` the current filehandle.
    pub fn set_current(&mut self, fh: Filehandle)
        ensures
            opt_view(final(self).current) == Some(fh@),
            opt_view(final(self).saved) == opt_view(old(self).saved),
    {
        self.current = Some(fh);
    }

    /// Clears the current filehandle.
    pub fn unset_current(&mut self)
        ensures
            final(self).current is None,
            opt_view(final(self).saved) == opt_view(old(self).saved),
    {
        self.current = None;
    }

    /// GETFH: the id of the current filehandle, or NOFILEHANDLE.
    pub fn get_fh(&self) -> (r: Result<NfsFh4, NfsStat4>)
        ensures
            r == (match self.current {
                Some(fh) => Ok(fh.id),
                None => Err(NfsStat4::Nfs4errNofilehandle),
            }),
    {
        match &self.current {
            Some(fh) => Ok(fh.id),
            None => Err(NfsStat4::Nfs4errNofilehandle),
        }
    }

    /// SAVEFH: copies the current filehandle to the saved one; NOFILEHANDLE
    /// without a current filehandle, changing nothing.
    pub fn save(&mut self) -> (s: NfsStat4)
        ensures
            opt_view(final(self).current) == opt_view(old(self).current),
            match old(self).current {
                Some(fh) => s == NfsStat4::Nfs4Ok && opt_view(final(self).saved) == Some(fh@),
                None => s == NfsStat4::Nfs4errNofilehandle && opt_view(final(self).saved) == opt_view(old(self).saved),
            },
    {
        match &self.current {
            Some(fh) => {
                self.saved = Some(fh.clone());
                NfsStat4::Nfs4Ok
            },
            None => NfsStat4::Nfs4errNofilehandle,
        }
    }

    /// RESTOREFH: makes the saved filehandle current; RESTOREFH without a
    /// saved filehandle, changing nothing.
    pub fn restore(&mut self) -> (s: NfsStat4)
        ensures
            opt_view(final(self).saved) == opt_view(old(self).saved),
            match old(self).saved {
                Some(fh) => s == NfsStat4::Nfs4Ok && opt_view(final(self).current) == Some(fh@),
                None => s == NfsStat4::Nfs4errRestorefh && opt_view(final(self).current) == opt_view(old(self).current),
            },
    {
        match &self.saved {
            Some(fh) => {
                self.current = Some(fh.clone());
                NfsStat4::Nfs4Ok
            },
            None => NfsStat4::Nfs4errRestorefh,
        }
    }
}

/// Where PUTROOTFH leads.
#[derive(Debug, Clone, Copy, PartialEq, Eq, Structural)]
pub enum RootTarget {
    /// The root of the only export, whose id is given.
    ExportRoot(u8),
    /// The pseudo-root that lists the exports.
    PseudoRoot,
}

/// PUTROOTFH with the export ids listed: the root of the export itself where
/// there is exactly one, else the pseudo-root.
pub fn root_target(export_ids: &Vec<u8>) -> (t: RootTarget)
    ensures
        t == (if export_ids@.len() == 1 { RootTarget::ExportRoot(export_ids@[0]) } else { RootTarget::PseudoRoot }),
{
    if export_ids.len() == 1 {
        RootTarget::ExportRoot(export_ids[0])
    } else {
        RootTarget::PseudoRoot
    }
}

/// Where LOOKUPP leads.
#[derive(Debug, PartialEq, Eq)]
pub enum ParentTarget {
    /// No parent: NOENT.
    Noent,
    /// No current filehandle: NOFILEHANDLE.
    NoFilehandle,
    /// Up from an export root to the pseudo-root.
    PseudoRoot,
    /// The directory at this path of the current export.
    Path(String),
}

/// LOOKUPP from the current filehandle: NOENT on the pseudo-root,
/// NOFILEHANDLE without a current filehandle, the pseudo-root from an
/// export's root when there are several exports, else the parent path.
pub fn parent_target(on_pseudo_root: bool, current: Option<&Filehandle>, export_count: usize) -> (t: ParentTarget)
    ensures
        on_pseudo_root ==> t == ParentTarget::Noent,
        !on_pseudo_root && current is None ==> t == ParentTarget::NoFilehandle,
        !on_pseudo_root ==> (current matches Some(fh) ==> {
            if fh.path@ == seq!['/'] && export_count > 1 {
                t == ParentTarget::PseudoRoot
            } else {
                t matches ParentTarget::Path(p) && p@ == parent_of(fh.path@)
            }
        }),
{
    if on_pseudo_root {
        return ParentTarget::Noent;
    }
    match current {
        None => ParentTarget::NoFilehandle,
        Some(fh) => {
            let at_root = fh.path.as_str().unicode_len() == 1 && fh.path.as_str().get_char(0) == '/';
            proof {
                if fh.path@ == seq!['/'] {
                    assert(fh.path@.len() == 1 && fh.path@[0] == '/');
                }
                if fh.path@.len() == 1 && fh.path@[0] == '/' {
                    assert(fh.path@ =~= seq!['/']);
                }
            }
            if at_root && export_count > 1 {
                ParentTarget::PseudoRoot
            } else {
                ParentTarget::Path(parent_path(fh.path.as_str()))
            }
        },
    }
}

/// Where LOOKUP leads.
#[derive(Debug, PartialEq, Eq)]
pub enum LookupTarget {
    /// The root of the export with this id (from the pseudo-root).
    ExportRoot(u8),
    /// No export of that name: NOENT.
    Noent,
    /// No current filehandle: FHEXPIRED.
    Fhexpired,
    /// The entry at this path of the current export.
    Path(String),
}

/// LOOKUP of `name`: on the pseudo-root, the export of that name
/// (`export_named` is its id, if there is one); else the entry of that name
/// below the current filehandle's directory.
pub fn lookup_target(
    on_pseudo_root: bool,
    export_named: Option<u8>,
    current: Option<&Filehandle>,
    name: &str,
) -> (t: LookupTarget)
    ensures
        on_pseudo_root ==> t == (match export_named {
            Some(id) => LookupTarget::ExportRoot(id),
            None => LookupTarget::Noent,
        }),
        !on_pseudo_root ==> (match current {
            None => t == LookupTarget::Fhexpired,
            Some(fh) => t matches LookupTarget::Path(p) && p@ == child_path_spec(fh.path@, name@),
        }),
{
    if on_pseudo_root {
        return match export_named {
            Some(id) => LookupTarget::ExportRoot(id),
            None => LookupTarget::Noent,
        };
    }
    match current {
        None => LookupTarget::Fhexpired,
        Some(fh) => LookupTarget::Path(child_path(&fh.path, name)),
    }
}

/// OPEN_CONFIRM: the open stateid of the current file, from the first state
/// recorded on it; NOFILEHANDLE without a current filehandle, BAD_STATEID
/// where it carries no state.
pub fn open_confirm_result(current: Option<&Filehandle>) -> (r: Result<Stateid4, NfsStat4>)
    ensures
        match current {
            None => r == Err::<Stateid4, NfsStat4>(NfsStat4::Nfs4errNofilehandle),
            Some(fh) => if fh.locks@.len() == 0 {
                r == Err::<Stateid4, NfsStat4>(NfsStat4::Nfs4errBadStateid)
            } else {
                r == Ok::<Stateid4, NfsStat4>(Stateid4 { seqid: fh.locks@[0].seqid, other: fh.locks@[0].stateid })
            },
        },
{
    match current {
        None => Err(NfsStat4::Nfs4errNofilehandle),
        Some(fh) => {
            if fh.locks.len() == 0 {
                Err(NfsStat4::Nfs4errBadStateid)
            } else {
                Ok(Stateid4 { seqid: fh.locks[0].seqid, other: fh.locks[0].stateid })
            }
        },
    }
}

/// OPEN_DOWNGRADE: the open stateid of the current file with the request's
/// sequence number advanced (wrapping); NOFILEHANDLE without a current
/// filehandle, INVAL for a share access outside 1 to 3, BAD_STATEID where
/// the file carries no state.
pub fn open_downgrade_result(current: Option<&Filehandle>, seqid: u32, share_access: u32) -> (r: Result<
    Stateid4,
    NfsStat4,
>)
    ensures
        match current {
            None => r == Err::<Stateid4, NfsStat4>(NfsStat4::Nfs4errNofilehandle),
            Some(fh) => if share_access == 0 || share_access > 3 {
                r == Err::<Stateid4, NfsStat4>(NfsStat4::Nfs4errInval)
            } else if fh.locks@.len() == 0 {
                r == Err::<Stateid4, NfsStat4>(NfsStat4::Nfs4errBadStateid)
            } else {
                r == Ok::<Stateid4, NfsStat4>(Stateid4 {
                    seqid: ((seqid + 1) % 0x1_0000_0000) as u32,
                    other: fh.locks@[0].stateid,
                })
            },
        },
{
    match current {
        None => Err(NfsStat4::Nfs4errNofilehandle),
        Some(fh) => {
            if share_access == 0 || share_access > 3 {
                Err(NfsStat4::Nfs4errInval)
            } else if fh.locks.len() == 0 {
                Err(NfsStat4::Nfs4errBadStateid)
            } else {
                Ok(Stateid4 { seqid: seqid.wrapping_add(1), other: fh.locks[0].stateid })
            }
        },
    }
}

/// Where PUTFH leads.
#[derive(Debug, Clone, Copy, PartialEq, Eq, Structural)]
pub enum PutfhRoute {
    /// The pseudo-root.
    PseudoRoot,
    /// A filehandle of the export with this id; `switch` says whether the
    /// request moves to that export first.
    Export { export_id: u8, switch: bool },
}

/// PUTFH of `object` while the request is on export `current_export`.
pub fn putfh_route(object: &NfsFh4, current_export: Option<u8>) -> (r: PutfhRoute)
    ensures
        r == (if spec_is_pseudo_root(*object) {
            PutfhRoute::PseudoRoot
        } else {
            PutfhRoute::Export { export_id: object[1], switch: current_export != Some(object[1]) }
        }),
{
    if is_pseudo_root(object) {
        return PutfhRoute::PseudoRoot;
    }
    let export_id = export_id_from_fh(object);
    let switch = match current_export {
        Some(e) => e != export_id,
        None => true,
    };
    PutfhRoute::Export { export_id, switch }
}

} // verus!
