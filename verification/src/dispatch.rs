//! How requests are routed: RPC calls to the NFS program, and the operations
//! of a COMPOUND, with the rules that stop a COMPOUND early.

use vstd::prelude::*;

use crate::proto::NfsStat4;

verus! {

/// The operations a COMPOUND can carry (RFC 7530, RFC 8881, RFC 7862).
#[derive(Debug, Clone, Copy, PartialEq, Eq, Structural)]
pub enum NfsOpnum4 {
    OpUndef0,
    OpUndef1,
    OpUndef2,
    Access,
    Close,
    Commit,
    Create,
    Delegpurge,
    Delegreturn,
    Getattr,
    Getfh,
    Link,
    Lock,
    Lockt,
    Locku,
    Lookup,
    Lookupp,
    Nverify,
    Open,
    Openattr,
    OpenConfirm,
    OpenDowngrade,
    Putfh,
    Putpubfh,
    Putrootfh,
    Read,
    Readdir,
    Readlink,
    Remove,
    Rename,
    Renew,
    Restorefh,
    Savefh,
    Secinfo,
    Setattr,
    Setclientid,
    SetclientidConfirm,
    Verify,
    Write,
    ReleaseLockowner,
    BackchannelCtl,
    BindConnToSession,
    ExchangeId,
    CreateSession,
    DestroySession,
    FreeStateid,
    GetDirDelegation,
    Getdeviceinfo,
    Getdevicelist,
    Layoutcommit,
    Layoutget,
    Layoutreturn,
    SecinfoNoName,
    Sequence,
    SetSsv,
    TestStateid,
    WantDelegation,
    DestroyClientid,
    ReclaimComplete,
    Allocate,
    Copy,
    Seek,
    Illegal,
}

/// The name an operation is logged under.
pub open spec fn op_name_spec(op: NfsOpnum4) -> Seq<char> {
    match op {
        NfsOpnum4::OpUndef0 | NfsOpnum4::OpUndef1 | NfsOpnum4::OpUndef2 => "UNDEF"@,
        NfsOpnum4::Access => "ACCESS"@,
        NfsOpnum4::Close => "CLOSE"@,
        NfsOpnum4::Commit => "COMMIT"@,
        NfsOpnum4::Create => "CREATE"@,
        NfsOpnum4::Delegpurge => "DELEGPURGE"@,
        NfsOpnum4::Delegreturn => "DELEGRETURN"@,
        NfsOpnum4::Getattr => "GETATTR"@,
        NfsOpnum4::Getfh => "GETFH"@,
        NfsOpnum4::Link => "LINK"@,
        NfsOpnum4::Lock => "LOCK"@,
        NfsOpnum4::Lockt => "LOCKT"@,
        NfsOpnum4::Locku => "LOCKU"@,
        NfsOpnum4::Lookup => "LOOKUP"@,
        NfsOpnum4::Lookupp => "LOOKUPP"@,
        NfsOpnum4::Nverify => "NVERIFY"@,
        NfsOpnum4::Open => "OPEN"@,
        NfsOpnum4::Openattr => "OPENATTR"@,
        NfsOpnum4::OpenConfirm => "OPEN_CONFIRM"@,
        NfsOpnum4::OpenDowngrade => "OPEN_DOWNGRADE"@,
        NfsOpnum4::Putfh => "PUTFH"@,
        NfsOpnum4::Putpubfh => "PUTPUBFH"@,
        NfsOpnum4::Putrootfh => "PUTROOTFH"@,
        NfsOpnum4::Read => "READ"@,
        NfsOpnum4::Readdir => "READDIR"@,
        NfsOpnum4::Readlink => "READLINK"@,
        NfsOpnum4::Remove => "REMOVE"@,
        NfsOpnum4::Rename => "RENAME"@,
        NfsOpnum4::Renew => "RENEW"@,
        NfsOpnum4::Restorefh => "RESTOREFH"@,
        NfsOpnum4::Savefh => "SAVEFH"@,
        NfsOpnum4::Secinfo => "SECINFO"@,
        NfsOpnum4::Setattr => "SETATTR"@,
        NfsOpnum4::Setclientid => "SETCLIENTID"@,
        NfsOpnum4::SetclientidConfirm => "SETCLIENTID_CONFIRM"@,
        NfsOpnum4::Verify => "VERIFY"@,
        NfsOpnum4::Write => "WRITE"@,
        NfsOpnum4::ReleaseLockowner => "RELEASE_LOCKOWNER"@,
        _ => "UNKNOWN"@,
    }
}

/// The name an operation is logged under.
pub fn op_name(op: NfsOpnum4) -> (name: &'static str)
    ensures
        name@ == op_name_spec(op),
{
    match op {
        NfsOpnum4::OpUndef0 | NfsOpnum4::OpUndef1 | NfsOpnum4::OpUndef2 => "UNDEF",
        NfsOpnum4::Access => "ACCESS",
        NfsOpnum4::Close => "CLOSE",
        NfsOpnum4::Commit => "COMMIT",
        NfsOpnum4::Create => "CREATE",
        NfsOpnum4::Delegpurge => "DELEGPURGE",
        NfsOpnum4::Delegreturn => "DELEGRETURN",
        NfsOpnum4::Getattr => "GETATTR",
        NfsOpnum4::Getfh => "GETFH",
        NfsOpnum4::Link => "LINK",
        NfsOpnum4::Lock => "LOCK",
        NfsOpnum4::Lockt => "LOCKT",
        NfsOpnum4::Locku => "LOCKU",
        NfsOpnum4::Lookup => "LOOKUP",
        NfsOpnum4::Lookupp => "LOOKUPP",
        NfsOpnum4::Nverify => "NVERIFY",
        NfsOpnum4::Open => "OPEN",
        NfsOpnum4::Openattr => "OPENATTR",
        NfsOpnum4::OpenConfirm => "OPEN_CONFIRM",
        NfsOpnum4::OpenDowngrade => "OPEN_DOWNGRADE",
        NfsOpnum4::Putfh => "PUTFH",
        NfsOpnum4::Putpubfh => "PUTPUBFH",
        NfsOpnum4::Putrootfh => "PUTROOTFH",
        NfsOpnum4::Read => "READ",
        NfsOpnum4::Readdir => "READDIR",
        NfsOpnum4::Readlink => "READLINK",
        NfsOpnum4::Remove => "REMOVE",
        NfsOpnum4::Rename => "RENAME",
        NfsOpnum4::Renew => "RENEW",
        NfsOpnum4::Restorefh => "RESTOREFH",
        NfsOpnum4::Savefh => "SAVEFH",
        NfsOpnum4::Secinfo => "SECINFO",
        NfsOpnum4::Setattr => "SETATTR",
        NfsOpnum4::Setclientid => "SETCLIENTID",
        NfsOpnum4::SetclientidConfirm => "SETCLIENTID_CONFIRM",
        NfsOpnum4::Verify => "VERIFY",
        NfsOpnum4::Write => "WRITE",
        NfsOpnum4::ReleaseLockowner => "RELEASE_LOCKOWNER",
        _ => "UNKNOWN",
    }
}

/// What the COMPOUND loop needs to know of one operation: which it is and,
/// for OPEN, whether it claims by name (CLAIM_NULL) and may create the file.
#[derive(Debug, Clone, Copy)]
pub struct OpSummary {
    pub op: NfsOpnum4,
    pub open_claim_null: bool,
    pub open_creates: bool,
}

/// Whether an operation is refused during the grace period (RFC 7530,
/// Section 9.14): OPEN that may create a file by name, CREATE, REMOVE,
/// RENAME, LOCK, WRITE, SETATTR and LINK.
pub open spec fn grace_denies_spec(op: OpSummary) -> bool {
    match op.op {
        NfsOpnum4::Open => op.open_claim_null && op.open_creates,
        NfsOpnum4::Create | NfsOpnum4::Remove | NfsOpnum4::Rename | NfsOpnum4::Lock
        | NfsOpnum4::Write | NfsOpnum4::Setattr | NfsOpnum4::Link => true,
        _ => false,
    }
}

/// Whether an operation is refused during the grace period.
pub fn grace_denies(op: &OpSummary) -> (r: bool)
    ensures
        r == grace_denies_spec(*op),
{
    match op.op {
        NfsOpnum4::Open => op.open_claim_null && op.open_creates,
        NfsOpnum4::Create | NfsOpnum4::Remove | NfsOpnum4::Rename | NfsOpnum4::Lock
        | NfsOpnum4::Write | NfsOpnum4::Setattr | NfsOpnum4::Link => true,
        _ => false,
    }
}

/// The status a COMPOUND of `minor_version` is refused with before any
/// operation runs: MINOR_VERS_MISMATCH above version 0.
pub fn compound_refusal(minor_version: u32) -> (r: Option<NfsStat4>)
    ensures
        r == (if minor_version > 0 { Some(NfsStat4::Nfs4errMinorVersMismatch) } else { None }),
{
    if minor_version > 0 {
        Some(NfsStat4::Nfs4errMinorVersMismatch)
    } else {
        None
    }
}

/// The status that stops a COMPOUND before operation `op` runs: DELAY where
/// the export's rate limit is exhausted, else GRACE for an operation refused
/// during the grace period; `None` lets it run.
pub fn compound_gate(op: &OpSummary, rate_limited: bool, in_grace: bool) -> (r: Option<NfsStat4>)
    ensures
        r == (if rate_limited {
            Some(NfsStat4::Nfs4errDelay)
        } else if in_grace && grace_denies_spec(*op) {
            Some(NfsStat4::Nfs4errGrace)
        } else {
            None
        }),
{
    if rate_limited {
        Some(NfsStat4::Nfs4errDelay)
    } else if in_grace && grace_denies(op) {
        Some(NfsStat4::Nfs4errGrace)
    } else {
        None
    }
}

/// What the COMPOUND loop does after an operation.
#[derive(Debug, Clone, Copy, PartialEq, Eq, Structural)]
pub enum CompoundStep {
    /// Run the next operation.
    Continue,
    /// Stop and reply with this status.
    Reply(NfsStat4),
}

/// The progress of one COMPOUND: the status of the last operation and how
/// many results have been gathered.
#[derive(Debug, Clone, Copy)]
pub struct CompoundState {
    pub last_status: NfsStat4,
    pub completed: usize,
}

impl CompoundState {
    /// A COMPOUND before its first operation: status OK, no results.
    pub fn new() -> (s: Self)
        ensures
            s.last_status == NfsStat4::Nfs4Ok,
            s.completed == 0,
    {
        CompoundState { last_status: NfsStat4::Nfs4Ok, completed: 0 }
    }

    /// Records what an operation returned: whether it produced a result and
    /// its status. An operation without a result, or with a status other
    /// than OK, ends the COMPOUND with its status; only a result with OK lets
    /// the next operation run.
    pub fn record(&mut self, has_result: bool, status: NfsStat4) -> (step: CompoundStep)
        requires
            old(self).completed < usize::MAX,
        ensures
            final(self).last_status == status,
            final(self).completed == old(self).completed + (if has_result { 1int } else { 0 }),
            step == (if has_result && status == NfsStat4::Nfs4Ok {
                CompoundStep::Continue
            } else {
                CompoundStep::Reply(status)
            }),
    {
        self.last_status = status;
        if !has_result {
            return CompoundStep::Reply(status);
        }
        self.completed = self.completed + 1;
        match status {
            NfsStat4::Nfs4Ok => CompoundStep::Continue,
            _ => CompoundStep::Reply(status),
        }
    }

    /// The status of a COMPOUND whose operations all ran: that of the last.
    pub fn finish(&self) -> (s: NfsStat4)
        ensures
            s == self.last_status,
    {
        self.last_status
    }
}

/// What one operation of a COMPOUND returned: whether it produced a result,
/// and its status.
#[derive(Debug, Clone, Copy)]
pub struct OpOutcome {
    pub has_result: bool,
    pub status: NfsStat4,
}

/// Where a COMPOUND stands after some of its operations: its status, how
/// many operations ran, how many results it gathered, and whether it has
/// stopped.
pub struct CompoundEnd {
    pub status: NfsStat4,
    pub executed: int,
    pub results: int,
    pub stopped: bool,
}

/// Whether the COMPOUND stops at operation `i`: the admission test refuses it, or it
/// returned no result or a status other than OK.
pub open spec fn stops_at(
    ops: Seq<OpSummary>,
    outs: Seq<OpOutcome>,
    limited: Seq<bool>,
    in_grace: bool,
    i: int,
) -> bool {
    limited[i] || (in_grace && grace_denies_spec(ops[i])) || !(outs[i].has_result && outs[i].status
        == NfsStat4::Nfs4Ok)
}

/// The COMPOUND after its first `n` operations, each gated by
/// [`compound_gate`] (with `limited[i]` telling whether the rate limit is
/// exhausted before operation `i`) and, where it runs, returning `outs[i]`,
/// recorded as [`CompoundState::record`] does.
pub open spec fn compound_run(
    ops: Seq<OpSummary>,
    outs: Seq<OpOutcome>,
    limited: Seq<bool>,
    in_grace: bool,
    n: int,
) -> CompoundEnd
    decreases n,
{
    if n <= 0 {
        CompoundEnd { status: NfsStat4::Nfs4Ok, executed: 0, results: 0, stopped: false }
    } else {
        let prev = compound_run(ops, outs, limited, in_grace, n - 1);
        let i = n - 1;
        if prev.stopped {
            prev
        } else if limited[i] {
            CompoundEnd { status: NfsStat4::Nfs4errDelay, stopped: true, ..prev }
        } else if in_grace && grace_denies_spec(ops[i]) {
            CompoundEnd { status: NfsStat4::Nfs4errGrace, stopped: true, ..prev }
        } else {
            let o = outs[i];
            CompoundEnd {
                status: o.status,
                executed: prev.executed + 1,
                results: prev.results + (if o.has_result { 1int } else { 0 }),
                stopped: !(o.has_result && o.status == NfsStat4::Nfs4Ok),
            }
        }
    }
}

/// How a COMPOUND ended: its status, how many operations ran and how many
/// results it gathered.
#[derive(Debug, Clone, Copy)]
pub struct CompoundResult {
    pub status: NfsStat4,
    pub executed: usize,
    pub results: usize,
}

/// Runs the decisions of a COMPOUND over its operations `ops`: before each
/// operation the admission test, then what the operation returned (`outs[i]`), until
/// one stops it. Operations after that one are never looked at.
pub fn run_compound(
    ops: &Vec<OpSummary>,
    outs: &Vec<OpOutcome>,
    limited: &Vec<bool>,
    in_grace: bool,
) -> (r: CompoundResult)
    requires
        outs@.len() == ops@.len(),
        limited@.len() == ops@.len(),
    ensures
        ({
            let e = compound_run(ops@, outs@, limited@, in_grace, ops@.len() as int);
            &&& r.status == e.status
            &&& r.executed == e.executed
            &&& r.results == e.results
        }),
{
    let mut state = CompoundState::new();
    let mut executed: usize = 0;
    let mut i: usize = 0;
    while i < ops.len()
        invariant
            i <= ops@.len(),
            outs@.len() == ops@.len(),
            limited@.len() == ops@.len(),
            ({
                let e = compound_run(ops@, outs@, limited@, in_grace, i as int);
                &&& !e.stopped
                &&& state.last_status == e.status
                &&& executed == e.executed
                &&& state.completed == e.results
                &&& e.executed == i
                &&& e.results == i
            }),
        decreases ops@.len() - i,
    {
        match compound_gate(&ops[i], limited[i], in_grace) {
            Some(status) => {
                proof {
                    lemma_compound_run_stays(ops@, outs@, limited@, in_grace, i as int + 1, ops@.len() as int);
                }
                return CompoundResult { status, executed, results: state.completed };
            },
            None => {},
        }
        let o = outs[i];
        executed = executed + 1;
        let step = state.record(o.has_result, o.status);
        match step {
            CompoundStep::Reply(status) => {
                proof {
                    lemma_compound_run_stays(ops@, outs@, limited@, in_grace, i as int + 1, ops@.len() as int);
                }
                return CompoundResult { status, executed, results: state.completed };
            },
            CompoundStep::Continue => {},
        }
        i = i + 1;
    }
    CompoundResult { status: state.finish(), executed, results: state.completed }
}

/// Once a COMPOUND has stopped, later operations change nothing.
pub proof fn lemma_compound_run_stays(
    ops: Seq<OpSummary>,
    outs: Seq<OpOutcome>,
    limited: Seq<bool>,
    in_grace: bool,
    m: int,
    n: int,
)
    requires
        0 <= m <= n,
        compound_run(ops, outs, limited, in_grace, m).stopped,
    ensures
        compound_run(ops, outs, limited, in_grace, n) == compound_run(ops, outs, limited, in_grace, m),
    decreases n - m,
{
    if n > m {
        lemma_compound_run_stays(ops, outs, limited, in_grace, m, n - 1);
    }
}

/// Where an RPC message goes.
#[derive(Debug, Clone, Copy, PartialEq, Eq, Structural)]
pub enum RpcRoute {
    /// Not a call: answered GARBAGE_ARGS.
    GarbageArgs,
    /// A program other than NFS: PROG_UNAVAIL.
    ProgUnavail,
    /// An NFS version other than 4: PROG_MISMATCH with the versions served.
    ProgMismatch { low: u32, high: u32 },
    /// Procedure 0.
    Null,
    /// Procedure 1.
    Compound,
    /// Any other procedure: PROC_UNAVAIL.
    ProcUnavail,
}

/// The NFS program number.
pub const NFS_PROGRAM: u32 = 100003;

/// An NFS RPC service over a protocol implementation.
#[derive(Debug, Clone)]
pub struct NFSService<Proto> {
    pub server: Proto,
}

impl<Proto> NFSService<Proto> {
    /// A service answering with `protocol`.
    pub fn new(protocol: Proto) -> (s: Self)
        ensures
            s.server == protocol,
    {
        NFSService { server: protocol }
    }

    /// Where an RPC message goes: non-calls are garbage, then the program,
    /// the version (4 only) and the procedure are checked in that order.
    pub fn route(&self, is_call: bool, prog: u32, vers: u32, procedure: u32) -> (r: RpcRoute)
        ensures
            r == (if !is_call {
                RpcRoute::GarbageArgs
            } else if prog != NFS_PROGRAM {
                RpcRoute::ProgUnavail
            } else if vers != 4 {
                RpcRoute::ProgMismatch { low: 4, high: 4 }
            } else if procedure == 0 {
                RpcRoute::Null
            } else if procedure == 1 {
                RpcRoute::Compound
            } else {
                RpcRoute::ProcUnavail
            }),
    {
        if !is_call {
            RpcRoute::GarbageArgs
        } else if prog != NFS_PROGRAM {
            RpcRoute::ProgUnavail
        } else if vers != 4 {
            RpcRoute::ProgMismatch { low: 4, high: 4 }
        } else if procedure == 0 {
            RpcRoute::Null
        } else if procedure == 1 {
            RpcRoute::Compound
        } else {
            RpcRoute::ProcUnavail
        }
    }
}

/// SEQUENCE on a session with `slot_count` slots: the highest slot id it
/// reports, or BADSLOT for a slot id past the last slot.
pub fn sequence_slot(slot_count: usize, slotid: u32) -> (r: Result<u32, NfsStat4>)
    requires
        slot_count <= u32::MAX as usize + 1,
    ensures
        r == (if slotid as int >= slot_count {
            Err::<u32, NfsStat4>(NfsStat4::Nfs4errBadSlot)
        } else {
            Ok::<u32, NfsStat4>((slot_count - 1) as u32)
        }),
{
    if slotid as usize >= slot_count {
        Err(NfsStat4::Nfs4errBadSlot)
    } else {
        Ok((slot_count - 1) as u32)
    }
}

} // verus!
