//! Properties that relate several operations of the server, or hold of every
//! state it can be in, stated over the models that the operations' contracts
//! use.

use vstd::prelude::*;

use crate::attrs::{ace_mask, attr_answer, attr_served, AttrContext, QuotaInfo};
use crate::clientmanager::{
    clients_wf, kept_on_confirm, mark_confirmed, other_client, renew_entry, spec_confirm,
    spec_renew, spec_sweep, spec_upsert, CallbackView, ClientEntryView,
};
use crate::export_manager::{exports_wf, has_name, ExportEntryView};
use crate::filehandle::{real_view, FilehandleView, RealMeta};
use crate::filemanager::{
    blocks_request, kept_by_release, lemma_stateid_number, lock_table_wf, released_with_owner,
    stateid_seq, without_id,
};
use crate::locking::{lock_conflicts, LockType, LockingStateView};
use crate::ops::{access_granted, grant_if};
use crate::proto::{
    FileAttr, FileAttrValue, NfsFh4, NfsLockType4, NfsStat4, Nfstime4, ACCESS4_DELETE, ACCESS4_EXECUTE, ACCESS4_EXTEND,
    ACCESS4_LOOKUP, ACCESS4_MODIFY, ACCESS4_READ, ACE4_EXECUTE, ACE4_READ_DATA, ACE4_WRITE_DATA,
};
use crate::pseudo::{spec_is_pseudo_root, PSEUDO_ROOT_EXPORT_ID};
use crate::dispatch::{
    compound_run, grace_denies_spec, lemma_compound_run_stays, stops_at, NfsOpnum4, OpOutcome,
    OpSummary,
};
use crate::readdir::{attr_store_name, concat, scan, scan_step};

verus! {

/// Once a byte-range lock is granted, every later request that conflicts
/// with it, on the same file, finds a lock in the table that blocks it: a
/// LOCKT for it is denied and a LOCK for it is refused.
pub proof fn law_granted_lock_blocks_conflicting_requests(
    table: Seq<LockingStateView>,
    granted: LockingStateView,
    offset: u64,
    length: u64,
    lock_type: NfsLockType4,
    owner: Seq<u8>,
    client_id: u64,
)
    requires
        lock_conflicts(granted, offset, length, lock_type, owner, client_id),
    ensures
        exists|i: int|
            0 <= i < table.push(granted).len() && blocks_request(
                #[trigger] table.push(granted)[i],
                granted.filehandle_id,
                offset,
                length,
                lock_type,
                owner,
                client_id,
            ),
{
    let t = table.push(granted);
    assert(t[table.len() as int] == granted);
}

/// Once LOCKU or CLOSE has dropped the state with a stateid, no state in the
/// table carries that stateid any more.
pub proof fn law_unlocked_state_is_gone(table: Seq<LockingStateView>, next: u64, i: int)
    requires
        lock_table_wf(table, next),
        0 <= i < table.len(),
    ensures
        forall|j: int| 0 <= j < table.remove(i).len() ==> (#[trigger] table.remove(i)[j]).stateid != table[i].stateid,
{
    let r = table.remove(i);
    assert forall|j: int| 0 <= j < r.len() implies (#[trigger] r[j]).stateid != table[i].stateid by {
        let k = if j < i { j } else { j + 1 };
        assert(r[j] == table[k]);
        assert(k != i);
    }
}

/// RELEASE_LOCKOWNER leaves no byte-range lock of the owner behind, and keeps
/// every other entry of the table.
pub proof fn law_release_lock_owner(table: Seq<LockingStateView>, client_id: u64, owner: Seq<u8>)
    ensures
        forall|j: int| 0 <= j < table.filter(kept_by_release(client_id, owner)).len()
            ==> !released_with_owner(#[trigger] table.filter(kept_by_release(client_id, owner))[j], client_id, owner),
        forall|i: int| 0 <= i < table.len() && !released_with_owner(#[trigger] table[i], client_id, owner)
            ==> table.filter(kept_by_release(client_id, owner)).contains(table[i]),
{
    let p = kept_by_release(client_id, owner);
    assert forall|j: int| 0 <= j < table.filter(p).len()
        implies !released_with_owner(#[trigger] table.filter(p)[j], client_id, owner) by {
        table.lemma_filter_pred(p, j);
    }
    assert forall|i: int| 0 <= i < table.len() && !released_with_owner(#[trigger] table[i], client_id, owner)
        implies table.filter(p).contains(table[i]) by {
        table.lemma_filter_contains(p, i);
    }
}

/// After a filehandle is recorded (by update or refresh), looking it up by
/// its path finds exactly it, and its id names no other entry.
pub proof fn law_recorded_filehandle_is_found(db: Seq<FilehandleView>, fh: FilehandleView)
    ensures
        ({
            let t = without_id(db, fh.id).push(fh);
            &&& t[t.len() - 1] == fh
            &&& forall|j: int| 0 <= j < t.len() - 1 ==> (#[trigger] t[j]).id != fh.id
        }),
{
    let p = |f: FilehandleView| f.id != fh.id;
    let w = without_id(db, fh.id);
    assert forall|j: int| 0 <= j < w.len() implies (#[trigger] w[j]).id != fh.id by {
        db.lemma_filter_pred(p, j);
    }
    let t = w.push(fh);
    assert forall|j: int| 0 <= j < t.len() - 1 implies (#[trigger] t[j]).id != fh.id by {
        assert(t[j] == w[j]);
    }
}

/// The export id read back from a filehandle is the one last stamped into it.
pub proof fn law_stamped_export_id_reads_back(fh: NfsFh4, stamped: NfsFh4, export_id: u8)
    requires
        stamped@ == fh@.update(1, export_id),
    ensures
        (if spec_is_pseudo_root(stamped) { PSEUDO_ROOT_EXPORT_ID } else { stamped[1] }) == export_id,
{
    assert(stamped[1] == stamped@[1]);
}

/// Recording a write of `bytes` and then freeing them gives back the usage
/// there was, as long as the counter did not wrap.
pub proof fn law_quota_write_then_free(used: u64, bytes: u64)
    requires
        used + bytes <= u64::MAX,
    ensures
        ({
            let after_write = ((used + bytes) % 0x1_0000_0000_0000_0000) as u64;
            (if bytes >= after_write { 0 } else { after_write - bytes }) == used
        }),
{
    vstd::arithmetic::div_mod::lemma_small_mod((used + bytes) as nat, 0x1_0000_0000_0000_0000nat);
}

/// A new export's id is used by no export in the registry, so ids are never
/// handed out twice, also after exports were removed.
pub proof fn law_new_export_id_is_unused(v: Seq<ExportEntryView>, next: u8)
    requires
        exports_wf(v, next),
    ensures
        forall|i: int| 0 <= i < v.len() ==> (#[trigger] v[i]).info.export_id != next,
{
}

/// An export added under a name is found under that name, and is the only
/// one with it.
pub proof fn law_added_export_is_found(v: Seq<ExportEntryView>, next: u8, e: ExportEntryView)
    requires
        exports_wf(v.push(e), (next + 1) as u8),
    ensures
        has_name(v.push(e), e.info.name),
        forall|i: int| 0 <= i < v.len() ==> (#[trigger] v[i]).info.name != e.info.name,
{
    let t = v.push(e);
    assert(t[v.len() as int] == e);
    assert forall|i: int| 0 <= i < v.len() implies (#[trigger] v[i]).info.name != e.info.name by {
        assert(t[i] == v[i]);
        assert(t[i].info.name != t[v.len() as int].info.name);
    }
}

/// Whether a source with context `ctx` answers an attribute.
pub open spec fn served_in(ctx: AttrContext) -> spec_fn(FileAttr) -> bool {
    |a: FileAttr| attr_served(a, ctx)
}

/// The attributes answered are among those asked for.
pub proof fn law_answered_attrs_were_requested(request: Seq<FileAttr>, ctx: AttrContext)
    ensures
        forall|i: int| 0 <= i < request.filter(served_in(ctx)).len()
            ==> request.contains(#[trigger] request.filter(served_in(ctx))[i]),
{
    let p = served_in(ctx);
    assert forall|i: int| 0 <= i < request.filter(p).len() implies request.contains(#[trigger] request.filter(p)[i]) by {
        let x = request.filter(p)[i];
        assert(request.filter(p).contains(x));
        request.lemma_filter_contains_rev(p, x);
    }
}

/// The ACL made from a mode grants reading, writing and executing exactly as
/// the permission triple does.
pub proof fn law_acl_follows_mode_bits(bits: u32)
    requires
        bits < 8,
    ensures
        (ace_mask(bits) & ACE4_READ_DATA != 0) == (bits & 4 != 0),
        (ace_mask(bits) & ACE4_WRITE_DATA != 0) == (bits & 2 != 0),
        (ace_mask(bits) & ACE4_EXECUTE != 0) == (bits & 1 != 0),
{
    assert(bits < 8 ==> {
        let m = (0x80u32 | 0x20000u32 | 0x100000u32)
            | (if bits & 4 != 0 { 0x1u32 } else { 0u32 })
            | (if bits & 2 != 0 { 0x2u32 | 0x4u32 | 0x100u32 | 0x40000u32 | 0x80000u32 | 0x10000u32 | 0x40u32 } else { 0u32 })
            | (if bits & 1 != 0 { 0x20u32 } else { 0u32 });
        &&& (m & 1 != 0) == (bits & 4 != 0)
        &&& (m & 2 != 0) == (bits & 2 != 0)
        &&& (m & 0x20 != 0) == (bits & 1 != 0)
    }) by (bit_vector);
}

/// ACCESS never grants a flag that was not requested.
pub proof fn law_access_within_request(
    requested: u32,
    mode: u32,
    file_uid: u32,
    file_gid: u32,
    caller_uid: u32,
    caller_gid: u32,
    is_dir: bool,
)
    ensures
        access_granted(requested, mode, file_uid, file_gid, caller_uid, caller_gid, is_dir) & !requested == 0,
{
    if caller_uid != 0 {
        let bits = crate::ops::applicable_bits(mode, file_uid, file_gid, caller_uid, caller_gid);
        let r = bits & 4 != 0;
        let w = bits & 2 != 0;
        let x = bits & 1 != 0;
        let t1 = grant_if(r, requested, ACCESS4_READ);
        let t2 = grant_if(x, requested, ACCESS4_EXECUTE);
        let t3 = grant_if(is_dir && x, requested, ACCESS4_LOOKUP);
        let t4 = grant_if(!is_dir && r, requested, ACCESS4_LOOKUP);
        let t5 = grant_if(w, requested, ACCESS4_MODIFY);
        let t6 = grant_if(w, requested, ACCESS4_EXTEND);
        let t7 = grant_if(w, requested, ACCESS4_DELETE);
        assert((t1 | t2 | t3 | t4 | t5 | t6 | t7) & !requested == 0) by (bit_vector)
            requires
                t1 == 0 || (t1 == 1 && requested & 1 != 0),
                t2 == 0 || (t2 == 0x20 && requested & 0x20 != 0),
                t3 == 0 || (t3 == 2 && requested & 2 != 0),
                t4 == 0 || (t4 == 2 && requested & 2 != 0),
                t5 == 0 || (t5 == 4 && requested & 4 != 0),
                t6 == 0 || (t6 == 8 && requested & 8 != 0),
                t7 == 0 || (t7 == 0x10 && requested & 0x10 != 0),
        ;
    } else {
        assert(requested & !requested == 0) by (bit_vector);
    }
}

/// The entries a READDIR reply carries have cookies past the request's
/// cookie, strictly increasing in the order they are listed.
pub proof fn law_readdir_cookies_increase(
    names: Seq<Seq<u8>>,
    k: int,
    cookie: u64,
    dircount: u32,
    maxcount: u32,
)
    requires
        0 <= k <= names.len(),
        names.len() < 0x1_0000_0000,
    ensures
        ({
            let s = scan(names, k, cookie, dircount, maxcount).selected;
            &&& forall|i: int| 0 <= i < s.len() ==> (#[trigger] s[i]).0 > cookie && s[i].0 == s[i].1 + 3
                && 0 <= s[i].1 < k
            &&& forall|i: int, j: int| 0 <= i < j < s.len() ==> (#[trigger] s[i]).0 < (#[trigger] s[j]).0
        }),
    decreases k,
{
    if k > 0 {
        law_readdir_cookies_increase(names, k - 1, cookie, dircount, maxcount);
        let prev = scan(names, k - 1, cookie, dircount, maxcount);
        assert(scan(names, k, cookie, dircount, maxcount) == crate::readdir::scan_step(
            prev,
            names[k - 1],
            k - 1,
            cookie,
            dircount,
            maxcount,
        ));
        let s = scan(names, k, cookie, dircount, maxcount).selected;
        if s.len() > prev.selected.len() {
            assert(s == prev.selected.push(((k - 1 + 3) as u64, k - 1)));
            assert(((k - 1 + 3) as u64) as int == k + 2);
            assert forall|i: int, j: int| 0 <= i < j < s.len() implies (#[trigger] s[i]).0 < (#[trigger] s[j]).0 by {
                if j == s.len() - 1 {
                    assert(s[i] == prev.selected[i]);
                } else {
                    assert(s[i] == prev.selected[i] && s[j] == prev.selected[j]);
                }
            }
            assert forall|i: int| 0 <= i < s.len() implies (#[trigger] s[i]).0 > cookie && s[i].0 == s[i].1 + 3
                && 0 <= s[i].1 < k by {
                if i < s.len() - 1 {
                    assert(s[i] == prev.selected[i]);
                }
            }
        } else {
            assert(s == prev.selected);
        }
    }
}

/// SETCLIENTID followed by SETCLIENTID_CONFIRM with the confirm value it
/// handed out, by the same principal, confirms the client under its id.
pub proof fn law_setclientid_then_confirm(
    db: Seq<ClientEntryView>,
    seq: u64,
    verifier: Seq<u8>,
    id: Seq<char>,
    callback: CallbackView,
    principal: Option<Seq<char>>,
    confirm: Seq<u8>,
    now: u64,
)
    requires
        clients_wf(db, seq),
        spec_upsert(db, seq, verifier, id, callback, principal, confirm, now).result is Ok,
        clients_wf(
            spec_upsert(db, seq, verifier, id, callback, principal, confirm, now).db,
            spec_upsert(db, seq, verifier, id, callback, principal, confirm, now).seq,
        ),
    ensures
        ({
            let o = spec_upsert(db, seq, verifier, id, callback, principal, confirm, now);
            let e = o.result->Ok_0;
            let c = spec_confirm(o.db, e.clientid, confirm, principal);
            c.result matches Ok(r) && r.clientid == e.clientid && r.confirmed && r.id == id
        }),
{
    let o = spec_upsert(db, seq, verifier, id, callback, principal, confirm, now);
    let e = o.result->Ok_0;
    let kept = db.filter(crate::clientmanager::kept_on_upsert(id));
    assert(o.db == kept.push(e));
    let d1 = o.db;
    let n = kept.len() as int;
    assert(d1[n] == e);
    assert(crate::clientmanager::known_clientid(d1, e.clientid));
    assert(!crate::clientmanager::principal_mismatch(d1, e.clientid, principal)) by {
        assert forall|i: int| 0 <= i < d1.len() && d1[i].clientid == e.clientid implies d1[i].principal == principal by {
            if i != n {
                assert(d1[i] == kept[i]);
                assert(d1[i].id == d1[n].id);
                db.lemma_filter_pred(crate::clientmanager::kept_on_upsert(id), i);
                assert(kept.contains(kept[i]));
                db.lemma_filter_contains_rev(crate::clientmanager::kept_on_upsert(id), kept[i]);
                assert(d1[i].confirmed);
                assert(!crate::clientmanager::id_in_use(db, id, principal));
                let m = choose|m: int| 0 <= m < db.len() && db[m] == kept[i];
                assert(db[m].id == id && db[m].confirmed);
            }
        }
    }
    let p = kept_on_confirm(e.clientid, confirm);
    let kept2 = d1.filter(p);
    d1.lemma_filter_contains(p, n);
    assert(kept2.contains(e));
    let k0 = choose|k: int| 0 <= k < kept2.len() && kept2[k] == e;
    assert(kept2[k0].clientid == e.clientid && kept2[k0].confirm == confirm);
    let k = choose|k: int| 0 <= k < kept2.len() && kept2[k].clientid == e.clientid && kept2[k].confirm == confirm;
    assert(kept2[k] == e) by {
        assert(kept2.contains(kept2[k]));
        d1.lemma_filter_contains_rev(p, kept2[k]);
        let m = choose|m: int| 0 <= m < d1.len() && d1[m] == kept2[k];
        if m != n {
            assert(d1[m].confirm != d1[n].confirm);
        }
    }
}

/// A second SETCLIENTID for the same id string keeps the client id that the
/// first one gave it.
pub proof fn law_setclientid_again_keeps_clientid(
    db: Seq<ClientEntryView>,
    seq: u64,
    verifier: Seq<u8>,
    id: Seq<char>,
    callback: CallbackView,
    principal: Option<Seq<char>>,
    confirm: Seq<u8>,
    now: u64,
    verifier2: Seq<u8>,
    callback2: CallbackView,
    principal2: Option<Seq<char>>,
    confirm2: Seq<u8>,
    now2: u64,
)
    requires
        spec_upsert(db, seq, verifier, id, callback, principal, confirm, now).result is Ok,
        clients_wf(
            spec_upsert(db, seq, verifier, id, callback, principal, confirm, now).db,
            spec_upsert(db, seq, verifier, id, callback, principal, confirm, now).seq,
        ),
    ensures
        ({
            let o = spec_upsert(db, seq, verifier, id, callback, principal, confirm, now);
            let o2 = spec_upsert(o.db, o.seq, verifier2, id, callback2, principal2, confirm2, now2);
            o2.result matches Ok(e2) ==> e2.clientid == o.result->Ok_0.clientid && o2.seq == o.seq
        }),
{
    let o = spec_upsert(db, seq, verifier, id, callback, principal, confirm, now);
    let e = o.result->Ok_0;
    let kept = db.filter(crate::clientmanager::kept_on_upsert(id));
    assert(o.db == kept.push(e));
    let n = kept.len() as int;
    assert(o.db[n] == e);
    assert(crate::clientmanager::known_id(o.db, id));
    let m = choose|i: int| 0 <= i < o.db.len() && o.db[i].id == id;
    assert(o.db[m].id == o.db[n].id);
}

/// Confirming a client twice with the same value succeeds both times, under
/// the same client id.
pub proof fn law_confirm_is_idempotent(
    db: Seq<ClientEntryView>,
    seq: u64,
    cid: u64,
    confirm: Seq<u8>,
    principal: Option<Seq<char>>,
)
    requires
        clients_wf(db, seq),
        spec_confirm(db, cid, confirm, principal).result is Ok,
    ensures
        ({
            let c1 = spec_confirm(db, cid, confirm, principal);
            let c2 = spec_confirm(c1.db, cid, confirm, principal);
            c2.result matches Ok(r) && r.clientid == cid && r.confirmed
        }),
{
    let p = kept_on_confirm(cid, confirm);
    let kept = db.filter(p);
    let mk = mark_confirmed(cid, confirm);
    let k = choose|k: int| 0 <= k < kept.len() && kept[k].clientid == cid && kept[k].confirm == confirm;
    let d1 = kept.map_values(mk);
    assert(d1[k] == mk(kept[k]));
    assert(crate::clientmanager::known_clientid(d1, cid));
    assert(!crate::clientmanager::principal_mismatch(d1, cid, principal)) by {
        assert forall|i: int| 0 <= i < d1.len() && d1[i].clientid == cid implies d1[i].principal == principal by {
            assert(d1[i] == mk(kept[i]));
            assert(kept.contains(kept[i]));
            db.lemma_filter_contains_rev(p, kept[i]);
            let m = choose|m: int| 0 <= m < db.len() && db[m] == kept[i];
            assert(!crate::clientmanager::principal_mismatch(db, cid, principal));
            assert(db[m].clientid == cid);
        }
    }
    let kept2 = d1.filter(p);
    assert(p(d1[k]));
    d1.lemma_filter_contains(p, k);
    assert(kept2.contains(d1[k]));
    let j = choose|j: int| 0 <= j < kept2.len() && kept2[j] == d1[k];
    assert(kept2[j].clientid == cid && kept2[j].confirm == confirm);
    let j2 = choose|j: int| 0 <= j < kept2.len() && kept2[j].clientid == cid && kept2[j].confirm == confirm;
    assert(kept2[j2].clientid == cid);
}

/// RENEW that succeeds leaves every record of the client out of the
/// courtesy state, renewed at the time of the call.
pub proof fn law_renew_clears_courtesy(db: Seq<ClientEntryView>, cid: u64, now: u64, lease_time: u64)
    requires
        spec_renew(db, cid, now, lease_time).result is Ok,
    ensures
        forall|i: int| 0 <= i < spec_renew(db, cid, now, lease_time).db.len()
            && (#[trigger] spec_renew(db, cid, now, lease_time).db[i]).clientid == cid
            ==> !spec_renew(db, cid, now, lease_time).db[i].courtesy
                && spec_renew(db, cid, now, lease_time).db[i].last_renewed == now,
{
    let d = spec_renew(db, cid, now, lease_time).db;
    assert(d == db.map_values(renew_entry(cid, now)));
    assert forall|i: int| 0 <= i < d.len() && (#[trigger] d[i]).clientid == cid implies !d[i].courtesy && d[i].last_renewed == now by {
        assert(d[i] == renew_entry(cid, now)(db[i]));
    }
}

/// Removing or revoking a client leaves no record of it.
pub proof fn law_removed_client_is_gone(db: Seq<ClientEntryView>, cid: u64)
    ensures
        forall|i: int| 0 <= i < db.filter(other_client(cid)).len() ==> (#[trigger] db.filter(other_client(cid))[i]).clientid != cid,
{
    let p = other_client(cid);
    assert forall|i: int| 0 <= i < db.filter(p).len() implies (#[trigger] db.filter(p)[i]).clientid != cid by {
        db.lemma_filter_pred(p, i);
    }
}

/// Two different id strings never share a client id.
pub proof fn law_distinct_ids_distinct_clientids(db: Seq<ClientEntryView>, seq: u64, i: int, j: int)
    requires
        clients_wf(db, seq),
        0 <= i < db.len(),
        0 <= j < db.len(),
        db[i].id != db[j].id,
    ensures
        db[i].clientid != db[j].clientid,
{
}

/// The COMPOUND before its first stopping operation has run every earlier
/// one, with status OK and one result each.
proof fn lemma_compound_prefix(
    ops: Seq<OpSummary>,
    outs: Seq<OpOutcome>,
    limited: Seq<bool>,
    in_grace: bool,
    m: int,
)
    requires
        0 <= m <= ops.len(),
        outs.len() == ops.len(),
        limited.len() == ops.len(),
        forall|j: int| 0 <= j < m ==> !stops_at(ops, outs, limited, in_grace, j),
    ensures
        ({
            let e = compound_run(ops, outs, limited, in_grace, m);
            &&& !e.stopped
            &&& e.status == NfsStat4::Nfs4Ok
            &&& e.executed == m
            &&& e.results == m
        }),
    decreases m,
{
    if m > 0 {
        lemma_compound_prefix(ops, outs, limited, in_grace, m - 1);
        assert(!stops_at(ops, outs, limited, in_grace, m - 1));
    }
}

/// A COMPOUND runs its operations in order until the first one (`k`) that
/// the admission test refuses or that returns no result or a status other than OK.
/// No operation after it runs; the reply's status is the one it stopped with
/// (DELAY or GRACE from the admission test, else the operation's own), and the reply
/// carries one result for each operation before it, plus its own where it
/// ran and produced one. When no operation stops it, every operation runs,
/// every result is carried, and the status is OK.
pub proof fn law_compound_stops_at_first_failure(
    ops: Seq<OpSummary>,
    outs: Seq<OpOutcome>,
    limited: Seq<bool>,
    in_grace: bool,
    k: int,
)
    requires
        outs.len() == ops.len(),
        limited.len() == ops.len(),
        0 <= k <= ops.len(),
        forall|j: int| 0 <= j < k ==> !stops_at(ops, outs, limited, in_grace, j),
        k < ops.len() ==> stops_at(ops, outs, limited, in_grace, k),
    ensures
        ({
            let e = compound_run(ops, outs, limited, in_grace, ops.len() as int);
            &&& k == ops.len() ==> e.status == NfsStat4::Nfs4Ok && e.executed == k && e.results == k
            &&& k < ops.len() && limited[k] ==> e.status == NfsStat4::Nfs4errDelay && e.executed == k
                && e.results == k
            &&& k < ops.len() && !limited[k] && in_grace && grace_denies_spec(ops[k])
                ==> e.status == NfsStat4::Nfs4errGrace && e.executed == k && e.results == k
            &&& k < ops.len() && !limited[k] && !(in_grace && grace_denies_spec(ops[k]))
                ==> e.status == outs[k].status && e.executed == k + 1
                && e.results == k + (if outs[k].has_result { 1int } else { 0 })
        }),
{
    lemma_compound_prefix(ops, outs, limited, in_grace, k);
    if k < ops.len() {
        assert(compound_run(ops, outs, limited, in_grace, k + 1).stopped);
        lemma_compound_run_stays(ops, outs, limited, in_grace, k + 1, ops.len() as int);
    }
}

/// The names a directory lists: all but the named-attribute store, in
/// directory order.
pub open spec fn listed_names(names: Seq<Seq<u8>>) -> Seq<Seq<u8>> {
    names.filter(|n: Seq<u8>| n != attr_store_name())
}

/// From cookie 0 the scan lists every name but the store, charging each
/// 13 bytes plus its length against `dircount` and 200 against `maxcount`.
proof fn lemma_scan_from_start(names: Seq<Seq<u8>>, k: int, dircount: u32, maxcount: u32)
    requires
        0 <= k <= names.len(),
    ensures
        ({
            let s = scan(names, k, 0, dircount, maxcount);
            &&& s.visible == listed_names(names.take(k))
            &&& s.dir_used == 13 * s.visible.len() + concat(s.visible).len()
            &&& s.max_used == 128 + 200 * s.visible.len()
        }),
    decreases k,
{
    if k > 0 {
        lemma_scan_from_start(names, k - 1, dircount, maxcount);
        reveal(Seq::filter);
        let prev = scan(names, k - 1, 0, dircount, maxcount);
        assert(names.take(k).drop_last() =~= names.take(k - 1));
        assert(names.take(k).last() == names[k - 1]);
        let s = scan(names, k, 0, dircount, maxcount);
        assert(s == scan_step(prev, names[k - 1], k - 1, 0, dircount, maxcount));
        if names[k - 1] != attr_store_name() {
            assert(s.visible == prev.visible.push(names[k - 1]));
            assert(s.visible.drop_last() =~= prev.visible);
            assert(concat(s.visible) == concat(prev.visible) + names[k - 1]);
            assert(listed_names(names.take(k)) == listed_names(names.take(k - 1)).push(names[k - 1]));
        } else {
            assert(listed_names(names.take(k)) == listed_names(names.take(k - 1)));
        }
    }
}

/// The bytes charged by a scan only grow.
proof fn lemma_scan_charges_grow(names: Seq<Seq<u8>>, k: int, j: int, cookie: u64, dircount: u32, maxcount: u32)
    requires
        0 <= k <= j <= names.len(),
    ensures
        scan(names, k, cookie, dircount, maxcount).dir_used <= scan(names, j, cookie, dircount, maxcount).dir_used,
        scan(names, k, cookie, dircount, maxcount).max_used <= scan(names, j, cookie, dircount, maxcount).max_used,
    decreases j,
{
    if j > k {
        lemma_scan_charges_grow(names, k, j - 1, cookie, dircount, maxcount);
    }
}

/// Under a budget that covers the whole scan, every listed name is selected.
proof fn lemma_scan_selects_all(names: Seq<Seq<u8>>, k: int, dircount: u32, maxcount: u32)
    requires
        0 <= k <= names.len(),
        names.len() < 0x1_0000_0000,
        dircount == 0 || (dircount > scan(names, names.len() as int, 0, dircount, maxcount).dir_used
            && maxcount > scan(names, names.len() as int, 0, dircount, maxcount).max_used),
    ensures
        ({
            let s = scan(names, k, 0, dircount, maxcount);
            &&& s.selected.len() == s.visible.len()
            &&& forall|t: int| 0 <= t < s.selected.len() ==> {
                let pos = (#[trigger] s.selected[t]).1;
                &&& 0 <= pos < k
                &&& names[pos] == s.visible[t]
                &&& s.selected[t].0 == pos + 3
            }
        }),
    decreases k,
{
    if k > 0 {
        lemma_scan_selects_all(names, k - 1, dircount, maxcount);
        lemma_scan_charges_grow(names, k, names.len() as int, 0, dircount, maxcount);
    }
}

/// A READDIR from cookie 0 whose size hints leave room for every listed name
/// (or whose `dircount` is 0) lists every name of the directory but the
/// named-attribute store, each once and in directory order, with the cookie
/// of the entry at position `i` being `i + 3`; and the listing ends there.
pub proof fn law_readdir_large_budget_lists_all(names: Seq<Seq<u8>>, dircount: u32, maxcount: u32)
    requires
        names.len() < 0x1_0000_0000,
        ({
            let v = listed_names(names);
            dircount == 0 || (dircount > 13 * v.len() + concat(v).len() && maxcount > 128 + 200 * v.len())
        }),
    ensures
        ({
            let s = scan(names, names.len() as int, 0, dircount, maxcount);
            &&& s.visible == listed_names(names)
            &&& s.selected.len() == s.visible.len()
            &&& forall|t: int| 0 <= t < s.selected.len() ==> {
                let pos = (#[trigger] s.selected[t]).1;
                &&& 0 <= pos < names.len()
                &&& names[pos] == s.visible[t]
                &&& s.selected[t].0 == pos + 3
            }
            &&& s.selected.len() > 0 ==> s.selected[0].0 + s.selected.len() >= s.visible.len()
        }),
{
    lemma_scan_from_start(names, names.len() as int, dircount, maxcount);
    assert(names.take(names.len() as int) =~= names);
    lemma_scan_selects_all(names, names.len() as int, dircount, maxcount);
}

/// The stateid that a granted LOCK hands out (the one of the table's next
/// state number) is carried by no state already in the table, so no stateid
/// is handed out twice.
pub proof fn law_granted_stateid_is_new(table: Seq<LockingStateView>, next: u64)
    requires
        lock_table_wf(table, next),
    ensures
        forall|i: int| 0 <= i < table.len() ==> (#[trigger] table[i]).stateid != stateid_seq(next),
{
    assert forall|i: int| 0 <= i < table.len() implies (#[trigger] table[i]).stateid != stateid_seq(next) by {
        lemma_stateid_number(next);
    }
}

/// Removing the export at position `i` leaves the registry well formed with
/// no export of its name and none of its id, and keeps every other export.
pub proof fn law_removed_export_is_gone(v: Seq<ExportEntryView>, next: u8, i: int)
    requires
        exports_wf(v, next),
        0 <= i < v.len(),
    ensures
        ({
            let w = v.remove(i);
            &&& exports_wf(w, next)
            &&& !has_name(w, v[i].info.name)
            &&& forall|j: int| 0 <= j < w.len() ==> (#[trigger] w[j]).info.export_id != v[i].info.export_id
            &&& forall|j: int| 0 <= j < v.len() && j != i ==> w.contains(#[trigger] v[j])
        }),
{
    let w = v.remove(i);
    assert forall|a: int| 0 <= a < w.len() implies #[trigger] w[a] == v[if a < i { a } else { a + 1 }] by {}
    assert forall|j: int| 0 <= j < v.len() && j != i implies w.contains(#[trigger] v[j]) by {
        let a = if j < i { j } else { j - 1 };
        assert(w[a] == v[j]);
    }
    assert forall|a: int, b: int| 0 <= a < w.len() && 0 <= b < w.len() && a != b implies
        w[a].info.name != w[b].info.name && w[a].info.export_id != w[b].info.export_id by {
        let x = if a < i { a } else { a + 1 };
        let y = if b < i { b } else { b + 1 };
        assert(w[a] == v[x] && w[b] == v[y]);
    }
    assert forall|a: int| 0 <= a < w.len() implies 1 <= #[trigger] w[a].info.export_id < next by {
        assert(w[a] == v[if a < i { a } else { a + 1 }]);
    }
    assert forall|a: int| 0 <= a < w.len() implies (#[trigger] w[a]).info.export_id != v[i].info.export_id
        && w[a].info.name != v[i].info.name by {
        let x = if a < i { a } else { a + 1 };
        assert(w[a] == v[x]);
        assert(v[x] == v[x] && v[i] == v[i]);
    }
}

/// Whether byte `x` lies in the range that starts at `start` and runs for
/// `length` bytes (0: to the end of the file).
pub open spec fn covers(start: u64, length: u64, x: u64) -> bool {
    start <= x && (length == 0 || x - start < length)
}

/// Byte-range locks. Take a held byte-range lock and a request that share a
/// byte (below `u64::MAX`). They conflict exactly when at least one of the
/// two is a write lock and they do not come from the same lock owner: equal
/// owner bytes on equal client ids. Another owner on the same client (a
/// second process) is refused as any other client is, and so is the same
/// owner name on another client. Two read locks never conflict, and neither
/// do ranges that share no byte.
pub proof fn law_byte_range_conflicts(
    lock: LockingStateView,
    offset: u64,
    length: u64,
    lock_type: NfsLockType4,
    owner: Seq<u8>,
    client_id: u64,
)
    requires
        lock.lock_type == LockType::ByteRange,
        lock.start is Some,
        lock.length is Some,
        lock.nfs_lock_type is Some,
    ensures
        (exists|x: u64| #![trigger covers(offset, length, x)]
            x < u64::MAX && covers(lock.start->0, lock.length->0, x) && covers(offset, length, x))
            ==> (lock_conflicts(lock, offset, length, lock_type, owner, client_id) <==> (
                (lock.client_id != client_id || lock.owner != owner)
                && (lock.nfs_lock_type == Some(NfsLockType4::WriteLt)
                    || lock.nfs_lock_type == Some(NfsLockType4::WritewLt)
                    || lock_type == NfsLockType4::WriteLt || lock_type == NfsLockType4::WritewLt))),
        lock.client_id == client_id && lock.owner == owner
            ==> !lock_conflicts(lock, offset, length, lock_type, owner, client_id),
        (lock.nfs_lock_type == Some(NfsLockType4::ReadLt) || lock.nfs_lock_type == Some(NfsLockType4::ReadwLt))
            && (lock_type == NfsLockType4::ReadLt || lock_type == NfsLockType4::ReadwLt)
            ==> !lock_conflicts(lock, offset, length, lock_type, owner, client_id),
        (forall|x: u64| !(#[trigger] covers(offset, length, x) && covers(lock.start->0, lock.length->0, x)))
            ==> !lock_conflicts(lock, offset, length, lock_type, owner, client_id),
{
    let s = lock.start->0;
    let l = lock.length->0;
    if exists|x: u64| #![trigger covers(offset, length, x)]
        x < u64::MAX && covers(s, l, x) && covers(offset, length, x) {
        let x = choose|x: u64| #![trigger covers(offset, length, x)]
            x < u64::MAX && covers(s, l, x) && covers(offset, length, x);
        assert(s <= x && x < crate::locking::range_end(s, l));
        assert(offset <= x && x < crate::locking::range_end(offset, length));
    }
    if crate::locking::ranges_overlap(s, l, offset, length) {
        // a shared byte: the later of the two starts
        let x: u64 = if s < offset { offset } else { s };
        assert(covers(offset, length, x) && covers(s, l, x));
    }
}

/// The bits a triple grants, spelled out for the flags of ACCESS: READ and
/// LOOKUP (on a non-directory) from `r`, EXECUTE and LOOKUP (on a directory)
/// from `x`, MODIFY, EXTEND and DELETE from `w`.
proof fn lemma_access_from_bits(requested: u32, bits: u32, is_dir: bool, g: u32)
    requires
        bits <= 7,
        g == (grant_if(bits & 4 != 0, requested, ACCESS4_READ) | grant_if(bits & 1 != 0, requested, ACCESS4_EXECUTE)
            | grant_if(is_dir && bits & 1 != 0, requested, ACCESS4_LOOKUP)
            | grant_if(!is_dir && bits & 4 != 0, requested, ACCESS4_LOOKUP)
            | grant_if(bits & 2 != 0, requested, ACCESS4_MODIFY) | grant_if(bits & 2 != 0, requested, ACCESS4_EXTEND)
            | grant_if(bits & 2 != 0, requested, ACCESS4_DELETE)),
    ensures
        (g & 0x1 != 0) == (requested & 0x1 != 0 && bits & 4 != 0),
        (g & 0x2 != 0) == (requested & 0x2 != 0 && (if is_dir { bits & 1 != 0 } else { bits & 4 != 0 })),
        (g & 0x4 != 0) == (requested & 0x4 != 0 && bits & 2 != 0),
        (g & 0x8 != 0) == (requested & 0x8 != 0 && bits & 2 != 0),
        (g & 0x10 != 0) == (requested & 0x10 != 0 && bits & 2 != 0),
        (g & 0x20 != 0) == (requested & 0x20 != 0 && bits & 1 != 0),
        g & !0x3fu32 == 0,
{
    let r = bits & 4 != 0;
    let w = bits & 2 != 0;
    let x = bits & 1 != 0;
    let t1 = grant_if(r, requested, ACCESS4_READ);
    let t2 = grant_if(x, requested, ACCESS4_EXECUTE);
    let t3 = grant_if(is_dir && x, requested, ACCESS4_LOOKUP);
    let t4 = grant_if(!is_dir && r, requested, ACCESS4_LOOKUP);
    let t5 = grant_if(w, requested, ACCESS4_MODIFY);
    let t6 = grant_if(w, requested, ACCESS4_EXTEND);
    let t7 = grant_if(w, requested, ACCESS4_DELETE);
    let rq = requested;
    assert(
        (g & 0x1 != 0) == (rq & 0x1 != 0 && r)
        && (g & 0x2 != 0) == (rq & 0x2 != 0 && (if is_dir { x } else { r }))
        && (g & 0x4 != 0) == (rq & 0x4 != 0 && w)
        && (g & 0x8 != 0) == (rq & 0x8 != 0 && w)
        && (g & 0x10 != 0) == (rq & 0x10 != 0 && w)
        && (g & 0x20 != 0) == (rq & 0x20 != 0 && x)
        && g & !0x3fu32 == 0
    ) by (bit_vector)
        requires
            g == (t1 | t2 | t3 | t4 | t5 | t6 | t7),
            t1 == (if r && rq & 1 != 0 { 1u32 } else { 0u32 }),
            t2 == (if x && rq & 0x20 != 0 { 0x20u32 } else { 0u32 }),
            t3 == (if is_dir && x && rq & 2 != 0 { 2u32 } else { 0u32 }),
            t4 == (if !is_dir && r && rq & 2 != 0 { 2u32 } else { 0u32 }),
            t5 == (if w && rq & 4 != 0 { 4u32 } else { 0u32 }),
            t6 == (if w && rq & 8 != 0 { 8u32 } else { 0u32 }),
            t7 == (if w && rq & 0x10 != 0 { 0x10u32 } else { 0u32 }),
    ;
}

/// ACCESS for a caller other than root. The owner of a file (equal uids) is
/// granted by the owner's permission bits (0o400 read, 0o200 write, 0o100
/// execute), whatever its group; a caller of the file's group that is not
/// its owner by the group's bits (0o040, 0o020, 0o010); anyone else by the
/// others' bits (0o004, 0o002, 0o001). Read grants READ, and LOOKUP on a
/// non-directory; execute grants EXECUTE, and LOOKUP on a directory; write
/// grants MODIFY, EXTEND and DELETE; each only where it was requested, and
/// nothing else is granted.
pub proof fn law_access_follows_the_callers_permission_bits(
    requested: u32,
    mode: u32,
    file_uid: u32,
    file_gid: u32,
    caller_uid: u32,
    caller_gid: u32,
    is_dir: bool,
)
    requires
        caller_uid != 0,
    ensures
        ({
            let g = access_granted(requested, mode, file_uid, file_gid, caller_uid, caller_gid, is_dir);
            let (rm, wm, xm) = if caller_uid == file_uid {
                (0o400u32, 0o200u32, 0o100u32)
            } else if caller_gid == file_gid {
                (0o040u32, 0o020u32, 0o010u32)
            } else {
                (0o004u32, 0o002u32, 0o001u32)
            };
            &&& (g & ACCESS4_READ != 0) == (requested & ACCESS4_READ != 0 && mode & rm != 0)
            &&& (g & ACCESS4_LOOKUP != 0) == (requested & ACCESS4_LOOKUP != 0
                && (if is_dir { mode & xm != 0 } else { mode & rm != 0 }))
            &&& (g & ACCESS4_MODIFY != 0) == (requested & ACCESS4_MODIFY != 0 && mode & wm != 0)
            &&& (g & ACCESS4_EXTEND != 0) == (requested & ACCESS4_EXTEND != 0 && mode & wm != 0)
            &&& (g & ACCESS4_DELETE != 0) == (requested & ACCESS4_DELETE != 0 && mode & wm != 0)
            &&& (g & ACCESS4_EXECUTE != 0) == (requested & ACCESS4_EXECUTE != 0 && mode & xm != 0)
            &&& g & !0x3fu32 == 0
        }),
{
    let g = access_granted(requested, mode, file_uid, file_gid, caller_uid, caller_gid, is_dir);
    if caller_uid == file_uid {
        let bits = (mode >> 6u32) & 7;
        assert(bits <= 7 && (bits & 4 != 0) == (mode & 0o400 != 0) && (bits & 2 != 0) == (mode & 0o200 != 0)
            && (bits & 1 != 0) == (mode & 0o100 != 0)) by (bit_vector)
            requires bits == (mode >> 6u32) & 7;
        lemma_access_from_bits(requested, bits, is_dir, g);
    } else if caller_gid == file_gid {
        let bits = (mode >> 3u32) & 7;
        assert(bits <= 7 && (bits & 4 != 0) == (mode & 0o040 != 0) && (bits & 2 != 0) == (mode & 0o020 != 0)
            && (bits & 1 != 0) == (mode & 0o010 != 0)) by (bit_vector)
            requires bits == (mode >> 3u32) & 7;
        lemma_access_from_bits(requested, bits, is_dir, g);
    } else {
        let bits = mode & 7;
        assert(bits <= 7 && (bits & 4 != 0) == (mode & 0o004 != 0) && (bits & 2 != 0) == (mode & 0o002 != 0)
            && (bits & 1 != 0) == (mode & 0o001 != 0)) by (bit_vector)
            requires bits == mode & 7;
        lemma_access_from_bits(requested, bits, is_dir, g);
    }
}

/// The lease sweep purges a client whose confirmed record is in the
/// courtesy state and was last renewed at least twice the lease time ago:
/// its client id is in the list the sweep returns, and no record of that
/// client is left. A confirmed record renewed less than a lease time ago is
/// kept and its client is not returned.
pub proof fn law_sweep_purges_expired_courtesy_clients(
    db: Seq<ClientEntryView>,
    now: u64,
    lease_time: u64,
    i: int,
)
    requires
        0 <= i < db.len(),
        db[i].confirmed,
        db[i].courtesy,
        now >= db[i].last_renewed,
        (now - db[i].last_renewed) / 1_000_000_000 >= 2 * lease_time,
    ensures
        ({
            let o = spec_sweep(db, now, lease_time);
            &&& o.result matches Ok(ids) && ids.contains(db[i].clientid)
            &&& forall|j: int| 0 <= j < o.db.len() ==> (#[trigger] o.db[j]).clientid != db[i].clientid
        }),
{
    let ex = crate::clientmanager::expires(now, lease_time);
    let ne = crate::clientmanager::not_expired(db, now, lease_time);
    let mc = crate::clientmanager::mark_courtesy(db, now, lease_time);
    assert(ex(db[i]));
    db.lemma_filter_contains(ex, i);
    let f = db.filter(ex);
    let k = choose|k: int| 0 <= k < f.len() && f[k] == db[i];
    let ids = f.map_values(|e: ClientEntryView| e.clientid);
    assert(ids[k] == db[i].clientid);
    let kept = db.filter(ne);
    assert forall|j: int| 0 <= j < kept.map_values(mc).len() implies (#[trigger] kept.map_values(mc)[j]).clientid != db[i].clientid by {
        db.lemma_filter_pred(ne, j);
        assert(ne(kept[j]));
        if kept[j].clientid == db[i].clientid {
            assert(ex(db[i]) && db[i].clientid == kept[j].clientid);
            assert(false);
        }
    }
}

/// The lease sweep turns a client whose confirmed records have all gone
/// unrenewed for at least a lease time, none of them in the courtesy state
/// yet, into a courtesy client: every one of its records is kept, marked as
/// courtesy and otherwise unchanged, and its client id is not returned as
/// purged.
pub proof fn law_sweep_marks_lapsed_clients_courteous(
    db: Seq<ClientEntryView>,
    now: u64,
    lease_time: u64,
    cid: u64,
)
    requires
        forall|j: int| 0 <= j < db.len() && (#[trigger] db[j]).clientid == cid ==> {
            &&& db[j].confirmed
            &&& !db[j].courtesy
            &&& now >= db[j].last_renewed
            &&& (now - db[j].last_renewed) / 1_000_000_000 >= lease_time
        },
    ensures
        ({
            let o = spec_sweep(db, now, lease_time);
            &&& o.result matches Ok(ids) && !ids.contains(cid)
            &&& forall|j: int| 0 <= j < db.len() && (#[trigger] db[j]).clientid == cid
                ==> o.db.contains(ClientEntryView { courtesy: true, ..db[j] })
        }),
{
    let ex = crate::clientmanager::expires(now, lease_time);
    let ne = crate::clientmanager::not_expired(db, now, lease_time);
    let mc = crate::clientmanager::mark_courtesy(db, now, lease_time);
    let mk = crate::clientmanager::marks_courtesy(now, lease_time);
    let f = db.filter(ex);
    let ids = f.map_values(|e: ClientEntryView| e.clientid);
    assert forall|k: int| 0 <= k < ids.len() implies ids[k] != cid by {
        db.lemma_filter_pred(ex, k);
        assert(ex(f[k]));
        assert(f.contains(f[k]));
        db.lemma_filter_contains_rev(ex, f[k]);
        assert(db.contains(f[k]));
        let j = choose|j: int| 0 <= j < db.len() && db[j] == f[k];
        if f[k].clientid == cid {
            assert(db[j].clientid == cid);
            assert(!db[j].courtesy);
        }
    }
    let kept = db.filter(ne);
    assert forall|j: int| 0 <= j < db.len() && (#[trigger] db[j]).clientid == cid
        implies kept.map_values(mc).contains(ClientEntryView { courtesy: true, ..db[j] }) by {
        assert forall|t: int| 0 <= t < db.len() && #[trigger] ex(db[t]) implies db[t].clientid != cid by {
            if db[t].clientid == cid {
                assert(!db[t].courtesy);
            }
        }
        assert(ne(db[j]));
        db.lemma_filter_contains(ne, j);
        let k = choose|k: int| 0 <= k < kept.len() && kept[k] == db[j];
        assert(mk(db[j]));
        assert(mc(db[j]) == ClientEntryView { courtesy: true, ..db[j] });
        assert(kept.map_values(mc)[k] == ClientEntryView { courtesy: true, ..db[j] });
    }
}

/// GETATTR of a file refreshed from `stat`: time_modify is the file's
/// modification time (`mtime`), time_access its access time and
/// time_metadata its change time, each with its nanoseconds; size, fileid,
/// numlinks and space_used are `stat`'s size, inode number, link count and
/// 512-byte blocks, mode is its permission bits (without the file type), and
/// owner and owner_group are the decimal uid and gid. No other value is an
/// answer for them.
pub proof fn law_attrs_come_from_stat(
    path: Seq<char>,
    id: NfsFh4,
    major: u64,
    minor: u64,
    version: u64,
    m: RealMeta,
    ctx: AttrContext,
    q: Option<QuotaInfo>,
    v: FileAttrValue,
)
    requires
        m.blocks <= u64::MAX / 512,
    ensures
        ({
            let src = real_view(path, id, major, minor, version, m);
            &&& attr_answer(FileAttr::TimeModify, v, src, ctx, q)
                <==> v == FileAttrValue::TimeModify(Nfstime4 { seconds: m.mtime, nseconds: m.mtime_nsec as u32 })
            &&& attr_answer(FileAttr::TimeAccess, v, src, ctx, q)
                <==> v == FileAttrValue::TimeAccess(Nfstime4 { seconds: m.atime, nseconds: m.atime_nsec as u32 })
            &&& attr_answer(FileAttr::TimeMetadata, v, src, ctx, q)
                <==> v == FileAttrValue::TimeMetadata(Nfstime4 { seconds: m.ctime, nseconds: m.ctime_nsec as u32 })
            &&& attr_answer(FileAttr::Size, v, src, ctx, q) <==> v == FileAttrValue::Size(m.size)
            &&& attr_answer(FileAttr::Fileid, v, src, ctx, q) <==> v == FileAttrValue::Fileid(m.ino)
            &&& attr_answer(FileAttr::Numlinks, v, src, ctx, q) <==> v == FileAttrValue::Numlinks(m.nlink as u32)
            &&& attr_answer(FileAttr::SpaceUsed, v, src, ctx, q)
                <==> v == FileAttrValue::SpaceUsed((m.blocks * 512) as u64)
            &&& attr_answer(FileAttr::Mode, v, src, ctx, q) <==> v == FileAttrValue::Mode(m.mode & 0o7777u32)
            &&& attr_answer(FileAttr::Fsid, v, src, ctx, q)
                <==> v == FileAttrValue::Fsid(crate::proto::Fsid4 { major, minor })
            &&& attr_answer(FileAttr::Owner, v, src, ctx, q)
                <==> (v matches FileAttrValue::Owner(o) && o@ == crate::filehandle::decimal(m.uid as nat))
            &&& attr_answer(FileAttr::OwnerGroup, v, src, ctx, q)
                <==> (v matches FileAttrValue::OwnerGroup(o) && o@ == crate::filehandle::decimal(m.gid as nat))
        }),
{
}

/// The grace period. While the server is in grace (and no rate limit is
/// hit), a COMPOUND whose earlier operations all succeed stops at its first
/// CREATE, REMOVE, RENAME, LOCK, WRITE, SETATTR or LINK, or OPEN by name
/// that may create, with NFS4ERR_GRACE: that operation and all later ones
/// never run. Read-only operations (READ, GETATTR, LOOKUP, PUTFH, ACCESS,
/// READDIR) are never refused for grace.
pub proof fn law_grace_refuses_mutations(
    ops: Seq<OpSummary>,
    outs: Seq<OpOutcome>,
    limited: Seq<bool>,
    k: int,
)
    requires
        outs.len() == ops.len(),
        limited.len() == ops.len(),
        0 <= k < ops.len(),
        !limited[k],
        forall|j: int| 0 <= j < k ==> !stops_at(ops, outs, limited, true, j),
        ({
            let o = ops[k];
            ||| o.op == NfsOpnum4::Create
            ||| o.op == NfsOpnum4::Remove
            ||| o.op == NfsOpnum4::Rename
            ||| o.op == NfsOpnum4::Lock
            ||| o.op == NfsOpnum4::Write
            ||| o.op == NfsOpnum4::Setattr
            ||| o.op == NfsOpnum4::Link
            ||| (o.op == NfsOpnum4::Open && o.open_claim_null && o.open_creates)
        }),
    ensures
        ({
            let e = compound_run(ops, outs, limited, true, ops.len() as int);
            &&& e.status == NfsStat4::Nfs4errGrace
            &&& e.executed == k
            &&& e.results == k
        }),
        forall|o: OpSummary|
            (o.op == NfsOpnum4::Read || o.op == NfsOpnum4::Getattr || o.op == NfsOpnum4::Lookup
                || o.op == NfsOpnum4::Putfh || o.op == NfsOpnum4::Access || o.op == NfsOpnum4::Readdir)
                ==> !#[trigger] grace_denies_spec(o),
{
    assert(grace_denies_spec(ops[k]));
    assert(stops_at(ops, outs, limited, true, k));
    law_compound_stops_at_first_failure(ops, outs, limited, true, k);
}

} // verus!
