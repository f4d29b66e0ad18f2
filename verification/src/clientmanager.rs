//! Client records of SETCLIENTID / SETCLIENTID_CONFIRM (RFC 7530, Section
//! 16.33 and 16.34), their leases, and the courteous handling of expired ones.

use rand::distributions::Uniform;
use rand::Rng;
use std::time::Instant;
use vstd::prelude::*;

use crate::proto::NfsStat4;

verus! {

#[verifier::external_type_specification]
#[verifier::external_body]
pub struct ExInstant(Instant);

/// Reads the monotonic clock (`std::time::Instant::now`). Nothing is stated of
/// the instant returned: it depends on when the call is made.
#[verifier::external_body]
fn instant_now() -> (r: Instant) {
    Instant::now()
}

/// Nanoseconds elapsed on the monotonic clock since `origin`
/// (`std::time::Instant::elapsed`), as a `u64`. Nothing is stated of the
/// value: it depends on when the call is made.
#[verifier::external_body]
fn nanos_since(origin: &Instant) -> (r: u64) {
    origin.elapsed().as_nanos() as u64
}

/// One sample of the uniform distribution on `[low, high)` from the thread's
/// random number generator (`rand::distributions::Uniform::new` sampled with
/// `rand::Rng::sample` on `rand::thread_rng()`). The crate documents the
/// half-open range and that `new` panics unless `low < high`; which value in
/// the range comes out is left to chance.
#[verifier::external_body]
fn sample_uniform_u8(low: u8, high: u8) -> (r: u8)
    requires
        low < high,
    ensures
        low <= r < high,
{
    rand::thread_rng().sample(Uniform::new(low, high))
}

/// Where the server calls a client back.
#[derive(Debug, PartialEq, PartialOrd)]
pub struct ClientCallback {
    pub program: u32,
    pub rnetid: String,
    pub raddr: String,
    pub callback_ident: u32,
}

/// The mathematical value of a [`ClientCallback`].
pub struct CallbackView {
    pub program: u32,
    pub rnetid: Seq<char>,
    pub raddr: Seq<char>,
    pub callback_ident: u32,
}

impl View for ClientCallback {
    type V = CallbackView;

    open spec fn view(&self) -> CallbackView {
        CallbackView {
            program: self.program,
            rnetid: self.rnetid@,
            raddr: self.raddr@,
            callback_ident: self.callback_ident,
        }
    }
}

impl Clone for ClientCallback {
    fn clone(&self) -> (r: Self)
        ensures
            r@ == self@,
    {
        ClientCallback {
            program: self.program,
            rnetid: self.rnetid.clone(),
            raddr: self.raddr.clone(),
            callback_ident: self.callback_ident,
        }
    }
}

/// The view of an optional string.
pub open spec fn opt_str_view(s: Option<String>) -> Option<Seq<char>> {
    match s {
        Some(x) => Some(x@),
        None => None,
    }
}

/// Copies an optional string.
pub fn clone_opt_string(s: &Option<String>) -> (r: Option<String>)
    ensures
        opt_str_view(r) == opt_str_view(*s),
{
    match s {
        Some(x) => Some(x.clone()),
        None => None,
    }
}

/// Compares two optional strings.
pub fn opt_string_eq(a: &Option<String>, b: &Option<String>) -> (r: bool)
    ensures
        r == (opt_str_view(*a) == opt_str_view(*b)),
{
    match (a, b) {
        (Some(x), Some(y)) => *x == *y,
        (None, None) => true,
        _ => false,
    }
}

/// Compares two eight-byte values.
pub fn bytes8_eq(a: &[u8; 8], b: &[u8; 8]) -> (r: bool)
    ensures
        r == (a@ == b@),
{
    let mut i: usize = 0;
    while i < 8
        invariant
            i <= 8,
            a@.len() == 8,
            b@.len() == 8,
            forall|j: int| 0 <= j < i ==> a@[j] == b@[j],
        decreases 8 - i,
    {
        if a[i] != b[i] {
            return false;
        }
        i = i + 1;
    }
    assert(a@ =~= b@);
    true
}

/// A client record (RFC 7530, Section 16.33.5). `last_renewed` is the time of
/// the last lease renewal, in nanoseconds on the client manager's clock.
#[derive(Debug)]
pub struct ClientEntry {
    pub principal: Option<String>,
    pub verifier: [u8; 8],
    pub id: String,
    pub clientid: u64,
    pub callback: ClientCallback,
    pub setclientid_confirm: [u8; 8],
    pub confirmed: bool,
    /// Last time this client's lease was renewed (RENEW, OPEN, CLOSE, etc.)
    pub last_renewed: u64,
    /// Whether the client's lease has expired but state is preserved (courteous server)
    pub courtesy: bool,
}

/// The mathematical value of a [`ClientEntry`].
pub struct ClientEntryView {
    pub principal: Option<Seq<char>>,
    pub verifier: Seq<u8>,
    pub id: Seq<char>,
    pub clientid: u64,
    pub callback: CallbackView,
    pub confirm: Seq<u8>,
    pub confirmed: bool,
    pub last_renewed: u64,
    pub courtesy: bool,
}

impl View for ClientEntry {
    type V = ClientEntryView;

    open spec fn view(&self) -> ClientEntryView {
        ClientEntryView {
            principal: opt_str_view(self.principal),
            verifier: self.verifier@,
            id: self.id@,
            clientid: self.clientid,
            callback: self.callback@,
            confirm: self.setclientid_confirm@,
            confirmed: self.confirmed,
            last_renewed: self.last_renewed,
            courtesy: self.courtesy,
        }
    }
}

impl Clone for ClientEntry {
    fn clone(&self) -> (r: Self)
        ensures
            r@ == self@,
    {
        ClientEntry {
            principal: clone_opt_string(&self.principal),
            verifier: self.verifier,
            id: self.id.clone(),
            clientid: self.clientid,
            callback: self.callback.clone(),
            setclientid_confirm: self.setclientid_confirm,
            confirmed: self.confirmed,
            last_renewed: self.last_renewed,
            courtesy: self.courtesy,
        }
    }
}

/// The error a client operation answers with.
#[derive(Debug, Clone, Copy)]
pub struct ClientManagerError {
    pub nfs_error: NfsStat4,
}

/// The views of a table of client records.
pub open spec fn entries_view(v: Seq<ClientEntry>) -> Seq<ClientEntryView> {
    v.map_values(|e: ClientEntry| e@)
}

/// The invariant of the client table, with `seq` the last client id handed out:
/// no two records share a SETCLIENTID_CONFIRM value; every client id is at
/// most `seq`; two records have the same id string exactly when they have the
/// same client id; and a client id has at most one confirmed record.
pub open spec fn clients_wf(db: Seq<ClientEntryView>, seq: u64) -> bool {
    &&& forall|i: int| 0 <= i < db.len() ==> #[trigger] db[i].clientid <= seq
    &&& forall|i: int, j: int|
        #![trigger db[i], db[j]]
        0 <= i < db.len() && 0 <= j < db.len() ==> {
            &&& (db[i].id == db[j].id) == (db[i].clientid == db[j].clientid)
            &&& i != j ==> db[i].confirm != db[j].confirm
            &&& i != j && db[i].clientid == db[j].clientid ==> !(db[i].confirmed && db[j].confirmed)
        }
}

/// Whether every entry of `sub` is an entry of `db` below index `bound`.
pub open spec fn clients_drawn_from(sub: Seq<ClientEntryView>, db: Seq<ClientEntryView>, bound: int) -> bool {
    forall|k: int| 0 <= k < sub.len() ==> exists|m: int| 0 <= m < bound && #[trigger] sub[k] == db[m]
}

proof fn lemma_clients_wf_push_drawn(kept: Seq<ClientEntryView>, db: Seq<ClientEntryView>, i: int, seq: u64)
    requires
        clients_wf(kept, seq),
        clients_wf(db, seq),
        clients_drawn_from(kept, db, i),
        0 <= i < db.len(),
    ensures
        clients_wf(kept.push(db[i]), seq),
        clients_drawn_from(kept.push(db[i]), db, i + 1),
{
    let nk = kept.push(db[i]);
    let n = kept.len() as int;
    assert forall|k: int| 0 <= k < nk.len() implies exists|m: int| 0 <= m < i + 1 && #[trigger] nk[k] == db[m] by {
        if k == n {
            assert(nk[k] == db[i]);
        } else {
            assert(nk[k] == kept[k]);
            let m = choose|m: int| 0 <= m < i && kept[k] == db[m];
        }
    }
    assert forall|a: int| 0 <= a < nk.len() implies #[trigger] nk[a].clientid <= seq by {
        if a == n {
            assert(nk[a] == db[i]);
        } else {
            assert(nk[a] == kept[a]);
        }
    }
    assert forall|a: int, b: int|
        #![trigger nk[a], nk[b]]
        0 <= a < nk.len() && 0 <= b < nk.len() implies {
            &&& (nk[a].id == nk[b].id) == (nk[a].clientid == nk[b].clientid)
            &&& a != b ==> nk[a].confirm != nk[b].confirm
            &&& a != b && nk[a].clientid == nk[b].clientid ==> !(nk[a].confirmed && nk[b].confirmed)
        } by {
        if a < n && b < n {
            assert(nk[a] == kept[a] && nk[b] == kept[b]);
        } else {
            let ma = if a == n { i } else { choose|m: int| 0 <= m < i && kept[a] == db[m] };
            let mb = if b == n { i } else { choose|m: int| 0 <= m < i && kept[b] == db[m] };
            assert(nk[a] == db[ma]);
            assert(nk[b] == db[mb]);
            assert(a != b ==> ma != mb);
        }
    }
}

/// The courtesy window is passed when more than twice the lease time has elapsed.
pub open spec fn beyond_twice(elapsed: u64, lease_time: u64) -> bool {
    elapsed > 2 * lease_time
}

/// Whole seconds elapsed from `then` to `now` (nanosecond stamps); zero when
/// `now` is earlier.
pub open spec fn elapsed_secs(now: u64, then: u64) -> u64 {
    if now >= then {
        ((now - then) / 1_000_000_000) as u64
    } else {
        0
    }
}

fn elapsed_secs_exec(now: u64, then: u64) -> (r: u64)
    ensures
        r == elapsed_secs(now, then),
{
    now.saturating_sub(then) / 1_000_000_000
}

/// Whether SETCLIENTID for `id` keeps record `e`: every record but the
/// unconfirmed ones of `id` is kept.
pub open spec fn kept_on_upsert(id: Seq<char>) -> spec_fn(ClientEntryView) -> bool {
    |e: ClientEntryView| !(e.id == id && !e.confirmed)
}

/// Whether a confirmed record of `id` was made by another principal.
pub open spec fn id_in_use(db: Seq<ClientEntryView>, id: Seq<char>, principal: Option<Seq<char>>) -> bool {
    exists|i: int| 0 <= i < db.len() && db[i].id == id && db[i].confirmed && db[i].principal != principal
}

/// Whether some record has the id string `id`.
pub open spec fn known_id(db: Seq<ClientEntryView>, id: Seq<char>) -> bool {
    exists|i: int| 0 <= i < db.len() && db[i].id == id
}

/// The client id of the records of `id` (they all share one).
pub open spec fn clientid_of_id(db: Seq<ClientEntryView>, id: Seq<char>) -> u64 {
    db[choose|i: int| 0 <= i < db.len() && db[i].id == id].clientid
}

/// Whether some record holds the SETCLIENTID_CONFIRM value `confirm`.
pub open spec fn confirm_taken(db: Seq<ClientEntryView>, confirm: Seq<u8>) -> bool {
    exists|i: int| 0 <= i < db.len() && db[i].confirm == confirm
}

/// What an operation on the client table leaves behind and answers.
pub struct ClientsOutcome<R> {
    pub db: Seq<ClientEntryView>,
    pub seq: u64,
    pub result: Result<R, NfsStat4>,
}

/// SETCLIENTID on table `db` whose last client id is `seq`, with the freshly
/// drawn confirm value `confirm` and the clock reading `now`.
///
/// A confirmed record of the same id string made by another principal makes
/// it fail with NFS4ERR_CLID_INUSE and change nothing. Otherwise the
/// unconfirmed records of the id string are dropped and a new unconfirmed
/// record is added, under the client id that the id string already has, or
/// else under a new one; should the confirm value already be in use, nothing
/// is added and the answer is NFS4ERR_SERVERFAULT.
pub open spec fn spec_upsert(
    db: Seq<ClientEntryView>,
    seq: u64,
    verifier: Seq<u8>,
    id: Seq<char>,
    callback: CallbackView,
    principal: Option<Seq<char>>,
    confirm: Seq<u8>,
    now: u64,
) -> ClientsOutcome<ClientEntryView> {
    if id_in_use(db, id, principal) {
        ClientsOutcome { db, seq, result: Err(NfsStat4::Nfs4errClidInuse) }
    } else {
        let kept = db.filter(kept_on_upsert(id));
        let fresh = !known_id(db, id);
        let cid: u64 = if fresh { (seq + 1) as u64 } else { clientid_of_id(db, id) };
        let seq2: u64 = if fresh { (seq + 1) as u64 } else { seq };
        let e = ClientEntryView {
            principal,
            verifier,
            id,
            clientid: cid,
            callback,
            confirm,
            confirmed: false,
            last_renewed: now,
            courtesy: false,
        };
        if confirm_taken(kept, confirm) {
            ClientsOutcome { db: kept, seq: seq2, result: Err(NfsStat4::Nfs4errServerfault) }
        } else {
            ClientsOutcome { db: kept.push(e), seq: seq2, result: Ok(e) }
        }
    }
}

/// The view of an answer holding a client record.
pub open spec fn entry_result_view(r: Result<ClientEntry, ClientManagerError>) -> Result<ClientEntryView, NfsStat4> {
    match r {
        Ok(e) => Ok(e@),
        Err(err) => Err(err.nfs_error),
    }
}

/// The view of an answer holding nothing.
pub open spec fn unit_result_view(r: Result<(), ClientManagerError>) -> Result<(), NfsStat4> {
    match r {
        Ok(_) => Ok(()),
        Err(err) => Err(err.nfs_error),
    }
}

/// A request to record the current filehandle of a client address.
#[derive(Debug, Clone)]
pub struct SetCurrentFilehandleRequest {
    pub client_addr: String,
    pub filehandle_id: Vec<u8>,
}

/// The client manager: the table of client records, the last client id handed
/// out, the current filehandle of each client address, the lease time in
/// seconds, and the origin of its clock.
pub struct ClientManager {
    /// The client records, looked up by client id, id string and confirm
    /// value. A `Vec` in place of a multi-index map; the uniqueness of
    /// confirm values that such a map's unique index would enforce is part of
    /// the invariant `clients_wf`.
    pub db: Vec<ClientEntry>,
    pub client_id_seq: u64,
    /// The current filehandle of each client address: a `Vec` of pairs in
    /// place of a hash map. Setting one replaces the first pair of that
    /// address in place, or adds a pair where there is none.
    pub filehandles: Vec<(String, Vec<u8>)>,
    /// NFSv4 lease time in seconds (default 90)
    pub lease_time: u64,
    pub clock_origin: Instant,
}

impl ClientManager {
    /// The views of the client records.
    pub open spec fn entries(&self) -> Seq<ClientEntryView> {
        entries_view(self.db@)
    }

    /// The invariant of the client table.
    pub open spec fn wf(&self) -> bool {
        clients_wf(self.entries(), self.client_id_seq)
    }

    /// Whether `self` and `other` agree on all but the client table and the id counter.
    pub open spec fn same_but_clients(&self, other: &ClientManager) -> bool {
        &&& self.filehandles == other.filehandles
        &&& self.lease_time == other.lease_time
        &&& self.clock_origin == other.clock_origin
    }

    pub fn new() -> (r: Self)
        ensures
            r.wf(),
            r.entries() == Seq::<ClientEntryView>::empty(),
            r.client_id_seq == 0,
            r.filehandles@ == Seq::<(String, Vec<u8>)>::empty(),
            r.lease_time == 90,
    {
        ClientManager {
            db: Vec::new(),
            client_id_seq: 0,
            filehandles: Vec::new(),
            lease_time: 90,
            clock_origin: instant_now(),
        }
    }

    /// Nanoseconds on this manager's clock since its origin. Nothing is
    /// stated of the value: it is a reading of the monotonic clock, so it
    /// depends on when the call is made, and callers state what holds for
    /// every reading.
    fn now(&self) -> u64 {
        nanos_since(&self.clock_origin)
    }

    fn get_next_client_id(&mut self) -> (r: u64)
        requires
            old(self).client_id_seq < u64::MAX,
        ensures
            r == old(self).client_id_seq + 1,
            final(self).client_id_seq == r,
            final(self).db == old(self).db,
            final(self).same_but_clients(old(self)),
    {
        self.client_id_seq = self.client_id_seq + 1;
        self.client_id_seq
    }

    /// SETCLIENTID with a given confirm value and clock reading; see [`spec_upsert`].
    pub fn upsert_client_at(
        &mut self,
        verifier: [u8; 8],
        id: String,
        callback: ClientCallback,
        principal: Option<String>,
        setclientid_confirm: [u8; 8],
        now: u64,
    ) -> (r: Result<ClientEntry, ClientManagerError>)
        requires
            old(self).wf(),
            old(self).client_id_seq < u64::MAX,
        ensures
            final(self).wf(),
            final(self).same_but_clients(old(self)),
            ({
                let o = spec_upsert(old(self).entries(), old(self).client_id_seq, verifier@, id@,
                    callback@, opt_str_view(principal), setclientid_confirm@, now);
                &&& final(self).entries() == o.db
                &&& final(self).client_id_seq == o.seq
                &&& entry_result_view(r) == o.result
            }),
    {
        let ghost db0 = self.entries();
        let ghost seq0 = self.client_id_seq;
        let ghost pv = opt_str_view(principal);
        // this is an update attempt when records of the id string exist
        let mut existing: Option<u64> = None;
        let mut i: usize = 0;
        while i < self.db.len()
            invariant
                i <= self.db.len(),
                self.entries() == db0,
                *self == *old(self),
                clients_wf(db0, seq0),
                seq0 == old(self).client_id_seq,
                db0 == old(self).entries(),
                pv == opt_str_view(principal),
                forall|j: int| 0 <= j < i ==> !(db0[j].id == id@ && db0[j].confirmed && db0[j].principal != pv),
                existing is Some ==> exists|j: int| 0 <= j < i && db0[j].id == id@ && db0[j].clientid == existing->0,
                existing is None ==> forall|j: int| 0 <= j < i ==> db0[j].id != id@,
            decreases self.db.len() - i,
        {
            let e = &self.db[i];
            proof {
                assert(db0[i as int] == e@);
            }
            let same_id = e.id == id;
            assert(same_id == (db0[i as int].id == id@));
            if same_id {
                let same_principal = opt_string_eq(&e.principal, &principal);
                assert(same_principal == (db0[i as int].principal == pv));
                if e.confirmed && !same_principal {
                    // A confirmed record of the same id string whose principal
                    // differs: NFS4ERR_CLID_INUSE.
                    return Err(ClientManagerError { nfs_error: NfsStat4::Nfs4errClidInuse });
                }
                existing = Some(e.clientid);
            }
            i = i + 1;
        }
        proof {
            assert(!id_in_use(db0, id@, pv));
            if existing is Some {
                let j = choose|j: int| 0 <= j < self.db.len() && db0[j].id == id@ && db0[j].clientid == existing->0;
                let k = choose|k: int| 0 <= k < db0.len() && db0[k].id == id@;
                assert(db0[j] == db0[j] && db0[k] == db0[k]);
                assert(known_id(db0, id@));
                assert(clientid_of_id(db0, id@) == existing->0);
            } else {
                assert(!known_id(db0, id@));
            }
        }

        // Drop the unconfirmed records of the id string
        let ghost pred = kept_on_upsert(id@);
        let mut kept: Vec<ClientEntry> = Vec::new();
        let mut i: usize = 0;
        while i < self.db.len()
            invariant
                i <= self.db.len(),
                self.entries() == db0,
                *self == *old(self),
                clients_wf(db0, seq0),
                clients_wf(entries_view(kept@), seq0),
                clients_drawn_from(entries_view(kept@), db0, i as int),
                pred == kept_on_upsert(id@),
                entries_view(kept@) == db0.take(i as int).filter(pred),
            decreases self.db.len() - i,
        {
            let e = &self.db[i];
            let drop = e.id == id && !e.confirmed;
            let ghost ii = i as int;
            proof {
                reveal(Seq::filter);
                assert(db0[ii] == self.db@[ii]@);
                assert(db0.take(ii + 1).drop_last() =~= db0.take(ii));
                assert(db0.take(ii + 1).last() == db0[ii]);
                assert(drop == !pred(db0[ii]));
            }
            if !drop {
                let c = e.clone();
                let ghost before = entries_view(kept@);
                proof {
                    lemma_clients_wf_push_drawn(before, db0, ii, seq0);
                }
                kept.push(c);
                proof {
                    assert(entries_view(kept@) =~= before.push(db0[ii]));
                }
            }
            i = i + 1;
            proof {
                if drop {
                    assert forall|k: int| 0 <= k < entries_view(kept@).len() implies exists|m: int| 0 <= m < i && #[trigger] entries_view(kept@)[k] == db0[m] by {
                        let m = choose|m: int| 0 <= m < ii && entries_view(kept@)[k] == db0[m];
                    }
                }
            }
        }
        proof {
            assert(db0.take(db0.len() as int) =~= db0);
        }
        let ghost kv = entries_view(kept@);
        assert(kv == db0.filter(kept_on_upsert(id@)));

        let client_id = match existing {
            Some(c) => c,
            None => self.get_next_client_id(),
        };
        let ghost pre3 = *self;
        assert(self.same_but_clients(old(self)));
        proof {
            if existing is Some {
                assert(client_id == clientid_of_id(db0, id@));
            }
        }

        // The confirm value must not be in use already
        let mut i: usize = 0;
        while i < kept.len()
            invariant
                i <= kept.len(),
                kv == entries_view(kept@),
                *self == pre3,
                clients_wf(kv, seq0),
                seq0 <= self.client_id_seq,
                self.same_but_clients(old(self)),
                db0 == old(self).entries(),
                seq0 == old(self).client_id_seq,
                kv == db0.filter(kept_on_upsert(id@)),
                !id_in_use(db0, id@, opt_str_view(principal)),
                existing is None <==> !known_id(db0, id@),
                self.client_id_seq == (if existing is None { (seq0 + 1) as u64 } else { seq0 }),
                forall|j: int| 0 <= j < i ==> kv[j].confirm != setclientid_confirm@,
            decreases kept.len() - i,
        {
            if bytes8_eq(&kept[i].setclientid_confirm, &setclientid_confirm) {
                assert(kv[i as int].confirm == setclientid_confirm@);
                self.db = kept;
                return Err(ClientManagerError { nfs_error: NfsStat4::Nfs4errServerfault });
            }
            i = i + 1;
        }

        let client = ClientEntry {
            principal,
            verifier,
            id,
            clientid: client_id,
            callback,
            setclientid_confirm,
            confirmed: false,
            last_renewed: now,
            courtesy: false,
        };
        let ret = client.clone();
        let ghost ev = client@;
        kept.push(client);
        proof {
            let nk = entries_view(kept@);
            let seq1 = self.client_id_seq;
            assert(nk =~= kv.push(ev));
            assert(seq0 <= seq1);
            if existing is Some {
                let k = choose|k: int| 0 <= k < db0.len() && db0[k].id == id@;
                assert(db0[k].clientid <= seq0);
            }
            assert(ev.clientid <= seq1);
            assert forall|a: int| 0 <= a < nk.len() implies #[trigger] nk[a].clientid <= seq1 by {
                if a < kv.len() {
                    assert(nk[a] == kv[a]);
                    assert(kv[a].clientid <= seq0);
                } else {
                    assert(nk[a] == ev);
                }
            }
            assert forall|a: int, b: int|
                #![trigger nk[a], nk[b]]
                0 <= a < nk.len() && 0 <= b < nk.len() implies {
                    &&& (nk[a].id == nk[b].id) == (nk[a].clientid == nk[b].clientid)
                    &&& a != b ==> nk[a].confirm != nk[b].confirm
                    &&& a != b && nk[a].clientid == nk[b].clientid ==> !(nk[a].confirmed && nk[b].confirmed)
                } by {
                let n = kv.len() as int;
                if a < n && b < n {
                    assert(nk[a] == kv[a] && nk[b] == kv[b]);
                } else if a == n && b < n {
                    assert(nk[b] == kv[b]);
                    let m = choose|m: int| 0 <= m < db0.len() && kv[b] == db0[m];
                    assert(db0[m].clientid <= seq0);
                    if existing is Some {
                        let j = choose|j: int| 0 <= j < db0.len() && db0[j].id == id@ && db0[j].clientid == existing->0;
                        assert(db0[j] == db0[j] && db0[m] == db0[m]);
                    }
                } else if a < n && b == n {
                    assert(nk[a] == kv[a]);
                    let m = choose|m: int| 0 <= m < db0.len() && kv[a] == db0[m];
                    assert(db0[m].clientid <= seq0);
                    if existing is Some {
                        let j = choose|j: int| 0 <= j < db0.len() && db0[j].id == id@ && db0[j].clientid == existing->0;
                        assert(db0[j] == db0[j] && db0[m] == db0[m]);
                    }
                }
            }
            assert(!confirm_taken(kv, setclientid_confirm@));
        }
        self.db = kept;
        Ok(ret)
    }

    fn random_confirm() -> (r: [u8; 8])
        ensures
            forall|k: int| 0 <= k < 8 ==> r@[k] < 255,
    {
        // eight bytes, each drawn from [0, 255)
        let b0 = sample_uniform_u8(0, 255);
        let b1 = sample_uniform_u8(0, 255);
        let b2 = sample_uniform_u8(0, 255);
        let b3 = sample_uniform_u8(0, 255);
        let b4 = sample_uniform_u8(0, 255);
        let b5 = sample_uniform_u8(0, 255);
        let b6 = sample_uniform_u8(0, 255);
        let b7 = sample_uniform_u8(0, 255);
        let r = [b0, b1, b2, b3, b4, b5, b6, b7];
        assert(r@ =~= seq![b0, b1, b2, b3, b4, b5, b6, b7]);
        r
    }

    /// SETCLIENTID: records an unconfirmed client, with a random confirm value
    /// (eight bytes, each below 255) and the time of the call; see [`spec_upsert`].
    pub fn upsert_client(
        &mut self,
        verifier: [u8; 8],
        id: String,
        callback: ClientCallback,
        principal: Option<String>,
    ) -> (r: Result<ClientEntry, ClientManagerError>)
        requires
            old(self).wf(),
            old(self).client_id_seq < u64::MAX,
        ensures
            final(self).wf(),
            final(self).same_but_clients(old(self)),
            exists|c: Seq<u8>, t: u64|
                #![trigger spec_upsert(old(self).entries(), old(self).client_id_seq, verifier@, id@, callback@, opt_str_view(principal), c, t)]
            {
                let o = spec_upsert(old(self).entries(), old(self).client_id_seq, verifier@, id@,
                    callback@, opt_str_view(principal), c, t);
                &&& c.len() == 8
                &&& forall|k: int| 0 <= k < 8 ==> #[trigger] c[k] < 255
                &&& final(self).entries() == o.db
                &&& final(self).client_id_seq == o.seq
                &&& entry_result_view(r) == o.result
            },
    {
        let confirm = Self::random_confirm();
        let now = self.now();
        self.upsert_client_at(verifier, id, callback, principal, confirm, now)
    }

    /// SETCLIENTID_CONFIRM; see [`spec_confirm`].
    pub fn confirm_client(
        &mut self,
        client_id: u64,
        setclientid_confirm: [u8; 8],
        principal: Option<String>,
    ) -> (r: Result<ClientEntry, ClientManagerError>)
        requires
            old(self).wf(),
        ensures
            final(self).wf(),
            final(self).same_but_clients(old(self)),
            final(self).client_id_seq == old(self).client_id_seq,
            ({
                let o = spec_confirm(old(self).entries(), client_id, setclientid_confirm@, opt_str_view(principal));
                &&& final(self).entries() == o.db
                &&& entry_result_view(r) == o.result
            }),
    {
        let ghost db0 = self.entries();
        let ghost seq0 = self.client_id_seq;
        let ghost pv = opt_str_view(principal);
        let mut any = false;
        let mut i: usize = 0;
        while i < self.db.len()
            invariant
                i <= self.db.len(),
                *self == *old(self),
                old(self).wf(),
                db0 == old(self).entries(),
                pv == opt_str_view(principal),
                any == exists|j: int| 0 <= j < i && db0[j].clientid == client_id,
                forall|j: int| 0 <= j < i && db0[j].clientid == client_id ==> db0[j].principal == pv,
            decreases self.db.len() - i,
        {
            let e = &self.db[i];
            assert(db0[i as int] == e@);
            if e.clientid == client_id {
                any = true;
                if !opt_string_eq(&e.principal, &principal) {
                    // the principal must match that of the SETCLIENTID call
                    return Err(ClientManagerError { nfs_error: NfsStat4::Nfs4errClidInuse });
                }
            }
            i = i + 1;
        }
        if !any {
            // nothing to confirm
            return Err(ClientManagerError { nfs_error: NfsStat4::Nfs4errStaleClientid });
        }

        let ghost kp = kept_on_confirm(client_id, setclientid_confirm@);
        let ghost mk = mark_confirmed(client_id, setclientid_confirm@);
        let ghost mut raw: Seq<ClientEntryView> = Seq::empty();
        let ghost mut found_at: int = -1;
        let mut out: Vec<ClientEntry> = Vec::new();
        let mut found: Option<ClientEntry> = None;
        let mut i: usize = 0;
        while i < self.db.len()
            invariant
                i <= self.db.len(),
                *self == *old(self),
                db0 == old(self).entries(),
                seq0 == old(self).client_id_seq,
                clients_wf(db0, seq0),
                kp == kept_on_confirm(client_id, setclientid_confirm@),
                mk == mark_confirmed(client_id, setclientid_confirm@),
                clients_wf(raw, seq0),
                clients_drawn_from(raw, db0, i as int),
                raw == db0.take(i as int).filter(kp),
                entries_view(out@) == raw.map_values(mk),
                found is None <==> found_at == -1,
                found is None ==> forall|k: int| 0 <= k < raw.len() ==> !(raw[k].clientid == client_id && raw[k].confirm == setclientid_confirm@),
                found is Some ==> 0 <= found_at < raw.len() && raw[found_at].clientid == client_id
                    && raw[found_at].confirm == setclientid_confirm@ && found->0@ == mk(raw[found_at]),
            decreases self.db.len() - i,
        {
            let e = &self.db[i];
            let ghost ii = i as int;
            let same_client = e.clientid == client_id;
            let same_confirm = bytes8_eq(&e.setclientid_confirm, &setclientid_confirm);
            proof {
                reveal(Seq::filter);
                assert(db0[ii] == self.db@[ii]@);
                assert(db0.take(ii + 1).drop_last() =~= db0.take(ii));
                assert(db0.take(ii + 1).last() == db0[ii]);
            }
            if same_client && e.confirmed && !same_confirm {
                // an older confirmed record of the client is replaced
                proof {
                    assert(!kp(db0[ii]));
                    assert forall|k: int| 0 <= k < raw.len() implies exists|m: int| 0 <= m < ii + 1 && #[trigger] raw[k] == db0[m] by {
                        let m = choose|m: int| 0 <= m < ii && raw[k] == db0[m];
                    }
                }
            } else {
                let mut c = e.clone();
                if same_client && same_confirm {
                    c.confirmed = true;
                    let f = c.clone();
                    found = Some(f);
                    proof {
                        found_at = raw.len() as int;
                    }
                }
                proof {
                    assert(kp(db0[ii]));
                    lemma_clients_wf_push_drawn(raw, db0, ii, seq0);
                }
                let ghost before = entries_view(out@);
                out.push(c);
                proof {
                    raw = raw.push(db0[ii]);
                    assert(entries_view(out@) =~= before.push(mk(db0[ii])));
                    assert(raw.map_values(mk) =~= before.push(mk(db0[ii])));
                }
            }
            i = i + 1;
        }
        proof {
            assert(db0.take(db0.len() as int) =~= db0);
            lemma_mark_confirmed_wf(raw, seq0, client_id, setclientid_confirm@);
        }
        self.db = out;
        match found {
            Some(f) => {
                proof {
                    let k = choose|k: int| 0 <= k < raw.len() && raw[k].clientid == client_id && raw[k].confirm == setclientid_confirm@;
                    assert(raw[k] == raw[k] && raw[found_at] == raw[found_at]);
                    assert(k == found_at);
                }
                Ok(f)
            },
            None => Err(ClientManagerError { nfs_error: NfsStat4::Nfs4errStaleClientid }),
        }
    }

    /// RENEW with the clock reading `now`; see [`spec_renew`].
    pub fn renew_leases_at(&mut self, client_id: u64, now: u64) -> (r: Result<(), ClientManagerError>)
        requires
            old(self).wf(),
        ensures
            final(self).wf(),
            final(self).same_but_clients(old(self)),
            final(self).client_id_seq == old(self).client_id_seq,
            ({
                let o = spec_renew(old(self).entries(), client_id, now, old(self).lease_time);
                &&& final(self).entries() == o.db
                &&& unit_result_view(r) == o.result
            }),
    {
        let ghost db0 = self.entries();
        let mut any = false;
        let mut i: usize = 0;
        while i < self.db.len()
            invariant
                i <= self.db.len(),
                *self == *old(self),
                old(self).wf(),
                db0 == old(self).entries(),
                any == exists|j: int| 0 <= j < i && db0[j].clientid == client_id,
                forall|j: int| 0 <= j < i ==> !#[trigger] past_courtesy(db0[j], client_id, now, self.lease_time),
            decreases self.db.len() - i,
        {
            let e = &self.db[i];
            assert(db0[i as int] == e@);
            if e.clientid == client_id {
                any = true;
                // Courteous: allow renewal if within 2x lease_time (grace window)
                if e.confirmed && e.courtesy {
                    let elapsed = elapsed_secs_exec(now, e.last_renewed);
                    if elapsed > self.lease_time && elapsed - self.lease_time > self.lease_time {
                        assert(past_courtesy(db0[i as int], client_id, now, self.lease_time));
                        return Err(ClientManagerError { nfs_error: NfsStat4::Nfs4errExpired });
                    }
                }
            }
            i = i + 1;
        }
        if !any {
            return Err(ClientManagerError { nfs_error: NfsStat4::Nfs4errStaleClientid });
        }

        // Renew: update last_renewed and clear courtesy flag
        let ghost f = renew_entry(client_id, now);
        let mut out: Vec<ClientEntry> = Vec::new();
        let mut i: usize = 0;
        while i < self.db.len()
            invariant
                i <= self.db.len(),
                *self == *old(self),
                db0 == old(self).entries(),
                f == renew_entry(client_id, now),
                entries_view(out@) == db0.take(i as int).map_values(f),
            decreases self.db.len() - i,
        {
            let mut c = self.db[i].clone();
            if c.clientid == client_id {
                c.last_renewed = now;
                c.courtesy = false;
            }
            let ghost before = entries_view(out@);
            out.push(c);
            proof {
                assert(db0[i as int] == self.db@[i as int]@);
                assert(entries_view(out@) =~= before.push(f(db0[i as int])));
                assert(db0.take(i + 1).map_values(f) =~= db0.take(i as int).map_values(f).push(f(db0[i as int])));
            }
            i = i + 1;
        }
        proof {
            assert(db0.take(db0.len() as int) =~= db0);
            lemma_wf_same_keys(db0, db0.map_values(f), self.client_id_seq);
        }
        self.db = out;
        Ok(())
    }

    /// RENEW: renews the lease of every record of `client_id` at the current
    /// time, unless the client is unknown or a confirmed courtesy record of it
    /// is past twice the lease time; see [`spec_renew`].
    pub fn renew_leases(&mut self, client_id: u64) -> (r: Result<(), ClientManagerError>)
        requires
            old(self).wf(),
        ensures
            final(self).wf(),
            final(self).same_but_clients(old(self)),
            final(self).client_id_seq == old(self).client_id_seq,
            exists|t: u64|
                #![trigger spec_renew(old(self).entries(), client_id, t, old(self).lease_time)]
            {
                let o = spec_renew(old(self).entries(), client_id, t, old(self).lease_time);
                &&& final(self).entries() == o.db
                &&& unit_result_view(r) == o.result
            },
    {
        let now = self.now();
        self.renew_leases_at(client_id, now)
    }

    /// The lease sweep with the clock reading `now`; see [`spec_sweep`].
    pub fn sweep_leases_at(&mut self, now: u64) -> (expired: Vec<u64>)
        requires
            old(self).wf(),
        ensures
            final(self).wf(),
            final(self).same_but_clients(old(self)),
            final(self).client_id_seq == old(self).client_id_seq,
            final(self).entries() == spec_sweep(old(self).entries(), now, old(self).lease_time).db,
            Ok::<Seq<u64>, NfsStat4>(expired@) == spec_sweep(old(self).entries(), now, old(self).lease_time).result,
    {
        let ghost db0 = self.entries();
        let lease_time = self.lease_time;
        let ghost me = marks_courtesy(now, lease_time);
        let ghost ex = expires(now, lease_time);
        let mut courtesy_clients: Vec<u64> = Vec::new();
        let mut expired_clients: Vec<u64> = Vec::new();
        let mut i: usize = 0;
        while i < self.db.len()
            invariant
                i <= self.db.len(),
                *self == *old(self),
                db0 == old(self).entries(),
                lease_time == self.lease_time,
                me == marks_courtesy(now, lease_time),
                ex == expires(now, lease_time),
                forall|c: u64| courtesy_clients@.contains(c) <==> exists|j: int| 0 <= j < i && #[trigger] me(db0[j]) && db0[j].clientid == c,
                forall|c: u64| expired_clients@.contains(c) <==> exists|j: int| 0 <= j < i && #[trigger] ex(db0[j]) && db0[j].clientid == c,
                expired_clients@ == db0.take(i as int).filter(ex).map_values(|e: ClientEntryView| e.clientid),
            decreases self.db.len() - i,
        {
            let e = &self.db[i];
            let ghost ii = i as int;
            proof {
                reveal(Seq::filter);
                assert(db0[ii] == e@);
                assert(db0.take(ii + 1).drop_last() =~= db0.take(ii));
                assert(db0.take(ii + 1).last() == db0[ii]);
            }
            let ghost cbefore = courtesy_clients@;
            let ghost ebefore = expired_clients@;
            if e.confirmed {
                let elapsed = elapsed_secs_exec(now, e.last_renewed);
                if elapsed >= lease_time && !e.courtesy {
                    // Mark as courtesy: don't purge yet
                    courtesy_clients.push(e.clientid);
                } else if e.courtesy && elapsed >= lease_time && elapsed - lease_time >= lease_time {
                    // Past courtesy window: purge
                    expired_clients.push(e.clientid);
                }
            }
            proof {
                assert forall|c: u64| courtesy_clients@.contains(c) <==> exists|j: int| 0 <= j < ii + 1 && #[trigger] me(db0[j]) && db0[j].clientid == c by {
                    if courtesy_clients@.contains(c) && !cbefore.contains(c) {
                        assert(courtesy_clients@ == cbefore.push(c));
                        assert(me(db0[ii]));
                    }
                    if exists|j: int| 0 <= j < ii + 1 && #[trigger] me(db0[j]) && db0[j].clientid == c {
                        let j = choose|j: int| 0 <= j < ii + 1 && #[trigger] me(db0[j]) && db0[j].clientid == c;
                        if j == ii {
                            assert(courtesy_clients@.last() == c);
                        } else {
                            assert(cbefore.contains(c));
                            let k = choose|k: int| 0 <= k < cbefore.len() && cbefore[k] == c;
                            assert(courtesy_clients@[k] == c);
                        }
                    }
                }
                assert forall|c: u64| expired_clients@.contains(c) <==> exists|j: int| 0 <= j < ii + 1 && #[trigger] ex(db0[j]) && db0[j].clientid == c by {
                    if expired_clients@.contains(c) && !ebefore.contains(c) {
                        assert(expired_clients@ == ebefore.push(c));
                        assert(ex(db0[ii]));
                    }
                    if exists|j: int| 0 <= j < ii + 1 && #[trigger] ex(db0[j]) && db0[j].clientid == c {
                        let j = choose|j: int| 0 <= j < ii + 1 && #[trigger] ex(db0[j]) && db0[j].clientid == c;
                        if j == ii {
                            assert(expired_clients@.last() == c);
                        } else {
                            assert(ebefore.contains(c));
                            let k = choose|k: int| 0 <= k < ebefore.len() && ebefore[k] == c;
                            assert(expired_clients@[k] == c);
                        }
                    }
                }
                assert(db0.take(ii + 1).filter(ex).map_values(|e: ClientEntryView| e.clientid)
                    =~= expired_clients@);
            }
            i = i + 1;
        }
        proof {
            assert(db0.take(db0.len() as int) =~= db0);
        }

        // Mark courtesy clients; purge clients past the courtesy window
        let ghost kp = not_expired(db0, now, lease_time);
        let ghost mk = mark_courtesy(db0, now, lease_time);
        let ghost seq0 = self.client_id_seq;
        let ghost mut raw: Seq<ClientEntryView> = Seq::empty();
        let mut out: Vec<ClientEntry> = Vec::new();
        let mut i: usize = 0;
        while i < self.db.len()
            invariant
                i <= self.db.len(),
                *self == *old(self),
                old(self).wf(),
                db0 == old(self).entries(),
                seq0 == old(self).client_id_seq,
                lease_time == self.lease_time,
                me == marks_courtesy(now, lease_time),
                ex == expires(now, lease_time),
                kp == not_expired(db0, now, lease_time),
                mk == mark_courtesy(db0, now, lease_time),
                forall|c: u64| courtesy_clients@.contains(c) <==> exists|j: int| 0 <= j < db0.len() && #[trigger] me(db0[j]) && db0[j].clientid == c,
                forall|c: u64| expired_clients@.contains(c) <==> exists|j: int| 0 <= j < db0.len() && #[trigger] ex(db0[j]) && db0[j].clientid == c,
                clients_wf(raw, seq0),
                clients_drawn_from(raw, db0, i as int),
                raw == db0.take(i as int).filter(kp),
                entries_view(out@) == raw.map_values(mk),
            decreases self.db.len() - i,
        {
            let e = &self.db[i];
            let ghost ii = i as int;
            proof {
                reveal(Seq::filter);
                assert(db0[ii] == e@);
                assert(db0.take(ii + 1).drop_last() =~= db0.take(ii));
                assert(db0.take(ii + 1).last() == db0[ii]);
            }
            let purge = vec_contains_u64(&expired_clients, e.clientid);
            if purge {
                proof {
                    assert(!kp(db0[ii]));
                    assert forall|k: int| 0 <= k < raw.len() implies exists|m: int| 0 <= m < ii + 1 && #[trigger] raw[k] == db0[m] by {
                        let m = choose|m: int| 0 <= m < ii && raw[k] == db0[m];
                    }
                }
            } else {
                let mut c = e.clone();
                if vec_contains_u64(&courtesy_clients, c.clientid) {
                    c.courtesy = true;
                }
                proof {
                    assert(kp(db0[ii]));
                    lemma_clients_wf_push_drawn(raw, db0, ii, seq0);
                }
                let ghost before = entries_view(out@);
                out.push(c);
                proof {
                    raw = raw.push(db0[ii]);
                    assert(entries_view(out@) =~= before.push(mk(db0[ii])));
                    assert(raw.map_values(mk) =~= before.push(mk(db0[ii])));
                }
            }
            i = i + 1;
        }
        proof {
            assert(db0.take(db0.len() as int) =~= db0);
            lemma_wf_same_keys(raw, raw.map_values(mk), seq0);
        }
        self.db = out;
        expired_clients
    }

    /// The periodic lease sweep at the current time: confirmed clients whose
    /// lease has run out become courtesy clients, and courtesy clients past
    /// twice the lease time are purged; returns the purged client ids.
    /// See [`spec_sweep`].
    pub fn sweep_leases(&mut self) -> (expired: Vec<u64>)
        requires
            old(self).wf(),
        ensures
            final(self).wf(),
            final(self).same_but_clients(old(self)),
            final(self).client_id_seq == old(self).client_id_seq,
            exists|t: u64|
                #![trigger spec_sweep(old(self).entries(), t, old(self).lease_time)]
            {
                &&& final(self).entries() == spec_sweep(old(self).entries(), t, old(self).lease_time).db
                &&& Ok::<Seq<u64>, NfsStat4>(expired@) == spec_sweep(old(self).entries(), t, old(self).lease_time).result
            },
    {
        let now = self.now();
        self.sweep_leases_at(now)
    }

    /// Removes every record of `client_id`.
    fn remove_clientid(&mut self, client_id: u64)
        requires
            old(self).wf(),
        ensures
            final(self).wf(),
            final(self).same_but_clients(old(self)),
            final(self).client_id_seq == old(self).client_id_seq,
            final(self).entries() == old(self).entries().filter(other_client(client_id)),
    {
        let ghost db0 = self.entries();
        let ghost seq0 = self.client_id_seq;
        let ghost kp = other_client(client_id);
        let mut out: Vec<ClientEntry> = Vec::new();
        let mut i: usize = 0;
        while i < self.db.len()
            invariant
                i <= self.db.len(),
                *self == *old(self),
                old(self).wf(),
                db0 == old(self).entries(),
                seq0 == old(self).client_id_seq,
                kp == other_client(client_id),
                clients_wf(entries_view(out@), seq0),
                clients_drawn_from(entries_view(out@), db0, i as int),
                entries_view(out@) == db0.take(i as int).filter(kp),
            decreases self.db.len() - i,
        {
            let e = &self.db[i];
            let ghost ii = i as int;
            proof {
                reveal(Seq::filter);
                assert(db0[ii] == e@);
                assert(db0.take(ii + 1).drop_last() =~= db0.take(ii));
                assert(db0.take(ii + 1).last() == db0[ii]);
            }
            if e.clientid != client_id {
                let c = e.clone();
                let ghost before = entries_view(out@);
                proof {
                    lemma_clients_wf_push_drawn(before, db0, ii, seq0);
                }
                out.push(c);
                proof {
                    assert(entries_view(out@) =~= before.push(db0[ii]));
                }
            } else {
                proof {
                    assert forall|k: int| 0 <= k < entries_view(out@).len() implies exists|m: int| 0 <= m < ii + 1 && #[trigger] entries_view(out@)[k] == db0[m] by {
                        let m = choose|m: int| 0 <= m < ii && entries_view(out@)[k] == db0[m];
                    }
                }
            }
            i = i + 1;
        }
        proof {
            assert(db0.take(db0.len() as int) =~= db0);
        }
        self.db = out;
    }

    /// Whether the client is a courtesy client: its lease expired but its
    /// state is kept, so conflicting requests may revoke it.
    pub fn is_courtesy_client(&mut self, client_id: u64) -> (r: bool)
        ensures
            *final(self) == *old(self),
            r == exists|i: int| 0 <= i < old(self).entries().len() && old(self).entries()[i].clientid == client_id
                && old(self).entries()[i].courtesy,
    {
        let mut i: usize = 0;
        while i < self.db.len()
            invariant
                i <= self.db.len(),
                *self == *old(self),
                forall|j: int| 0 <= j < i ==> !(self.entries()[j].clientid == client_id && self.entries()[j].courtesy),
            decreases self.db.len() - i,
        {
            assert(self.entries()[i as int] == self.db@[i as int]@);
            if self.db[i].clientid == client_id && self.db[i].courtesy {
                return true;
            }
            i = i + 1;
        }
        false
    }

    /// Force-revokes a courtesy client (when a conflicting lock request comes):
    /// every record of `client_id` is removed.
    pub fn revoke_courtesy_client(&mut self, client_id: u64)
        requires
            old(self).wf(),
        ensures
            final(self).wf(),
            final(self).same_but_clients(old(self)),
            final(self).client_id_seq == old(self).client_id_seq,
            final(self).entries() == old(self).entries().filter(other_client(client_id)),
    {
        self.remove_clientid(client_id);
    }

    /// The number of client records.
    pub fn get_record_count(&mut self) -> (r: usize)
        ensures
            *final(self) == *old(self),
            r == old(self).entries().len(),
    {
        self.db.len()
    }

    /// Removes every record of `client_id`.
    pub fn remove_client(&mut self, client_id: u64)
        requires
            old(self).wf(),
        ensures
            final(self).wf(),
            final(self).same_but_clients(old(self)),
            final(self).client_id_seq == old(self).client_id_seq,
            final(self).entries() == old(self).entries().filter(other_client(client_id)),
    {
        self.remove_clientid(client_id);
    }

    /// The confirmed record of `clientid`, if there is one.
    pub fn get_client_confirmed(&self, clientid: u64) -> (r: Option<&ClientEntry>)
        ensures
            match r {
                Some(e) => exists|i: int| 0 <= i < self.entries().len() && self.entries()[i] == e@
                    && e.clientid == clientid && e.confirmed,
                None => forall|i: int| 0 <= i < self.entries().len()
                    ==> !(self.entries()[i].clientid == clientid && self.entries()[i].confirmed),
            },
    {
        let mut i: usize = 0;
        while i < self.db.len()
            invariant
                i <= self.db.len(),
                forall|j: int| 0 <= j < i ==> !(self.entries()[j].clientid == clientid && self.entries()[j].confirmed),
            decreases self.db.len() - i,
        {
            assert(self.entries()[i as int] == self.db@[i as int]@);
            if self.db[i].clientid == clientid && self.db[i].confirmed {
                return Some(&self.db[i]);
            }
            i = i + 1;
        }
        None
    }

    /// Records the current filehandle of a client address, replacing any earlier one.
    pub fn set_current_fh(&mut self, client_addr: String, filehandle: Vec<u8>)
        ensures
            final(self).db == old(self).db,
            final(self).client_id_seq == old(self).client_id_seq,
            final(self).lease_time == old(self).lease_time,
            final(self).clock_origin == old(self).clock_origin,
            ({
                let a = client_addr@;
                let old_fh = old(self).filehandles@;
                let new_fh = final(self).filehandles@;
                (exists|i: int| 0 <= i < old_fh.len() && old_fh[i].0@ == a
                    && (forall|j: int| 0 <= j < i ==> old_fh[j].0@ != a)
                    && new_fh.len() == old_fh.len()
                    && new_fh[i].0@ == a && new_fh[i].1@ == filehandle@
                    && (forall|j: int| 0 <= j < new_fh.len() && j != i ==> new_fh[j] == old_fh[j]))
                || ((forall|i: int| 0 <= i < old_fh.len() ==> old_fh[i].0@ != a)
                    && new_fh.len() == old_fh.len() + 1
                    && new_fh.drop_last() == old_fh
                    && new_fh.last().0@ == a && new_fh.last().1@ == filehandle@)
            }),
    {
        let mut i: usize = 0;
        while i < self.filehandles.len()
            invariant
                i <= self.filehandles.len(),
                *self == *old(self),
                forall|j: int| 0 <= j < i ==> self.filehandles@[j].0@ != client_addr@,
            decreases self.filehandles.len() - i,
        {
            if self.filehandles[i].0 == client_addr {
                let ghost old_fh = self.filehandles@;
                self.filehandles.set(i, (client_addr, filehandle));
                assert(self.filehandles@ =~= old_fh.update(i as int, self.filehandles@[i as int]));
                return;
            }
            i = i + 1;
        }
        let ghost old_fh = self.filehandles@;
        self.filehandles.push((client_addr, filehandle));
        assert(self.filehandles@.drop_last() =~= old_fh);
    }
}

/// Whether SETCLIENTID_CONFIRM of `confirm` for `cid` keeps record `e`: the
/// confirmed records of the client under another confirm value are replaced.
pub open spec fn kept_on_confirm(cid: u64, confirm: Seq<u8>) -> spec_fn(ClientEntryView) -> bool {
    |e: ClientEntryView| !(e.clientid == cid && e.confirmed && e.confirm != confirm)
}

/// Marks the record of `cid` that holds `confirm` as confirmed.
pub open spec fn mark_confirmed(cid: u64, confirm: Seq<u8>) -> spec_fn(ClientEntryView) -> ClientEntryView {
    |e: ClientEntryView|
        if e.clientid == cid && e.confirm == confirm {
            ClientEntryView { confirmed: true, ..e }
        } else {
            e
        }
}

/// Whether some record has client id `cid`.
pub open spec fn known_clientid(db: Seq<ClientEntryView>, cid: u64) -> bool {
    exists|i: int| 0 <= i < db.len() && db[i].clientid == cid
}

/// Whether a record of `cid` was made by another principal.
pub open spec fn principal_mismatch(db: Seq<ClientEntryView>, cid: u64, principal: Option<Seq<char>>) -> bool {
    exists|i: int| 0 <= i < db.len() && db[i].clientid == cid && db[i].principal != principal
}

/// SETCLIENTID_CONFIRM of `confirm` for client id `cid` on table `db`.
///
/// Unknown client ids fail with NFS4ERR_STALE_CLIENTID, a record of the client
/// made by another principal with NFS4ERR_CLID_INUSE, both changing nothing.
/// Otherwise the confirmed records of the client under another confirm value
/// are dropped; the record of the client under `confirm`, if there is one,
/// becomes confirmed and is returned, and otherwise the answer is
/// NFS4ERR_STALE_CLIENTID.
pub open spec fn spec_confirm(
    db: Seq<ClientEntryView>,
    cid: u64,
    confirm: Seq<u8>,
    principal: Option<Seq<char>>,
) -> ClientsOutcome<ClientEntryView> {
    if !known_clientid(db, cid) {
        ClientsOutcome { db, seq: 0, result: Err(NfsStat4::Nfs4errStaleClientid) }
    } else if principal_mismatch(db, cid, principal) {
        ClientsOutcome { db, seq: 0, result: Err(NfsStat4::Nfs4errClidInuse) }
    } else {
        let kept = db.filter(kept_on_confirm(cid, confirm));
        if exists|k: int| 0 <= k < kept.len() && kept[k].clientid == cid && kept[k].confirm == confirm {
            let k = choose|k: int| 0 <= k < kept.len() && kept[k].clientid == cid && kept[k].confirm == confirm;
            ClientsOutcome {
                db: kept.map_values(mark_confirmed(cid, confirm)),
                seq: 0,
                result: Ok(mark_confirmed(cid, confirm)(kept[k])),
            }
        } else {
            ClientsOutcome { db: kept, seq: 0, result: Err(NfsStat4::Nfs4errStaleClientid) }
        }
    }
}

proof fn lemma_mark_confirmed_wf(kept: Seq<ClientEntryView>, seq: u64, cid: u64, confirm: Seq<u8>)
    requires
        clients_wf(kept, seq),
        forall|k: int| 0 <= k < kept.len() ==> #[trigger] kept_on_confirm(cid, confirm)(kept[k]),
    ensures
        clients_wf(kept.map_values(mark_confirmed(cid, confirm)), seq),
        kept.map_values(mark_confirmed(cid, confirm)).len() == kept.len(),
{
    let m = kept.map_values(mark_confirmed(cid, confirm));
    assert forall|a: int| 0 <= a < m.len() implies #[trigger] m[a].clientid <= seq by {
        assert(kept[a].clientid <= seq);
    }
    assert forall|a: int, b: int|
        #![trigger m[a], m[b]]
        0 <= a < m.len() && 0 <= b < m.len() implies {
            &&& (m[a].id == m[b].id) == (m[a].clientid == m[b].clientid)
            &&& a != b ==> m[a].confirm != m[b].confirm
            &&& a != b && m[a].clientid == m[b].clientid ==> !(m[a].confirmed && m[b].confirmed)
        } by {
        assert(kept[a] == kept[a] && kept[b] == kept[b]);
        assert(kept_on_confirm(cid, confirm)(kept[a]));
        assert(kept_on_confirm(cid, confirm)(kept[b]));
    }
}

/// Whether record `e` of client `cid` is a confirmed courtesy record past
/// twice the lease time at `now`.
pub open spec fn past_courtesy(e: ClientEntryView, cid: u64, now: u64, lease_time: u64) -> bool {
    e.clientid == cid && e.confirmed && e.courtesy && beyond_twice(elapsed_secs(now, e.last_renewed), lease_time)
}

/// Renewal of client `cid` at `now`: its records take `now` as the time of
/// renewal and leave the courtesy state.
pub open spec fn renew_entry(cid: u64, now: u64) -> spec_fn(ClientEntryView) -> ClientEntryView {
    |e: ClientEntryView|
        if e.clientid == cid {
            ClientEntryView { last_renewed: now, courtesy: false, ..e }
        } else {
            e
        }
}

/// RENEW of client `cid` at `now` with the lease time `lease_time` in seconds.
///
/// Unknown clients fail with NFS4ERR_STALE_CLIENTID; a client with a
/// confirmed courtesy record past twice the lease time fails with
/// NFS4ERR_EXPIRED; both change nothing. Otherwise every record of the client
/// is renewed.
pub open spec fn spec_renew(db: Seq<ClientEntryView>, cid: u64, now: u64, lease_time: u64) -> ClientsOutcome<()> {
    if !known_clientid(db, cid) {
        ClientsOutcome { db, seq: 0, result: Err(NfsStat4::Nfs4errStaleClientid) }
    } else if exists|i: int| 0 <= i < db.len() && past_courtesy(db[i], cid, now, lease_time) {
        ClientsOutcome { db, seq: 0, result: Err(NfsStat4::Nfs4errExpired) }
    } else {
        ClientsOutcome { db: db.map_values(renew_entry(cid, now)), seq: 0, result: Ok(()) }
    }
}

/// Whether the sweep at `now` turns confirmed record `e` into a courtesy
/// record: its lease has run out and it is not a courtesy record yet.
pub open spec fn marks_courtesy(now: u64, lease_time: u64) -> spec_fn(ClientEntryView) -> bool {
    |e: ClientEntryView| e.confirmed && elapsed_secs(now, e.last_renewed) >= lease_time && !e.courtesy
}

/// Whether the sweep at `now` purges the client of confirmed record `e`: it
/// is a courtesy record and twice the lease time has elapsed.
pub open spec fn expires(now: u64, lease_time: u64) -> spec_fn(ClientEntryView) -> bool {
    |e: ClientEntryView| e.confirmed && e.courtesy && elapsed_secs(now, e.last_renewed) >= 2 * lease_time
}

/// The records that the sweep at `now` keeps: those of clients it does not purge.
pub open spec fn not_expired(db: Seq<ClientEntryView>, now: u64, lease_time: u64) -> spec_fn(ClientEntryView) -> bool {
    |e: ClientEntryView| !(exists|j: int| 0 <= j < db.len() && #[trigger] expires(now, lease_time)(db[j]) && db[j].clientid == e.clientid)
}

/// The sweep at `now` marks every record of a client that it turns courteous.
pub open spec fn mark_courtesy(db: Seq<ClientEntryView>, now: u64, lease_time: u64) -> spec_fn(ClientEntryView) -> ClientEntryView {
    |e: ClientEntryView|
        if exists|j: int| 0 <= j < db.len() && #[trigger] marks_courtesy(now, lease_time)(db[j]) && db[j].clientid == e.clientid {
            ClientEntryView { courtesy: true, ..e }
        } else {
            e
        }
}

/// The lease sweep at `now`: the records of purged clients are dropped, every
/// record of a client turned courteous is marked, and the answer lists the
/// client ids of the confirmed records that expired, in table order.
pub open spec fn spec_sweep(db: Seq<ClientEntryView>, now: u64, lease_time: u64) -> ClientsOutcome<Seq<u64>> {
    ClientsOutcome {
        db: db.filter(not_expired(db, now, lease_time)).map_values(mark_courtesy(db, now, lease_time)),
        seq: 0,
        result: Ok(db.filter(expires(now, lease_time)).map_values(|e: ClientEntryView| e.clientid)),
    }
}

/// The records that do not belong to client `cid`.
pub open spec fn other_client(cid: u64) -> spec_fn(ClientEntryView) -> bool {
    |e: ClientEntryView| e.clientid != cid
}

proof fn lemma_wf_same_keys(db: Seq<ClientEntryView>, db2: Seq<ClientEntryView>, seq: u64)
    requires
        clients_wf(db, seq),
        db2.len() == db.len(),
        forall|i: int| #![trigger db2[i]] 0 <= i < db.len() ==> db2[i].id == db[i].id && db2[i].clientid == db[i].clientid
            && db2[i].confirm == db[i].confirm && db2[i].confirmed == db[i].confirmed,
    ensures
        clients_wf(db2, seq),
{
    assert forall|a: int| 0 <= a < db2.len() implies #[trigger] db2[a].clientid <= seq by {
        assert(db2[a].clientid == db[a].clientid);
        assert(db[a].clientid <= seq);
    }
    assert forall|a: int, b: int|
        #![trigger db2[a], db2[b]]
        0 <= a < db2.len() && 0 <= b < db2.len() implies {
            &&& (db2[a].id == db2[b].id) == (db2[a].clientid == db2[b].clientid)
            &&& a != b ==> db2[a].confirm != db2[b].confirm
            &&& a != b && db2[a].clientid == db2[b].clientid ==> !(db2[a].confirmed && db2[b].confirmed)
        } by {
        assert(db2[a].id == db[a].id);
        assert(db2[b].id == db[b].id);
        assert(db[a] == db[a] && db[b] == db[b]);
    }
}

/// Whether `x` occurs in `v`.
pub fn vec_contains_u64(v: &Vec<u64>, x: u64) -> (r: bool)
    ensures
        r == v@.contains(x),
{
    let mut i: usize = 0;
    while i < v.len()
        invariant
            i <= v.len(),
            forall|j: int| 0 <= j < i ==> v@[j] != x,
        decreases v.len() - i,
    {
        if v[i] == x {
            assert(v@[i as int] == x);
            return true;
        }
        i = i + 1;
    }
    false
}

} // verus!
