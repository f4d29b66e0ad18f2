//! READDIR of a real directory: which entries a reply carries under the
//! client's size hints, the cookie verifier that detects a changed
//! directory, and when the listing is complete.

use vstd::prelude::*;

use crate::proto::NfsStat4;

verus! {

/// The name under which named attributes are stored; it is never listed.
pub open spec fn attr_store_name() -> Seq<u8> {
    seq![46u8, 110u8, 102u8, 115u8, 52u8, 97u8, 116u8, 116u8, 114u8, 115u8]
}

/// The running state of a directory scan.
pub struct ScanState {
    /// Bytes charged against the client's `dircount` so far.
    pub dir_used: int,
    /// Bytes charged against the client's `maxcount` so far.
    pub max_used: int,
    /// The listed names, in directory order.
    pub visible: Seq<Seq<u8>>,
    /// The entries that go into the reply: their cookie and their position in
    /// the directory.
    pub selected: Seq<(u64, int)>,
}

/// One step of the scan, over the entry at position `i` named `name`.
pub open spec fn scan_step(s: ScanState, name: Seq<u8>, i: int, cookie: u64, dircount: u32, maxcount: u32) -> ScanState {
    if name == attr_store_name() {
        s
    } else if i + 2 >= cookie {
        let d = s.dir_used + 8 + name.len() + 5;
        let m = s.max_used + 200;
        ScanState {
            dir_used: d,
            max_used: m,
            visible: s.visible.push(name),
            selected: if dircount == 0 || (dircount > d && maxcount > m) {
                s.selected.push(((i + 3) as u64, i))
            } else {
                s.selected
            },
        }
    } else {
        ScanState { visible: s.visible.push(name), ..s }
    }
}

/// The scan over the first `k` entries of a directory.
pub open spec fn scan(names: Seq<Seq<u8>>, k: int, cookie: u64, dircount: u32, maxcount: u32) -> ScanState
    decreases k,
{
    if k <= 0 {
        ScanState { dir_used: 0, max_used: 128, visible: Seq::empty(), selected: Seq::empty() }
    } else {
        scan_step(scan(names, k - 1, cookie, dircount, maxcount), names[k - 1], k - 1, cookie, dircount, maxcount)
    }
}

/// All listed names, one after the other.
pub open spec fn concat(names: Seq<Seq<u8>>) -> Seq<u8>
    decreases names.len(),
{
    if names.len() == 0 {
        Seq::empty()
    } else {
        concat(names.drop_last()) + names.last()
    }
}

/// The bytes of `seed` taken every `seed.len() / 8 + 1` bytes from the
/// first: at most eight of them.
pub open spec fn sampled(seed: Seq<u8>) -> Seq<u8> {
    let len = seed.len() as int;
    let step: int = len / 8 + 1;
    Seq::new(((len + step - 1) / step) as nat, |k: int| seed[k * step])
}

/// `v` cut or zero-padded to eight bytes.
pub open spec fn fit8(v: Seq<u8>) -> Seq<u8> {
    if v.len() >= 8 {
        v.subrange(0, 8)
    } else {
        v + Seq::new((8 - v.len()) as nat, |k: int| 0u8)
    }
}

/// What a READDIR reply carries: the selected entries (cookie and position
/// in the directory), how many names the directory lists, and the cookie
/// verifier.
#[derive(Debug)]
pub struct ReaddirPlan {
    pub selected: Vec<(u64, usize)>,
    pub visible: usize,
    pub cookieverf: [u8; 8],
}

fn names_equal(a: &Vec<u8>, b: &[u8; 10]) -> (r: bool)
    ensures
        r == (a@ == b@),
{
    if a.len() != 10 {
        return false;
    }
    let mut i: usize = 0;
    while i < 10
        invariant
            a@.len() == 10,
            i <= 10,
            forall|j: int| 0 <= j < i ==> a@[j] == b@[j],
        decreases 10 - i,
    {
        if a[i] != b[i] {
            return false;
        }
        i = i + 1;
    }
    assert(a@ =~= b@);
    true
}

proof fn lemma_sample_bound(len: int, step: int, k: int)
    requires
        len >= 0,
        step == len / 8 + 1,
        0 <= k,
        k * step < len,
    ensures
        k < 8,
{
    assert(step * 8 > len) by (nonlinear_arith)
        requires
            step == len / 8 + 1,
            len >= 0,
    ;
    if k >= 8 {
        assert(k * step >= 8 * step) by (nonlinear_arith)
            requires
                k >= 8,
                step >= 1,
        ;
    }
}

/// Plans a READDIR of a directory whose entries are named `names` (UTF-8
/// bytes, in directory order) from `cookie`, under the client's `dircount`
/// and `maxcount` hints. The cookie verifier samples the listed names, cut or
/// zero-padded to eight bytes. A request that continues a listing (`cookie`
/// other than 0) is compared with that eight-byte verifier, the one a reply
/// hands out: it is refused with NOT_SAME exactly when its verifier differs,
/// so continuing with the verifier a reply gave is accepted while the
/// directory lists the same names, also where fewer than eight bytes were
/// sampled.
pub fn plan_readdir(
    names: &Vec<Vec<u8>>,
    cookie: u64,
    cookieverf: &[u8; 8],
    dircount: u32,
    maxcount: u32,
) -> (r: Result<ReaddirPlan, NfsStat4>)
    requires
        names@.len() < 0x1_0000_0000,
        forall|i: int| 0 <= i < names@.len() ==> (#[trigger] names@[i])@.len() < 0x1_0000,
    ensures
        ({
            let views = names@.map_values(|v: Vec<u8>| v@);
            let s = scan(views, views.len() as int, cookie, dircount, maxcount);
            let verf = fit8(sampled(concat(s.visible)));
            match r {
                Err(e) => e == NfsStat4::Nfs4errNotSame && cookie != 0 && verf != cookieverf@,
                Ok(p) => {
                    &&& !(cookie != 0 && verf != cookieverf@)
                    &&& p.visible == s.visible.len()
                    &&& p.selected@.len() == s.selected.len()
                    &&& forall|k: int| 0 <= k < p.selected@.len() ==> (#[trigger] p.selected@[k]).0
                        == s.selected[k].0 && p.selected@[k].1 as int == s.selected[k].1
                    &&& p.cookieverf@ == verf
                },
            }
        }),
{
    let ghost views = names@.map_values(|v: Vec<u8>| v@);
    let hidden: [u8; 10] = [46, 110, 102, 115, 52, 97, 116, 116, 114, 115];
    assert(hidden@ =~= attr_store_name());
    let mut seed: Vec<u8> = Vec::new();
    let mut visible: usize = 0;
    let mut selected: Vec<(u64, usize)> = Vec::new();
    let mut dir_used: u64 = 0;
    let mut max_used: u64 = 128;
    let mut i: usize = 0;
    while i < names.len()
        invariant
            i <= names@.len(),
            names@.len() < 0x1_0000_0000,
            forall|j: int| 0 <= j < names@.len() ==> (#[trigger] names@[j])@.len() < 0x1_0000,
            views == names@.map_values(|v: Vec<u8>| v@),
            hidden@ == attr_store_name(),
            ({
                let s = scan(views, i as int, cookie, dircount, maxcount);
                &&& dir_used as int == s.dir_used
                &&& max_used as int == s.max_used
                &&& visible as int == s.visible.len()
                &&& seed@ == concat(s.visible)
                &&& selected@.len() == s.selected.len()
                &&& forall|k: int| 0 <= k < selected@.len() ==> (#[trigger] selected@[k]).0 == s.selected[k].0
                    && selected@[k].1 as int == s.selected[k].1
            }),
            dir_used <= i * 0x1_0010,
            seed@.len() <= i * 0x1_0000,
            max_used <= 128 + i * 200,
            visible <= i,
        decreases names@.len() - i,
    {
        let name = &names[i];
        let ghost before = scan(views, i as int, cookie, dircount, maxcount);
        assert(views[i as int] == name@);
        if !names_equal(name, &hidden) {
            let ghost seed_before = seed@;
            let mut j: usize = 0;
            while j < name.len()
                invariant
                    j <= name@.len(),
                    seed@ == seed_before + name@.subrange(0, j as int),
                decreases name@.len() - j,
            {
                seed.push(name[j]);
                j = j + 1;
                assert(seed@ =~= seed_before + name@.subrange(0, j as int));
            }
            assert(name@.subrange(0, name@.len() as int) =~= name@);
            visible = visible + 1;
            if i as u64 + 2 >= cookie {
                dir_used = dir_used + 8 + name.len() as u64 + 5;
                max_used = max_used + 200;
                if dircount == 0 || (dircount as u64 > dir_used && maxcount as u64 > max_used) {
                    selected.push((i as u64 + 3, i));
                }
            }
            proof {
                let after = scan(views, i + 1, cookie, dircount, maxcount);
                assert(after == scan_step(before, views[i as int], i as int, cookie, dircount, maxcount));
                assert(after.visible == before.visible.push(name@));
                assert(after.visible.drop_last() =~= before.visible);
            }
        }
        i = i + 1;
    }
    let ghost s = scan(views, views.len() as int, cookie, dircount, maxcount);
    assert(views.len() == names@.len());
    assert(seed@.len() < 0x1_0000_0000_0000) by (nonlinear_arith)
        requires
            seed@.len() <= i * 0x1_0000,
            i < 0x1_0000_0000,
    ;
    // Sample the seed.
    let len = seed.len() as u64;
    let step: u64 = len / 8 + 1;
    let mut raw: Vec<u8> = Vec::new();
    let mut k: u64 = 0;
    while k * step < len
        invariant
            len == seed@.len(),
            len < 0x1_0000_0000_0000,
            step == len / 8 + 1,
            k <= 8,
            raw@.len() == k,
            k == 0 || (k - 1) * step < len,
            k * step <= len + step,
            forall|t: int| 0 <= t < k ==> raw@[t] == seed@[t * step],
        decreases 8 - k,
    {
        proof {
            lemma_sample_bound(len as int, step as int, k as int);
        }
        raw.push(seed[(k * step) as usize]);
        k = k + 1;
        assert(k * step == (k - 1) * step + step) by (nonlinear_arith);
    }
    proof {
        let verf = sampled(seed@);
        let l = len as int;
        let st = step as int;
        let kk = k as int;
        assert(((l + st - 1) / st) == kk) by (nonlinear_arith)
            requires
                st >= 1,
                l >= 0,
                kk == 0 || (kk - 1) * st < l,
                kk * st >= l,
        ;
        assert(raw@ =~= verf);
    }
    let mut out = [0u8; 8];
    let mut t: usize = 0;
    while t < 8 && t < raw.len()
        invariant
            t <= 8,
            t <= raw@.len(),
            forall|q: int| 0 <= q < t ==> out@[q] == raw@[q],
            forall|q: int| t <= q < 8 ==> out@[q] == 0u8,
        decreases 8 - t,
    {
        out[t] = raw[t];
        t = t + 1;
    }
    assert(out@ =~= fit8(raw@));
    if cookie != 0 && !same8(&out, cookieverf) {
        return Err(NfsStat4::Nfs4errNotSame);
    }
    Ok(ReaddirPlan { selected, visible, cookieverf: out })
}

fn same8(a: &[u8; 8], b: &[u8; 8]) -> (r: bool)
    ensures
        r == (a@ == b@),
{
    let mut i: usize = 0;
    while i < 8
        invariant
            a@.len() == 8,
            i <= 8,
            forall|j: int| 0 <= j < i ==> a@[j] == b@[j],
        decreases 8 - i,
    {
        if a[i] != b[i] {
            return false;
        }
        i = i + 1;
    }
    assert(a@ =~= b@);
    true
}

/// Whether a READDIR reply ends the listing: with no entry it does;
/// otherwise where the first entry's cookie plus the number of entries
/// reaches the number of listed names.
pub fn readdir_eof(first_cookie: Option<u64>, added: u64, visible: usize) -> (eof: bool)
    ensures
        eof == (match first_cookie {
            None => true,
            Some(c) => c + added >= visible,
        }),
{
    match first_cookie {
        None => true,
        Some(c) => c as u128 + added as u128 >= visible as u128,
    }
}

} // verus!
