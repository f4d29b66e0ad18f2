//! Decisions of single NFSv4.0 operations that do not need the file system:
//! ACCESS, VERIFY and NVERIFY, COMMIT's write verifier, and the parsing of
//! numeric owner strings.

use vstd::prelude::*;
use vstd::string::StrSliceExecFns;

use crate::filehandle::{Filehandle, FilehandleView};
use crate::filemanager::be64;
use crate::proto::{
    FileAttrValue, NfsFtype4, NfsStat4, ACCESS4_DELETE, ACCESS4_EXECUTE, ACCESS4_EXTEND,
    ACCESS4_LOOKUP, ACCESS4_MODIFY, ACCESS4_READ,
};

verus! {

/// The write verifier of a server booted at `boot_time`: its eight bytes,
/// big-endian.
pub fn verifier_from_boot(boot_time: &u64) -> (v: [u8; 8])
    ensures
        v@ == be64(*boot_time),
{
    let n = *boot_time;
    let v = [
        (n >> 56) as u8, (n >> 48) as u8, (n >> 40) as u8, (n >> 32) as u8,
        (n >> 24) as u8, (n >> 16) as u8, (n >> 8) as u8, n as u8,
    ];
    assert(v@ =~= be64(n));
    v
}

/// The POSIX permission triple (`rwx`) that applies to a caller: the
/// owner's for the owner, the group's for a member of the file's group, else
/// the others'.
pub open spec fn applicable_bits(mode: u32, file_uid: u32, file_gid: u32, caller_uid: u32, caller_gid: u32) -> u32 {
    if caller_uid == file_uid {
        (mode >> 6u32) & 7
    } else if caller_gid == file_gid {
        (mode >> 3u32) & 7
    } else {
        mode & 7
    }
}

/// `flag` where `cond` holds and it was requested, else nothing.
pub open spec fn grant_if(cond: bool, requested: u32, flag: u32) -> u32 {
    if cond && requested & flag != 0 {
        flag
    } else {
        0
    }
}

/// The ACCESS flags granted to a caller: all that were requested for root;
/// otherwise READ for `r`, EXECUTE for `x`, LOOKUP for `x` on a directory or
/// `r` on anything else, and MODIFY, EXTEND and DELETE for `w`, each only
/// where requested.
pub open spec fn access_granted(
    requested: u32,
    mode: u32,
    file_uid: u32,
    file_gid: u32,
    caller_uid: u32,
    caller_gid: u32,
    is_dir: bool,
) -> u32 {
    if caller_uid == 0 {
        requested
    } else {
        let bits = applicable_bits(mode, file_uid, file_gid, caller_uid, caller_gid);
        let r = bits & 4 != 0;
        let w = bits & 2 != 0;
        let x = bits & 1 != 0;
        grant_if(r, requested, ACCESS4_READ) | grant_if(x, requested, ACCESS4_EXECUTE)
            | grant_if(is_dir && x, requested, ACCESS4_LOOKUP)
            | grant_if(!is_dir && r, requested, ACCESS4_LOOKUP)
            | grant_if(w, requested, ACCESS4_MODIFY) | grant_if(w, requested, ACCESS4_EXTEND)
            | grant_if(w, requested, ACCESS4_DELETE)
    }
}

fn grant(cond: bool, requested: u32, flag: u32) -> (g: u32)
    ensures
        g == grant_if(cond, requested, flag),
{
    if cond && requested & flag != 0 {
        flag
    } else {
        0
    }
}

/// The subset of the requested ACCESS flags that POSIX permissions grant the
/// caller.
pub fn check_access(
    requested: u32,
    mode: u32,
    file_uid: u32,
    file_gid: u32,
    caller_uid: u32,
    caller_gid: u32,
    is_dir: bool,
) -> (granted: u32)
    ensures
        granted == access_granted(requested, mode, file_uid, file_gid, caller_uid, caller_gid, is_dir),
{
    if caller_uid == 0 {
        return requested;
    }
    let bits = if caller_uid == file_uid {
        (mode >> 6) & 7
    } else if caller_gid == file_gid {
        (mode >> 3) & 7
    } else {
        mode & 7
    };
    let has_read = bits & 4 != 0;
    let has_write = bits & 2 != 0;
    let has_exec = bits & 1 != 0;
    grant(has_read, requested, ACCESS4_READ) | grant(has_exec, requested, ACCESS4_EXECUTE)
        | grant(is_dir && has_exec, requested, ACCESS4_LOOKUP)
        | grant(!is_dir && has_read, requested, ACCESS4_LOOKUP)
        | grant(has_write, requested, ACCESS4_MODIFY) | grant(has_write, requested, ACCESS4_EXTEND)
        | grant(has_write, requested, ACCESS4_DELETE)
}

/// The ACCESS flags this server reports as supported.
pub open spec fn access_supported() -> u32 {
    ACCESS4_READ | ACCESS4_LOOKUP | ACCESS4_MODIFY | ACCESS4_EXTEND | ACCESS4_DELETE
        | ACCESS4_EXECUTE
}

/// The value of a string of decimal digits.
pub open spec fn digits_value(s: Seq<char>) -> int
    decreases s.len(),
{
    if s.len() == 0 {
        0
    } else {
        digits_value(s.drop_last()) * 10 + (s.last() as int - 48)
    }
}

/// Whether every character of `s` is a decimal digit.
pub open spec fn all_digits(s: Seq<char>) -> bool {
    forall|i: int| 0 <= i < s.len() ==> '0' <= #[trigger] s[i] <= '9'
}

/// What std's `str::parse::<u32>` gives for `s`: an optional `+`, then one
/// or more decimal digits whose value fits in 32 bits.
pub open spec fn parse_u32_spec(s: Seq<char>) -> Option<u32> {
    let d = if s.len() > 0 && s[0] == '+' { s.drop_first() } else { s };
    if d.len() > 0 && all_digits(d) && digits_value(d) <= u32::MAX {
        Some(digits_value(d) as u32)
    } else {
        None
    }
}

proof fn lemma_digits_value_nonneg(s: Seq<char>)
    requires
        all_digits(s),
    ensures
        digits_value(s) >= 0,
    decreases s.len(),
{
    if s.len() > 0 {
        assert(all_digits(s.drop_last()));
        lemma_digits_value_nonneg(s.drop_last());
    }
}

proof fn lemma_digits_value_grows(s: Seq<char>, k: int)
    requires
        all_digits(s),
        0 <= k <= s.len(),
    ensures
        digits_value(s.subrange(0, k)) <= digits_value(s),
    decreases s.len() - k,
{
    if k < s.len() {
        lemma_digits_value_grows(s, k + 1);
        let p = s.subrange(0, k + 1);
        assert(p.drop_last() =~= s.subrange(0, k));
        assert(all_digits(s.subrange(0, k)));
        lemma_digits_value_nonneg(s.subrange(0, k));
        assert('0' <= p.last() <= '9');
    } else {
        assert(s.subrange(0, k) =~= s);
    }
}

/// Parses a decimal `u32` as std's `str::parse::<u32>` does.
pub fn parse_u32(s: &str) -> (r: Option<u32>)
    ensures
        r == parse_u32_spec(s@),
{
    let n = s.unicode_len();
    let start: usize = if n > 0 && s.get_char(0) == '+' { 1 } else { 0 };
    let ghost d = if s@.len() > 0 && s@[0] == '+' { s@.drop_first() } else { s@ };
    assert(d =~= s@.subrange(start as int, n as int));
    if start >= n {
        return None;
    }
    let mut acc: u64 = 0;
    let mut i: usize = start;
    while i < n
        invariant
            start <= i <= n,
            n == s@.len(),
            d == (if s@.len() > 0 && s@[0] == '+' { s@.drop_first() } else { s@ }),
            d == s@.subrange(start as int, n as int),
            all_digits(s@.subrange(start as int, i as int)),
            acc as int == digits_value(s@.subrange(start as int, i as int)),
            acc <= u32::MAX,
        decreases n - i,
    {
        let c = s.get_char(i);
        let ghost next = s@.subrange(start as int, i + 1);
        proof {
            assert(next.drop_last() =~= s@.subrange(start as int, i as int));
            assert(next.last() == c);
            assert(d[i - start] == c);
        }
        if c < '0' || c > '9' {
            proof {
                assert(!('0' <= d[i - start] <= '9'));
                assert(!all_digits(d));
            }
            return None;
        }
        let digit = (c as u32 - 48) as u64;
        acc = acc * 10 + digit;
        proof {
            assert(all_digits(next));
            assert(acc as int == digits_value(next));
        }
        if acc > 0xffff_ffff {
            proof {
                if all_digits(d) {
                    lemma_digits_value_grows(d, i + 1 - start);
                    assert(d.subrange(0, i + 1 - start) =~= next);
                }
            }
            return None;
        }
        i = i + 1;
    }
    assert(s@.subrange(start as int, n as int) =~= d);
    Some(acc as u32)
}

/// The ACCESS flags granted on the current filehandle `fh` to a caller with
/// credentials `auth_uid`/`auth_gid`: the owner and group are read as numbers
/// (0 where they are not numeric); with no current filehandle, all that was
/// requested.
pub fn access_for(fh: Option<&Filehandle>, requested: u32, auth_uid: u32, auth_gid: u32) -> (granted: u32)
    ensures
        granted == (match fh {
            Some(fh) => access_granted(
                requested,
                fh.attr_mode,
                match parse_u32_spec(fh.attr_owner@) { Some(u) => u, None => 0 },
                match parse_u32_spec(fh.attr_owner_group@) { Some(g) => g, None => 0 },
                auth_uid,
                auth_gid,
                fh.attr_type == NfsFtype4::Nf4dir,
            ),
            None => requested,
        }),
{
    match fh {
        Some(fh) => {
            let file_uid = match parse_u32(fh.attr_owner.as_str()) {
                Some(u) => u,
                None => 0,
            };
            let file_gid = match parse_u32(fh.attr_owner_group.as_str()) {
                Some(g) => g,
                None => 0,
            };
            let is_dir = match fh.attr_type {
                NfsFtype4::Nf4dir => true,
                _ => false,
            };
            check_access(requested, fh.attr_mode, file_uid, file_gid, auth_uid, auth_gid, is_dir)
        },
        None => requested,
    }
}

/// The ACCESS flags this server reports as supported.
pub fn access_supported_flags() -> (s: u32)
    ensures
        s == access_supported(),
{
    ACCESS4_READ | ACCESS4_LOOKUP | ACCESS4_MODIFY | ACCESS4_EXTEND | ACCESS4_DELETE | ACCESS4_EXECUTE
}

/// The part of an owner string before its first `@`, or all of it.
pub open spec fn before_at(s: Seq<char>) -> Seq<char>
    decreases s.len(),
{
    if s.len() == 0 {
        s
    } else if s[0] == '@' {
        Seq::empty()
    } else {
        seq![s[0]] + before_at(s.drop_first())
    }
}

/// The numeric id an NFSv4 owner or group string names: the string itself
/// as a number, else the part before its `@` as a number.
pub open spec fn numeric_id_spec(s: Seq<char>) -> Option<u32> {
    match parse_u32_spec(s) {
        Some(n) => Some(n),
        None => parse_u32_spec(before_at(s)),
    }
}

/// The numeric id an NFSv4 owner or group string names (`1000`,
/// `1000@domain`), if it is numeric.
pub fn numeric_nfs4_id(owner: &str) -> (r: Option<u32>)
    ensures
        r == numeric_id_spec(owner@),
{
    match parse_u32(owner) {
        Some(n) => Some(n),
        None => {
            let n = owner.unicode_len();
            let mut k: usize = 0;
            while k < n && owner.get_char(k) != '@'
                invariant
                    k <= n,
                    n == owner@.len(),
                    forall|j: int| 0 <= j < k ==> owner@[j] != '@',
                decreases n - k,
            {
                k = k + 1;
            }
            proof {
                lemma_before_at(owner@, k as int);
            }
            parse_u32(owner.substring_char(0, k))
        },
    }
}

proof fn lemma_before_at(s: Seq<char>, k: int)
    requires
        0 <= k <= s.len(),
        forall|j: int| 0 <= j < k ==> s[j] != '@',
        k == s.len() || s[k] == '@',
    ensures
        before_at(s) == s.subrange(0, k),
    decreases s.len(),
{
    if s.len() == 0 {
        assert(s.subrange(0, k) =~= s);
    } else if k == 0 {
        assert(s.subrange(0, 0) =~= Seq::<char>::empty());
    } else {
        lemma_before_at(s.drop_first(), k - 1);
        assert(seq![s[0]] + s.drop_first().subrange(0, k - 1) =~= s.subrange(0, k));
    }
}

/// Whether a provided attribute value agrees with the file: type, size,
/// change, mode, link count and space used are compared; others are taken as
/// agreeing.
pub open spec fn attr_agrees(v: FileAttrValue, fh: FilehandleView) -> bool {
    match v {
        FileAttrValue::Type(t) => fh.attr_type == t,
        FileAttrValue::Size(s) => fh.attr_size == s,
        FileAttrValue::Change(c) => fh.attr_change == c,
        FileAttrValue::Mode(m) => fh.attr_mode == m,
        FileAttrValue::Numlinks(n) => fh.attr_nlink == n,
        FileAttrValue::SpaceUsed(s) => fh.attr_space_used == s,
        _ => true,
    }
}

/// Whether all provided attribute values agree with the file.
pub fn attrs_match(provided: &[FileAttrValue], actual_fh: &Filehandle) -> (r: bool)
    ensures
        r == (forall|i: int| 0 <= i < provided@.len() ==> attr_agrees(#[trigger] provided@[i], actual_fh@)),
{
    let mut i: usize = 0;
    while i < provided.len()
        invariant
            i <= provided@.len(),
            forall|j: int| 0 <= j < i ==> attr_agrees(#[trigger] provided@[j], actual_fh@),
        decreases provided@.len() - i,
    {
        let matches = match &provided[i] {
            FileAttrValue::Type(t) => actual_fh.attr_type == *t,
            FileAttrValue::Size(s) => actual_fh.attr_size == *s,
            FileAttrValue::Change(c) => actual_fh.attr_change == *c,
            FileAttrValue::Mode(m) => actual_fh.attr_mode == *m,
            FileAttrValue::Numlinks(n) => actual_fh.attr_nlink == *n,
            FileAttrValue::SpaceUsed(s) => actual_fh.attr_space_used == *s,
            _ => true,
        };
        if !matches {
            return false;
        }
        i = i + 1;
    }
    true
}

/// VERIFY's status: NOFILEHANDLE without a current filehandle, OK where all
/// provided values agree with it, else NOT_SAME.
pub fn verify_status(current: Option<&Filehandle>, provided: &[FileAttrValue]) -> (s: NfsStat4)
    ensures
        s == (match current {
            None => NfsStat4::Nfs4errNofilehandle,
            Some(fh) => if forall|i: int| 0 <= i < provided@.len() ==> attr_agrees(#[trigger] provided@[i], fh@) {
                NfsStat4::Nfs4Ok
            } else {
                NfsStat4::Nfs4errNotSame
            },
        }),
{
    match current {
        None => NfsStat4::Nfs4errNofilehandle,
        Some(fh) => if attrs_match(provided, fh) {
            NfsStat4::Nfs4Ok
        } else {
            NfsStat4::Nfs4errNotSame
        },
    }
}

/// NVERIFY's status: NOFILEHANDLE without a current filehandle, SAME where
/// all provided values agree with it, else OK.
pub fn nverify_status(current: Option<&Filehandle>, provided: &[FileAttrValue]) -> (s: NfsStat4)
    ensures
        s == (match current {
            None => NfsStat4::Nfs4errNofilehandle,
            Some(fh) => if forall|i: int| 0 <= i < provided@.len() ==> attr_agrees(#[trigger] provided@[i], fh@) {
                NfsStat4::Nfs4errSame
            } else {
                NfsStat4::Nfs4Ok
            },
        }),
{
    match current {
        None => NfsStat4::Nfs4errNofilehandle,
        Some(fh) => if attrs_match(provided, fh) {
            NfsStat4::Nfs4errSame
        } else {
            NfsStat4::Nfs4Ok
        },
    }
}

} // verus!
