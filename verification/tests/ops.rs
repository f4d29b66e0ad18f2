use nfs::attrs::mode_to_acl;
use nfs::dispatch::{
    compound_gate, compound_refusal, grace_denies, op_name, CompoundState, CompoundStep, NFSService,
    NfsOpnum4, OpSummary, RpcRoute,
};
use nfs::filehandle::{Filehandle, RealMeta};
use nfs::ops::{
    access_for, check_access, nverify_status, numeric_nfs4_id, parse_u32, verifier_from_boot,
    verify_status, attrs_match,
};
use nfs::proto::{
    FileAttr, FileAttrValue, NfsFtype4, NfsStat4, ACCESS4_DELETE, ACCESS4_EXECUTE, ACCESS4_EXTEND,
    ACCESS4_LOOKUP, ACCESS4_MODIFY, ACCESS4_READ, ACE4_EXECUTE, ACE4_IDENTIFIER_GROUP,
    ACE4_READ_ATTRIBUTES, ACE4_READ_DATA, ACE4_WRITE_DATA,
};
use nfs::pseudo::{
    export_id_from_fh, is_pseudo_root, pseudo_root_fh, pseudo_root_getattr, stamp_export_id,
    PSEUDO_ROOT_EXPORT_ID,
};

const ALL: u32 = ACCESS4_READ | ACCESS4_LOOKUP | ACCESS4_MODIFY | ACCESS4_EXTEND | ACCESS4_DELETE | ACCESS4_EXECUTE;

#[test]
fn test_verifier_from_boot() {
    let boot_time: u64 = 0x0102030405060708;
    let verifier = verifier_from_boot(&boot_time);
    assert_eq!(verifier, [0x01, 0x02, 0x03, 0x04, 0x05, 0x06, 0x07, 0x08]);
}

#[test]
fn test_mode_to_acl_755() {
    let aces = mode_to_acl(0o755, "1000", "1000");
    assert_eq!(aces.len(), 3);
    assert!(aces[0].access_mask & ACE4_READ_DATA != 0);
    assert!(aces[0].access_mask & ACE4_WRITE_DATA != 0);
    assert!(aces[0].access_mask & ACE4_EXECUTE != 0);
    assert_eq!(aces[0].who, "1000");
    assert!(aces[1].access_mask & ACE4_READ_DATA != 0);
    assert!(aces[1].access_mask & ACE4_WRITE_DATA == 0);
    assert!(aces[1].access_mask & ACE4_EXECUTE != 0);
    assert_eq!(aces[1].flag, ACE4_IDENTIFIER_GROUP);
    assert!(aces[2].access_mask & ACE4_READ_DATA != 0);
    assert!(aces[2].access_mask & ACE4_EXECUTE != 0);
    assert_eq!(aces[2].who, "EVERYONE@");
}

#[test]
fn test_mode_to_acl_644() {
    let aces = mode_to_acl(0o644, "0", "0");
    assert!(aces[0].access_mask & ACE4_READ_DATA != 0);
    assert!(aces[0].access_mask & ACE4_WRITE_DATA != 0);
    assert!(aces[0].access_mask & ACE4_EXECUTE == 0);
    assert!(aces[1].access_mask & ACE4_READ_DATA != 0);
    assert!(aces[1].access_mask & ACE4_WRITE_DATA == 0);
    assert!(aces[2].access_mask & ACE4_READ_DATA != 0);
    assert!(aces[2].access_mask & ACE4_WRITE_DATA == 0);
}

#[test]
fn test_mode_to_acl_000() {
    let aces = mode_to_acl(0o000, "0", "0");
    assert!(aces[0].access_mask & ACE4_READ_DATA == 0);
    assert!(aces[0].access_mask & ACE4_WRITE_DATA == 0);
    assert!(aces[0].access_mask & ACE4_EXECUTE == 0);
    assert!(aces[0].access_mask & ACE4_READ_ATTRIBUTES != 0);
}

#[test]
fn mode_to_acl_exact_masks() {
    let aces = mode_to_acl(0o751, "u", "g");
    assert_eq!(aces[0].access_mask, 0x1F01E7);
    assert_eq!(aces[1].access_mask, 0x1200A1);
    assert_eq!(aces[2].access_mask, 0x1200A0);
    assert_eq!(aces[1].who, "g");
}

#[test]
fn test_pseudo_root_fh_structure() {
    let fh = pseudo_root_fh();
    assert_eq!(fh[0], 0x02);
    assert_eq!(fh[1], PSEUDO_ROOT_EXPORT_ID);
    for &byte in &fh[2..] {
        assert_eq!(byte, 0);
    }
}

#[test]
fn test_is_pseudo_root() {
    let fh = pseudo_root_fh();
    assert!(is_pseudo_root(&fh));
    let regular = [0u8; 26];
    assert!(!is_pseudo_root(&regular));
}

#[test]
fn test_export_id_from_fh() {
    let pseudo_fh = pseudo_root_fh();
    assert_eq!(export_id_from_fh(&pseudo_fh), PSEUDO_ROOT_EXPORT_ID);
    let mut regular = [0u8; 26];
    regular[1] = 5;
    assert_eq!(export_id_from_fh(&regular), 5);
}

#[test]
fn test_stamp_export_id() {
    let mut fh = [0u8; 26];
    stamp_export_id(&mut fh, 42);
    assert_eq!(fh[1], 42);
}

#[test]
fn test_pseudo_root_getattr_type() {
    let (answer_attrs, attrs) = pseudo_root_getattr(&[FileAttr::Type]);
    assert_eq!(answer_attrs.len(), 1);
    assert_eq!(attrs.len(), 1);
    assert_eq!(attrs[0], FileAttrValue::Type(NfsFtype4::Nf4dir));
}

#[test]
fn test_pseudo_root_getattr_multiple() {
    let (answer_attrs, attrs) = pseudo_root_getattr(&[FileAttr::Type, FileAttr::Mode, FileAttr::Size]);
    assert_eq!(answer_attrs.len(), 3);
    assert_eq!(attrs.len(), 3);
}

#[test]
fn pseudo_root_skips_unanswered_attributes() {
    let (answer_attrs, attrs) =
        pseudo_root_getattr(&[FileAttr::QuotaUsed, FileAttr::Fileid, FileAttr::Hidden, FileAttr::Owner]);
    assert_eq!(answer_attrs, vec![FileAttr::Fileid, FileAttr::Owner]);
    assert_eq!(attrs[0], FileAttrValue::Fileid(1));
    assert_eq!(attrs[1], FileAttrValue::Owner("0".to_string()));
}

#[test]
fn root_is_granted_everything_requested() {
    assert_eq!(check_access(ALL, 0o000, 5, 5, 0, 0, false), ALL);
}

#[test]
fn owner_group_and_other_triples() {
    // owner rw-, group r-x, other --x
    let mode = 0o651;
    assert_eq!(
        check_access(ALL, mode, 10, 20, 10, 99, false),
        ACCESS4_READ | ACCESS4_LOOKUP | ACCESS4_MODIFY | ACCESS4_EXTEND | ACCESS4_DELETE
    );
    assert_eq!(
        check_access(ALL, mode, 10, 20, 11, 20, true),
        ACCESS4_READ | ACCESS4_EXECUTE | ACCESS4_LOOKUP
    );
    assert_eq!(check_access(ALL, mode, 10, 20, 11, 21, false), ACCESS4_EXECUTE);
    assert_eq!(check_access(ACCESS4_READ, mode, 10, 20, 10, 20, false), ACCESS4_READ);
}

#[test]
fn parse_u32_follows_std() {
    for s in ["0", "42", "+7", "4294967295", "4294967296", "", "+", "-1", "12a", "007"] {
        assert_eq!(parse_u32(s), s.parse::<u32>().ok(), "{}", s);
    }
}

#[test]
fn numeric_owner_strings() {
    assert_eq!(numeric_nfs4_id("1000"), Some(1000));
    assert_eq!(numeric_nfs4_id("1000@example.com"), Some(1000));
    assert_eq!(numeric_nfs4_id("alice@example.com"), None);
    assert_eq!(numeric_nfs4_id("alice"), None);
}

fn regular_file() -> Filehandle {
    let meta = RealMeta {
        ino: 7,
        dev: 1,
        mode: 0o100640,
        nlink: 1,
        uid: 1000,
        gid: 100,
        size: 12,
        blocks: 1,
        atime: 0,
        atime_nsec: 0,
        mtime: 0,
        mtime_nsec: 0,
        ctime: 0,
        ctime_nsec: 0,
    };
    Filehandle::new_real("/f", [0u8; 26], 1, 1, 0, &meta)
}

#[test]
fn access_reads_numeric_owner() {
    let fh = regular_file();
    assert_eq!(access_for(Some(&fh), ALL, 1000, 1, ), ACCESS4_READ | ACCESS4_LOOKUP | ACCESS4_MODIFY | ACCESS4_EXTEND | ACCESS4_DELETE);
    assert_eq!(access_for(Some(&fh), ALL, 5, 100), ACCESS4_READ | ACCESS4_LOOKUP);
    assert_eq!(access_for(Some(&fh), ALL, 5, 5), 0);
    assert_eq!(access_for(None, ALL, 5, 5), ALL);
}

#[test]
fn verify_and_nverify() {
    let fh = regular_file();
    let same = [FileAttrValue::Size(12), FileAttrValue::Type(NfsFtype4::Nf4reg), FileAttrValue::Hidden(true)];
    let differ = [FileAttrValue::Size(13)];
    assert!(attrs_match(&same, &fh));
    assert!(!attrs_match(&differ, &fh));
    assert_eq!(verify_status(Some(&fh), &same), NfsStat4::Nfs4Ok);
    assert_eq!(verify_status(Some(&fh), &differ), NfsStat4::Nfs4errNotSame);
    assert_eq!(nverify_status(Some(&fh), &same), NfsStat4::Nfs4errSame);
    assert_eq!(nverify_status(Some(&fh), &differ), NfsStat4::Nfs4Ok);
    assert_eq!(verify_status(None, &same), NfsStat4::Nfs4errNofilehandle);
    assert_eq!(nverify_status(None, &same), NfsStat4::Nfs4errNofilehandle);
}

#[test]
fn op_names() {
    assert_eq!(op_name(NfsOpnum4::SetclientidConfirm), "SETCLIENTID_CONFIRM");
    assert_eq!(op_name(NfsOpnum4::OpUndef1), "UNDEF");
    assert_eq!(op_name(NfsOpnum4::Sequence), "UNKNOWN");
}

#[test]
fn compound_gates() {
    let open_create = OpSummary { op: NfsOpnum4::Open, open_claim_null: true, open_creates: true };
    let open_reclaim = OpSummary { op: NfsOpnum4::Open, open_claim_null: false, open_creates: true };
    let read = OpSummary { op: NfsOpnum4::Read, open_claim_null: false, open_creates: false };
    assert!(grace_denies(&open_create));
    assert!(!grace_denies(&open_reclaim));
    assert_eq!(compound_gate(&read, true, false), Some(NfsStat4::Nfs4errDelay));
    assert_eq!(compound_gate(&open_create, false, true), Some(NfsStat4::Nfs4errGrace));
    assert_eq!(compound_gate(&open_create, false, false), None);
    assert_eq!(compound_gate(&read, false, true), None);
    assert_eq!(compound_refusal(1), Some(NfsStat4::Nfs4errMinorVersMismatch));
    assert_eq!(compound_refusal(0), None);
}

#[test]
fn compound_stops_at_first_failure() {
    let mut st = CompoundState::new();
    assert_eq!(st.record(true, NfsStat4::Nfs4Ok), CompoundStep::Continue);
    assert_eq!(st.record(true, NfsStat4::Nfs4errNoent), CompoundStep::Reply(NfsStat4::Nfs4errNoent));
    assert_eq!(st.completed, 2);
    let mut st = CompoundState::new();
    assert_eq!(st.record(false, NfsStat4::Nfs4errFhexpired), CompoundStep::Reply(NfsStat4::Nfs4errFhexpired));
    assert_eq!(st.completed, 0);
    assert_eq!(st.finish(), NfsStat4::Nfs4errFhexpired);
}

#[test]
fn rpc_routing() {
    let svc = NFSService::new(());
    assert_eq!(svc.route(false, 100003, 4, 1), RpcRoute::GarbageArgs);
    assert_eq!(svc.route(true, 400122, 4, 1), RpcRoute::ProgUnavail);
    assert_eq!(svc.route(true, 100003, 3, 1), RpcRoute::ProgMismatch { low: 4, high: 4 });
    assert_eq!(svc.route(true, 100003, 4, 0), RpcRoute::Null);
    assert_eq!(svc.route(true, 100003, 4, 1), RpcRoute::Compound);
    assert_eq!(svc.route(true, 100003, 4, 2), RpcRoute::ProcUnavail);
}
