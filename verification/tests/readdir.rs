use nfs::export_manager::ExportManager;
use nfs::fileops::{
    copy_count, copy_precheck, create_precheck, io_failure_status, next_copy_chunk, IoFailure,
    WriteCacheState, COPY_CHUNK,
};
use nfs::proto::{FileAttr, FileAttrValue, Fsid4, NfsStat4};
use nfs::pseudo::pseudo_readdir;
use nfs::readdir::{plan_readdir, readdir_eof};

fn names(v: &[&str]) -> Vec<Vec<u8>> {
    v.iter().map(|s| s.as_bytes().to_vec()).collect()
}

#[test]
fn readdir_lists_everything_without_limits() {
    let n = names(&["a", ".nfs4attrs", "bb"]);
    let plan = plan_readdir(&n, 0, &[0u8; 8], 0, 0).unwrap();
    assert_eq!(plan.visible, 2);
    assert_eq!(plan.selected, vec![(3, 0), (5, 2)]);
    // seed "abb": step 1, samples every byte, zero padded
    assert_eq!(plan.cookieverf, [b'a', b'b', b'b', 0, 0, 0, 0, 0]);
    assert!(readdir_eof(Some(3), 2, plan.visible));
}

#[test]
fn readdir_continues_after_the_cookie() {
    // 64 bytes of names: the verifier samples eight of them
    let n = names(&["aaaaaaaaaaaaaaaa", "bbbbbbbbbbbbbbbb", "cccccccccccccccc", "dddddddddddddddd"]);
    let first = plan_readdir(&n, 0, &[0u8; 8], 0, 0).unwrap();
    let next = plan_readdir(&n, 4, &first.cookieverf, 0, 0).unwrap();
    assert_eq!(next.selected, vec![(5, 2), (6, 3)]);
    assert_eq!(next.visible, 4);
}

#[test]
fn short_verifiers_match_on_continuation() {
    let n = names(&["a", "b", "c", "d"]);
    let first = plan_readdir(&n, 0, &[0u8; 8], 0, 0).unwrap();
    assert_eq!(first.cookieverf, [b'a', b'b', b'c', b'd', 0, 0, 0, 0]);
    let next = plan_readdir(&n, 4, &first.cookieverf, 0, 0).unwrap();
    assert_eq!(next.selected, vec![(5, 2), (6, 3)]);
}

#[test]
fn continuing_with_the_returned_verifier_of_one_long_name() {
    let n = names(&["abcdefgh"]);
    let first = plan_readdir(&n, 0, &[0u8; 8], 0, 0).unwrap();
    assert_eq!(first.selected, vec![(3, 0)]);
    let next = plan_readdir(&n, 3, &first.cookieverf, 0, 0).unwrap();
    assert!(next.selected.is_empty());
    assert_eq!(plan_readdir(&n, 3, &[0xFF; 8], 0, 0).unwrap_err(), NfsStat4::Nfs4errNotSame);
}

#[test]
fn readdir_refuses_a_changed_directory() {
    let n = names(&["a", "b"]);
    assert_eq!(plan_readdir(&n, 4, &[9u8; 8], 0, 0).unwrap_err(), NfsStat4::Nfs4errNotSame);
}

#[test]
fn readdir_samples_long_seeds() {
    let n = names(&["abcdefghijklmnopqrstuvwxyz"]);
    let plan = plan_readdir(&n, 0, &[0u8; 8], 0, 0).unwrap();
    // 26 bytes: step 4
    assert_eq!(plan.cookieverf, [b'a', b'e', b'i', b'm', b'q', b'u', b'y', 0]);
}

#[test]
fn readdir_respects_the_size_hints() {
    let n = names(&["aaaa", "bbbb", "cccc"]);
    // each entry charges 8 + 4 + 5 = 17 bytes of dircount
    let plan = plan_readdir(&n, 0, &[0u8; 8], 40, 100000).unwrap();
    assert_eq!(plan.selected, vec![(3, 0), (4, 1)]);
    let plan = plan_readdir(&n, 0, &[0u8; 8], 1000, 500).unwrap();
    assert_eq!(plan.selected, vec![(3, 0)]);
    assert!(readdir_eof(Some(3), 1, plan.visible));
    assert!(!readdir_eof(Some(3), 1, 5));
    assert!(readdir_eof(None, 0, 3));
}

#[test]
fn pseudo_readdir_lists_exports() {
    let mut em = ExportManager::new();
    em.add_export("one".to_string(), "/1".to_string(), false).unwrap();
    em.add_export("two".to_string(), "/2".to_string(), false).unwrap();
    let exports = em.list_exports();
    let (entries, eof) = pseudo_readdir(&exports, &[FileAttr::Fsid, FileAttr::Fileid], 0);
    assert!(eof);
    assert_eq!(entries.len(), 2);
    assert_eq!(entries[0].name, "one");
    assert_eq!(entries[0].cookie, 3);
    assert_eq!(entries[1].cookie, 4);
    assert_eq!(entries[1].attrs.attr_vals[0], FileAttrValue::Fsid(Fsid4 { major: 2, minor: 2 }));
    assert_eq!(entries[1].attrs.attr_vals[1], FileAttrValue::Fileid(102));
    let (entries, _) = pseudo_readdir(&exports, &[], 3);
    assert_eq!(entries.len(), 1);
    assert_eq!(entries[0].name, "two");
}

#[test]
fn copy_arithmetic() {
    assert_eq!(copy_count(100, 10, 0), 90);
    assert_eq!(copy_count(100, 10, 50), 50);
    assert_eq!(copy_count(100, 10, 500), 90);
    assert_eq!(copy_count(100, 200, 5), 0);
    assert_eq!(next_copy_chunk(1_000_000, 0), COPY_CHUNK);
    assert_eq!(next_copy_chunk(1_000_000, 900_000), 100_000);
}

#[test]
fn prechecks_and_io_failures() {
    assert_eq!(create_precheck(false, "x", None), Some(NfsStat4::Nfs4errFhexpired));
    assert_eq!(create_precheck(true, "", None), Some(NfsStat4::Nfs4errInval));
    assert_eq!(create_precheck(true, "x", Some(false)), Some(NfsStat4::Nfs4errDquot));
    assert_eq!(create_precheck(true, "x", Some(true)), None);
    assert_eq!(copy_precheck(true, false, None), Some(NfsStat4::Nfs4errFhexpired));
    assert_eq!(copy_precheck(true, true, Some(false)), Some(NfsStat4::Nfs4errDquot));
    assert_eq!(copy_precheck(true, true, None), None);
    assert_eq!(io_failure_status(IoFailure::PermissionDenied), NfsStat4::Nfs4errAccess);
    assert_eq!(io_failure_status(IoFailure::AlreadyExists), NfsStat4::Nfs4errExist);
    assert_eq!(io_failure_status(IoFailure::Other), NfsStat4::Nfs4errIo);
}

#[test]
fn write_cache_dirty_state() {
    let mut wc = WriteCacheState::new();
    let a = wc.on_commit();
    assert!(!a.sync && !a.touch);
    wc.on_write(false);
    assert!(!wc.dirty);
    wc.on_write(true);
    let a = wc.on_commit();
    assert!(a.sync && a.touch);
    assert!(!wc.dirty);
}
