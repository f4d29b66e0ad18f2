use nfs::attrs::QuotaInfo;
use nfs::fhstate::{parent_target, root_target, FilehandleState, ParentTarget, RootTarget};
use nfs::filehandle::{Filehandle, RealMeta};
use nfs::filemanager::{parent_path, FileManager, LockResult, TestLockResult, UnlockResult};
use nfs::handle::FileManagerHandle;
use nfs::proto::{FileAttr, FileAttrValue, NfsFtype4, NfsLockType4, NfsStat4};

fn meta(mode: u32, ino: u64, size: u64) -> RealMeta {
    RealMeta {
        ino,
        dev: 0x0102,
        mode,
        nlink: 1,
        uid: 1000,
        gid: 100,
        size,
        blocks: (size + 511) / 512,
        atime: 1,
        atime_nsec: 2,
        mtime: 3,
        mtime_nsec: 4,
        ctime: 5,
        ctime_nsec: 6,
    }
}

fn manager() -> FileManager {
    FileManager::new(None, "/export".to_string(), 0x1122334455667788)
}

#[test]
fn new_manager_defaults() {
    let fm = manager();
    assert_eq!(fm.fsid, 152);
    assert_eq!(fm.lease_time, 90);
    assert_eq!(fm.next_fh_id, 100);
    assert_eq!(fm.next_stateid_id, 100);
    assert!(fm.fhdb.is_empty());
    assert_eq!(FileManager::new(Some(7), "/e".to_string(), 0).fsid, 7);
}

#[test]
fn inode_filehandle_ids() {
    let mut fm = manager();
    let m = meta(0o100644, 0x0A0B, 10);
    let id = fm.get_filehandle_id("/a", Some(&m));
    let mut expected = [0u8; 26];
    expected[0] = 0x01;
    expected[2..10].copy_from_slice(&0x0102u64.to_be_bytes());
    expected[10..18].copy_from_slice(&0x0A0Bu64.to_be_bytes());
    assert_eq!(id, expected);
    assert_eq!(fm.next_fh_id, 100);
}

#[test]
fn volatile_filehandle_ids() {
    let mut fm = manager();
    let id = fm.get_filehandle_id("/a", None);
    let mut expected = [0u8; 26];
    expected[0] = 0x80;
    expected[2..10].copy_from_slice(&0x1122334455667788u64.to_be_bytes());
    expected[10..26].copy_from_slice(&100u128.to_be_bytes());
    assert_eq!(id, expected);
    assert_eq!(fm.next_fh_id, 101);
    let id2 = fm.get_filehandle_id("/b", None);
    assert_ne!(id, id2);
}

#[test]
fn recorded_paths_keep_their_id() {
    let mut fm = manager();
    let m = meta(0o100644, 5, 10);
    let id = fm.get_filehandle_id("/f", Some(&m));
    let fh = fm.get_filehandle(id, "/f", Some(&m), false, 10, true);
    assert_eq!(fh.id, id);
    assert_eq!(fh.path, "/f");
    assert_eq!(fh.version, 1);
    assert_eq!(fh.attr_fsid.major, 152);
    // A later lookup of the same path, even without stat, gives the same id.
    let again = fm.get_filehandle_id("/f", None);
    assert_eq!(again, id);
    assert_eq!(fm.next_fh_id, 100);
    let by_path = fm.get_filehandle_by_path(&"/f".to_string()).unwrap();
    assert_eq!(by_path.id, id);
    let by_id = fm.get_filehandle_by_id(&id, true).unwrap();
    assert_eq!(by_id.path, "/f");
}

#[test]
fn gone_files_are_forgotten() {
    let mut fm = manager();
    let m = meta(0o100644, 5, 10);
    let id = fm.get_filehandle_id("/f", Some(&m));
    fm.get_filehandle(id, "/f", Some(&m), false, 10, true);
    assert!(fm.get_filehandle_by_id(&id, false).is_none());
    assert!(fm.get_filehandle_by_path(&"/f".to_string()).is_none());
    assert!(fm.fhdb.is_empty());
}

#[test]
fn touch_refreshes_and_bumps_version() {
    let mut fm = manager();
    let m = meta(0o040755, 9, 4096);
    let id = fm.get_filehandle_id("/d", Some(&m));
    let fh = fm.get_filehandle(id, "/d", Some(&m), true, 4096, true);
    let mut m2 = m;
    m2.size = 8192;
    fm.touch_filehandle(fh, Some(&m2), true, 0);
    let fh = fm.get_filehandle_by_path(&"/d".to_string()).unwrap();
    assert_eq!(fh.version, 2);
    assert_eq!(fh.attr_size, 8192);
    assert_eq!(fh.attr_type, NfsFtype4::Nf4dir);
    assert_eq!(fm.fhdb.len(), 1);
}

#[test]
fn manager_attributes() {
    let mut fm = manager();
    let m = meta(0o100640, 3, 100);
    let id = fm.get_filehandle_id("/f", Some(&m));
    fm.get_filehandle(id, "/f", Some(&m), false, 100, true);
    let req = vec![FileAttr::Size, FileAttr::QuotaUsed, FileAttr::NamedAttr, FileAttr::Owner, FileAttr::Acl];
    let mut m2 = m;
    m2.size = 200;
    let (answered, values) = fm.filehandle_attrs(&req, &id, Some(&m2), true).unwrap();
    assert_eq!(answered, vec![FileAttr::Size, FileAttr::NamedAttr, FileAttr::Owner]);
    assert_eq!(values[0], FileAttrValue::Size(200));
    assert_eq!(values[1], FileAttrValue::NamedAttr(false));
    assert_eq!(values[2], FileAttrValue::Owner("1000".to_string()));
    // the refreshed entry was recorded
    assert_eq!(fm.get_filehandle_by_path(&"/f".to_string()).unwrap().attr_size, 200);
    assert!(fm.filehandle_attrs(&req, &[9u8; 26], None, true).is_none());
    assert_eq!(fm.attr_supported_attrs().len(), 25);
}

#[test]
fn handle_attributes_with_quota() {
    let h = FileManagerHandle::new("/export".to_string());
    let fh = Filehandle::new_real("/f", [1u8; 26], 3, 3, 0, &meta(0o100750, 11, 10));
    let q = QuotaInfo {
        quota_avail_hard: 1,
        quota_avail_soft: 2,
        quota_used: 3,
        space_avail: 8192,
        space_free: 4096,
        space_total: 0,
    };
    let req = vec![
        FileAttr::QuotaUsed,
        FileAttr::FilesAvail,
        FileAttr::NamedAttr,
        FileAttr::Hidden,
        FileAttr::Acl,
        FileAttr::MountedOnFileid,
    ];
    let (answered, values) = h.filehandle_attrs(&req, &fh, Some(&q), None).unwrap();
    assert_eq!(answered.len(), 5);
    assert_eq!(values[0], FileAttrValue::QuotaUsed(3));
    assert_eq!(values[1], FileAttrValue::FilesAvail(u64::MAX));
    assert_eq!(values[2], FileAttrValue::NamedAttr(true));
    match &values[3] {
        FileAttrValue::Acl(aces) => assert_eq!(aces.len(), 3),
        other => panic!("unexpected {:?}", other),
    }
    assert_eq!(values[4], FileAttrValue::MountedOnFileid(11));
    let q2 = QuotaInfo { space_total: 40960, ..q };
    let (_, values) = h.filehandle_attrs(&vec![FileAttr::FilesFree], &fh, Some(&q2), None).unwrap();
    assert_eq!(values[0], FileAttrValue::FilesFree(1));
    let (_, values) = h.filehandle_attrs(&vec![FileAttr::QuotaAvailHard], &fh, None, None).unwrap();
    assert_eq!(values[0], FileAttrValue::QuotaAvailHard(0));
    assert_eq!(h.attr_supported_attrs().len(), 49);
    assert_eq!(h.attr_lease_time(), 90);
    assert_eq!(h.attr_rdattr_error(), NfsStat4::Nfs4errInval);
}

#[test]
fn real_paths() {
    let h = FileManagerHandle::new("/export".to_string());
    assert_eq!(h.real_path(""), "/export");
    assert_eq!(h.real_path("/"), "/export");
    assert_eq!(h.real_path("/a/b"), "/export/a/b");
    assert_eq!(h.real_path("//a"), "/export/a");
    let h2 = FileManagerHandle::new("/export/".to_string());
    assert_eq!(h2.real_path("/a"), "/export/a");
    assert_eq!(manager().real_path("/x"), "/export/x");
}

#[test]
fn parent_paths() {
    assert_eq!(parent_path("/a/b"), "/a");
    assert_eq!(parent_path("/a"), "/");
    assert_eq!(parent_path(""), "/");
}

#[test]
fn lock_then_test_then_unlock() {
    let mut fm = manager();
    let fh = [4u8; 26];
    let sid = match fm.handle_lock(&fh, 1, b"o1".to_vec(), NfsLockType4::WriteLt, 0, 10) {
        LockResult::Success(s) => s,
        other => panic!("unexpected {:?}", other),
    };
    assert_eq!(sid.seqid, 1);
    assert_eq!(sid.other, [0, 0, 0, 0, 0, 0, 0, 0, 0, 0, 0, 100]);
    match fm.handle_test_lock(&fh, 2, b"o2", &NfsLockType4::ReadLt, 5, 1) {
        TestLockResult::Denied { offset, length, owner_clientid, .. } => {
            assert_eq!((offset, length, owner_clientid), (0, 10, 1));
        }
        other => panic!("unexpected {:?}", other),
    }
    assert!(matches!(fm.handle_lock(&fh, 2, b"o2".to_vec(), NfsLockType4::ReadLt, 5, 1), LockResult::Denied { .. }));
    match fm.handle_unlock(&sid.other, 0, 10) {
        UnlockResult::Success(s) => assert_eq!(s.seqid, 2),
        other => panic!("unexpected {:?}", other),
    }
    assert!(matches!(fm.handle_test_lock(&fh, 2, b"o2", &NfsLockType4::ReadLt, 5, 1), TestLockResult::Success));
    assert!(matches!(fm.handle_unlock(&sid.other, 0, 10), UnlockResult::Error(NfsStat4::Nfs4errBadStateid)));
}

#[test]
fn release_lock_owner_keeps_other_owners() {
    let mut fm = manager();
    let fh = [5u8; 26];
    fm.handle_lock(&fh, 1, b"a".to_vec(), NfsLockType4::ReadLt, 0, 10);
    fm.handle_lock(&fh, 1, b"b".to_vec(), NfsLockType4::ReadLt, 0, 10);
    assert_eq!(fm.handle_release_lock_owner(1, b"a"), NfsStat4::Nfs4Ok);
    assert_eq!(fm.lockdb.len(), 1);
    assert_eq!(fm.lockdb[0].owner, b"b");
}

#[test]
fn created_file_carries_its_open_state() {
    let mut fm = manager();
    let fh = Filehandle::new_real("/n", [6u8; 26], 1, 1, 0, &meta(0o100644, 1, 0));
    let fh = fm.open_created_file(fh, 9, b"own".to_vec(), 2, 0);
    assert_eq!(fh.locks.len(), 1);
    assert_eq!(fh.locks[0].share_access, Some(2));
    assert_eq!(fm.lockdb.len(), 1);
    let with_locks = fm.attach_locks(Filehandle::new_real("/n", [6u8; 26], 1, 1, 0, &meta(0o100644, 1, 0)));
    assert_eq!(with_locks.locks.len(), 1);
    fm.close_file(&with_locks.locks[0].stateid);
    assert!(fm.lockdb.is_empty());
}

#[test]
fn save_and_restore_filehandles() {
    let mut st = FilehandleState::new();
    assert_eq!(st.get_fh(), Err(NfsStat4::Nfs4errNofilehandle));
    assert_eq!(st.save(), NfsStat4::Nfs4errNofilehandle);
    assert_eq!(st.restore(), NfsStat4::Nfs4errRestorefh);
    let a = Filehandle::pseudo_root([1u8; 26]);
    let b = Filehandle::pseudo_root([2u8; 26]);
    st.set_current(a);
    assert_eq!(st.save(), NfsStat4::Nfs4Ok);
    st.set_current(b);
    assert_eq!(st.get_fh(), Ok([2u8; 26]));
    assert_eq!(st.restore(), NfsStat4::Nfs4Ok);
    assert_eq!(st.get_fh(), Ok([1u8; 26]));
    st.unset_current();
    assert!(st.current.is_none());
}

#[test]
fn root_and_parent_targets() {
    assert_eq!(root_target(&vec![3]), RootTarget::ExportRoot(3));
    assert_eq!(root_target(&vec![1, 2]), RootTarget::PseudoRoot);
    assert_eq!(root_target(&vec![]), RootTarget::PseudoRoot);
    let root = Filehandle::pseudo_root([0u8; 26]);
    assert_eq!(parent_target(true, Some(&root), 2), ParentTarget::Noent);
    assert_eq!(parent_target(false, None, 2), ParentTarget::NoFilehandle);
    assert_eq!(parent_target(false, Some(&root), 2), ParentTarget::PseudoRoot);
    assert_eq!(parent_target(false, Some(&root), 1), ParentTarget::Path("/".to_string()));
    let f = Filehandle::new_real("/a/b", [0u8; 26], 1, 1, 0, &meta(0o100644, 1, 0));
    assert_eq!(parent_target(false, Some(&f), 2), ParentTarget::Path("/a".to_string()));
}
