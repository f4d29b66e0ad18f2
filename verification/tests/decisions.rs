use nfs::export_manager::{ExportStats, QuotaConfig, QuotaManager};
use nfs::dispatch::sequence_slot;
use nfs::fhstate::{lookup_target, open_confirm_result, open_downgrade_result, putfh_route, LookupTarget, PutfhRoute};
use nfs::filemanager::FileManager;
use nfs::pseudo::pseudo_root_fh;
use nfs::filehandle::{Filehandle, RealMeta};
use nfs::filemanager::{lock_result_status, locker_identity, LockResult, Locker};
use nfs::fileops::{bumped_change, entry_path, read_eof, read_size, rename_precheck, seek_result, SeekWhat};
use nfs::handle::{getattr, quota_info_of, FileManagerHandle, DEFAULT_SPACE_TOTAL};
use nfs::open::{child_path, open_plan, OpenClaimKind, OpenHowKind, OpenPlan};
use nfs::proto::{FileAttr, FileAttrValue, NfsFtype4, NfsLockType4, NfsStat4, Stateid4};

fn file() -> Filehandle {
    let m = RealMeta {
        ino: 1,
        dev: 1,
        mode: 0o100644,
        nlink: 1,
        uid: 0,
        gid: 0,
        size: 5,
        blocks: 1,
        atime: 0,
        atime_nsec: 0,
        mtime: 0,
        mtime_nsec: 0,
        ctime: 0,
        ctime_nsec: 0,
    };
    Filehandle::new_real("/dir/f", [7u8; 26], 1, 1, 0, &m)
}

#[test]
fn open_plans_follow_the_check_order() {
    assert_eq!(open_plan(OpenClaimKind::Previous, true, false, "", OpenHowKind::NoCreate, None), OpenPlan::Reclaim);
    assert_eq!(open_plan(OpenClaimKind::Previous, false, true, "x", OpenHowKind::NoCreate, None), OpenPlan::Fail(NfsStat4::Nfs4errNofilehandle));
    assert_eq!(open_plan(OpenClaimKind::Null, false, true, "x", OpenHowKind::NoCreate, None), OpenPlan::Fail(NfsStat4::Nfs4errFhexpired));
    assert_eq!(open_plan(OpenClaimKind::Null, true, false, "x", OpenHowKind::NoCreate, None), OpenPlan::Fail(NfsStat4::Nfs4errNotdir));
    assert_eq!(open_plan(OpenClaimKind::Delegation, true, true, "x", OpenHowKind::NoCreate, None), OpenPlan::Fail(NfsStat4::Nfs4errNotsupp));
    assert_eq!(open_plan(OpenClaimKind::Null, true, true, "", OpenHowKind::NoCreate, None), OpenPlan::Fail(NfsStat4::Nfs4errInval));
    assert_eq!(open_plan(OpenClaimKind::Null, true, true, "x", OpenHowKind::NoCreate, Some(false)), OpenPlan::Read);
    assert_eq!(open_plan(OpenClaimKind::Null, true, true, "x", OpenHowKind::Unchecked, Some(false)), OpenPlan::Fail(NfsStat4::Nfs4errDquot));
    assert_eq!(open_plan(OpenClaimKind::Null, true, true, "x", OpenHowKind::Unchecked, None), OpenPlan::Create { exclusive: false });
    assert_eq!(open_plan(OpenClaimKind::Null, true, true, "x", OpenHowKind::Exclusive, Some(true)), OpenPlan::Create { exclusive: true });
    assert_eq!(open_plan(OpenClaimKind::Null, true, true, "x", OpenHowKind::Guarded, None), OpenPlan::Fail(NfsStat4::Nfs4errNotsupp));
}

#[test]
fn child_paths() {
    assert_eq!(child_path(&"/".to_string(), "a"), "/a");
    assert_eq!(child_path(&"/a".to_string(), "b"), "/a/b");
}

#[test]
fn lookup_targets() {
    let f = file();
    assert_eq!(lookup_target(true, Some(4), None, "e"), LookupTarget::ExportRoot(4));
    assert_eq!(lookup_target(true, None, Some(&f), "e"), LookupTarget::Noent);
    assert_eq!(lookup_target(false, None, None, "e"), LookupTarget::Fhexpired);
    assert_eq!(lookup_target(false, None, Some(&f), "g"), LookupTarget::Path("/dir/f/g".to_string()));
}

#[test]
fn read_and_seek_arithmetic() {
    assert_eq!(read_size(100, 90, 50), 10);
    assert_eq!(read_size(100, 10, 50), 50);
    assert_eq!(read_size(100, 200, 50), 0);
    assert!(read_eof(90, 10, 100));
    assert!(!read_eof(10, 50, 100));
    assert!(read_eof(u64::MAX, 1, 0));
    assert_eq!(seek_result(100, 50, SeekWhat::Data), (true, 50));
    assert_eq!(seek_result(10, 50, SeekWhat::Data), (false, 10));
    assert_eq!(seek_result(10, 50, SeekWhat::Hole), (false, 50));
}

#[test]
fn export_counters_wrap() {
    let mut s = ExportStats::new();
    s.record_read(10);
    s.record_write(u64::MAX);
    s.record_write(2);
    s.record_op();
    let snap = s.snapshot();
    assert_eq!((snap.reads, snap.bytes_read), (1, 10));
    assert_eq!((snap.writes, snap.bytes_written), (2, 1));
    assert_eq!(snap.ops, 1);
}

#[test]
fn quota_figures() {
    let mut qm = QuotaManager::new(QuotaConfig { hard_limit_bytes: 1000, soft_limit_bytes: 0 });
    qm.record_write(400);
    let q = quota_info_of(&qm);
    assert_eq!(q.quota_avail_hard, 600);
    assert_eq!(q.quota_avail_soft, 0);
    assert_eq!(q.quota_used, 400);
    assert_eq!(q.space_total, DEFAULT_SPACE_TOTAL);
    assert_eq!(q.space_free, DEFAULT_SPACE_TOTAL - 400);
    assert_eq!(q.space_avail, DEFAULT_SPACE_TOTAL - 400);
}

#[test]
fn getattr_branches() {
    let h = FileManagerHandle::new("/e".to_string());
    let req = vec![FileAttr::Type, FileAttr::QuotaUsed];
    let (a, v) = getattr(&h, true, None, &req, None, None).unwrap();
    assert_eq!(a, vec![FileAttr::Type]);
    assert_eq!(v[0], FileAttrValue::Type(NfsFtype4::Nf4dir));
    assert_eq!(getattr(&h, false, None, &req, None, None).unwrap_err(), NfsStat4::Nfs4errStale);
    let f = file();
    let mut qm = QuotaManager::new(QuotaConfig::default());
    qm.record_write(9);
    let (a, v) = getattr(&h, false, Some(&f), &req, Some(&qm), None).unwrap();
    assert_eq!(a, req);
    assert_eq!(v[0], FileAttrValue::Type(NfsFtype4::Nf4reg));
    assert_eq!(v[1], FileAttrValue::QuotaUsed(9));
}

#[test]
fn lockers_and_lock_statuses() {
    let (c, o) = locker_identity(&Locker::OpenOwner { clientid: 5, owner: b"me".to_vec() });
    assert_eq!((c, o), (5, b"me".to_vec()));
    let sid = Stateid4 { seqid: 1, other: [3u8; 12] };
    let (c, o) = locker_identity(&Locker::LockOwner { lock_stateid: sid });
    assert_eq!((c, o), (0, vec![3u8; 12]));
    assert_eq!(lock_result_status(&LockResult::Success(sid)), NfsStat4::Nfs4Ok);
    let denied = LockResult::Denied {
        offset: 0,
        length: 1,
        lock_type: NfsLockType4::ReadLt,
        owner_clientid: 1,
        owner: vec![],
    };
    assert_eq!(lock_result_status(&denied), NfsStat4::Nfs4errDenied);
    assert_eq!(lock_result_status(&LockResult::Error(NfsStat4::Nfs4errIo)), NfsStat4::Nfs4errIo);
}

#[test]
fn open_confirm_and_downgrade() {
    assert_eq!(open_confirm_result(None), Err(NfsStat4::Nfs4errNofilehandle));
    let f = file();
    assert_eq!(open_confirm_result(Some(&f)), Err(NfsStat4::Nfs4errBadStateid));
    let mut fm = FileManager::new(None, "/e".to_string(), 0);
    let opened = fm.open_created_file(file(), 1, b"o".to_vec(), 1, 0);
    let sid = open_confirm_result(Some(&opened)).unwrap();
    assert_eq!(sid.seqid, 1);
    assert_eq!(sid.other, opened.locks[0].stateid);
    assert_eq!(open_downgrade_result(Some(&opened), 0, 0), Err(NfsStat4::Nfs4errInval));
    assert_eq!(open_downgrade_result(Some(&opened), 0, 4), Err(NfsStat4::Nfs4errInval));
    assert_eq!(open_downgrade_result(Some(&f), 0, 1), Err(NfsStat4::Nfs4errBadStateid));
    let d = open_downgrade_result(Some(&opened), u32::MAX, 1).unwrap();
    assert_eq!(d.seqid, 0);
    assert_eq!(open_downgrade_result(None, 0, 1), Err(NfsStat4::Nfs4errNofilehandle));
}

#[test]
fn putfh_routes() {
    assert_eq!(putfh_route(&pseudo_root_fh(), Some(3)), PutfhRoute::PseudoRoot);
    let mut fh = [0u8; 26];
    fh[1] = 3;
    assert_eq!(putfh_route(&fh, Some(3)), PutfhRoute::Export { export_id: 3, switch: false });
    assert_eq!(putfh_route(&fh, Some(2)), PutfhRoute::Export { export_id: 3, switch: true });
    assert_eq!(putfh_route(&fh, None), PutfhRoute::Export { export_id: 3, switch: true });
}

#[test]
fn sequence_slots() {
    assert_eq!(sequence_slot(4, 3), Ok(3));
    assert_eq!(sequence_slot(4, 4), Err(NfsStat4::Nfs4errBadSlot));
    assert_eq!(sequence_slot(0, 0), Err(NfsStat4::Nfs4errBadSlot));
}

#[test]
fn rename_helpers() {
    assert_eq!(entry_path("/", "a"), "/a");
    assert_eq!(entry_path("/d//", "a"), "/d/a");
    assert_eq!(entry_path("/d", "a"), "/d/a");
    assert_eq!(rename_precheck(false, true), Some(NfsStat4::Nfs4errNofilehandle));
    assert_eq!(rename_precheck(true, false), Some(NfsStat4::Nfs4errNofilehandle));
    assert_eq!(rename_precheck(true, true), None);
    let c = bumped_change(41);
    assert!(c.atomic);
    assert_eq!((c.before, c.after), (41, 42));
}

#[test]
fn attrs_without_stat_at_the_last_version() {
    let h = FileManagerHandle::new("/e".to_string());
    let fh = Filehandle::new("/f", false, 3, [4u8; 26], 0, 0, u64::MAX - 1);
    assert_eq!(fh.version, u64::MAX);
    let (names, vals) = h.filehandle_attrs(&vec![FileAttr::Size, FileAttr::Change], &fh, None, None).unwrap();
    assert_eq!(names, vec![FileAttr::Size, FileAttr::Change]);
    assert_eq!(vals, vec![FileAttrValue::Size(3), FileAttrValue::Change(u64::MAX)]);
}
