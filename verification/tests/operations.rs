use nfs::dispatch::{run_compound, NfsOpnum4, OpOutcome, OpSummary};
use nfs::export_manager::{QuotaConfig, QuotaManager};
use nfs::fileops::{
    allocate_padding, allocate_precheck, copy_reply, create_cinfo, create_plan, finish_allocate, finish_copy,
    next_pad_chunk, CreateObject, ALLOCATE_CHUNK,
};
use nfs::proto::{ChangeInfo4, Createtype4, NfsStat4, Specdata4};
use nfs::readdir::{plan_readdir, readdir_eof};

fn op(op: NfsOpnum4) -> OpSummary {
    OpSummary { op, open_claim_null: false, open_creates: false }
}

fn ok() -> OpOutcome {
    OpOutcome { has_result: true, status: NfsStat4::Nfs4Ok }
}

#[test]
fn create_refuses_other_object_types() {
    for t in [
        Createtype4::Nf4blk(Specdata4 { specdata1: 1, specdata2: 2 }),
        Createtype4::Nf4chr(Specdata4 { specdata1: 1, specdata2: 2 }),
        Createtype4::Nf4sock,
        Createtype4::Nf4fifo,
    ] {
        assert_eq!(create_plan(true, false, "x", None, &t).unwrap_err(), NfsStat4::Nfs4errBadtype);
    }
}

#[test]
fn create_checks_come_before_the_type() {
    let t = Createtype4::Nf4sock;
    assert_eq!(create_plan(false, false, "x", None, &t).unwrap_err(), NfsStat4::Nfs4errFhexpired);
    assert_eq!(create_plan(true, false, "", None, &t).unwrap_err(), NfsStat4::Nfs4errInval);
    assert_eq!(create_plan(true, false, "x", Some(false), &t).unwrap_err(), NfsStat4::Nfs4errDquot);
}

#[test]
fn create_makes_links_and_directories() {
    let p = create_plan(true, true, "l", Some(true), &Createtype4::Nf4lnk("target".to_string())).unwrap();
    assert!(p.in_parent);
    assert!(matches!(p.object, CreateObject::Symlink(ref t) if t == "target"));
    let p = create_plan(true, false, "d", None, &Createtype4::Nf4dir).unwrap();
    assert!(!p.in_parent);
    assert!(matches!(p.object, CreateObject::Directory));
    assert_eq!(create_cinfo(7), ChangeInfo4 { atomic: true, before: 7, after: 7 });
}

#[test]
fn copy_records_its_bytes_against_the_quota() {
    let mut quota = Some(QuotaManager::new(QuotaConfig { hard_limit_bytes: 100, soft_limit_bytes: 0 }));
    let reply = finish_copy(&mut quota, 40);
    assert_eq!(reply, copy_reply(40));
    assert_eq!(reply.wr_count, 40);
    assert!(reply.file_sync && reply.consecutive && reply.synchronous);
    assert_eq!(quota.as_ref().unwrap().bytes_used(), 40);
    let mut none: Option<QuotaManager> = None;
    assert_eq!(finish_copy(&mut none, 5).wr_count, 5);
    assert!(none.is_none());
}

#[test]
fn allocate_extends_and_accounts() {
    let qm = QuotaManager::new(QuotaConfig { hard_limit_bytes: 100, soft_limit_bytes: 0 });
    assert_eq!(allocate_precheck(false, None, 1), Some(NfsStat4::Nfs4errFhexpired));
    assert_eq!(allocate_precheck(true, Some(&qm), 101), Some(NfsStat4::Nfs4errDquot));
    assert_eq!(allocate_precheck(true, Some(&qm), 100), None);
    assert_eq!(allocate_padding(10, 20, 15), 15);
    assert_eq!(allocate_padding(0, 10, 15), 0);
    assert_eq!(next_pad_chunk(100_000), ALLOCATE_CHUNK);
    assert_eq!(next_pad_chunk(5), 5);
    let mut quota = Some(qm);
    finish_allocate(&mut quota, 15);
    assert_eq!(quota.as_ref().unwrap().bytes_used(), 15);
    finish_allocate(&mut quota, 0);
    assert_eq!(quota.as_ref().unwrap().bytes_used(), 15);
}

#[test]
fn compound_stops_at_the_first_failure() {
    let ops = vec![op(NfsOpnum4::Putrootfh), op(NfsOpnum4::Lookup), op(NfsOpnum4::Getattr)];
    let outs = vec![ok(), OpOutcome { has_result: true, status: NfsStat4::Nfs4errNoent }, ok()];
    let r = run_compound(&ops, &outs, &vec![false; 3], false);
    assert_eq!(r.status, NfsStat4::Nfs4errNoent);
    assert_eq!((r.executed, r.results), (2, 2));
}

#[test]
fn compound_runs_everything_when_all_succeed() {
    let ops = vec![op(NfsOpnum4::Putrootfh), op(NfsOpnum4::Getfh)];
    let r = run_compound(&ops, &vec![ok(), ok()], &vec![false; 2], false);
    assert_eq!(r.status, NfsStat4::Nfs4Ok);
    assert_eq!((r.executed, r.results), (2, 2));
}

#[test]
fn compound_in_grace_stops_before_a_mutation() {
    let ops = vec![op(NfsOpnum4::Putrootfh), op(NfsOpnum4::Remove), op(NfsOpnum4::Getattr)];
    let r = run_compound(&ops, &vec![ok(), ok(), ok()], &vec![false; 3], true);
    assert_eq!(r.status, NfsStat4::Nfs4errGrace);
    assert_eq!((r.executed, r.results), (1, 1));
    let r = run_compound(&ops, &vec![ok(), ok(), ok()], &vec![false, false, true], false);
    assert_eq!(r.status, NfsStat4::Nfs4errDelay);
    assert_eq!((r.executed, r.results), (2, 2));
}

#[test]
fn readdir_with_room_lists_every_name_once() {
    let n: Vec<Vec<u8>> = ["a", ".hidden", ".nfs4attrs", "b"].iter().map(|s| s.as_bytes().to_vec()).collect();
    let plan = plan_readdir(&n, 0, &[0u8; 8], 8192, 8192).unwrap();
    assert_eq!(plan.visible, 3);
    assert_eq!(plan.selected, vec![(3, 0), (4, 1), (6, 3)]);
    assert!(readdir_eof(Some(plan.selected[0].0), plan.selected.len() as u64, plan.visible));
}
