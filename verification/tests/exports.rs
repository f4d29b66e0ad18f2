use nfs::export_manager::{
    ExportError, ExportManager, ExportStats, QosConfig, QuotaConfig, QuotaManager,
};

#[test]
fn test_qos_config_default() {
    let config = QosConfig::default();
    assert_eq!(config.max_ops_per_sec, 0);
    assert_eq!(config.max_bytes_per_sec, 0);
}

#[test]
fn export_stats_start_at_zero() {
    let stats = ExportStats::new();
    let snap = stats.snapshot();
    assert_eq!(snap.reads, 0);
    assert_eq!(snap.writes, 0);
    assert_eq!(snap.bytes_read, 0);
    assert_eq!(snap.bytes_written, 0);
    assert_eq!(snap.ops, 0);
}

#[test]
fn export_ids_are_sequential_and_never_reused() {
    let mut em = ExportManager::new();
    let a = em.add_export("a".to_string(), "/srv/a".to_string(), false).unwrap();
    let b = em.add_export("b".to_string(), "/srv/b".to_string(), true).unwrap();
    assert_eq!(a.export_id, 1);
    assert_eq!(b.export_id, 2);
    em.remove_export("a").unwrap();
    let c = em.add_export("a".to_string(), "/srv/a2".to_string(), false).unwrap();
    assert_eq!(c.export_id, 3);
    assert_eq!(em.get_export_by_name("a").unwrap().path, "/srv/a2");
    assert_eq!(em.get_export_by_id(2).unwrap().name, "b");
    assert!(em.get_export_by_id(1).is_none());
    let names: Vec<String> = em.list_exports().into_iter().map(|e| e.name).collect();
    assert_eq!(names, vec!["b".to_string(), "a".to_string()]);
}

#[test]
fn duplicate_and_missing_exports_are_refused() {
    let mut em = ExportManager::new();
    em.add_export("x".to_string(), "/x".to_string(), false).unwrap();
    match em.add_export("x".to_string(), "/y".to_string(), false) {
        Err(ExportError::AlreadyExists(n)) => assert_eq!(n, "x"),
        other => panic!("unexpected {:?}", other),
    }
    match em.remove_export("nosuch") {
        Err(ExportError::NotFound(n)) => assert_eq!(n, "nosuch"),
        other => panic!("unexpected {:?}", other),
    }
    match em.add_overlay_export("o".to_string(), "/up".to_string(), vec![]) {
        Err(ExportError::NoLowerLayer) => {}
        other => panic!("unexpected {:?}", other),
    }
    assert!(em.set_qos("nosuch", QosConfig { max_ops_per_sec: 1, max_bytes_per_sec: 0 }).is_err());
    assert!(em.get_qos("nosuch").is_none());
}

#[test]
fn the_export_id_space_runs_out() {
    let mut em = ExportManager::new();
    for i in 1..0xFEu32 {
        let info = em.add_export(format!("e{}", i), "/p".to_string(), false).unwrap();
        assert_eq!(info.export_id as u32, i);
    }
    match em.add_export("last".to_string(), "/p".to_string(), false) {
        Err(ExportError::MaxExportsReached) => {}
        other => panic!("unexpected {:?}", other),
    }
}

#[test]
fn qos_and_quota_settings_read_back() {
    let mut em = ExportManager::new();
    em.add_export("q".to_string(), "/q".to_string(), false).unwrap();
    em.set_qos("q", QosConfig { max_ops_per_sec: 100, max_bytes_per_sec: 7 }).unwrap();
    em.set_quota("q", QuotaConfig { hard_limit_bytes: 10, soft_limit_bytes: 5 }).unwrap();
    let qos = em.get_qos("q").unwrap();
    assert_eq!((qos.max_ops_per_sec, qos.max_bytes_per_sec), (100, 7));
    let quota = em.get_quota("q").unwrap();
    assert_eq!((quota.hard_limit_bytes, quota.soft_limit_bytes), (10, 5));
}

#[test]
fn quota_accounting() {
    let mut qm = QuotaManager::new(QuotaConfig { hard_limit_bytes: 100, soft_limit_bytes: 60 });
    assert!(qm.check_write(100));
    assert!(!qm.check_write(101));
    qm.record_write(70);
    assert_eq!(qm.bytes_used(), 70);
    assert_eq!(qm.quota_avail_hard(), 30);
    assert_eq!(qm.quota_avail_soft(), 0);
    assert!(!qm.check_write(31));
    qm.record_free(30);
    assert_eq!(qm.bytes_used(), 40);
    qm.record_free(1000);
    assert_eq!(qm.bytes_used(), 0);
    assert!(!qm.check_write(u64::MAX));
}

#[test]
fn unlimited_quota() {
    let mut qm = QuotaManager::new(QuotaConfig::default());
    assert!(qm.check_write(u64::MAX));
    assert_eq!(qm.quota_avail_hard(), 0);
    assert_eq!(qm.quota_avail_soft(), 0);
    qm.record_write(u64::MAX);
    qm.record_write(2);
    assert_eq!(qm.bytes_used(), 1);
    qm.update_config(QuotaConfig { hard_limit_bytes: 1, soft_limit_bytes: 0 });
    assert_eq!(qm.config().hard_limit_bytes, 1);
    assert!(qm.check_write(0));
    assert!(!qm.check_write(1));
}

#[test]
fn write_then_free_restores_usage() {
    let mut qm = QuotaManager::new(QuotaConfig::default());
    qm.record_write(12345);
    qm.record_write(678);
    qm.record_free(678);
    assert_eq!(qm.bytes_used(), 12345);
}
