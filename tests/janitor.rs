use tachfileto_runtime::janitor::JanitorError;
use tachfileto_runtime::court::{CacheEntry, CacheRegistry};
use tachfileto_runtime::executor::RemovalOutcome;
use tachfileto_runtime::janitor::{Janitor, JanitorReport, SweepDecision, ZombieStep};
use tachfileto_runtime::ledger::{AuditLedger, ExecutionEventEntry, WarrantEntry};

fn registered(name: &str) -> CacheEntry {
    CacheEntry {
        file_id: name.to_string(),
        file_path: name.to_string(),
        file_size_bytes: 1024,
        file_count: 1,
        created_at: 1609459200,
        last_accessed_at: 1609459200,
        access_count: 1,
        user_pinned: false,
        viewport_distance: 0,
    }
}

/// Runs the sweep over `names` as a host would, with every removal of a
/// ghost succeeding; returns the names that remain.
fn sweep(
    janitor: &Janitor,
    ledger: &mut AuditLedger,
    registry: &CacheRegistry,
    report: &mut JanitorReport,
    names: &[&str],
    now: u64,
) -> Vec<String> {
    let mut remaining = Vec::new();
    for name in names {
        let decision = janitor.sweep_decision(name, registry);
        match decision {
            SweepDecision::DeleteGhost => {
                let nonce = janitor.admit_ghost(ledger, name, now).expect("ghost warrant");
                janitor.record_ghost_outcome(ledger, report, &nonce, RemovalOutcome::Removed, now);
            }
            _ => {
                janitor.note_protected(decision, report);
                remaining.push(name.to_string());
            }
        }
    }
    remaining
}

#[test]
fn test_janitor_report() {
    let mut report = JanitorReport::new();
    assert!(report.is_successful());

    report.ghost_cleanup_errors = 1;
    assert!(!report.is_successful());
}

#[test]
fn test_janitor_report_summary() {
    let mut report = JanitorReport::new();
    report.zombies_recovered = 2;
    report.ghosts_deleted = 5;
    report.ghosts_protected = 3;
    report.aliens_protected = 1;

    let summary = report.summary();
    assert!(summary.contains("2 zombies recovered"));
    assert!(summary.contains("5 ghosts deleted"));
}

#[test]
fn test_janitor_report_accuracy() {
    let mut report = JanitorReport::new();

    assert_eq!(report.zombies_recovered, 0);
    assert_eq!(report.ghosts_deleted, 0);
    assert_eq!(report.ghosts_protected, 0);
    assert_eq!(report.aliens_protected, 0);
    assert_eq!(report.ghost_cleanup_errors, 0);
    assert!(report.is_successful());

    report.zombies_recovered = 5;
    report.ghosts_deleted = 10;
    report.ghosts_protected = 3;
    report.aliens_protected = 2;

    assert!(report.is_successful());

    report.ghost_cleanup_errors = 1;
    assert!(!report.is_successful());

    let summary = report.summary();
    assert!(summary.contains("5 zombies recovered"));
    assert!(summary.contains("10 ghosts deleted"));
}

#[test]
fn janitor_summary_exact() {
    let mut report = JanitorReport::new();
    report.zombies_recovered = 1;
    report.ghosts_deleted = 20;
    report.ghosts_protected = 0;
    report.aliens_protected = 7;
    report.ghost_cleanup_errors = 3;
    assert_eq!(
        report.summary(),
        "Janitor Report: 1 zombies recovered, 20 ghosts deleted, 0 protected, 7 alien protected, 3 errors"
    );
}

#[test]
fn test_ghost_detection_and_deletion() {
    let janitor = Janitor::new("/cache".to_string());
    let mut ledger = AuditLedger::new();
    let registry = CacheRegistry::new();
    assert!(janitor.check_ledger(&ledger).is_ok());
    let mut report = JanitorReport::new();
    let ghost_file = "TFT_abc123_page_001_1609459200.tft_cache";
    let remaining = sweep(&janitor, &mut ledger, &registry, &mut report, &[ghost_file], 2000);
    assert_eq!(report.ghosts_deleted, 1);
    assert!(report.is_successful());
    assert!(remaining.is_empty());
}

#[test]
fn test_alien_file_protection() {
    let janitor = Janitor::new("/cache".to_string());
    let mut ledger = AuditLedger::new();
    let registry = CacheRegistry::new();
    let mut report = JanitorReport::new();
    let alien_file = "my_important_document.pdf";
    let remaining = sweep(&janitor, &mut ledger, &registry, &mut report, &[alien_file], 2000);
    assert_eq!(report.aliens_protected, 1);
    assert_eq!(remaining, vec![alien_file.to_string()]);
    assert_eq!(ledger.all_warrants().len(), 0);
}

#[test]
fn test_ghost_file_in_registry_not_deleted() {
    let janitor = Janitor::new("/cache".to_string());
    let mut ledger = AuditLedger::new();
    let ghost_file = "TFT_xyz789_page_001_1609459200.tft_cache";
    let mut registry = CacheRegistry::new();
    registry.register_entry(registered(ghost_file));
    let mut report = JanitorReport::new();
    let remaining = sweep(&janitor, &mut ledger, &registry, &mut report, &[ghost_file], 2000);
    assert_eq!(report.ghosts_protected, 1);
    assert_eq!(report.ghosts_deleted, 0);
    assert_eq!(remaining, vec![ghost_file.to_string()]);
}

#[test]
fn test_zombie_warrant_recovery() {
    let zombie_file = "TFT_zombie_001_1609459200.tft_cache";
    let mut ledger = AuditLedger::new();
    let warrant = WarrantEntry {
        nonce: "zombie_test_001".to_string(),
        issued_at_unix: 1609459200,
        target_path: zombie_file.to_string(),
        action: "HARD_DELETE".to_string(),
        signature: vec![0xAA, 0xBB],
        court_version: "1.0".to_string(),
    };
    assert!(ledger.append_warrant(warrant, 1609459200).is_ok());

    let janitor = Janitor::new("/cache".to_string());
    let mut report = JanitorReport::new();
    assert!(janitor.check_ledger(&ledger).is_ok());
    let pending = ledger.get_pending_warrants();
    assert_eq!(pending.len(), 1);
    for w in &pending {
        janitor
            .record_zombie_outcome(&mut ledger, &mut report, w, RemovalOutcome::Removed, 1609460000)
            .expect("recorded");
    }
    assert_eq!(report.zombies_recovered, 1);
    assert!(ledger.is_warrant_executed("zombie_test_001"));
    assert!(ledger.get_pending_warrants().is_empty());
}

#[test]
fn zombie_with_missing_file_is_recovered() {
    let mut ledger = AuditLedger::new();
    let warrant = WarrantEntry {
        nonce: "z2".to_string(),
        issued_at_unix: 10,
        target_path: "TFT_z_p_1.tft_cache".to_string(),
        action: "HARD_DELETE".to_string(),
        signature: vec![],
        court_version: "1.0".to_string(),
    };
    ledger.append_warrant(warrant, 10).unwrap();
    let janitor = Janitor::new("/cache".to_string());
    let mut report = JanitorReport::new();
    let pending = ledger.get_pending_warrants();
    janitor
        .record_zombie_outcome(&mut ledger, &mut report, &pending[0], RemovalOutcome::NotFound, 20)
        .unwrap();
    assert_eq!(report.zombies_recovered, 1);
    assert!(ledger.is_warrant_executed("z2"));
}

#[test]
fn zombie_with_permission_error_stays_pending() {
    let mut ledger = AuditLedger::new();
    let warrant = WarrantEntry {
        nonce: "z3".to_string(),
        issued_at_unix: 10,
        target_path: "TFT_z_p_1.tft_cache".to_string(),
        action: "HARD_DELETE".to_string(),
        signature: vec![],
        court_version: "1.0".to_string(),
    };
    ledger.append_warrant(warrant, 10).unwrap();
    let janitor = Janitor::new("/cache".to_string());
    let mut report = JanitorReport::new();
    let pending = ledger.get_pending_warrants();
    janitor
        .record_zombie_outcome(
            &mut ledger,
            &mut report,
            &pending[0],
            RemovalOutcome::PermissionDenied { errno: Some(13) },
            20,
        )
        .unwrap();
    assert_eq!(report.zombies_recovered, 0);
    assert!(!ledger.is_warrant_executed("z3"));
    assert_eq!(ledger.get_pending_warrants().len(), 1);
}

#[test]
fn test_mixed_cleanup_scenario() {
    let ghost_unreg = "TFT_unreg_001_1609459200.tft_cache";
    let ghost_reg = "TFT_registered_001_1609459200.tft_cache";
    let alien = "user_backup.zip";
    let mut registry = CacheRegistry::new();
    registry.register_entry(registered(ghost_reg));
    let janitor = Janitor::new("/cache".to_string());
    let mut ledger = AuditLedger::new();
    let mut report = JanitorReport::new();
    let remaining = sweep(
        &janitor,
        &mut ledger,
        &registry,
        &mut report,
        &[ghost_unreg, ghost_reg, alien],
        5000,
    );
    assert_eq!(report.ghosts_deleted, 1);
    assert_eq!(report.ghosts_protected, 1);
    assert_eq!(report.aliens_protected, 1);
    assert_eq!(remaining, vec![ghost_reg.to_string(), alien.to_string()]);
}

#[test]
fn scenario_janitor_protects_foreign_files() {
    let janitor = Janitor::new("/cache".to_string());
    let mut ledger = AuditLedger::new();
    let registry = CacheRegistry::new();
    let mut report = JanitorReport::new();
    let remaining = sweep(
        &janitor,
        &mut ledger,
        &registry,
        &mut report,
        &["my_report.pdf", "TFT_g_page_001_1700000000.tft_cache"],
        1700000100,
    );
    assert_eq!(remaining, vec!["my_report.pdf".to_string()]);
    assert_eq!(report.ghosts_deleted, 1);
    assert_eq!(report.aliens_protected, 1);
    // the deletion was journaled before it happened and recorded after
    assert_eq!(ledger.all_warrants().len(), 1);
    assert_eq!(ledger.all_events().len(), 1);
    assert_eq!(ledger.all_events()[0].result, "SUCCESS");
}

#[test]
fn sweep_twice_deletes_nothing_more() {
    let janitor = Janitor::new("/cache".to_string());
    let mut ledger = AuditLedger::new();
    let registry = CacheRegistry::new();
    let mut report = JanitorReport::new();
    let names = ["a.pdf", "TFT_g_page_001_1700000000.tft_cache", "TFT_h_page_002_1700000000.tft_cache"];
    let remaining = sweep(&janitor, &mut ledger, &registry, &mut report, &names, 100);
    assert_eq!(report.ghosts_deleted, 2);
    let refs: Vec<&str> = remaining.iter().map(|s| s.as_str()).collect();
    let mut second = JanitorReport::new();
    let again = sweep(&janitor, &mut ledger, &registry, &mut second, &refs, 200);
    assert_eq!(second.ghosts_deleted, 0);
    assert_eq!(second.aliens_protected, 1);
    assert_eq!(again, remaining);
}

#[test]
fn failed_ghost_removal_counts_an_error() {
    let janitor = Janitor::new("/cache".to_string());
    let mut ledger = AuditLedger::new();
    let mut report = JanitorReport::new();
    let nonce = janitor
        .admit_ghost(&mut ledger, "TFT_g_page_001_1700000000.tft_cache", 7)
        .unwrap();
    assert_eq!(nonce, "GHOST_CLEANUP_7_TFT_g_page_001_1700000000.tft_cache");
    janitor.record_ghost_outcome(&mut ledger, &mut report, &nonce, RemovalOutcome::Locked { errno: Some(16) }, 8);
    assert_eq!(report.ghost_cleanup_errors, 1);
    assert!(!report.is_successful());
    assert_eq!(ledger.get_pending_warrants().len(), 1);
}

#[test]
fn test_ledger_corruption_fails_startup() {
    let janitor = Janitor::new("/cache".to_string());
    let ledger = AuditLedger::new();
    assert!(janitor.check_ledger(&ledger).is_ok());
}

#[test]
fn corrupted_ledger_refuses_startup() {
    let orphan = ExecutionEventEntry {
        id: 1,
        warrant_nonce: "missing".to_string(),
        executed_at_unix: 1,
        executor_id: "x".to_string(),
        result: "SUCCESS".to_string(),
        errno: None,
    };
    let ledger = AuditLedger::from_records(Vec::new(), vec![orphan], Vec::new());
    let janitor = Janitor::new("/cache".to_string());
    assert!(janitor.check_ledger(&ledger).is_err());
}

#[test]
fn test_cleanup_with_empty_cache_dir() {
    let janitor = Janitor::new("/cache".to_string());
    let mut ledger = AuditLedger::new();
    let registry = CacheRegistry::new();
    let mut report = JanitorReport::new();
    let remaining = sweep(&janitor, &mut ledger, &registry, &mut report, &[], 1);
    assert!(remaining.is_empty());
    assert_eq!(report.ghosts_deleted, 0);
    assert_eq!(report.zombies_recovered, 0);
    assert!(report.is_successful());
}

#[test]
fn zombie_plans_follow_the_journal_and_the_naming_contract() {
    let janitor = Janitor::new("/cache".to_string());
    let mut ledger = AuditLedger::new();
    let hard = WarrantEntry {
        nonce: "h".to_string(),
        issued_at_unix: 1,
        target_path: "TFT_z_p_1.tft_cache".to_string(),
        action: "HARD_DELETE".to_string(),
        signature: vec![],
        court_version: "1.0".to_string(),
    };
    let soft = WarrantEntry { nonce: "s".to_string(), action: "SOFT_DELETE".to_string(), ..hard.clone() };
    ledger.append_warrant(hard.clone(), 1).unwrap();
    ledger.append_warrant(soft.clone(), 1).unwrap();
    assert_eq!(janitor.plan_zombie(&ledger, &hard), ZombieStep::RemoveTarget);
    assert_eq!(janitor.plan_zombie(&ledger, &soft), ZombieStep::RecordOnly);
    // read back from storage, a foreign target is never touched
    let foreign = WarrantEntry { nonce: "f".to_string(), target_path: "/home/u/report.pdf".to_string(), ..hard.clone() };
    let loaded = AuditLedger::from_records(vec![foreign.clone()], Vec::new(), Vec::new());
    assert_eq!(janitor.plan_zombie(&loaded, &foreign), ZombieStep::Refuse);
    // a warrant the journal does not hold is not recovered
    let unknown = WarrantEntry { nonce: "u".to_string(), ..hard.clone() };
    assert_eq!(janitor.plan_zombie(&ledger, &unknown), ZombieStep::Refuse);
}

#[test]
fn admit_ghost_refuses_foreign_and_quiesced_names() {
    let janitor = Janitor::new("/cache".to_string());
    let mut ledger = AuditLedger::new();
    assert!(matches!(
        janitor.admit_ghost(&mut ledger, "my_report.pdf", 5),
        Err(JanitorError::LedgerRecordFailed(_))
    ));
    ledger.record_system_event("QUIESCE_ENTER", Some(100), "purge", 1).unwrap();
    assert!(janitor.admit_ghost(&mut ledger, "TFT_g_page_001_1700000000.tft_cache", 50).is_err());
    assert_eq!(ledger.all_warrants().len(), 0);
    let nonce = janitor.admit_ghost(&mut ledger, "TFT_g_page_001_1700000000.tft_cache", 101).unwrap();
    let w = &ledger.all_warrants()[0];
    assert_eq!(w.nonce, nonce);
    assert_eq!(w.target_path, "TFT_g_page_001_1700000000.tft_cache");
    assert_eq!(w.action, "HARD_DELETE");
}

#[test]
fn corrupted_ledger_error_is_ledger_corrupted() {
    let orphan = ExecutionEventEntry {
        id: 1,
        warrant_nonce: "missing".to_string(),
        executed_at_unix: 1,
        executor_id: "x".to_string(),
        result: "SUCCESS".to_string(),
        errno: None,
    };
    let ledger = AuditLedger::from_records(Vec::new(), vec![orphan], Vec::new());
    let janitor = Janitor::new("/cache".to_string());
    assert!(matches!(janitor.check_ledger(&ledger), Err(JanitorError::LedgerCorrupted(_))));
}

#[test]
fn unreadable_names_and_refused_zombies_are_counted() {
    let janitor = Janitor::new("/cache".to_string());
    let mut report = JanitorReport::new();
    janitor.note_unreadable_name(&mut report);
    assert_eq!(report.aliens_protected, 1);
    assert!(report.is_successful());
    janitor.note_refused_zombie(&mut report);
    assert_eq!(report.ghost_cleanup_errors, 1);
    assert!(!report.is_successful());
}
