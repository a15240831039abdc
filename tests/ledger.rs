use tachfileto_runtime::court::{CacheEntry, CacheRegistry, EvictionAction, EvictionVerdict};
use tachfileto_runtime::executor::{ExecutionStep, FilesystemExecutioner, RemovalOutcome};
use tachfileto_runtime::ledger::{
    basename_of, AuditLedger, ExecutionEventEntry, ExecutionResult, LedgerError, WarrantEntry,
};
use tachfileto_runtime::warrant::{ExecutionError, ExecutionWarrant, QuiesceSignal};

fn entry(nonce: &str, target: &str, action: &str) -> WarrantEntry {
    WarrantEntry {
        nonce: nonce.to_string(),
        issued_at_unix: 1000,
        target_path: target.to_string(),
        action: action.to_string(),
        signature: vec![0xAB, 0xCD],
        court_version: "1.0".to_string(),
    }
}

fn registry_entry(id: &str) -> CacheEntry {
    CacheEntry {
        file_id: id.to_string(),
        file_path: id.to_string(),
        file_size_bytes: 10,
        file_count: 1,
        created_at: 0,
        last_accessed_at: 0,
        access_count: 0,
        user_pinned: false,
        viewport_distance: 0,
    }
}

fn warrant(target: &str, action: EvictionAction, nonce: u64) -> ExecutionWarrant {
    let verdict = EvictionVerdict {
        file_id: target.to_string(),
        action,
        reason: "test".to_string(),
        score: 500_000,
        timestamp: 1000,
        is_reversible: action != EvictionAction::HardDelete,
    };
    ExecutionWarrant::new_at(verdict, nonce, 1000)
}

#[test]
fn test_ledger_open_memory() {
    let ledger = AuditLedger::new();
    ledger.verify_integrity().expect("Ledger integrity check failed");
}

#[test]
fn test_append_warrant() {
    let mut ledger = AuditLedger::new();
    let w = entry("test_nonce_001", "TFT_abc123_page_001_1000.tft_cache", "SOFT_DELETE");
    let ledger_ref = ledger.append_warrant(w, 1234).expect("Failed to append warrant");
    assert!(ledger_ref.starts_with("LE_test_nonce_001"));
    assert_eq!(ledger_ref, "LE_test_nonce_001_1234");
    let pending = ledger.get_pending_warrants();
    assert_eq!(pending.len(), 1);
    assert_eq!(pending[0].nonce, "test_nonce_001");
}

#[test]
fn test_reject_invalid_path() {
    let mut ledger = AuditLedger::new();
    let w = entry("test_nonce_002", "invalid_path.tmp", "HARD_DELETE");
    assert_eq!(ledger.append_warrant(w, 1), Err(LedgerError::InvalidTarget));
}

#[test]
fn test_execution_event_idempotence() {
    let mut ledger = AuditLedger::new();
    let w = entry("test_nonce_003", "TFT_def456_page_002_2000.tft_cache", "HARD_DELETE");
    ledger.append_warrant(w, 2000).expect("Failed to append warrant");
    let event = ExecutionEventEntry {
        id: 0,
        warrant_nonce: "test_nonce_003".to_string(),
        executed_at_unix: 2100,
        executor_id: "executor_1".to_string(),
        result: "SUCCESS".to_string(),
        errno: None,
    };
    ledger.record_execution(event).expect("Failed to record execution");
    assert_eq!(ledger.get_pending_warrants().len(), 0);
    assert!(ledger.is_warrant_executed("test_nonce_003"));
}

#[test]
fn test_system_events() {
    let mut ledger = AuditLedger::new();
    let deadline = 1030;
    ledger
        .record_system_event("QUIESCE_ENTER", Some(deadline), "court_1", 1000)
        .expect("Failed to record quiesce enter");
    ledger
        .record_system_event("QUIESCE_EXIT", None, "court_1", 1001)
        .expect("Failed to record quiesce exit");
    assert_eq!(ledger.quiesce_signal(), QuiesceSignal::Inactive);
}

#[test]
fn test_verify_integrity() {
    let ledger = AuditLedger::new();
    ledger.verify_integrity().expect("Integrity check should pass for empty ledger");
}

#[test]
fn test_invalid_action_rejected() {
    let mut ledger = AuditLedger::new();
    let w = entry("test_nonce_004", "TFT_xyz789_page_003_3000.tft_cache", "INVALID_ACTION");
    assert_eq!(ledger.append_warrant(w, 3000), Err(LedgerError::InvalidAction));
}

#[test]
fn duplicate_nonce_rejected() {
    let mut ledger = AuditLedger::new();
    ledger.append_warrant(entry("n", "TFT_a_b_1.tft_cache", "HARD_DELETE"), 1).unwrap();
    assert_eq!(
        ledger.append_warrant(entry("n", "TFT_a_b_2.tft_cache", "HARD_DELETE"), 2),
        Err(LedgerError::DuplicateNonce)
    );
    assert_eq!(ledger.all_warrants().len(), 1);
}

#[test]
fn event_for_unknown_warrant_rejected() {
    let mut ledger = AuditLedger::new();
    let event = ExecutionEventEntry {
        id: 0,
        warrant_nonce: "ghost".to_string(),
        executed_at_unix: 1,
        executor_id: "e".to_string(),
        result: "SUCCESS".to_string(),
        errno: None,
    };
    assert_eq!(ledger.record_execution(event), Err(LedgerError::WarrantNotFound));
    ledger.append_warrant(entry("ok", "TFT_a_b_1.tft_cache", "SOFT_DELETE"), 1).unwrap();
    let bad = ExecutionEventEntry {
        id: 0,
        warrant_nonce: "ok".to_string(),
        executed_at_unix: 1,
        executor_id: "e".to_string(),
        result: "MAYBE".to_string(),
        errno: None,
    };
    assert_eq!(ledger.record_execution(bad), Err(LedgerError::InvalidResult));
    assert_eq!(ledger.all_events().len(), 0);
}

#[test]
fn unknown_system_event_rejected() {
    let mut ledger = AuditLedger::new();
    assert_eq!(
        ledger.record_system_event("REBOOT", None, "x", 1),
        Err(LedgerError::InvalidEventType)
    );
    assert!(ledger.record_system_event("PURGE_BEGIN", None, "x", 1).is_ok());
    assert!(ledger.record_system_event("PURGE_END", None, "x", 2).is_ok());
}

#[test]
fn quiesce_rejects_warrants_until_deadline_and_reads_continue() {
    let mut ledger = AuditLedger::new();
    ledger.append_warrant(entry("before", "TFT_a_b_1.tft_cache", "HARD_DELETE"), 900).unwrap();
    ledger.record_system_event("QUIESCE_ENTER", Some(1000), "purge", 950).unwrap();
    assert_eq!(
        ledger.append_warrant(entry("during", "TFT_a_b_2.tft_cache", "HARD_DELETE"), 999),
        Err(LedgerError::Quiesced)
    );
    // reads continue
    assert_eq!(ledger.get_pending_warrants().len(), 1);
    assert!(!ledger.is_warrant_executed("before"));
    // after the deadline new warrants are admitted again
    assert!(ledger.append_warrant(entry("after", "TFT_a_b_3.tft_cache", "HARD_DELETE"), 1001).is_ok());
    // and an exit lifts the quiesce at once
    ledger.record_system_event("QUIESCE_ENTER", Some(5000), "purge", 1002).unwrap();
    assert!(ledger.append_warrant(entry("x", "TFT_a_b_4.tft_cache", "HARD_DELETE"), 1003).is_err());
    ledger.record_system_event("QUIESCE_EXIT", None, "purge", 1004).unwrap();
    assert!(ledger.append_warrant(entry("y", "TFT_a_b_5.tft_cache", "HARD_DELETE"), 1005).is_ok());
}

#[test]
fn execution_result_texts() {
    assert_eq!(ExecutionResult::Success.as_str(), "SUCCESS");
    assert_eq!(ExecutionResult::FailLocked.as_str(), "FAIL_LOCKED");
    assert_eq!(ExecutionResult::from_str("FAIL_IO"), Some(ExecutionResult::FailIo));
    assert_eq!(ExecutionResult::from_str("FAIL_PERMISSION"), Some(ExecutionResult::FailPermission));
    assert_eq!(ExecutionResult::from_str("success"), None);
}

#[test]
fn basename_takes_last_component() {
    assert_eq!(basename_of("/tmp/cache/TFT_a_b_1.tft_cache"), "TFT_a_b_1.tft_cache");
    assert_eq!(basename_of("C:\\cache\\x.pdf"), "x.pdf");
    assert_eq!(basename_of("plain"), "plain");
    assert_eq!(basename_of("dir/"), "");
}

#[test]
fn test_execute_soft_delete() {
    let mut ledger = AuditLedger::new();
    let target = "TFT_cached_file_1700000000.tft_cache";
    let w = warrant(target, EvictionAction::SoftDelete, 12347);
    ledger.append_warrant(entry(&w.warrant_id(), target, "SOFT_DELETE"), 1000).unwrap();
    let executor = FilesystemExecutioner::new("test_executor".to_string());
    let step = executor.plan(&ledger, &w, &QuiesceSignal::Inactive, 1001);
    assert!(matches!(step, ExecutionStep::SoftDelete));
    let mut registry = CacheRegistry::new();
    registry.register_entry_at(registry_entry(target), 900);
    registry.register_entry_at(registry_entry("TFT_other_file_1.tft_cache"), 901);
    let report = executor
        .complete_soft_delete(&mut ledger, &mut registry, &w, 1001)
        .expect("recorded");
    assert!(report.success);
    assert!(report.error.is_none());
    assert_eq!(registry.entries().len(), 1);
    assert_eq!(registry.entries()[0].file_id, "TFT_other_file_1.tft_cache");
    assert_eq!(registry.total_size_bytes(), 10);
    assert!(ledger.is_warrant_executed(&w.warrant_id()));
}

#[test]
fn test_execute_idempotent() {
    let mut ledger = AuditLedger::new();
    let target = "TFT_path_to_1700000000.tft_cache";
    let w = warrant(target, EvictionAction::SoftDelete, 12348);
    ledger.append_warrant(entry(&w.warrant_id(), target, "SOFT_DELETE"), 1000).unwrap();
    let event = ExecutionEventEntry {
        id: 0,
        warrant_nonce: w.warrant_id(),
        executed_at_unix: 1000,
        executor_id: "test_executor".to_string(),
        result: "SUCCESS".to_string(),
        errno: None,
    };
    ledger.record_execution(event).unwrap();
    let executor = FilesystemExecutioner::new("test_executor".to_string());
    let step = executor.plan(&ledger, &w, &QuiesceSignal::Inactive, 1001);
    assert!(matches!(step, ExecutionStep::AlreadyCommitted));
    let report = executor.already_committed_report(&w, 1001);
    assert!(report.success);
    assert_eq!(report.audit_detail.unwrap(), "Idempotent re-execution");
}

#[test]
fn test_execute_warrant_not_in_ledger_fails() {
    let ledger = AuditLedger::new();
    let executor = FilesystemExecutioner::new("test_executor".to_string());
    let w = warrant("TFT_path_to_1700000000.tft_cache", EvictionAction::SoftDelete, 12349);
    let step = executor.plan(&ledger, &w, &QuiesceSignal::Inactive, 1001);
    assert!(matches!(step, ExecutionStep::Refuse(ExecutionError::WarrantNotInLedger)));
}

#[test]
fn test_execute_hard_delete_not_found_is_success() {
    let mut ledger = AuditLedger::new();
    let target = "/tmp/cache/TFT_nonexistent_file_1700000000.tft_cache";
    let w = warrant(target, EvictionAction::HardDelete, 12346);
    ledger.append_warrant(entry(&w.warrant_id(), target, "HARD_DELETE"), 1000).unwrap();
    let executor = FilesystemExecutioner::new("test_executor".to_string());
    let step = executor.plan(&ledger, &w, &QuiesceSignal::Inactive, 1001);
    assert!(matches!(step, ExecutionStep::RemoveFile));
    let report = executor
        .complete_removal(&mut ledger, &w, RemovalOutcome::NotFound, 1001)
        .expect("recorded");
    assert!(report.success);
}

#[test]
fn hard_delete_trail_then_second_execution_is_noop() {
    let mut ledger = AuditLedger::new();
    let target = "TFT_x_page_001_1700000000.tft_cache";
    let w = warrant(target, EvictionAction::HardDelete, 77);
    ledger.append_warrant(entry(&w.warrant_id(), target, "HARD_DELETE"), 1000).unwrap();
    let executor = FilesystemExecutioner::new("exec".to_string());
    assert!(matches!(
        executor.plan(&ledger, &w, &QuiesceSignal::Inactive, 1001),
        ExecutionStep::RemoveFile
    ));
    let report = executor.complete_removal(&mut ledger, &w, RemovalOutcome::Removed, 1001).unwrap();
    assert!(report.success);
    assert_eq!(ledger.all_warrants().len(), 1);
    assert_eq!(ledger.all_events().len(), 1);
    assert_eq!(ledger.all_events()[0].result, "SUCCESS");
    assert_eq!(ledger.all_events()[0].warrant_nonce, w.warrant_id());
    // the second execution does nothing and succeeds
    assert!(matches!(
        executor.plan(&ledger, &w, &QuiesceSignal::Inactive, 1002),
        ExecutionStep::AlreadyCommitted
    ));
    assert_eq!(ledger.all_events().len(), 1);
}

#[test]
fn foreign_basename_never_removed() {
    let mut ledger = AuditLedger::new();
    // journaled under an owned path, but the warrant names a foreign file
    let w = warrant("/home/user/my_report.pdf", EvictionAction::HardDelete, 5);
    let ledger_entry = entry(&w.warrant_id(), "/home/user/my_report.pdf", "HARD_DELETE");
    assert_eq!(ledger.append_warrant(ledger_entry, 1), Err(LedgerError::InvalidTarget));
    let executor = FilesystemExecutioner::new("exec".to_string());
    let step = executor.plan(&ledger, &w, &QuiesceSignal::Inactive, 2);
    assert!(matches!(step, ExecutionStep::Refuse(ExecutionError::WarrantNotInLedger)));
}

#[test]
fn quiesced_target_is_refused() {
    let mut ledger = AuditLedger::new();
    let target = "TFT_q_page_1_1.tft_cache";
    let w = warrant(target, EvictionAction::HardDelete, 9);
    ledger.append_warrant(entry(&w.warrant_id(), target, "HARD_DELETE"), 1).unwrap();
    let executor = FilesystemExecutioner::new("exec".to_string());
    let q = QuiesceSignal::Global { deadline_unix_sec: 100 };
    assert!(matches!(
        executor.plan(&ledger, &w, &q, 50),
        ExecutionStep::Refuse(ExecutionError::SystemQuiesced)
    ));
    assert!(matches!(executor.plan(&ledger, &w, &q, 101), ExecutionStep::RemoveFile));
}

#[test]
fn failed_removal_keeps_warrant_pending() {
    let mut ledger = AuditLedger::new();
    let target = "TFT_q_page_1_1.tft_cache";
    let w = warrant(target, EvictionAction::HardDelete, 10);
    ledger.append_warrant(entry(&w.warrant_id(), target, "HARD_DELETE"), 1).unwrap();
    let executor = FilesystemExecutioner::new("exec".to_string());
    let report = executor
        .complete_removal(&mut ledger, &w, RemovalOutcome::PermissionDenied { errno: Some(13) }, 2)
        .unwrap();
    assert!(!report.success);
    assert!(matches!(report.error, Some(ExecutionError::PermissionDenied)));
    assert_eq!(ledger.all_events()[0].result, "FAIL_PERMISSION");
    assert_eq!(ledger.all_events()[0].errno, Some(13));
    assert_eq!(ledger.get_pending_warrants().len(), 1);
}

#[test]
fn removal_record_without_warrant_is_an_error() {
    let mut ledger = AuditLedger::new();
    let w = warrant("TFT_q_page_1_1.tft_cache", EvictionAction::HardDelete, 11);
    let executor = FilesystemExecutioner::new("exec".to_string());
    let r = executor.complete_removal(&mut ledger, &w, RemovalOutcome::Removed, 2);
    assert!(matches!(r, Err(ExecutionError::IoError(_))));
    assert_eq!(ledger.all_events().len(), 0);
}

#[test]
fn test_execute_hard_delete_success() {
    let mut ledger = AuditLedger::new();
    let target = "/tmp/cache/TFT_tempfile_exec_1700000000.tft_cache";
    let w = warrant(target, EvictionAction::HardDelete, 12345);
    ledger.append_warrant(entry(&w.warrant_id(), target, "HARD_DELETE"), 1000).unwrap();
    let executor = FilesystemExecutioner::new("test_executor".to_string());
    assert!(matches!(
        executor.plan(&ledger, &w, &QuiesceSignal::Inactive, 1001),
        ExecutionStep::RemoveFile
    ));
    let result = executor
        .complete_removal(&mut ledger, &w, RemovalOutcome::Removed, 1001)
        .expect("Execution should succeed");
    assert!(result.success, "Hard delete should succeed");
    assert!(result.error.is_none(), "Should have no error");
}

#[test]
fn pending_warrants_are_one_per_nonce_and_exact_copies() {
    let a = entry("n", "TFT_a_b_1.tft_cache", "HARD_DELETE");
    let b = entry("n", "TFT_a_b_2.tft_cache", "SOFT_DELETE");
    let c = entry("m", "TFT_a_b_3.tft_cache", "SOFT_DELETE");
    let ledger = AuditLedger::from_records(vec![a, b, c], Vec::new(), Vec::new());
    let pending = ledger.get_pending_warrants();
    assert_eq!(pending.len(), 2);
    assert_eq!(pending[0].nonce, "n");
    assert_eq!(pending[0].target_path, "TFT_a_b_1.tft_cache");
    assert_eq!(pending[0].signature, vec![0xAB, 0xCD]);
    assert_eq!(pending[1].nonce, "m");
}
