use tachfileto_runtime::court::{EvictionAction, EvictionVerdict};
use tachfileto_runtime::warrant::{
    current_timestamp, hash_file_id, ExecutionWarrant, PurgeAllProtocol, QuiesceSignal,
};

#[test]
fn test_execution_warrant_creation() {
    let verdict = EvictionVerdict {
        file_id: "test_file".to_string(),
        action: EvictionAction::SoftDelete,
        reason: "Test".to_string(),
        score: 700_000,
        timestamp: current_timestamp(),
        is_reversible: true,
    };

    let warrant = ExecutionWarrant::new(verdict, 12345);

    assert_eq!(warrant.nonce, 12345);
    assert!(warrant.is_valid());
    assert_eq!(warrant.warrant_id(), "WARRANT_0000000000003039");
}

#[test]
fn test_quiesce_signal_expiration() {
    let now = current_timestamp();

    let signal_future = QuiesceSignal::Pending {
        file_id_hash: 42,
        deadline_unix_sec: now + 60,
    };

    assert!(!signal_future.is_expired());
    assert_eq!(signal_future.time_to_deadline(), Some(60));

    let signal_past = QuiesceSignal::Pending {
        file_id_hash: 42,
        deadline_unix_sec: now - 10,
    };

    assert!(signal_past.is_expired());
}

#[test]
fn test_quiesce_file_specific() {
    let file_id = "test_file_123";
    let file_hash = hash_file_id(file_id);

    let signal = QuiesceSignal::Pending {
        file_id_hash: file_hash,
        deadline_unix_sec: current_timestamp() + 60,
    };

    assert!(signal.applies_to(file_hash));
    assert!(!signal.applies_to(file_hash + 1));
}

#[test]
fn test_quiesce_global_applies_to_all() {
    let signal = QuiesceSignal::Global {
        deadline_unix_sec: current_timestamp() + 60,
    };

    assert!(signal.applies_to(100));
    assert!(signal.applies_to(999));
    assert!(signal.applies_to(0));
}

#[test]
fn quiesce_at_fixed_times() {
    let signal = QuiesceSignal::Global { deadline_unix_sec: 1000 };
    assert!(!signal.is_expired_at(1000));
    assert!(signal.is_expired_at(1001));
    assert_eq!(signal.time_to_deadline_at(990), Some(10));
    assert_eq!(signal.time_to_deadline_at(2000), Some(0));
    assert_eq!(QuiesceSignal::Inactive.time_to_deadline_at(5), None);
    assert!(!QuiesceSignal::Inactive.applies_to(7));
    assert!(!QuiesceSignal::Inactive.is_expired_at(u64::MAX));
}

#[test]
fn fnv_hash_known_values() {
    assert_eq!(hash_file_id(""), 0xcbf29ce484222325);
    assert_eq!(hash_file_id("a"), 0xaf63dc4c8601ec8c);
}

#[test]
fn warrant_validity_rules() {
    let verdict = EvictionVerdict {
        file_id: String::new(),
        action: EvictionAction::HardDelete,
        reason: String::new(),
        score: 0,
        timestamp: 0,
        is_reversible: false,
    };
    let w = ExecutionWarrant::new_at(verdict, 1, 100);
    assert!(!w.is_valid());
    assert_eq!(w.warrant_id(), "WARRANT_0000000000000001");
}

#[test]
fn purge_protocol_phases() {
    let mut p = PurgeAllProtocol::new(true);
    assert_eq!(p.phase, 0);
    let signal = p.phase_1_quiesce_at(30, 1000);
    assert_eq!(signal, QuiesceSignal::Global { deadline_unix_sec: 1030 });
    assert_eq!(p.phase, 1);
    let saturated = p.phase_1_quiesce_at(10, u64::MAX - 5);
    assert_eq!(saturated, QuiesceSignal::Global { deadline_unix_sec: u64::MAX });
    assert_eq!(p.phase_3_clear_registry(), 0);
    assert_eq!(p.phase, 3);
    assert!(p.phase_4_execute().is_empty());
    assert_eq!(p.phase, 4);
}
