use tachfileto_runtime::router::RouterEvent;
use tachfileto_runtime::ipc::IpcMessage;
use tachfileto_runtime::protocol::{fnv1a_bytes, CacheKey, ErrorType, EvidenceResponse, MessageType, Priority};
use tachfileto_runtime::router::MessageRouter;

#[test]
fn test_cache_key_generation() {
    let key1 = CacheKey::new("abc123", 5, 150, &[100, 200, 50, 30]);
    let key2 = CacheKey::new("abc123", 5, 150, &[100, 200, 50, 30]);
    let key3 = CacheKey::new("abc123", 5, 150, &[100, 200, 50, 31]);

    assert_eq!(key1, key2);
    assert_ne!(key1, key3);
}

#[test]
fn cache_key_string_form() {
    let key = CacheKey::new("F", 0, 72, &[10, 10, 100, 50]);
    assert_eq!(key.bbox_hash.len(), 16);
    assert_eq!(key.to_string_key(), format!("F:0:72:{}", key.bbox_hash));
    let mut bytes = Vec::new();
    for v in [10i32, 10, 100, 50] {
        bytes.extend_from_slice(&(v as u32).to_le_bytes());
    }
    assert_eq!(key.bbox_hash, format!("{:016x}", fnv1a_bytes(&bytes)));
}

#[test]
fn test_response_serialization() {
    let response = EvidenceResponse::success(
        "req-123".to_string(),
        "base64data".to_string(),
        "image/jpeg".to_string(),
        (100, 100),
        false,
    );
    match response {
        EvidenceResponse::Success(s) => {
            assert_eq!(s.request_id, "req-123");
            assert_eq!(s.width, 100);
            assert_eq!(s.height, 100);
            assert!(!s.is_cache_hit);
        }
        _ => panic!("expected success"),
    }
}

#[test]
fn pending_and_error_responses() {
    match EvidenceResponse::pending("r".to_string(), 3, 1000) {
        EvidenceResponse::Pending(p) => {
            assert_eq!(p.queue_position, 3);
            assert_eq!(p.estimated_wait_ms, 1000);
        }
        _ => panic!("expected pending"),
    }
    match EvidenceResponse::error("r".to_string(), ErrorType::TimeoutExceeded, "late".to_string(), Some(50)) {
        EvidenceResponse::Failed(e) => {
            assert_eq!(e.error_type, ErrorType::TimeoutExceeded);
            assert_eq!(e.retry_after_ms, Some(50));
        }
        _ => panic!("expected failure"),
    }
    assert_eq!(Priority::default(), Priority::Normal);
}

#[test]
fn router_correlates_by_id() {
    let mut router = MessageRouter::new();
    assert!(router.register_request(7));
    assert!(!router.register_request(7));
    assert!(router.register_request(9));
    assert_eq!(router.pending_count(), 2);
    // responses may arrive in any order
    assert!(router.resolve_request(9));
    assert!(router.resolve_request(7));
    // a late or spurious response is dropped
    assert!(!router.resolve_request(7));
    assert!(!router.resolve_request(1));
    assert_eq!(router.pending_count(), 0);
}

#[test]
fn ipc_envelope_fields() {
    let a = IpcMessage::new(MessageType::CmdPing, 5u8);
    let b = IpcMessage::new(MessageType::CmdPing, 5u8);
    assert_eq!(a.protocol_v, "1.0.0");
    assert_eq!(a.payload, 5);
    assert_eq!(a.msg_type, MessageType::CmdPing);
    assert_ne!(a.msg_id, b.msg_id);
    assert!(a.timestamp > 1_600_000_000_000);
    let c = IpcMessage::with_id(MessageType::ResAck, "x", 9, 10);
    assert_eq!(c.msg_id, 9);
    assert_eq!(c.timestamp, 10);
}

#[test]
fn router_dispatch_routes_by_message_type() {
    let mut router = MessageRouter::new();
    router.register_request(42);
    assert_eq!(router.dispatch(MessageType::ResProgress, Some(42)), RouterEvent::Progress);
    assert_eq!(router.pending_count(), 1);
    assert_eq!(router.dispatch(MessageType::ResHandshake, None), RouterEvent::WorkerReady);
    assert_eq!(router.dispatch(MessageType::ResSuccess, None), RouterEvent::Unhandled);
    assert_eq!(router.dispatch(MessageType::ResError, Some(42)), RouterEvent::Delivered(42));
    assert_eq!(router.pending_count(), 0);
    assert_eq!(router.dispatch(MessageType::ResSuccess, Some(42)), RouterEvent::Dropped(42));
    assert_eq!(router.dispatch(MessageType::CmdPing, Some(1)), RouterEvent::Unhandled);
}
