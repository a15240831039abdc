use tachfileto_runtime::evidence::{cached_evidence, request_key, EvidenceCache};
use tachfileto_runtime::protocol::{CacheKey, EvidenceRequest, EvidenceResponse, Priority};

fn request(id: &str) -> EvidenceRequest {
    EvidenceRequest {
        request_id: id.to_string(),
        file_path: "F".to_string(),
        page_index: 0,
        bbox: [10, 10, 100, 50],
        dpi: 72,
        priority: Priority::Immediate,
    }
}

#[test]
fn scenario_cache_hit_serves_without_worker() {
    let mut cache = EvidenceCache::new(4);
    let req = request("r1");
    cache.put(request_key(&req), b"hello".to_vec());
    match cached_evidence(&mut cache, &req) {
        Some(EvidenceResponse::Success(s)) => {
            assert!(s.is_cache_hit);
            assert_eq!(s.request_id, "r1");
            assert_eq!(s.data_base64, "aGVsbG8=");
            assert_eq!(s.mime_type, "image/jpeg");
        }
        _ => panic!("expected a cache hit"),
    }
}

#[test]
fn cache_miss_goes_to_worker() {
    let mut cache = EvidenceCache::new(4);
    let req = request("r2");
    assert!(cached_evidence(&mut cache, &req).is_none());
}

#[test]
fn request_key_matches_cache_key() {
    let req = request("r3");
    let key = CacheKey::new("F", 0, 72, &[10, 10, 100, 50]);
    assert_eq!(request_key(&req), key.to_string_key());
}

#[test]
fn evidence_cache_drops_least_recently_used() {
    let mut cache = EvidenceCache::new(2);
    cache.put("a".to_string(), vec![1]);
    cache.put("b".to_string(), vec![2]);
    assert_eq!(cache.get("a"), Some(vec![1]));
    cache.put("c".to_string(), vec![3]);
    assert_eq!(cache.get("b"), None);
    assert_eq!(cache.get("a"), Some(vec![1]));
    assert_eq!(cache.get("c"), Some(vec![3]));
    cache.put("a".to_string(), vec![9]);
    assert_eq!(cache.get("a"), Some(vec![9]));
}
