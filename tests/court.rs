use tachfileto_runtime::court::{
    calculate_entropy, CacheEntry, CacheRegistry, EvictionAction, EvictionPolicy, EvictionSeverity,
    ResourceCourt,
};
use tachfileto_runtime::warrant::current_timestamp;

const MIB: u64 = 1024 * 1024;

fn create_test_entry(file_id: &str, size: u64, age_days: u64) -> CacheEntry {
    let now = current_timestamp();
    let created_at = now - (age_days * 86400);
    CacheEntry {
        file_id: file_id.to_string(),
        file_path: format!("/cache/{}", file_id),
        file_size_bytes: size,
        file_count: 1,
        created_at,
        last_accessed_at: now,
        access_count: 5,
        user_pinned: false,
        viewport_distance: 500_000,
    }
}

fn entry_at(file_id: &str, size: u64, created_at: u64, viewport: u64, files: usize) -> CacheEntry {
    CacheEntry {
        file_id: file_id.to_string(),
        file_path: file_id.to_string(),
        file_size_bytes: size,
        file_count: files,
        created_at,
        last_accessed_at: created_at,
        access_count: 0,
        user_pinned: false,
        viewport_distance: viewport,
    }
}

#[test]
fn test_registry_basic_operations() {
    let mut registry = CacheRegistry::new();
    let entry = create_test_entry("file1", MIB, 5);
    registry.register_entry(entry);
    assert_eq!(registry.total_size_bytes(), MIB);
    assert_eq!(registry.entries().len(), 1);
    assert!(registry.touch_entry("file1"));
    assert!(!registry.touch_entry("nonexistent"));
}

#[test]
fn registry_reregistration_updates_in_place() {
    let mut registry = CacheRegistry::new();
    registry.register_entry_at(entry_at("a", 100, 0, 0, 1), 10);
    registry.register_entry_at(entry_at("b", 50, 0, 0, 1), 11);
    registry.register_entry_at(entry_at("a", 30, 0, 0, 1), 12);
    assert_eq!(registry.total_size_bytes(), 80);
    assert_eq!(registry.entries().len(), 2);
    let stats = registry.stats();
    assert_eq!(stats.entry_count, 2);
    assert_eq!(stats.total_size_bytes, 80);
    assert_eq!(stats.last_updated, 12);
}

#[test]
fn touch_updates_access_facts() {
    let mut registry = CacheRegistry::new();
    registry.register_entry_at(entry_at("a", 100, 0, 0, 1), 10);
    assert!(registry.touch_entry_at("a", 99));
    let e = &registry.entries()[0];
    assert_eq!(e.last_accessed_at, 99);
    assert_eq!(e.access_count, 1);
    assert_eq!(registry.stats().last_updated, 99);
}

#[test]
fn test_court_eviction_score_calculation() {
    let policy = EvictionPolicy::default();
    let court = ResourceCourt::new(policy);
    let entry = create_test_entry("file1", 100 * MIB, 30);
    let entropy = calculate_entropy(&entry);
    let score = court.calculate_eviction_score(&entry, &entropy, current_timestamp());
    assert!(score.total_score <= 1_000_000);
    assert!(score.size_component <= 250_000);
}

#[test]
fn score_components_exact() {
    let court = ResourceCourt::new(EvictionPolicy::default_policy());
    // 100 MiB of 500 MiB, 15 days old, half out of view, 500 files
    let entry = entry_at("x", 100 * MIB, 0, 500_000, 500);
    let entropy = calculate_entropy(&entry);
    assert_eq!(entropy.entropy_factor, 500_000);
    let score = court.calculate_eviction_score(&entry, &entropy, 15 * 86400);
    assert_eq!(score.size_component, 50_000);
    assert_eq!(score.age_component, 125_000);
    assert_eq!(score.viewport_component, 150_000);
    assert_eq!(score.entropy_component, 100_000);
    assert_eq!(score.total_score, 425_000);
    assert_eq!(score.severity_level, EvictionSeverity::Medium);
}

#[test]
fn young_entries_have_no_age_component() {
    let court = ResourceCourt::new(EvictionPolicy::default_policy());
    let entry = entry_at("x", 0, 1000, 0, 0);
    let entropy = calculate_entropy(&entry);
    let score = court.calculate_eviction_score(&entry, &entropy, 1000 + 86400);
    assert_eq!(score.age_component, 0);
    assert_eq!(score.total_score, 0);
    assert_eq!(score.severity_level, EvictionSeverity::Low);
}

#[test]
fn score_is_deterministic() {
    let court = ResourceCourt::new(EvictionPolicy::default_policy());
    let a = entry_at("a", 7 * MIB, 3, 123_456, 42);
    let mut b = entry_at("b", 7 * MIB, 3, 123_456, 42);
    b.user_pinned = true;
    let ea = calculate_entropy(&a);
    let eb = calculate_entropy(&b);
    let sa = court.calculate_eviction_score(&a, &ea, 5_000_000);
    let sb = court.calculate_eviction_score(&b, &eb, 5_000_000);
    assert_eq!(sa.total_score, sb.total_score);
    assert_eq!(sa.severity_level, sb.severity_level);
}

#[test]
fn test_court_judgment_with_pinned_entry() {
    let policy = EvictionPolicy::default();
    let mut court = ResourceCourt::new(policy);
    let mut registry = CacheRegistry::new();
    let mut entry = create_test_entry("file1", 100 * MIB, 30);
    entry.user_pinned = true;
    registry.register_entry(entry);
    let verdicts = court.judge_entries(&registry, 400 * MIB);
    assert_eq!(verdicts.len(), 1);
    assert_eq!(verdicts[0].action, EvictionAction::Retain);
}

#[test]
fn test_entropy_calculation() {
    let entry = CacheEntry {
        file_id: "test".to_string(),
        file_path: "/cache/test".to_string(),
        file_size_bytes: MIB,
        file_count: 50000,
        created_at: current_timestamp(),
        last_accessed_at: current_timestamp(),
        access_count: 10,
        user_pinned: false,
        viewport_distance: 0,
    };
    let entropy = calculate_entropy(&entry);
    assert!(entropy.entropy_factor > 0);
    assert_eq!(entropy.entropy_factor, 1_000_000);
    assert_eq!(entropy.avg_file_size_bytes, MIB / 50000);
}

#[test]
fn test_multiple_entries_judgment() {
    let policy = EvictionPolicy::default();
    let mut court = ResourceCourt::new(policy);
    let mut registry = CacheRegistry::new();
    registry.register_entry(create_test_entry("old_large", 200 * MIB, 60));
    registry.register_entry(create_test_entry("young_small", 10 * MIB, 1));
    registry.register_entry(create_test_entry("medium", 100 * MIB, 15));
    let verdicts = court.judge_entries(&registry, 350 * MIB);
    assert_eq!(verdicts.len(), 3);
    assert_eq!(court.judgment_log().len(), 3);
}

#[test]
fn verdict_policy_rules() {
    let mut court = ResourceCourt::new(EvictionPolicy::default_policy());
    let mut registry = CacheRegistry::new();
    // critical: full size, old, far, many files
    registry.register_entry_at(entry_at("crit", 600 * MIB, 0, 1_000_000, 5000), 1);
    // in view and hot
    let mut hot = entry_at("hot", 600 * MIB, 0, 50_000, 5000);
    hot.access_count = 6;
    registry.register_entry_at(hot, 2);
    // medium
    registry.register_entry_at(entry_at("med", 100 * MIB, 0, 500_000, 500), 3);
    let now = 15 * 86400;
    let over = court.judge_entries_at(&registry, 600 * MIB, now);
    assert_eq!(over[0].action, EvictionAction::HardDelete);
    assert!(!over[0].is_reversible);
    assert_eq!(over[1].action, EvictionAction::Retain);
    assert_eq!(over[2].action, EvictionAction::Monitor);
    let under = court.judge_entries_at(&registry, 10 * MIB, now);
    assert_eq!(under[0].action, EvictionAction::SoftDelete);
    assert!(under[0].is_reversible);
    assert_eq!(under[0].timestamp, now);
}
