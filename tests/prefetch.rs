use tachfileto_runtime::cache::{CacheRegistry, ImageBlock, SemanticBlock};
use tachfileto_runtime::prefetch::{IntentAwarePrefetcher, PrefetchType, UserIntent};

fn intent(current: u32, velocity: i64, view: (u32, u32), at: u64) -> UserIntent {
    UserIntent { current_page: current, scroll_velocity: velocity, viewport_range: view, last_updated: at }
}

#[test]
fn test_priority_calculation() {
    let prefetcher = IntentAwarePrefetcher::new_at(1000);
    let i = intent(10, 0, (8, 12), 1000);
    let priority_current = prefetcher.calculate_page_priority(10, &i, 1000);
    let priority_near = prefetcher.calculate_page_priority(11, &i, 1000);
    let priority_far = prefetcher.calculate_page_priority(20, &i, 1000);
    assert!(priority_current > priority_near);
    assert!(priority_near > priority_far);
}

#[test]
fn test_velocity_prediction() {
    let prefetcher = IntentAwarePrefetcher::new_at(1000);
    let fast = intent(10, 5, (8, 12), 1000);
    let still = intent(10, 0, (8, 12), 1000);
    let priority_fast_15 = prefetcher.calculate_page_priority(15, &fast, 1000);
    let priority_static_15 = prefetcher.calculate_page_priority(15, &still, 1000);
    assert!(priority_fast_15 > priority_static_15);
}

#[test]
fn priority_exact_values() {
    let p = IntentAwarePrefetcher::new_at(0);
    let i = intent(10, 0, (8, 12), 0);
    // in view, on the current page: every term is one
    assert_eq!(p.calculate_page_priority(10, &i, 0), 1_000_000);
    // distance 10, outside the view by 8: proximity 1/2, view 1/(1+1.6)
    let expected_view: u64 = 5_000_000 / 13;
    let expected: u64 = (400_000 * 500_000 + 300_000 * 500_000 + 300_000 * expected_view) / 1_000_000;
    assert_eq!(p.calculate_page_priority(20, &i, 0), expected);
    // half an hour later the priority is halved
    assert_eq!(p.calculate_page_priority(10, &i, 1800), 500_000);
    // an hour later it is gone
    assert_eq!(p.calculate_page_priority(10, &i, 3600), 0);
}

#[test]
fn static_reading_ranks_by_proximity() {
    let p = IntentAwarePrefetcher::new_at(0);
    let i = intent(50, 0, (0, 100), 0);
    let mut last = p.calculate_page_priority(50, &i, 0);
    for d in 1..20 {
        let here = p.calculate_page_priority(50 + d, &i, 0);
        assert!(here <= last);
        assert_eq!(here, p.calculate_page_priority(50 - d, &i, 0));
        last = here;
    }
}

#[test]
fn update_intent_builds_sorted_window_queue() {
    let cache = CacheRegistry::new();
    let mut p = IntentAwarePrefetcher::new_at(0);
    p.update_user_intent_at(30, 0, (29, 31), &cache, 100);
    let q = p.queue();
    assert_eq!(q.len(), 31);
    assert!(q.iter().all(|r| r.page_id >= 20 && r.page_id <= 50));
    for w in q.windows(2) {
        assert!(w[0].priority >= w[1].priority);
    }
    assert!(q.iter().all(|r| r.priority <= 1_000_000));
    assert!(q.iter().all(|r| r.request_type == PrefetchType::Both));
    assert_eq!(q[0].page_id, 30);
    assert_eq!(q[1].page_id, 29);
}

#[test]
fn update_intent_twice_gives_same_queue() {
    let cache = CacheRegistry::new();
    let mut p = IntentAwarePrefetcher::new_at(0);
    p.update_user_intent_at(5, 2, (4, 6), &cache, 100);
    let first = p.queue().clone();
    p.update_user_intent_at(5, 2, (4, 6), &cache, 100);
    assert_eq!(&first, p.queue());
}

#[test]
fn cached_pages_are_skipped_or_narrowed() {
    let mut cache = CacheRegistry::new();
    cache
        .put_semantic_at(
            SemanticBlock { page_id: 2, content: "x".to_string(), bbox_metadata: vec![], last_accessed: 0, is_verified: true, user_pinned: false },
            0,
        )
        .unwrap();
    cache
        .put_image(ImageBlock { page_id: 2, png_path: "p".to_string(), render_dpi: 72, file_size: 1, last_accessed: 0, user_pinned: false })
        .unwrap();
    cache
        .put_image(ImageBlock { page_id: 3, png_path: "p".to_string(), render_dpi: 72, file_size: 1, last_accessed: 0, user_pinned: false })
        .unwrap();
    let mut p = IntentAwarePrefetcher::new_at(0);
    p.update_user_intent_at(0, 0, (0, 5), &cache, 0);
    let q = p.queue();
    assert!(q.iter().all(|r| r.page_id != 2));
    let three = q.iter().find(|r| r.page_id == 3).unwrap();
    assert_eq!(three.request_type, PrefetchType::Semantic);
}

#[test]
fn next_batch_takes_five_and_respects_pressure() {
    let cache = CacheRegistry::new();
    let mut p = IntentAwarePrefetcher::new_at(0);
    p.update_user_intent_at(30, 0, (29, 31), &cache, 0);
    let before = p.queue().clone();
    let batch = p.next_batch(&cache);
    assert_eq!(batch.len(), 5);
    assert_eq!(batch[0].0, before[0].page_id);
    assert_eq!(p.queue().len(), before.len() - 5);
    // a full image tier refuses requests for both tiers
    let mut full = CacheRegistry::with_limits(1000, 10);
    full.put_image(ImageBlock { page_id: 99, png_path: "p".to_string(), render_dpi: 72, file_size: 9, last_accessed: 0, user_pinned: false })
        .unwrap();
    let mut p2 = IntentAwarePrefetcher::new_at(0);
    p2.update_user_intent_at(30, 0, (29, 31), &cache, 0);
    assert!(p2.next_batch(&full).is_empty());
    assert_eq!(p2.get_prefetch_stats(&full).queue_size, before.len() - 5);
}

#[test]
fn current_page_is_queued_when_not_cached() {
    let cache = CacheRegistry::new();
    let mut p = IntentAwarePrefetcher::new_at(0);
    p.update_user_intent_at(5, 0, (0, 10), &cache, 0);
    let q = p.queue();
    assert_eq!(q.len(), 26);
    assert_eq!(q[0].page_id, 5);
    assert_eq!(q[0].priority, 1_000_000);
}
