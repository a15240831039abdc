use tachfileto_runtime::backpressure::{BackpressureController, BackpressureError, WorkItem, WorkType};
use tachfileto_runtime::cache::{CacheRegistry, ImageBlock, SemanticBlock};

const MIB: usize = 1024 * 1024;

fn item(page_id: u32, priority: u64) -> WorkItem {
    WorkItem {
        page_id,
        work_type: WorkType::SemanticExtraction,
        priority,
        created_at: 0,
        backpressure_sensitive: true,
    }
}

#[test]
fn test_backpressure_rejection() {
    let cache = CacheRegistry::new();
    let mut controller = BackpressureController::new();
    assert!(controller.submit_work(item(1, 800_000), &cache).is_ok());
    let stats = controller.get_backpressure_stats(&cache);
    assert_eq!(stats.queue_size, 1);
}

#[test]
fn test_worker_limit_adjustment() {
    let cache = CacheRegistry::new();
    let mut controller = BackpressureController::new_at(0);
    let initial_limit = controller.get_backpressure_stats(&cache).worker_limit;
    controller.adjust_worker_limits_at(&cache, 5);
    let new_limit = controller.get_backpressure_stats(&cache).worker_limit;
    assert!((new_limit as i32 - initial_limit as i32).abs() <= 1);
}

#[test]
fn queue_is_ordered_by_priority_stably() {
    let cache = CacheRegistry::new();
    let mut c = BackpressureController::new_at(0);
    c.submit_work(item(1, 100), &cache).unwrap();
    c.submit_work(item(2, 300), &cache).unwrap();
    c.submit_work(item(3, 100), &cache).unwrap();
    c.submit_work(item(4, 200), &cache).unwrap();
    let order: Vec<u32> = (0..4).map(|_| c.next_work().unwrap().page_id).collect();
    assert_eq!(order, vec![2, 4, 1, 3]);
    assert!(c.next_work().is_none());
}

fn cache_at_ninety_percent() -> CacheRegistry {
    let mut cache = CacheRegistry::new();
    // 500 MiB of images and 41 MiB of text: just over 0.9 of 600 MiB
    for page in 0..5u32 {
        cache
            .put_image(ImageBlock { page_id: page, png_path: String::new(), render_dpi: 72, file_size: 100 * MIB, last_accessed: 0, user_pinned: false })
            .unwrap();
    }
    let text = "x".repeat(41 * MIB - 64);
    cache
        .put_semantic_at(SemanticBlock { page_id: 0, content: text, bbox_metadata: vec![], last_accessed: 0, is_verified: true, user_pinned: false }, 0)
        .unwrap();
    assert_eq!(cache.get_memory_stats(), (41 * MIB, 500 * MIB));
    cache
}

#[test]
fn scenario_backpressure_rejection_under_pressure() {
    let cache = cache_at_ninety_percent();
    let mut c = BackpressureController::new_at(0);
    let mut accepted = 0;
    for page in 0..25u32 {
        match c.submit_work(item(page, 500_000), &cache) {
            Ok(()) => accepted += 1,
            Err(e) => assert_eq!(e, BackpressureError::Rejected),
        }
    }
    let stats = c.get_backpressure_stats(&cache);
    assert!(accepted <= stats.worker_limit);
    assert_eq!(stats.rejected_due_to_pressure, 25 - accepted);
    assert_eq!(stats.memory_pressure, 901_666);
    assert!(c.adjust_worker_limits_at(&cache, 5));
    assert_eq!(c.get_backpressure_stats(&cache).worker_limit, 2);
}

#[test]
fn busy_workers_reject_and_idle_pressure_grows_limit() {
    let cache = CacheRegistry::new();
    let mut c = BackpressureController::new_at(0);
    for _ in 0..4 {
        c.worker_started();
    }
    assert!(!c.should_spawn_worker());
    assert_eq!(c.submit_work(item(1, 1), &cache), Err(BackpressureError::Rejected));
    // every allowed worker busy with low pressure: the limit grows by one
    assert!(!c.adjust_worker_limits_at(&cache, 4));
    assert!(c.adjust_worker_limits_at(&cache, 5));
    assert_eq!(c.get_backpressure_stats(&cache).worker_limit, 5);
    c.worker_finished();
    c.work_completed();
    let stats = c.get_backpressure_stats(&cache);
    assert_eq!(stats.active_workers, 3);
    assert_eq!(stats.total_processed, 1);
}

#[test]
fn long_queue_rejects_and_halves() {
    let cache = CacheRegistry::new();
    let mut c = BackpressureController::new_at(0);
    for page in 0..21u32 {
        c.submit_work(item(page, 1), &cache).unwrap();
    }
    assert_eq!(c.submit_work(item(99, 1), &cache), Err(BackpressureError::Rejected));
    assert!(c.should_spawn_worker());
    assert!(c.adjust_worker_limits_at(&cache, 10));
    assert_eq!(c.get_backpressure_stats(&cache).worker_limit, 2);
    assert!(c.adjust_worker_limits_at(&cache, 20));
    assert_eq!(c.get_backpressure_stats(&cache).worker_limit, 1);
    assert!(c.adjust_worker_limits_at(&cache, 30));
    assert_eq!(c.get_backpressure_stats(&cache).worker_limit, 1);
}
