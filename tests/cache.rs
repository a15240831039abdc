use tachfileto_runtime::cache::{CacheError, CacheRegistry, ImageBlock, SemanticBlock};

const MIB: usize = 1024 * 1024;

fn image(page_id: u32, size: usize) -> ImageBlock {
    ImageBlock {
        page_id,
        png_path: format!("/tmp/page{}.png", page_id),
        render_dpi: 144,
        file_size: size,
        last_accessed: 0,
        user_pinned: false,
    }
}

fn semantic(page_id: u32, content: &str, last: u64, verified: bool) -> SemanticBlock {
    SemanticBlock {
        page_id,
        content: content.to_string(),
        bbox_metadata: vec![(0, 0, 100, 100)],
        last_accessed: last,
        is_verified: verified,
        user_pinned: false,
    }
}

fn image_ids(c: &mut CacheRegistry, ids: &[u32]) -> Vec<u32> {
    ids.iter().filter(|&&id| c.contains_image(id)).cloned().collect()
}

#[test]
fn test_semantic_cache_operations() {
    let mut registry = CacheRegistry::new();
    let block = semantic(1, "Test content", 1000, true);
    assert!(registry.put_semantic(block).is_ok());
    let retrieved = registry.get_semantic(1);
    assert!(retrieved.is_some());
    assert_eq!(retrieved.unwrap().content, "Test content");
}

#[test]
fn test_image_cache_lru() {
    let mut registry = CacheRegistry::new();
    assert!(registry.put_image(image(1, 1024)).is_ok());
    assert!(registry.put_image(image(2, 1024)).is_ok());
    registry.get_image(1);
    assert!(registry.can_accept_image_work());
}

#[test]
fn scenario_lru_eviction() {
    let mut c = CacheRegistry::with_limits(MIB, 3 * MIB);
    c.put_image(image(1, MIB)).unwrap(); // A
    c.put_image(image(2, MIB)).unwrap(); // B
    c.put_image(image(3, MIB)).unwrap(); // C
    assert!(c.get_image(1).is_some()); // promote A
    c.put_image(image(4, MIB)).unwrap(); // D
    assert_eq!(image_ids(&mut c, &[1, 2, 3, 4]), vec![1, 3, 4]);
    assert_eq!(c.get_memory_stats().1, 3 * MIB);
}

#[test]
fn oversized_image_is_refused_without_eviction() {
    let mut c = CacheRegistry::with_limits(MIB, 3 * MIB);
    c.put_image(image(1, MIB)).unwrap();
    c.put_image(image(2, MIB)).unwrap();
    assert_eq!(c.put_image(image(9, 3 * MIB + 1)), Err(CacheError::OutOfMemory));
    assert_eq!(image_ids(&mut c, &[1, 2, 9]), vec![1, 2]);
    assert_eq!(c.get_memory_stats().1, 2 * MIB);
}

#[test]
fn image_replacement_adjusts_usage() {
    let mut c = CacheRegistry::with_limits(MIB, 10);
    c.put_image(image(1, 4)).unwrap();
    c.put_image(image(1, 6)).unwrap();
    assert_eq!(c.get_memory_stats().1, 6);
    let got = c.get_image(1).unwrap();
    assert_eq!(got.file_size, 6);
}

#[test]
fn put_then_get_returns_the_block() {
    let mut c = CacheRegistry::new();
    c.put_image(image(5, 100)).unwrap();
    let got = c.get_image(5).unwrap();
    assert_eq!(got.page_id, 5);
    assert_eq!(got.png_path, "/tmp/page5.png");
    c.put_semantic_at(semantic(5, "hello", 10, false), 10).unwrap();
    let s = c.get_semantic_at(5, 20).unwrap();
    assert_eq!(s.content, "hello");
    assert_eq!(s.bbox_metadata, vec![(0, 0, 100, 100)]);
}

#[test]
fn semantic_usage_counts_content_boxes_and_overhead() {
    let mut c = CacheRegistry::new();
    c.put_semantic_at(semantic(1, "hello", 0, true), 0).unwrap();
    // 5 bytes of content, one box of 16, 64 overhead
    assert_eq!(c.get_memory_stats().0, 85);
    c.put_semantic_at(semantic(1, "hi", 0, true), 0).unwrap();
    assert_eq!(c.get_memory_stats().0, 82);
}

#[test]
fn semantic_eviction_takes_oldest_verified_idle_blocks() {
    // room for two 85-byte blocks
    let mut c = CacheRegistry::with_limits(170, MIB);
    c.put_semantic_at(semantic(1, "aaaaa", 100, true), 100).unwrap();
    c.put_semantic_at(semantic(2, "bbbbb", 50, true), 100).unwrap();
    // at 1000 both are idle; the older one (page 2) goes
    c.put_semantic_at(semantic(3, "ccccc", 1000, true), 1000).unwrap();
    assert!(c.contains_semantic(1));
    assert!(!c.contains_semantic(2));
    assert!(c.contains_semantic(3));
    assert_eq!(c.get_memory_stats().0, 170);
}

#[test]
fn semantic_put_fails_when_nothing_is_evictable() {
    let mut c = CacheRegistry::with_limits(170, MIB);
    c.put_semantic_at(semantic(1, "aaaaa", 100, false), 100).unwrap();
    c.put_semantic_at(semantic(2, "bbbbb", 900, true), 900).unwrap();
    // page 1 is unverified and page 2 was used 100 s ago
    assert_eq!(
        c.put_semantic_at(semantic(3, "ccccc", 1000, true), 1000),
        Err(CacheError::OutOfMemory)
    );
    assert!(c.contains_semantic(1));
    assert!(c.contains_semantic(2));
    assert!(!c.contains_semantic(3));
    assert_eq!(c.get_memory_stats().0, 170);
}

#[test]
fn oversized_semantic_block_is_refused() {
    let mut c = CacheRegistry::with_limits(100, MIB);
    c.put_semantic_at(semantic(1, "a", 0, true), 0).unwrap();
    let big = "x".repeat(100);
    assert_eq!(c.put_semantic_at(semantic(2, &big, 0, true), 1000), Err(CacheError::OutOfMemory));
    assert!(c.contains_semantic(1));
}

#[test]
fn semantic_get_marks_access_time() {
    let mut c = CacheRegistry::with_limits(170, MIB);
    c.put_semantic_at(semantic(1, "aaaaa", 0, true), 0).unwrap();
    c.put_semantic_at(semantic(2, "bbbbb", 10, true), 10).unwrap();
    // touching page 1 at 900 makes page 2 the older one
    c.get_semantic_at(1, 900).unwrap();
    c.put_semantic_at(semantic(3, "ccccc", 2000, true), 2000).unwrap();
    assert!(c.contains_semantic(1));
    assert!(!c.contains_semantic(2));
}

#[test]
fn backpressure_hooks_at_eighty_percent() {
    let mut c = CacheRegistry::with_limits(1000, 10);
    assert!(c.can_accept_image_work());
    c.put_image(image(1, 7)).unwrap();
    assert!(c.can_accept_image_work());
    c.put_image(image(2, 1)).unwrap();
    assert!(!c.can_accept_image_work());
    c.clear();
    assert_eq!(c.get_memory_stats(), (0, 0));
    assert!(c.can_accept_semantic_work());
}

#[test]
fn pinned_images_are_skipped_by_lru_eviction() {
    let mut c = CacheRegistry::with_limits(MIB, 3 * MIB);
    let mut a = image(1, MIB);
    a.user_pinned = true;
    c.put_image(a).unwrap();
    c.put_image(image(2, MIB)).unwrap();
    c.put_image(image(3, MIB)).unwrap();
    // page 1 is at the head but pinned: page 2 goes
    c.put_image(image(4, MIB)).unwrap();
    assert_eq!(image_ids(&mut c, &[1, 2, 3, 4]), vec![1, 3, 4]);
}

#[test]
fn all_pinned_images_refuse_without_change() {
    let mut c = CacheRegistry::with_limits(MIB, 2 * MIB);
    for page in 1..=2 {
        let mut b = image(page, MIB);
        b.user_pinned = true;
        c.put_image(b).unwrap();
    }
    assert_eq!(c.put_image(image(3, MIB)), Err(CacheError::OutOfMemory));
    assert_eq!(image_ids(&mut c, &[1, 2, 3]), vec![1, 2]);
    assert_eq!(c.get_memory_stats().1, 2 * MIB);
}

#[test]
fn pinned_semantic_blocks_stay() {
    let mut c = CacheRegistry::with_limits(170, MIB);
    let mut old = semantic(1, "aaaaa", 0, true);
    old.user_pinned = true;
    c.put_semantic_at(old, 0).unwrap();
    c.put_semantic_at(semantic(2, "bbbbb", 10, true), 10).unwrap();
    c.put_semantic_at(semantic(3, "ccccc", 2000, true), 2000).unwrap();
    assert!(c.contains_semantic(1));
    assert!(!c.contains_semantic(2));
    assert!(c.contains_semantic(3));
}
