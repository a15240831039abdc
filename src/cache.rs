use vstd::prelude::*;

use crate::text::current_timestamp;
use vstd::string::*;
use vstd::utf8::encode_utf8;

verus! {

/// An L1 entry: extracted text of a page with its boxes.
#[derive(Debug, Clone)]
pub struct SemanticBlock {
    pub page_id: u32,
    pub content: String,
    /// Quantized boxes (x0, y0, x1, y1).
    pub bbox_metadata: Vec<(i32, i32, i32, i32)>,
    pub last_accessed: u64,
    pub is_verified: bool,
    /// Protected by the user: never evicted.
    pub user_pinned: bool,
}

/// An L2 entry: a rendered page image on disk.
#[derive(Debug, Clone)]
pub struct ImageBlock {
    pub page_id: u32,
    pub png_path: String,
    pub render_dpi: u16,
    pub file_size: usize,
    pub last_accessed: u64,
    /// Protected by the user: never evicted.
    pub user_pinned: bool,
}

/// Either kind of cached block.
#[derive(Debug, Clone)]
pub enum CacheEntry {
    Semantic(SemanticBlock),
    Image(ImageBlock),
}

/// Why a block was not cached.
#[derive(Debug, Clone, Copy, PartialEq, Eq, Structural)]
pub enum CacheError {
    /// Not enough space could be freed; the cache is unchanged.
    OutOfMemory,
}

/// Default L1 bound: 100 MiB.
pub const DEFAULT_SEMANTIC_LIMIT: usize = 104_857_600;

/// Default L2 bound: 500 MiB.
pub const DEFAULT_IMAGE_LIMIT: usize = 524_288_000;

/// Fixed per-block overhead of an L1 entry, in bytes.
pub const SEMANTIC_OVERHEAD: usize = 64;

/// Seconds an L1 entry must stay untouched before it may be evicted.
pub const SEMANTIC_MIN_IDLE: u64 = 300;

/// The accounted size of an L1 block: content bytes, 16 per box, overhead.
pub open spec fn semantic_size(b: SemanticBlock) -> int {
    encode_utf8(b.content@).len() + 16 * b.bbox_metadata@.len() + SEMANTIC_OVERHEAD
}

/// Sum of the accounted sizes of L1 blocks.
pub open spec fn semantic_total(s: Seq<SemanticBlock>) -> int
    decreases s.len(),
{
    if s.len() == 0 {
        0
    } else {
        semantic_total(s.drop_last()) + semantic_size(s.last())
    }
}

/// Sum of the file sizes of L2 blocks.
pub open spec fn image_total(s: Seq<ImageBlock>) -> int
    decreases s.len(),
{
    if s.len() == 0 {
        0
    } else {
        image_total(s.drop_last()) + s.last().file_size
    }
}

/// Position of the L2 block for `page_id`, if any.
pub open spec fn image_index(s: Seq<ImageBlock>, page_id: u32) -> Option<int> {
    if exists|i: int| 0 <= i < s.len() && (#[trigger] s[i]).page_id == page_id {
        Some(choose|i: int| 0 <= i < s.len() && (#[trigger] s[i]).page_id == page_id)
    } else {
        None
    }
}

/// Position of the L1 block for `page_id`, if any.
pub open spec fn semantic_index(s: Seq<SemanticBlock>, page_id: u32) -> Option<int> {
    if exists|i: int| 0 <= i < s.len() && (#[trigger] s[i]).page_id == page_id {
        Some(choose|i: int| 0 <= i < s.len() && (#[trigger] s[i]).page_id == page_id)
    } else {
        None
    }
}

/// The L2 order without the block for `page_id`.
pub open spec fn image_without(s: Seq<ImageBlock>, page_id: u32) -> Seq<ImageBlock> {
    match image_index(s, page_id) {
        Some(i) => s.remove(i),
        None => s,
    }
}

pub open spec fn unique_images(s: Seq<ImageBlock>) -> bool {
    forall|i: int, j: int|
        0 <= i < j < s.len() ==> (#[trigger] s[i]).page_id != (#[trigger] s[j]).page_id
}

pub open spec fn unique_semantic(s: Seq<SemanticBlock>) -> bool {
    forall|i: int, j: int|
        0 <= i < j < s.len() ==> (#[trigger] s[i]).page_id != (#[trigger] s[j]).page_id
}

proof fn lemma_image_total_nonneg(s: Seq<ImageBlock>)
    ensures
        image_total(s) >= 0,
    decreases s.len(),
{
    if s.len() > 0 {
        lemma_image_total_nonneg(s.drop_last());
    }
}

proof fn lemma_image_total_remove(s: Seq<ImageBlock>, i: int)
    requires
        0 <= i < s.len(),
    ensures
        image_total(s.remove(i)) == image_total(s) - s[i].file_size,
    decreases s.len(),
{
    if i == s.len() - 1 {
        assert(s.remove(i) =~= s.drop_last());
    } else {
        lemma_image_total_remove(s.drop_last(), i);
        assert(s.remove(i).drop_last() =~= s.drop_last().remove(i));
    }
}

/// The two-tier cache: L1 semantic blocks bounded by bytes, L2 image blocks
/// bounded by bytes and kept in least-recently-used order.
#[derive(Debug)]
pub struct CacheRegistry {
    semantic_cache: Vec<SemanticBlock>,
    semantic_memory_usage: usize,
    /// Least recently used first.
    image_cache: Vec<ImageBlock>,
    image_memory_usage: usize,
    max_semantic_memory: usize,
    max_image_memory: usize,
}

impl CacheRegistry {
    pub closed spec fn spec_semantic(&self) -> Seq<SemanticBlock> {
        self.semantic_cache@
    }

    /// The L2 blocks, least recently used first.
    pub closed spec fn spec_images(&self) -> Seq<ImageBlock> {
        self.image_cache@
    }

    pub closed spec fn spec_semantic_usage(&self) -> int {
        self.semantic_memory_usage as int
    }

    pub closed spec fn spec_image_usage(&self) -> int {
        self.image_memory_usage as int
    }

    pub closed spec fn spec_semantic_limit(&self) -> int {
        self.max_semantic_memory as int
    }

    pub closed spec fn spec_image_limit(&self) -> int {
        self.max_image_memory as int
    }

    /// Ids are unique per tier, each tier's usage is the sum of its blocks'
    /// sizes and stays within its limit.
    pub open spec fn wf(&self) -> bool {
        &&& unique_semantic(self.spec_semantic())
        &&& unique_images(self.spec_images())
        &&& self.spec_semantic_usage() == semantic_total(self.spec_semantic())
        &&& self.spec_image_usage() == image_total(self.spec_images())
        &&& self.spec_semantic_usage() <= self.spec_semantic_limit()
        &&& self.spec_image_usage() <= self.spec_image_limit()
    }

    /// An empty cache with the given byte limits.
    pub fn with_limits(max_semantic_memory: usize, max_image_memory: usize) -> (r: CacheRegistry)
        ensures
            r.wf(),
            r.spec_semantic().len() == 0,
            r.spec_images().len() == 0,
            r.spec_semantic_limit() == max_semantic_memory,
            r.spec_image_limit() == max_image_memory,
    {
        let r = CacheRegistry {
            semantic_cache: Vec::new(),
            semantic_memory_usage: 0,
            image_cache: Vec::new(),
            image_memory_usage: 0,
            max_semantic_memory,
            max_image_memory,
        };
        proof {
            assert(r.semantic_cache@.len() == 0);
            assert(r.image_cache@.len() == 0);
        }
        r
    }

    /// An empty cache with the default limits (100 MiB and 500 MiB).
    pub fn new() -> (r: CacheRegistry)
        ensures
            r.wf(),
            r.spec_semantic().len() == 0,
            r.spec_images().len() == 0,
            r.spec_semantic_limit() == DEFAULT_SEMANTIC_LIMIT,
            r.spec_image_limit() == DEFAULT_IMAGE_LIMIT,
    {
        CacheRegistry::with_limits(DEFAULT_SEMANTIC_LIMIT, DEFAULT_IMAGE_LIMIT)
    }

    fn find_image(&self, page_id: u32) -> (r: Option<usize>)
        ensures
            match r {
                Some(i) => i < self.image_cache@.len() && self.image_cache@[i as int].page_id == page_id,
                None => image_index(self.image_cache@, page_id).is_none(),
            },
    {
        let mut i: usize = 0;
        while i < self.image_cache.len()
            invariant
                i <= self.image_cache@.len(),
                forall|k: int| 0 <= k < i ==> (#[trigger] self.image_cache@[k]).page_id != page_id,
            decreases self.image_cache@.len() - i,
        {
            if self.image_cache[i].page_id == page_id {
                return Some(i);
            }
            i = i + 1;
        }
        None
    }

    /// Looks up the L2 block for `page_id`. A hit promotes it to most
    /// recently used; a miss changes nothing.
    pub fn get_image(&mut self, page_id: u32) -> (r: Option<ImageBlock>)
        requires
            old(self).wf(),
        ensures
            final(self).wf(),
            final(self).spec_semantic() == old(self).spec_semantic(),
            final(self).spec_image_usage() == old(self).spec_image_usage(),
            final(self).spec_image_limit() == old(self).spec_image_limit(),
            final(self).spec_semantic_limit() == old(self).spec_semantic_limit(),
            final(self).spec_semantic_usage() == old(self).spec_semantic_usage(),
            match image_index(old(self).spec_images(), page_id) {
                None => r.is_none() && final(self).spec_images() == old(self).spec_images(),
                Some(i) => r == Some(old(self).spec_images()[i]) && final(self).spec_images()
                    == old(self).spec_images().remove(i).push(old(self).spec_images()[i]),
            },
    {
        match self.find_image(page_id) {
            None => None,
            Some(i) => {
                let ghost s0 = self.image_cache@;
                proof {
                    let j = choose|j: int| 0 <= j < s0.len() && (#[trigger] s0[j]).page_id == page_id;
                    if j != i as int {
                        if j < i as int {
                            assert(s0[j].page_id != s0[i as int].page_id);
                        } else {
                            assert(s0[i as int].page_id != s0[j].page_id);
                        }
                    }
                    lemma_image_total_remove(s0, i as int);
                }
                let block = self.image_cache.remove(i);
                let copy = ImageBlock {
                    page_id: block.page_id,
                    png_path: block.png_path.clone(),
                    render_dpi: block.render_dpi,
                    file_size: block.file_size,
                    last_accessed: block.last_accessed,
                    user_pinned: block.user_pinned,
                };
                self.image_cache.push(block);
                proof {
                    let s1 = self.image_cache@;
                    assert(s1.drop_last() =~= s0.remove(i as int));
                    assert forall|a: int, b: int| 0 <= a < b < s1.len() implies (#[trigger] s1[a]).page_id
                        != (#[trigger] s1[b]).page_id by {
                        if b == s1.len() - 1 {
                            if a < i as int {
                                assert(s1[a] == s0[a]);
                            } else {
                                assert(s1[a] == s0[a + 1]);
                            }
                        } else {
                            assert(s1[a] == s0.remove(i as int)[a]);
                            assert(s1[b] == s0.remove(i as int)[b]);
                        }
                    }
                }
                Some(copy)
            },
        }
    }

    /// Caches an L2 block. A block larger than the tier's limit is refused
    /// with `OutOfMemory` and nothing is evicted. Otherwise an existing block
    /// for the same page is replaced (its size subtracted first); if the block
    /// still does not fit, unpinned blocks are evicted from the head of the
    /// order (least recently used first), the fewest that make room, and if
    /// even all of them would not, the put fails with `OutOfMemory` and the
    /// cache is unchanged. The new block becomes most recently used.
    pub fn put_image(&mut self, block: ImageBlock) -> (r: Result<(), CacheError>)
        requires
            old(self).wf(),
        ensures
            final(self).wf(),
            final(self).spec_semantic() == old(self).spec_semantic(),
            final(self).spec_semantic_usage() == old(self).spec_semantic_usage(),
            final(self).spec_image_limit() == old(self).spec_image_limit(),
            final(self).spec_semantic_limit() == old(self).spec_semantic_limit(),
            ({
                let rest = image_without(old(self).spec_images(), block.page_id);
                let needed = image_total(rest) + block.file_size - old(self).spec_image_limit();
                &&& r.is_err() <==> (block.file_size > old(self).spec_image_limit() || (needed > 0
                    && image_masked(rest, unpinned_mask(rest)) < needed))
                &&& r.is_err() ==> final(self).spec_images() == old(self).spec_images()
                &&& r.is_ok() && needed <= 0 ==> final(self).spec_images() == rest.push(block)
                &&& r.is_ok() && needed > 0 ==> exists|m: Seq<bool>|
                    lru_choice(rest, m, needed) && #[trigger] image_keep(rest, m).push(block)
                        == final(self).spec_images()
            }),
    {
        if block.file_size > self.max_image_memory {
            return Err(CacheError::OutOfMemory);
        }
        let ghost s0 = self.image_cache@;
        let pos = self.find_image(block.page_id);
        let mut taken: Option<(usize, ImageBlock)> = None;
        match pos {
            Some(i) => {
                proof {
                    let j = choose|j: int| 0 <= j < s0.len() && (#[trigger] s0[j]).page_id == block.page_id;
                    if j != i as int {
                        if j < i as int {
                            assert(s0[j].page_id != s0[i as int].page_id);
                        } else {
                            assert(s0[i as int].page_id != s0[j].page_id);
                        }
                    }
                    lemma_image_total_remove(s0, i as int);
                    lemma_image_total_nonneg(s0.remove(i as int));
                    lemma_unique_images_remove(s0, i as int);
                }
                let b = self.image_cache.remove(i);
                self.image_memory_usage = self.image_memory_usage - b.file_size;
                taken = Some((i, b));
            },
            None => {},
        }
        let ghost rest = self.image_cache@;
        assert(rest == image_without(s0, block.page_id));
        assert(forall|j: int| 0 <= j < rest.len() ==> (#[trigger] rest[j]).page_id != block.page_id) by {
            if pos.is_none() {
                assert(image_index(s0, block.page_id).is_none());
            }
        }
        if self.image_memory_usage > self.max_image_memory - block.file_size {
            let needed = (self.image_memory_usage as u128) + (block.file_size as u128) - (self.max_image_memory as u128);
            match self.evict_image_lru(needed) {
                Err(e) => {
                    match taken {
                        Some((i, b)) => {
                            proof {
                                lemma_image_total_remove(s0, i as int);
                            }
                            self.image_memory_usage = self.image_memory_usage + b.file_size;
                            self.image_cache.insert(i, b);
                            assert(self.image_cache@ =~= s0);
                        },
                        None => {},
                    }
                    return Err(e);
                },
                Ok(()) => {
                    proof {
                        let m = choose|m: Seq<bool>|
                            lru_choice(rest, m, needed as int) && #[trigger] image_keep(rest, m)
                                == self.image_cache@;
                        lemma_image_keep_total(rest, m);
                    }
                },
            }
        } else {
            proof {
                lemma_image_keep_none(rest);
            }
        }
        let ghost kept = self.image_cache@;
        self.image_memory_usage = self.image_memory_usage + block.file_size;
        self.image_cache.push(block);
        proof {
            let s1 = self.image_cache@;
            assert(s1.drop_last() =~= kept);
            assert(forall|j: int| 0 <= j < kept.len() ==> (#[trigger] kept[j]).page_id != block.page_id) by {
                if kept != rest {
                    let m = choose|m: Seq<bool>|
                        lru_choice(rest, m, image_total(rest) + block.file_size - old(self).spec_image_limit())
                            && #[trigger] image_keep(rest, m) == kept;
                    lemma_image_keep_members(rest, m);
                    assert forall|j: int| 0 <= j < kept.len() implies (#[trigger] kept[j]).page_id != block.page_id by {
                        let k = choose|k: int| 0 <= k < rest.len() && !m[k] && #[trigger] image_keep(rest, m)[j] == rest[k];
                        assert(rest[k].page_id != block.page_id);
                    }
                }
            }
            assert forall|a: int, b: int| 0 <= a < b < s1.len() implies (#[trigger] s1[a]).page_id
                != (#[trigger] s1[b]).page_id by {
                if b == s1.len() - 1 {
                    assert(s1[a] == kept[a]);
                } else {
                    assert(s1[a] == kept[a] && s1[b] == kept[b]);
                }
            }
        }
        Ok(())
    }

    /// Evicts unpinned L2 blocks from the head of the order until `needed`
    /// bytes are freed. When all unpinned blocks together are not enough,
    /// nothing is evicted and `OutOfMemory` is returned.
    fn evict_image_lru(&mut self, needed: u128) -> (r: Result<(), CacheError>)
        requires
            unique_images(old(self).image_cache@),
            old(self).image_memory_usage as int == image_total(old(self).image_cache@),
            needed > 0,
        ensures
            r.is_err() <==> image_masked(old(self).image_cache@, unpinned_mask(old(self).image_cache@)) < needed,
            r.is_err() ==> *final(self) == *old(self),
            r.is_ok() ==> exists|m: Seq<bool>|
                lru_choice(old(self).image_cache@, m, needed as int)
                    && #[trigger] image_keep(old(self).image_cache@, m) == final(self).image_cache@,
            unique_images(final(self).image_cache@),
            final(self).image_memory_usage as int == image_total(final(self).image_cache@),
            final(self).image_memory_usage <= old(self).image_memory_usage,
            final(self).semantic_cache == old(self).semantic_cache,
            final(self).semantic_memory_usage == old(self).semantic_memory_usage,
            final(self).max_semantic_memory == old(self).max_semantic_memory,
            final(self).max_image_memory == old(self).max_image_memory,
    {
        let ghost s0 = self.image_cache@;
        let plan = plan_image_eviction(&self.image_cache, needed);
        let (m, freed) = match plan {
            None => {
                return Err(CacheError::OutOfMemory);
            },
            Some(p) => p,
        };
        let mut old_blocks: Vec<ImageBlock> = Vec::new();
        std::mem::swap(&mut old_blocks, &mut self.image_cache);
        let mut kept: Vec<ImageBlock> = Vec::new();
        let n = old_blocks.len();
        let mut idx: usize = 0;
        proof {
            assert(old_blocks@ =~= s0.subrange(0, s0.len() as int));
        }
        while idx < n
            invariant
                n == s0.len(),
                m@.len() == n,
                idx <= n,
                old_blocks@ == s0.subrange(idx as int, n as int),
                kept@ == image_keep(s0.subrange(0, idx as int), m@.subrange(0, idx as int)),
            decreases n - idx,
        {
            let b = old_blocks.remove(0);
            proof {
                assert(s0.subrange(0, idx + 1).drop_last() =~= s0.subrange(0, idx as int));
                assert(m@.subrange(0, idx + 1).subrange(0, idx as int) =~= m@.subrange(0, idx as int));
                assert(old_blocks@ =~= s0.subrange(idx + 1, n as int));
            }
            if !m[idx] {
                kept.push(b);
            }
            idx = idx + 1;
        }
        proof {
            assert(s0.subrange(0, n as int) =~= s0);
            assert(m@.subrange(0, n as int) =~= m@);
            lemma_image_keep_total(s0, m@);
            lemma_image_keep_unique(s0, m@);
            lemma_image_masked_le_total(s0, m@);
            assert forall|i: int| 0 <= i < s0.len() && #[trigger] m@[i] implies unpinned_mask(s0)[i] by {
                assert(!s0[i].user_pinned);
            }
            lemma_image_masked_mono(s0, m@, unpinned_mask(s0));
            lemma_image_total_nonneg(image_keep(s0, m@));
        }
        self.image_cache = kept;
        self.image_memory_usage = (self.image_memory_usage as u128 - freed) as usize;
        Ok(())
    }
}

/// An L1 block may be evicted at `now` when it is verified, not pinned, and
/// has been idle for more than five minutes.
pub open spec fn evictable(b: SemanticBlock, now: u64) -> bool {
    b.is_verified && !b.user_pinned && b.last_accessed as int + SEMANTIC_MIN_IDLE < now as int
}

/// Eviction order: least recently accessed first, then lower page id.
pub open spec fn older(a: SemanticBlock, b: SemanticBlock) -> bool {
    a.last_accessed < b.last_accessed || (a.last_accessed == b.last_accessed && a.page_id < b.page_id)
}

/// Total size of the blocks of `s` that `m` marks.
pub open spec fn masked_total(s: Seq<SemanticBlock>, m: Seq<bool>) -> int
    decreases s.len(),
{
    if s.len() == 0 {
        0
    } else {
        masked_total(s.drop_last(), m.subrange(0, s.len() - 1)) + if m[s.len() - 1] {
            semantic_size(s.last())
        } else {
            0
        }
    }
}

/// The mask of the blocks of `s` evictable at `now`.
pub open spec fn evictable_mask(s: Seq<SemanticBlock>, now: u64) -> Seq<bool> {
    Seq::new(s.len(), |i: int| evictable(s[i], now))
}

/// The L1 blocks without the one for `page_id`.
pub open spec fn semantic_without(s: Seq<SemanticBlock>, page_id: u32) -> Seq<SemanticBlock> {
    match semantic_index(s, page_id) {
        Some(i) => s.remove(i),
        None => s,
    }
}

/// A valid eviction choice `m` over `s` for `needed` bytes at `now`: only
/// evictable blocks, oldest first, enough of them, and the newest chosen one
/// was needed.
pub open spec fn eviction_choice(s: Seq<SemanticBlock>, m: Seq<bool>, needed: int, now: u64) -> bool {
    &&& m.len() == s.len()
    &&& forall|i: int| 0 <= i < s.len() && #[trigger] m[i] ==> evictable(s[i], now)
    &&& forall|i: int, j: int|
        0 <= i < s.len() && 0 <= j < s.len() && #[trigger] m[i] && !#[trigger] m[j] && evictable(s[j], now)
            ==> older(s[i], s[j])
    &&& masked_total(s, m) >= needed
    &&& needed > 0 ==> exists|j: int|
        0 <= j < s.len() && #[trigger] m[j] && masked_total(s, m) - semantic_size(s[j]) < needed
            && forall|i: int| 0 <= i < s.len() && #[trigger] m[i] && i != j ==> older(s[i], s[j])
}

proof fn lemma_semantic_size_pos(b: SemanticBlock)
    ensures
        semantic_size(b) >= SEMANTIC_OVERHEAD,
{
}

proof fn lemma_masked_update(s: Seq<SemanticBlock>, m: Seq<bool>, j: int)
    requires
        m.len() == s.len(),
        0 <= j < s.len(),
        !m[j],
    ensures
        masked_total(s, m.update(j, true)) == masked_total(s, m) + semantic_size(s[j]),
    decreases s.len(),
{
    let n = s.len() - 1;
    if j == n {
        assert(m.update(j, true).subrange(0, n) =~= m.subrange(0, n));
    } else {
        lemma_masked_update(s.drop_last(), m.subrange(0, n), j);
        assert(m.update(j, true).subrange(0, n) =~= m.subrange(0, n).update(j, true));
    }
}

proof fn lemma_masked_mono(s: Seq<SemanticBlock>, a: Seq<bool>, b: Seq<bool>)
    requires
        a.len() == s.len(),
        b.len() == s.len(),
        forall|i: int| 0 <= i < s.len() && #[trigger] a[i] ==> b[i],
    ensures
        masked_total(s, a) <= masked_total(s, b),
    decreases s.len(),
{
    if s.len() > 0 {
        let n = s.len() - 1;
        lemma_semantic_size_pos(s.last());
        assert forall|i: int| 0 <= i < n && #[trigger] a.subrange(0, n)[i] implies b.subrange(0, n)[i] by {
            assert(a.subrange(0, n)[i] == a[i]);
        }
        lemma_masked_mono(s.drop_last(), a.subrange(0, n), b.subrange(0, n));
    }
}

proof fn lemma_masked_ext(s: Seq<SemanticBlock>, a: Seq<bool>, b: Seq<bool>)
    requires
        a.len() == s.len(),
        b.len() == s.len(),
        forall|i: int| 0 <= i < s.len() ==> #[trigger] a[i] == b[i],
    ensures
        masked_total(s, a) == masked_total(s, b),
{
    assert(a =~= b);
}

proof fn lemma_masked_le_total(s: Seq<SemanticBlock>, m: Seq<bool>)
    requires
        m.len() == s.len(),
    ensures
        0 <= masked_total(s, m) <= semantic_total(s),
    decreases s.len(),
{
    if s.len() > 0 {
        lemma_masked_le_total(s.drop_last(), m.subrange(0, s.len() - 1));
        lemma_semantic_size_pos(s.last());
    }
}

/// The size of an L1 block as the cache accounts it.
fn block_size(b: &SemanticBlock) -> (r: u128)
    ensures
        r == semantic_size(*b),
{
    let text: &str = b.content.as_str();
    let bytes = text.as_bytes().len();
    (bytes as u128) + 16 * (b.bbox_metadata.len() as u128) + (SEMANTIC_OVERHEAD as u128)
}

/// Chooses which L1 blocks to evict to free `needed` bytes at `now`:
/// repeatedly the oldest evictable block not yet chosen, until enough is
/// freed. `None` when all evictable blocks together are not enough.
fn plan_semantic_eviction(s: &Vec<SemanticBlock>, needed: u128, now: u64) -> (r: Option<Vec<bool>>)
    requires
        unique_semantic(s@),
        needed > 0,
        semantic_total(s@) <= usize::MAX,
    ensures
        match r {
            Some(m) => eviction_choice(s@, m@, needed as int, now),
            None => masked_total(s@, evictable_mask(s@, now)) < needed,
        },
{
    let n = s.len();
    let mut chosen: Vec<bool> = Vec::new();
    let mut i: usize = 0;
    while i < n
        invariant
            n == s@.len(),
            i <= n,
            chosen@.len() == i,
            forall|k: int| 0 <= k < i ==> !#[trigger] chosen@[k],
        decreases n - i,
    {
        chosen.push(false);
        i = i + 1;
    }
    proof {
        lemma_masked_zero(s@, chosen@);
    }
    let mut freed: u128 = 0;
    let ghost mut last: int = -1;
    loop
        invariant
            n == s@.len(),
            chosen@.len() == n,
            needed > 0,
            freed as int == masked_total(s@, chosen@),
            freed < needed,
            forall|k: int| 0 <= k < n && #[trigger] chosen@[k] ==> evictable(s@[k], now),
            forall|a: int, b: int|
                0 <= a < n && 0 <= b < n && #[trigger] chosen@[a] && !#[trigger] chosen@[b]
                    && evictable(s@[b], now) ==> older(s@[a], s@[b]),
            unique_semantic(s@),
            semantic_total(s@) <= usize::MAX,
        decreases masked_total(s@, evictable_mask(s@, now)) - masked_total(s@, chosen@),
    {
        // the oldest evictable block not yet chosen
        let mut best: Option<usize> = None;
        let mut j: usize = 0;
        while j < n
            invariant
                n == s@.len(),
                chosen@.len() == n,
                j <= n,
                match best {
                    Some(b) => b < j && !chosen@[b as int] && evictable(s@[b as int], now) && forall|k: int|
                        0 <= k < j && !chosen@[k] && evictable(s@[k], now) && k != b ==> older(
                            s@[b as int],
                            #[trigger] s@[k],
                        ),
                    None => forall|k: int| 0 <= k < j ==> #[trigger] chosen@[k] || !evictable(s@[k], now),
                },
                unique_semantic(s@),
            decreases n - j,
        {
            let c = &s[j];
            if !chosen[j] && c.is_verified && !c.user_pinned && c.last_accessed < now && now - c.last_accessed > SEMANTIC_MIN_IDLE {
                match best {
                    None => {
                        best = Some(j);
                    },
                    Some(b) => {
                        let o = &s[b];
                        if c.last_accessed < o.last_accessed || (c.last_accessed == o.last_accessed
                            && c.page_id < o.page_id) {
                            proof {
                                assert(s@[b as int].page_id != s@[j as int].page_id || b == j);
                            }
                            best = Some(j);
                        } else {
                            proof {
                                if b < j {
                                    assert(s@[b as int].page_id != s@[j as int].page_id);
                                }
                            }
                        }
                    },
                }
            }
            j = j + 1;
        }
        match best {
            None => {
                proof {
                    lemma_masked_ext(s@, chosen@, evictable_mask(s@, now));
                }
                return None;
            },
            Some(b) => {
                let sz = block_size(&s[b]);
                proof {
                    lemma_masked_update(s@, chosen@, b as int);
                    lemma_masked_mono(s@, chosen@.update(b as int, true), evictable_mask(s@, now));
                    lemma_masked_le_total(s@, chosen@);
                    lemma_masked_le_total(s@, evictable_mask(s@, now));
                }
                let ghost before = chosen@;
                chosen.set(b, true);
                freed = freed + sz;
                proof {
                    last = b as int;
                    assert forall|a: int, c: int|
                        0 <= a < n && 0 <= c < n && #[trigger] chosen@[a] && !#[trigger] chosen@[c]
                            && evictable(s@[c], now) implies older(s@[a], s@[c]) by {
                        if a == b as int {
                            assert(c != b as int);
                        } else {
                            assert(before[a]);
                        }
                    }
                }
                if freed >= needed {
                    let m = chosen;
                    proof {
                        assert forall|i: int| 0 <= i < n && #[trigger] m@[i] && i != b as int implies older(s@[i], s@[b as int]) by {
                            assert(before[i]);
                            assert(!before[b as int]);
                        }
                        assert(m@[b as int]);
                        assert(masked_total(s@, m@) - semantic_size(s@[b as int]) < needed);
                    }
                    return Some(m);
                }
            },
        }
    }
}

proof fn lemma_masked_zero(s: Seq<SemanticBlock>, m: Seq<bool>)
    requires
        m.len() == s.len(),
        forall|k: int| 0 <= k < m.len() ==> !#[trigger] m[k],
    ensures
        masked_total(s, m) == 0,
    decreases s.len(),
{
    if s.len() > 0 {
        lemma_masked_zero(s.drop_last(), m.subrange(0, s.len() - 1));
    }
}

/// The blocks of `s` that `m` does not mark, in order.
pub open spec fn keep(s: Seq<SemanticBlock>, m: Seq<bool>) -> Seq<SemanticBlock>
    decreases s.len(),
{
    if s.len() == 0 {
        Seq::empty()
    } else {
        let k = keep(s.drop_last(), m.subrange(0, s.len() - 1));
        if m[s.len() - 1] {
            k
        } else {
            k.push(s.last())
        }
    }
}

proof fn lemma_keep_total(s: Seq<SemanticBlock>, m: Seq<bool>)
    requires
        m.len() == s.len(),
    ensures
        semantic_total(keep(s, m)) == semantic_total(s) - masked_total(s, m),
    decreases s.len(),
{
    if s.len() > 0 {
        let k = keep(s.drop_last(), m.subrange(0, s.len() - 1));
        lemma_keep_total(s.drop_last(), m.subrange(0, s.len() - 1));
        if !m[s.len() - 1] {
            assert(k.push(s.last()).drop_last() =~= k);
        }
    }
}

proof fn lemma_keep_members(s: Seq<SemanticBlock>, m: Seq<bool>)
    requires
        m.len() == s.len(),
    ensures
        forall|a: int|
            0 <= a < keep(s, m).len() ==> exists|k: int|
                0 <= k < s.len() && !m[k] && #[trigger] keep(s, m)[a] == s[k],
        keep(s, m).len() <= s.len(),
    decreases s.len(),
{
    if s.len() > 0 {
        let n = s.len() - 1;
        let s0 = s.drop_last();
        let m0 = m.subrange(0, n);
        lemma_keep_members(s0, m0);
        let k = keep(s0, m0);
        assert forall|a: int| 0 <= a < keep(s, m).len() implies exists|j: int|
            0 <= j < s.len() && !m[j] && #[trigger] keep(s, m)[a] == s[j] by {
            if a < k.len() {
                let j = choose|j: int| 0 <= j < s0.len() && !m0[j] && #[trigger] k[a] == s0[j];
                assert(keep(s, m)[a] == k[a]);
                assert(s[j] == s0[j] && m[j] == m0[j]);
            } else {
                assert(keep(s, m)[a] == s[n]);
            }
        }
    }
}

proof fn lemma_keep_unique(s: Seq<SemanticBlock>, m: Seq<bool>)
    requires
        m.len() == s.len(),
        unique_semantic(s),
    ensures
        unique_semantic(keep(s, m)),
    decreases s.len(),
{
    if s.len() > 0 {
        let n = s.len() - 1;
        let s0 = s.drop_last();
        let m0 = m.subrange(0, n);
        assert(unique_semantic(s0)) by {
            assert forall|i: int, j: int| 0 <= i < j < s0.len() implies (#[trigger] s0[i]).page_id
                != (#[trigger] s0[j]).page_id by {
                assert(s0[i] == s[i] && s0[j] == s[j]);
            }
        }
        lemma_keep_unique(s0, m0);
        lemma_keep_members(s0, m0);
        let k = keep(s0, m0);
        if !m[n] {
            let r = k.push(s[n]);
            assert forall|a: int, b: int| 0 <= a < b < r.len() implies (#[trigger] r[a]).page_id
                != (#[trigger] r[b]).page_id by {
                if b == r.len() - 1 {
                    let j = choose|j: int| 0 <= j < s0.len() && !m0[j] && #[trigger] k[a] == s0[j];
                    assert(r[a] == s[j]);
                } else {
                    assert(r[a] == k[a] && r[b] == k[b]);
                }
            }
        }
    }
}

/// The L1 block for `page_id` after a lookup at `now` that found it.
pub open spec fn touched(b: SemanticBlock, now: u64) -> SemanticBlock {
    SemanticBlock { last_accessed: now, ..b }
}

impl SemanticBlock {
    /// A field-by-field copy.
    pub fn duplicate(&self) -> (r: SemanticBlock)
        ensures
            r.page_id == self.page_id,
            r.content == self.content,
            r.bbox_metadata@ == self.bbox_metadata@,
            r.last_accessed == self.last_accessed,
            r.is_verified == self.is_verified,
            r.user_pinned == self.user_pinned,
    {
        let mut boxes: Vec<(i32, i32, i32, i32)> = Vec::new();
        let mut i: usize = 0;
        while i < self.bbox_metadata.len()
            invariant
                i <= self.bbox_metadata@.len(),
                boxes@ == self.bbox_metadata@.subrange(0, i as int),
            decreases self.bbox_metadata@.len() - i,
        {
            boxes.push(self.bbox_metadata[i]);
            i = i + 1;
            assert(boxes@ =~= self.bbox_metadata@.subrange(0, i as int));
        }
        assert(boxes@ =~= self.bbox_metadata@);
        SemanticBlock {
            page_id: self.page_id,
            content: self.content.clone(),
            bbox_metadata: boxes,
            last_accessed: self.last_accessed,
            is_verified: self.is_verified,
            user_pinned: self.user_pinned,
        }
    }
}

impl CacheRegistry {
    fn find_semantic(&self, page_id: u32) -> (r: Option<usize>)
        ensures
            match r {
                Some(i) => i < self.semantic_cache@.len() && self.semantic_cache@[i as int].page_id == page_id,
                None => semantic_index(self.semantic_cache@, page_id).is_none(),
            },
    {
        let mut i: usize = 0;
        while i < self.semantic_cache.len()
            invariant
                i <= self.semantic_cache@.len(),
                forall|k: int| 0 <= k < i ==> (#[trigger] self.semantic_cache@[k]).page_id != page_id,
            decreases self.semantic_cache@.len() - i,
        {
            if self.semantic_cache[i].page_id == page_id {
                return Some(i);
            }
            i = i + 1;
        }
        None
    }
}

proof fn lemma_semantic_total_remove(s: Seq<SemanticBlock>, i: int)
    requires
        0 <= i < s.len(),
    ensures
        semantic_total(s.remove(i)) == semantic_total(s) - semantic_size(s[i]),
    decreases s.len(),
{
    if i == s.len() - 1 {
        assert(s.remove(i) =~= s.drop_last());
    } else {
        lemma_semantic_total_remove(s.drop_last(), i);
        assert(s.remove(i).drop_last() =~= s.drop_last().remove(i));
    }
}

proof fn lemma_semantic_total_update(s: Seq<SemanticBlock>, i: int, b: SemanticBlock)
    requires
        0 <= i < s.len(),
        semantic_size(b) == semantic_size(s[i]),
    ensures
        semantic_total(s.update(i, b)) == semantic_total(s),
    decreases s.len(),
{
    if i == s.len() - 1 {
        assert(s.update(i, b).drop_last() =~= s.drop_last());
    } else {
        lemma_semantic_total_update(s.drop_last(), i, b);
        assert(s.update(i, b).drop_last() =~= s.drop_last().update(i, b));
    }
}

proof fn lemma_unique_remove(s: Seq<SemanticBlock>, i: int)
    requires
        0 <= i < s.len(),
        unique_semantic(s),
    ensures
        unique_semantic(s.remove(i)),
        forall|j: int| 0 <= j < s.remove(i).len() ==> (#[trigger] s.remove(i)[j]).page_id != s[i].page_id,
{
    let r = s.remove(i);
    assert forall|a: int, b: int| 0 <= a < b < r.len() implies (#[trigger] r[a]).page_id
        != (#[trigger] r[b]).page_id by {
        if a >= i {
            assert(r[a] == s[a + 1] && r[b] == s[b + 1]);
        } else if b >= i {
            assert(r[a] == s[a] && r[b] == s[b + 1]);
        } else {
            assert(r[a] == s[a] && r[b] == s[b]);
        }
    }
    assert forall|j: int| 0 <= j < r.len() implies (#[trigger] r[j]).page_id != s[i].page_id by {
        if j >= i {
            assert(r[j] == s[j + 1]);
        } else {
            assert(r[j] == s[j]);
        }
    }
}

impl CacheRegistry {
    /// Evicts L1 blocks to free `needed` bytes at `now`: only evictable
    /// blocks, oldest first, until enough is freed. When all evictable blocks
    /// together are not enough, nothing is evicted and `OutOfMemory` is
    /// returned.
    fn evict_semantic_lru(&mut self, needed: u128, now: u64) -> (r: Result<(), CacheError>)
        requires
            unique_semantic(old(self).semantic_cache@),
            old(self).semantic_memory_usage as int == semantic_total(old(self).semantic_cache@),
            needed > 0,
        ensures
            r.is_err() <==> masked_total(old(self).semantic_cache@, evictable_mask(old(self).semantic_cache@, now)) < needed,
            r.is_err() ==> *final(self) == *old(self),
            r.is_ok() ==> exists|m: Seq<bool>|
                eviction_choice(old(self).semantic_cache@, m, needed as int, now)
                    && #[trigger] keep(old(self).semantic_cache@, m) == final(self).semantic_cache@,
            unique_semantic(final(self).semantic_cache@),
            final(self).semantic_memory_usage as int == semantic_total(final(self).semantic_cache@),
            final(self).semantic_memory_usage <= old(self).semantic_memory_usage,
            final(self).image_cache == old(self).image_cache,
            final(self).image_memory_usage == old(self).image_memory_usage,
            final(self).max_semantic_memory == old(self).max_semantic_memory,
            final(self).max_image_memory == old(self).max_image_memory,
    {
        let ghost s0 = self.semantic_cache@;
        let plan = plan_semantic_eviction(&self.semantic_cache, needed, now);
        let m = match plan {
            None => {
                return Err(CacheError::OutOfMemory);
            },
            Some(m) => m,
        };
        let mut old_blocks: Vec<SemanticBlock> = Vec::new();
        std::mem::swap(&mut old_blocks, &mut self.semantic_cache);
        let mut kept: Vec<SemanticBlock> = Vec::new();
        let n = old_blocks.len();
        let mut idx: usize = 0;
        proof {
            assert(old_blocks@ =~= s0.subrange(0, s0.len() as int));
        }
        while idx < n
            invariant
                n == s0.len(),
                m@.len() == n,
                idx <= n,
                old_blocks@ == s0.subrange(idx as int, n as int),
                kept@ == keep(s0.subrange(0, idx as int), m@.subrange(0, idx as int)),
            decreases n - idx,
        {
            let b = old_blocks.remove(0);
            proof {
                assert(s0.subrange(0, idx + 1).drop_last() =~= s0.subrange(0, idx as int));
                assert(m@.subrange(0, idx + 1).subrange(0, idx as int) =~= m@.subrange(0, idx as int));
                assert(old_blocks@ =~= s0.subrange(idx + 1, n as int));
            }
            if !m[idx] {
                kept.push(b);
            }
            idx = idx + 1;
        }
        proof {
            assert(s0.subrange(0, n as int) =~= s0);
            assert(m@.subrange(0, n as int) =~= m@);
            lemma_keep_total(s0, m@);
            lemma_keep_unique(s0, m@);
            lemma_masked_le_total(s0, m@);
            assert forall|i: int| 0 <= i < s0.len() && #[trigger] m@[i] implies evictable_mask(s0, now)[i] by {
                assert(evictable(s0[i], now));
            }
            lemma_masked_mono(s0, m@, evictable_mask(s0, now));
        }
        let total = semantic_sum(&kept);
        self.semantic_cache = kept;
        self.semantic_memory_usage = total as usize;
        proof {
            assert(keep(s0, m@) == self.semantic_cache@);
        }
        Ok(())
    }
}

proof fn lemma_semantic_prefix_le(s: Seq<SemanticBlock>, i: int)
    requires
        0 <= i <= s.len(),
    ensures
        semantic_total(s.subrange(0, i)) <= semantic_total(s),
    decreases s.len(),
{
    if i < s.len() {
        lemma_semantic_size_pos(s.last());
        lemma_semantic_prefix_le(s.drop_last(), i);
        assert(s.drop_last().subrange(0, i) =~= s.subrange(0, i));
    } else {
        assert(s.subrange(0, i) =~= s);
    }
}

/// Total accounted size of `v`.
fn semantic_sum(v: &Vec<SemanticBlock>) -> (r: u128)
    requires
        semantic_total(v@) <= usize::MAX,
    ensures
        r == semantic_total(v@),
{
    let mut total: u128 = 0;
    let mut i: usize = 0;
    while i < v.len()
        invariant
            i <= v@.len(),
            semantic_total(v@) <= usize::MAX,
            total == semantic_total(v@.subrange(0, i as int)),
        decreases v@.len() - i,
    {
        proof {
            assert(v@.subrange(0, i + 1).drop_last() =~= v@.subrange(0, i as int));
            lemma_semantic_prefix_le(v@, i + 1);
        }
        total = total + block_size(&v[i]);
        i = i + 1;
    }
    assert(v@.subrange(0, i as int) =~= v@);
    total
}

/// The bytes that must be freed to add a block of `size` to `rest` under
/// `limit`; zero or less when it fits.
pub open spec fn semantic_needed(rest: Seq<SemanticBlock>, size: int, limit: int) -> int {
    semantic_total(rest) + size - limit
}

impl CacheRegistry {
    /// Caches an L1 block at `now`. A block larger than the tier's limit is
    /// refused with `OutOfMemory` and nothing is evicted. Otherwise an
    /// existing block for the same page is replaced (its size subtracted
    /// first); if the block still does not fit, evictable blocks are evicted
    /// oldest first until it does, and if even all of them would not make
    /// room the put fails with `OutOfMemory` and the cache is unchanged.
    pub fn put_semantic_at(&mut self, block: SemanticBlock, now: u64) -> (r: Result<(), CacheError>)
        requires
            old(self).wf(),
        ensures
            final(self).wf(),
            final(self).spec_images() == old(self).spec_images(),
            final(self).spec_image_usage() == old(self).spec_image_usage(),
            final(self).spec_image_limit() == old(self).spec_image_limit(),
            final(self).spec_semantic_limit() == old(self).spec_semantic_limit(),
            ({
                let rest = semantic_without(old(self).spec_semantic(), block.page_id);
                let needed = semantic_needed(rest, semantic_size(block), old(self).spec_semantic_limit());
                &&& r.is_err() <==> (semantic_size(block) > old(self).spec_semantic_limit() || (needed > 0
                    && masked_total(rest, evictable_mask(rest, now)) < needed))
                &&& r.is_err() ==> final(self).spec_semantic() == old(self).spec_semantic()
                &&& r.is_ok() && needed <= 0 ==> final(self).spec_semantic() == rest.push(block)
                &&& r.is_ok() && needed > 0 ==> exists|m: Seq<bool>|
                    eviction_choice(rest, m, needed, now) && #[trigger] keep(rest, m).push(block)
                        == final(self).spec_semantic()
            }),
    {
        let size = block_size(&block);
        if size > self.max_semantic_memory as u128 {
            return Err(CacheError::OutOfMemory);
        }
        let ghost s0 = self.semantic_cache@;
        let pos = self.find_semantic(block.page_id);
        let mut taken: Option<(usize, SemanticBlock)> = None;
        match pos {
            Some(i) => {
                proof {
                    let j = choose|j: int| 0 <= j < s0.len() && (#[trigger] s0[j]).page_id == block.page_id;
                    if j != i as int {
                        if j < i as int {
                            assert(s0[j].page_id != s0[i as int].page_id);
                        } else {
                            assert(s0[i as int].page_id != s0[j].page_id);
                        }
                    }
                    lemma_semantic_total_remove(s0, i as int);
                    lemma_unique_remove(s0, i as int);
                    lemma_semantic_size_pos(s0[i as int]);
                    lemma_semantic_total_nonneg(s0.remove(i as int));
                }
                let b = self.semantic_cache.remove(i);
                let old_size = block_size(&b);
                self.semantic_memory_usage = (self.semantic_memory_usage as u128 - old_size) as usize;
                taken = Some((i, b));
            },
            None => {},
        }
        let ghost rest = self.semantic_cache@;
        assert(rest == semantic_without(s0, block.page_id));
        assert(forall|j: int| 0 <= j < rest.len() ==> (#[trigger] rest[j]).page_id != block.page_id) by {
            if pos.is_none() {
                assert(semantic_index(s0, block.page_id).is_none());
            }
        }
        if self.semantic_memory_usage as u128 + size > self.max_semantic_memory as u128 {
            let needed = self.semantic_memory_usage as u128 + size - self.max_semantic_memory as u128;
            match self.evict_semantic_lru(needed, now) {
                Err(e) => {
                    match taken {
                        Some((i, b)) => {
                            let bs = block_size(&b);
                            proof {
                                lemma_semantic_total_remove(s0, i as int);
                            }
                            self.semantic_memory_usage = (self.semantic_memory_usage as u128 + bs) as usize;
                            self.semantic_cache.insert(i, b);
                            assert(self.semantic_cache@ =~= s0);
                        },
                        None => {},
                    }
                    return Err(e);
                },
                Ok(()) => {
                    proof {
                        let m = choose|m: Seq<bool>|
                            eviction_choice(rest, m, needed as int, now) && #[trigger] keep(rest, m)
                                == self.semantic_cache@;
                        lemma_keep_total(rest, m);
                    }
                },
            }
        } else {
            proof {
                assert(keep(rest, Seq::new(rest.len(), |k: int| false)) == rest) by {
                    lemma_keep_none(rest);
                }
            }
        }
        let ghost kept = self.semantic_cache@;
        self.semantic_memory_usage = (self.semantic_memory_usage as u128 + size) as usize;
        self.semantic_cache.push(block);
        proof {
            let s1 = self.semantic_cache@;
            assert(s1.drop_last() =~= kept);
            assert(forall|j: int| 0 <= j < kept.len() ==> (#[trigger] kept[j]).page_id != block.page_id) by {
                if rest.len() > 0 && kept != rest {
                    let m = choose|m: Seq<bool>|
                        eviction_choice(rest, m, semantic_needed(rest, semantic_size(block), old(self).spec_semantic_limit()), now)
                            && #[trigger] keep(rest, m) == kept;
                    lemma_keep_members(rest, m);
                    assert forall|j: int| 0 <= j < kept.len() implies (#[trigger] kept[j]).page_id != block.page_id by {
                        let k = choose|k: int| 0 <= k < rest.len() && !m[k] && #[trigger] keep(rest, m)[j] == rest[k];
                        assert(rest[k].page_id != block.page_id);
                    }
                }
            }
            assert forall|a: int, b: int| 0 <= a < b < s1.len() implies (#[trigger] s1[a]).page_id
                != (#[trigger] s1[b]).page_id by {
                if b == s1.len() - 1 {
                    assert(s1[a] == kept[a]);
                } else {
                    assert(s1[a] == kept[a] && s1[b] == kept[b]);
                }
            }
        }
        Ok(())
    }
}

proof fn lemma_keep_none(s: Seq<SemanticBlock>)
    ensures
        keep(s, Seq::new(s.len(), |k: int| false)) == s,
    decreases s.len(),
{
    if s.len() > 0 {
        let n = s.len() - 1;
        assert(Seq::new(s.len(), |k: int| false).subrange(0, n) =~= Seq::new(n as nat, |k: int| false));
        lemma_keep_none(s.drop_last());
        assert(s.drop_last().push(s.last()) =~= s);
    } else {
        assert(s =~= Seq::<SemanticBlock>::empty());
    }
}

proof fn lemma_semantic_total_nonneg(s: Seq<SemanticBlock>)
    ensures
        semantic_total(s) >= 0,
    decreases s.len(),
{
    if s.len() > 0 {
        lemma_semantic_total_nonneg(s.drop_last());
        lemma_semantic_size_pos(s.last());
    }
}

impl CacheRegistry {
    /// Looks up the L1 block for `page_id` at `now`. A hit returns the block
    /// and marks it accessed at `now`; a miss changes nothing.
    pub fn get_semantic_at(&mut self, page_id: u32, now: u64) -> (r: Option<SemanticBlock>)
        requires
            old(self).wf(),
        ensures
            final(self).wf(),
            final(self).spec_images() == old(self).spec_images(),
            final(self).spec_image_usage() == old(self).spec_image_usage(),
            final(self).spec_semantic_usage() == old(self).spec_semantic_usage(),
            final(self).spec_image_limit() == old(self).spec_image_limit(),
            final(self).spec_semantic_limit() == old(self).spec_semantic_limit(),
            match semantic_index(old(self).spec_semantic(), page_id) {
                None => r.is_none() && final(self).spec_semantic() == old(self).spec_semantic(),
                Some(i) => {
                    let b = old(self).spec_semantic()[i];
                    &&& r matches Some(x) && x.page_id == b.page_id && x.content == b.content
                        && x.bbox_metadata@ == b.bbox_metadata@ && x.last_accessed == b.last_accessed
                        && x.is_verified == b.is_verified && x.user_pinned == b.user_pinned
                    &&& final(self).spec_semantic() == old(self).spec_semantic().update(i, touched(b, now))
                },
            },
    {
        match self.find_semantic(page_id) {
            None => None,
            Some(i) => {
                let ghost s0 = self.semantic_cache@;
                proof {
                    let j = choose|j: int| 0 <= j < s0.len() && (#[trigger] s0[j]).page_id == page_id;
                    if j != i as int {
                        if j < i as int {
                            assert(s0[j].page_id != s0[i as int].page_id);
                        } else {
                            assert(s0[i as int].page_id != s0[j].page_id);
                        }
                    }
                }
                let copy = self.semantic_cache[i].duplicate();
                let mut b = self.semantic_cache.remove(i);
                b.last_accessed = now;
                self.semantic_cache.insert(i, b);
                proof {
                    assert(self.semantic_cache@ =~= s0.update(i as int, touched(s0[i as int], now)));
                    lemma_semantic_total_update(s0, i as int, touched(s0[i as int], now));
                    let s1 = self.semantic_cache@;
                    assert forall|a: int, c: int| 0 <= a < c < s1.len() implies (#[trigger] s1[a]).page_id
                        != (#[trigger] s1[c]).page_id by {
                        assert(s1[a].page_id == s0[a].page_id && s1[c].page_id == s0[c].page_id);
                    }
                }
                Some(copy)
            },
        }
    }

    /// Looks up the L1 block for `page_id` now; see `get_semantic_at`.
    pub fn get_semantic(&mut self, page_id: u32) -> (r: Option<SemanticBlock>)
        requires
            old(self).wf(),
        ensures
            final(self).wf(),
            final(self).spec_images() == old(self).spec_images(),
            final(self).spec_image_usage() == old(self).spec_image_usage(),
            final(self).spec_semantic_usage() == old(self).spec_semantic_usage(),
            final(self).spec_image_limit() == old(self).spec_image_limit(),
            final(self).spec_semantic_limit() == old(self).spec_semantic_limit(),
            match semantic_index(old(self).spec_semantic(), page_id) {
                None => r.is_none() && final(self).spec_semantic() == old(self).spec_semantic(),
                Some(i) => {
                    let b = old(self).spec_semantic()[i];
                    &&& r matches Some(x) && x.page_id == b.page_id && x.content == b.content
                        && x.bbox_metadata@ == b.bbox_metadata@ && x.last_accessed == b.last_accessed
                        && x.is_verified == b.is_verified && x.user_pinned == b.user_pinned
                    &&& exists|t: u64| #[trigger] touched(b, t) == final(self).spec_semantic()[i]
                        && final(self).spec_semantic() == old(self).spec_semantic().update(i, touched(b, t))
                },
            },
    {
        let now = current_timestamp();
        let r = self.get_semantic_at(page_id, now);
        proof {
            match semantic_index(old(self).spec_semantic(), page_id) {
                Some(i) => {
                    assert(touched(old(self).spec_semantic()[i], now) == self.spec_semantic()[i]);
                },
                None => {},
            }
        }
        r
    }

    /// Caches an L1 block now; see `put_semantic_at`.
    pub fn put_semantic(&mut self, block: SemanticBlock) -> (r: Result<(), CacheError>)
        requires
            old(self).wf(),
        ensures
            final(self).wf(),
            final(self).spec_images() == old(self).spec_images(),
            final(self).spec_image_usage() == old(self).spec_image_usage(),
            final(self).spec_image_limit() == old(self).spec_image_limit(),
            final(self).spec_semantic_limit() == old(self).spec_semantic_limit(),
            semantic_size(block) > old(self).spec_semantic_limit() ==> r.is_err(),
            ({
                let rest = semantic_without(old(self).spec_semantic(), block.page_id);
                semantic_needed(rest, semantic_size(block), old(self).spec_semantic_limit()) <= 0
                    && semantic_size(block) <= old(self).spec_semantic_limit() ==> r.is_ok()
                    && final(self).spec_semantic() == rest.push(block)
            }),
            r.is_ok() ==> final(self).spec_semantic().len() > 0 && final(self).spec_semantic().last() == block,
            r.is_err() ==> final(self).spec_semantic() == old(self).spec_semantic(),
    {
        let now = current_timestamp();
        let ghost rest = semantic_without(old(self).spec_semantic(), block.page_id);
        let ghost b = block;
        let r = self.put_semantic_at(block, now);
        proof {
            if r.is_ok() {
                if semantic_needed(rest, semantic_size(b), old(self).spec_semantic_limit()) > 0 {
                    let m = choose|m: Seq<bool>|
                        eviction_choice(rest, m, semantic_needed(rest, semantic_size(b), old(self).spec_semantic_limit()), now)
                            && #[trigger] keep(rest, m).push(b) == self.spec_semantic();
                    assert(keep(rest, m).push(b).last() == b);
                }
            }
        }
        r
    }

    /// Backpressure hook: L1 accepts new work while its usage is below 80% of
    /// its limit.
    pub fn can_accept_semantic_work(&self) -> (r: bool)
        ensures
            r == (5 * self.spec_semantic_usage() < 4 * self.spec_semantic_limit()),
    {
        (self.semantic_memory_usage as u128) * 5 < (self.max_semantic_memory as u128) * 4
    }

    /// Backpressure hook: L2 accepts new work while its usage is below 80% of
    /// its limit.
    pub fn can_accept_image_work(&self) -> (r: bool)
        ensures
            r == (5 * self.spec_image_usage() < 4 * self.spec_image_limit()),
    {
        (self.image_memory_usage as u128) * 5 < (self.max_image_memory as u128) * 4
    }

    /// Bytes in use per tier: (L1, L2).
    pub fn get_memory_stats(&self) -> (r: (usize, usize))
        ensures
            r.0 == self.spec_semantic_usage(),
            r.1 == self.spec_image_usage(),
    {
        (self.semantic_memory_usage, self.image_memory_usage)
    }

    /// The byte limits per tier: (L1, L2).
    pub fn limits(&self) -> (r: (usize, usize))
        ensures
            r.0 == self.spec_semantic_limit(),
            r.1 == self.spec_image_limit(),
    {
        (self.max_semantic_memory, self.max_image_memory)
    }

    /// Empties both tiers.
    pub fn clear(&mut self)
        ensures
            final(self).wf(),
            final(self).spec_semantic().len() == 0,
            final(self).spec_images().len() == 0,
            final(self).spec_semantic_limit() == old(self).spec_semantic_limit(),
            final(self).spec_image_limit() == old(self).spec_image_limit(),
    {
        self.semantic_cache = Vec::new();
        self.image_cache = Vec::new();
        self.semantic_memory_usage = 0;
        self.image_memory_usage = 0;
        assert(self.semantic_cache@.len() == 0);
        assert(self.image_cache@.len() == 0);
    }
}

impl Default for CacheRegistry {
    fn default() -> (r: CacheRegistry)
        ensures
            r.wf(),
    {
        CacheRegistry::new()
    }
}

/// A block just put into L2 is found by the next lookup of its page, when no
/// eviction intervened: after a successful put the block is the most recently
/// used entry and the only one for its page.
pub proof fn lemma_put_then_get_image(rest: Seq<ImageBlock>, block: ImageBlock)
    requires
        forall|j: int| 0 <= j < rest.len() ==> (#[trigger] rest[j]).page_id != block.page_id,
    ensures
        image_index(rest.push(block), block.page_id) == Some(rest.len() as int),
        rest.push(block)[rest.len() as int] == block,
{
    let after = rest.push(block);
    let n = rest.len() as int;
    assert(after[n].page_id == block.page_id);
    let c = choose|c: int| 0 <= c < after.len() && (#[trigger] after[c]).page_id == block.page_id;
    if c != n {
        assert(after[c] == rest[c]);
    }
}

/// A block just put into L1 is found by the next lookup of its page, when no
/// eviction intervened: it is the only entry for its page.
pub proof fn lemma_put_then_get_semantic(rest: Seq<SemanticBlock>, block: SemanticBlock)
    requires
        forall|j: int| 0 <= j < rest.len() ==> (#[trigger] rest[j]).page_id != block.page_id,
    ensures
        semantic_index(rest.push(block), block.page_id) == Some(rest.len() as int),
        rest.push(block)[rest.len() as int] == block,
{
    let after = rest.push(block);
    let n = rest.len() as int;
    assert(after[n].page_id == block.page_id);
    let c = choose|c: int| 0 <= c < after.len() && (#[trigger] after[c]).page_id == block.page_id;
    if c != n {
        assert(after[c] == rest[c]);
    }
}

impl CacheRegistry {
    /// Whether L1 holds a block for `page_id`, without touching it.
    pub fn contains_semantic(&self, page_id: u32) -> (r: bool)
        ensures
            r == semantic_index(self.spec_semantic(), page_id).is_some(),
    {
        self.find_semantic(page_id).is_some()
    }

    /// Whether L2 holds a block for `page_id`, without promoting it.
    pub fn contains_image(&self, page_id: u32) -> (r: bool)
        ensures
            r == image_index(self.spec_images(), page_id).is_some(),
    {
        self.find_image(page_id).is_some()
    }
}

/// Total file size of the L2 blocks of `s` that `m` marks.
pub open spec fn image_masked(s: Seq<ImageBlock>, m: Seq<bool>) -> int
    decreases s.len(),
{
    if s.len() == 0 {
        0
    } else {
        image_masked(s.drop_last(), m.subrange(0, s.len() - 1)) + if m[s.len() - 1] {
            s.last().file_size as int
        } else {
            0
        }
    }
}

/// The mask of the unpinned blocks of `s`.
pub open spec fn unpinned_mask(s: Seq<ImageBlock>) -> Seq<bool> {
    Seq::new(s.len(), |i: int| !s[i].user_pinned)
}

/// The L2 blocks of `s` that `m` does not mark, in order.
pub open spec fn image_keep(s: Seq<ImageBlock>, m: Seq<bool>) -> Seq<ImageBlock>
    decreases s.len(),
{
    if s.len() == 0 {
        Seq::empty()
    } else {
        let k = image_keep(s.drop_last(), m.subrange(0, s.len() - 1));
        if m[s.len() - 1] {
            k
        } else {
            k.push(s.last())
        }
    }
}

/// A valid LRU eviction `m` over the order `s` for `needed` bytes: only
/// unpinned blocks, each evicted block at the head of the order among the
/// unpinned ones (no unpinned block before it is kept), enough bytes, and the
/// last evicted block was needed.
pub open spec fn lru_choice(s: Seq<ImageBlock>, m: Seq<bool>, needed: int) -> bool {
    &&& m.len() == s.len()
    &&& forall|i: int| 0 <= i < s.len() && #[trigger] m[i] ==> !s[i].user_pinned
    &&& forall|i: int, j: int|
        0 <= i < j < s.len() && #[trigger] m[j] && !#[trigger] s[i].user_pinned ==> m[i]
    &&& image_masked(s, m) >= needed
    &&& needed > 0 ==> exists|j: int|
        0 <= j < s.len() && #[trigger] m[j] && image_masked(s, m) - s[j].file_size < needed
            && forall|i: int| j < i < s.len() ==> !#[trigger] m[i]
}

proof fn lemma_image_masked_update(s: Seq<ImageBlock>, m: Seq<bool>, j: int)
    requires
        m.len() == s.len(),
        0 <= j < s.len(),
        !m[j],
    ensures
        image_masked(s, m.update(j, true)) == image_masked(s, m) + s[j].file_size,
    decreases s.len(),
{
    let n = s.len() - 1;
    if j == n {
        assert(m.update(j, true).subrange(0, n) =~= m.subrange(0, n));
    } else {
        lemma_image_masked_update(s.drop_last(), m.subrange(0, n), j);
        assert(m.update(j, true).subrange(0, n) =~= m.subrange(0, n).update(j, true));
    }
}

proof fn lemma_image_masked_mono(s: Seq<ImageBlock>, a: Seq<bool>, b: Seq<bool>)
    requires
        a.len() == s.len(),
        b.len() == s.len(),
        forall|i: int| 0 <= i < s.len() && #[trigger] a[i] ==> b[i],
    ensures
        image_masked(s, a) <= image_masked(s, b),
    decreases s.len(),
{
    if s.len() > 0 {
        let n = s.len() - 1;
        assert forall|i: int| 0 <= i < n && #[trigger] a.subrange(0, n)[i] implies b.subrange(0, n)[i] by {
            assert(a.subrange(0, n)[i] == a[i]);
        }
        lemma_image_masked_mono(s.drop_last(), a.subrange(0, n), b.subrange(0, n));
    }
}

proof fn lemma_image_masked_le_total(s: Seq<ImageBlock>, m: Seq<bool>)
    requires
        m.len() == s.len(),
    ensures
        0 <= image_masked(s, m) <= image_total(s),
    decreases s.len(),
{
    if s.len() > 0 {
        lemma_image_masked_le_total(s.drop_last(), m.subrange(0, s.len() - 1));
    }
}

proof fn lemma_image_masked_zero(s: Seq<ImageBlock>, m: Seq<bool>)
    requires
        m.len() == s.len(),
        forall|k: int| 0 <= k < m.len() ==> !#[trigger] m[k],
    ensures
        image_masked(s, m) == 0,
    decreases s.len(),
{
    if s.len() > 0 {
        lemma_image_masked_zero(s.drop_last(), m.subrange(0, s.len() - 1));
    }
}

proof fn lemma_image_keep_total(s: Seq<ImageBlock>, m: Seq<bool>)
    requires
        m.len() == s.len(),
    ensures
        image_total(image_keep(s, m)) == image_total(s) - image_masked(s, m),
    decreases s.len(),
{
    if s.len() > 0 {
        let k = image_keep(s.drop_last(), m.subrange(0, s.len() - 1));
        lemma_image_keep_total(s.drop_last(), m.subrange(0, s.len() - 1));
        if !m[s.len() - 1] {
            assert(k.push(s.last()).drop_last() =~= k);
        }
    }
}

proof fn lemma_image_keep_members(s: Seq<ImageBlock>, m: Seq<bool>)
    requires
        m.len() == s.len(),
    ensures
        forall|a: int|
            0 <= a < image_keep(s, m).len() ==> exists|k: int|
                0 <= k < s.len() && !m[k] && #[trigger] image_keep(s, m)[a] == s[k],
    decreases s.len(),
{
    if s.len() > 0 {
        let n = s.len() - 1;
        let s0 = s.drop_last();
        let m0 = m.subrange(0, n);
        lemma_image_keep_members(s0, m0);
        let k = image_keep(s0, m0);
        assert forall|a: int| 0 <= a < image_keep(s, m).len() implies exists|j: int|
            0 <= j < s.len() && !m[j] && #[trigger] image_keep(s, m)[a] == s[j] by {
            if a < k.len() {
                let j = choose|j: int| 0 <= j < s0.len() && !m0[j] && #[trigger] k[a] == s0[j];
                assert(image_keep(s, m)[a] == k[a]);
                assert(s[j] == s0[j] && m[j] == m0[j]);
            } else {
                assert(image_keep(s, m)[a] == s[n]);
            }
        }
    }
}

proof fn lemma_image_keep_unique(s: Seq<ImageBlock>, m: Seq<bool>)
    requires
        m.len() == s.len(),
        unique_images(s),
    ensures
        unique_images(image_keep(s, m)),
    decreases s.len(),
{
    if s.len() > 0 {
        let n = s.len() - 1;
        let s0 = s.drop_last();
        let m0 = m.subrange(0, n);
        assert(unique_images(s0)) by {
            assert forall|i: int, j: int| 0 <= i < j < s0.len() implies (#[trigger] s0[i]).page_id
                != (#[trigger] s0[j]).page_id by {
                assert(s0[i] == s[i] && s0[j] == s[j]);
            }
        }
        lemma_image_keep_unique(s0, m0);
        lemma_image_keep_members(s0, m0);
        let k = image_keep(s0, m0);
        if !m[n] {
            let r = k.push(s[n]);
            assert forall|a: int, b: int| 0 <= a < b < r.len() implies (#[trigger] r[a]).page_id
                != (#[trigger] r[b]).page_id by {
                if b == r.len() - 1 {
                    let j = choose|j: int| 0 <= j < s0.len() && !m0[j] && #[trigger] k[a] == s0[j];
                    assert(r[a] == s[j]);
                } else {
                    assert(r[a] == k[a] && r[b] == k[b]);
                }
            }
        }
    }
}

proof fn lemma_image_keep_none(s: Seq<ImageBlock>)
    ensures
        image_keep(s, Seq::new(s.len(), |k: int| false)) == s,
    decreases s.len(),
{
    if s.len() > 0 {
        let n = s.len() - 1;
        assert(Seq::new(s.len(), |k: int| false).subrange(0, n) =~= Seq::new(n as nat, |k: int| false));
        lemma_image_keep_none(s.drop_last());
        assert(s.drop_last().push(s.last()) =~= s);
    } else {
        assert(s =~= Seq::<ImageBlock>::empty());
    }
}

proof fn lemma_unique_images_remove(s: Seq<ImageBlock>, i: int)
    requires
        0 <= i < s.len(),
        unique_images(s),
    ensures
        unique_images(s.remove(i)),
        forall|j: int| 0 <= j < s.remove(i).len() ==> (#[trigger] s.remove(i)[j]).page_id != s[i].page_id,
{
    let r = s.remove(i);
    assert forall|a: int, b: int| 0 <= a < b < r.len() implies (#[trigger] r[a]).page_id
        != (#[trigger] r[b]).page_id by {
        if a >= i {
            assert(r[a] == s[a + 1] && r[b] == s[b + 1]);
        } else if b >= i {
            assert(r[a] == s[a] && r[b] == s[b + 1]);
        } else {
            assert(r[a] == s[a] && r[b] == s[b]);
        }
    }
    assert forall|j: int| 0 <= j < r.len() implies (#[trigger] r[j]).page_id != s[i].page_id by {
        if j >= i {
            assert(r[j] == s[j + 1]);
        } else {
            assert(r[j] == s[j]);
        }
    }
}

/// Chooses the unpinned L2 blocks to evict for `needed` bytes: from the head
/// of the order, until enough is freed. Returns the choice and the bytes it
/// frees; `None` when all unpinned blocks together are not enough.
fn plan_image_eviction(s: &Vec<ImageBlock>, needed: u128) -> (r: Option<(Vec<bool>, u128)>)
    requires
        needed > 0,
        image_total(s@) <= usize::MAX,
    ensures
        match r {
            Some((m, freed)) => lru_choice(s@, m@, needed as int) && freed == image_masked(s@, m@),
            None => image_masked(s@, unpinned_mask(s@)) < needed,
        },
{
    let n = s.len();
    let mut chosen: Vec<bool> = Vec::new();
    let mut k: usize = 0;
    while k < n
        invariant
            n == s@.len(),
            k <= n,
            chosen@.len() == k,
            forall|j: int| 0 <= j < k ==> !#[trigger] chosen@[j],
        decreases n - k,
    {
        chosen.push(false);
        k = k + 1;
    }
    proof {
        lemma_image_masked_zero(s@, chosen@);
    }
    let mut freed: u128 = 0;
    let mut i: usize = 0;
    while i < n
        invariant
            n == s@.len(),
            i <= n,
            chosen@.len() == n,
            needed > 0,
            image_total(s@) <= usize::MAX,
            freed as int == image_masked(s@, chosen@),
            freed < needed,
            forall|j: int| 0 <= j < i ==> #[trigger] chosen@[j] == !s@[j].user_pinned,
            forall|j: int| i <= j < n ==> !#[trigger] chosen@[j],
        decreases n - i,
    {
        if !s[i].user_pinned {
            proof {
                lemma_image_masked_update(s@, chosen@, i as int);
                lemma_image_masked_le_total(s@, chosen@.update(i as int, true));
            }
            let ghost before = chosen@;
            chosen.set(i, true);
            freed = freed + s[i].file_size as u128;
            if freed >= needed {
                proof {
                    let m = chosen@;
                    assert forall|a: int, b: int|
                        0 <= a < b < s@.len() && #[trigger] m[b] && !#[trigger] s@[a].user_pinned implies m[a] by {
                        if b < i {
                            assert(before[a]);
                        } else {
                            assert(a < i || a == i);
                        }
                    }
                    assert(m[i as int]);
                    assert forall|c: int| i < c < s@.len() implies !#[trigger] m[c] by {
                        assert(!before[c]);
                    }
                }
                return Some((chosen, freed));
            }
        }
        i = i + 1;
    }
    proof {
        assert(chosen@ =~= unpinned_mask(s@));
    }
    None
}

} // verus!
