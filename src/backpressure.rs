use vstd::prelude::*;

use crate::cache::CacheRegistry;
use crate::court::PPM;
use crate::text::current_timestamp;

verus! {

/// Which extraction a work item asks for.
#[derive(Debug, Clone, Copy, PartialEq, Eq, Structural)]
pub enum WorkType {
    SemanticExtraction,
    ImageRendering,
    Both,
}

/// One unit of extraction work.
#[derive(Debug, Clone, Copy, PartialEq, Eq, Structural)]
pub struct WorkItem {
    pub page_id: u32,
    pub work_type: WorkType,
    /// In millionths; higher runs first.
    pub priority: u64,
    /// Submission time, UNIX seconds.
    pub created_at: u64,
    pub backpressure_sensitive: bool,
}

/// Why a work item was not accepted.
#[derive(Debug, Clone, Copy, PartialEq, Eq, Structural)]
pub enum BackpressureError {
    Rejected,
}

/// Controller counters.
#[derive(Debug, Clone)]
pub struct BackpressureStats {
    pub active_workers: usize,
    pub worker_limit: usize,
    pub queue_size: usize,
    /// Cache memory in use over the cache's total limit, in millionths.
    pub memory_pressure: u64,
    pub total_processed: usize,
    pub rejected_due_to_pressure: usize,
}

/// Queue length above which new work is rejected and workers are cut.
pub const QUEUE_PRESSURE_THRESHOLD: usize = 20;

/// Seconds between two adjustments of the worker limit.
pub const ADJUST_INTERVAL_SECONDS: u64 = 5;

/// Bytes in use in both tiers.
pub open spec fn cache_used(cache: CacheRegistry) -> int {
    cache.spec_semantic_usage() + cache.spec_image_usage()
}

/// Bytes allowed in both tiers.
pub open spec fn cache_capacity(cache: CacheRegistry) -> int {
    cache.spec_semantic_limit() + cache.spec_image_limit()
}

/// Memory pressure above 0.85.
pub open spec fn pressure_above_085(cache: CacheRegistry) -> bool {
    20 * cache_used(cache) > 17 * cache_capacity(cache)
}

/// Memory pressure above 0.9.
pub open spec fn pressure_above_09(cache: CacheRegistry) -> bool {
    10 * cache_used(cache) > 9 * cache_capacity(cache)
}

/// Memory pressure below 0.6.
pub open spec fn pressure_below_06(cache: CacheRegistry) -> bool {
    5 * cache_used(cache) < 3 * cache_capacity(cache)
}

/// Whether the tier a work type needs accepts work (usage below 80%).
pub open spec fn tiers_accept(t: WorkType, cache: CacheRegistry) -> bool {
    let semantic = 5 * cache.spec_semantic_usage() < 4 * cache.spec_semantic_limit();
    let image = 5 * cache.spec_image_usage() < 4 * cache.spec_image_limit();
    match t {
        WorkType::SemanticExtraction => semantic,
        WorkType::ImageRendering => image,
        WorkType::Both => semantic && image,
    }
}

/// Inserts `w` after every item of at least its priority.
pub open spec fn insert_work(q: Seq<WorkItem>, w: WorkItem) -> Seq<WorkItem>
    decreases q.len(),
{
    if q.len() == 0 {
        seq![w]
    } else if q.last().priority >= w.priority {
        q.push(w)
    } else {
        insert_work(q.drop_last(), w).push(q.last())
    }
}

/// Items in non-increasing priority order.
pub open spec fn work_by_priority(q: Seq<WorkItem>) -> bool {
    forall|i: int, j: int| 0 <= i < j < q.len() ==> (#[trigger] q[i]).priority >= (#[trigger] q[j]).priority
}

proof fn lemma_insert_work_sorted(q: Seq<WorkItem>, w: WorkItem)
    requires
        work_by_priority(q),
    ensures
        work_by_priority(insert_work(q, w)),
        insert_work(q, w).len() == q.len() + 1,
        forall|i: int| 0 <= i < insert_work(q, w).len() ==> (#[trigger] insert_work(q, w)[i]).priority
            >= if q.len() > 0 && q.last().priority < w.priority { q.last().priority } else { 0 },
    decreases q.len(),
{
    if q.len() == 0 {
    } else if q.last().priority >= w.priority {
    } else {
        let q0 = q.drop_last();
        assert(work_by_priority(q0));
        lemma_insert_work_sorted(q0, w);
        let ins = insert_work(q0, w);
        assert forall|i: int| 0 <= i < ins.len() implies (#[trigger] ins[i]).priority >= q.last().priority by {
            if q0.len() > 0 && q0.last().priority < w.priority {
                assert(q0.last().priority >= q.last().priority);
            } else if q0.len() == 0 {
                assert(ins[i] == w);
            } else if i < q0.len() {
                assert(ins[i] == q0[i]);
                assert(q[i].priority >= q[q.len() - 1].priority);
            } else {
                assert(ins[i] == w);
            }
        }
    }
}

/// Bounds in-flight extraction work and adapts the worker limit to memory
/// and queue pressure. Workers are run by its host, which reports their
/// start and end.
#[derive(Debug, Clone)]
pub struct BackpressureController {
    work_queue: Vec<WorkItem>,
    active_workers: usize,
    max_concurrent_workers: usize,
    current_worker_limit: usize,
    last_adjustment: u64,
    total_processed: usize,
    rejected_due_to_pressure: usize,
}

impl BackpressureController {
    pub closed spec fn spec_queue(&self) -> Seq<WorkItem> {
        self.work_queue@
    }

    pub closed spec fn spec_active(&self) -> int {
        self.active_workers as int
    }

    pub closed spec fn spec_limit(&self) -> int {
        self.current_worker_limit as int
    }

    pub closed spec fn spec_max_workers(&self) -> int {
        self.max_concurrent_workers as int
    }

    pub closed spec fn spec_rejected(&self) -> int {
        self.rejected_due_to_pressure as int
    }

    pub closed spec fn spec_processed(&self) -> int {
        self.total_processed as int
    }

    pub closed spec fn spec_last_adjustment(&self) -> u64 {
        self.last_adjustment
    }

    /// The limit stays between one and the maximum, and the queue is ordered
    /// by priority.
    pub open spec fn wf(&self) -> bool {
        &&& 1 <= self.spec_limit() <= self.spec_max_workers()
        &&& work_by_priority(self.spec_queue())
    }

    /// A controller created at `now`: limit 4 of at most 8 workers, nothing
    /// queued or running.
    pub fn new_at(now: u64) -> (r: BackpressureController)
        ensures
            r.wf(),
            r.spec_queue().len() == 0,
            r.spec_active() == 0,
            r.spec_limit() == 4,
            r.spec_max_workers() == 8,
            r.spec_rejected() == 0,
            r.spec_processed() == 0,
            r.spec_last_adjustment() == now,
    {
        BackpressureController {
            work_queue: Vec::new(),
            active_workers: 0,
            max_concurrent_workers: 8,
            current_worker_limit: 4,
            last_adjustment: now,
            total_processed: 0,
            rejected_due_to_pressure: 0,
        }
    }

    /// A controller created now; see `new_at`.
    pub fn new() -> (r: BackpressureController)
        ensures
            r.wf(),
            r.spec_queue().len() == 0,
            r.spec_active() == 0,
            r.spec_limit() == 4,
            r.spec_max_workers() == 8,
    {
        let now = current_timestamp();
        BackpressureController::new_at(now)
    }

    /// Whether `work_item` must be rejected now: memory pressure above 0.85,
    /// more than 20 queued, a needed tier at 80% or more, or every allowed
    /// worker busy.
    pub fn should_reject_work(&self, work_item: &WorkItem, cache: &CacheRegistry) -> (r: bool)
        ensures
            r == (pressure_above_085(*cache) || self.spec_queue().len() > QUEUE_PRESSURE_THRESHOLD
                || !tiers_accept(work_item.work_type, *cache) || self.spec_active() >= self.spec_limit()),
    {
        let (semantic_used, image_used) = cache.get_memory_stats();
        let (semantic_limit, image_limit) = cache.limits();
        let used = semantic_used as u128 + image_used as u128;
        let capacity = semantic_limit as u128 + image_limit as u128;
        if 20 * used > 17 * capacity {
            return true;
        }
        if self.work_queue.len() > QUEUE_PRESSURE_THRESHOLD {
            return true;
        }
        let accepts = match work_item.work_type {
            WorkType::SemanticExtraction => cache.can_accept_semantic_work(),
            WorkType::ImageRendering => cache.can_accept_image_work(),
            WorkType::Both => cache.can_accept_semantic_work() && cache.can_accept_image_work(),
        };
        if !accepts {
            return true;
        }
        self.active_workers >= self.current_worker_limit
    }

    /// Admits `work_item` into the queue, in priority order after items of
    /// equal priority, unless `should_reject_work` holds; a rejection is
    /// counted and changes nothing else.
    pub fn submit_work(&mut self, work_item: WorkItem, cache: &CacheRegistry) -> (r: Result<(), BackpressureError>)
        requires
            old(self).wf(),
        ensures
            final(self).wf(),
            r.is_err() <==> (pressure_above_085(*cache) || old(self).spec_queue().len() > QUEUE_PRESSURE_THRESHOLD
                || !tiers_accept(work_item.work_type, *cache) || old(self).spec_active() >= old(self).spec_limit()),
            // an accepted item saw pressure at most 0.85 and a free worker slot
            r.is_ok() ==> !pressure_above_085(*cache) && old(self).spec_active() < old(self).spec_limit(),
            r.is_ok() ==> final(self).spec_queue() == insert_work(old(self).spec_queue(), work_item)
                && final(self).spec_rejected() == old(self).spec_rejected(),
            r.is_err() ==> final(self).spec_queue() == old(self).spec_queue() && final(self).spec_rejected()
                == if old(self).spec_rejected() == usize::MAX { old(self).spec_rejected() } else { old(self).spec_rejected() + 1 },
            final(self).spec_active() == old(self).spec_active(),
            final(self).spec_limit() == old(self).spec_limit(),
            final(self).spec_max_workers() == old(self).spec_max_workers(),
            final(self).spec_processed() == old(self).spec_processed(),
            final(self).spec_last_adjustment() == old(self).spec_last_adjustment(),
    {
        if self.should_reject_work(&work_item, cache) {
            if self.rejected_due_to_pressure < usize::MAX {
                self.rejected_due_to_pressure = self.rejected_due_to_pressure + 1;
            }
            return Err(BackpressureError::Rejected);
        }
        let ghost q0 = self.work_queue@;
        let mut k: usize = self.work_queue.len();
        assert(q0.subrange(k as int, q0.len() as int) =~= Seq::<WorkItem>::empty());
        assert(q0.subrange(0, k as int) =~= q0);
        while k > 0 && self.work_queue[k - 1].priority < work_item.priority
            invariant
                self.work_queue@ == q0,
                k <= q0.len(),
                insert_work(q0, work_item) == insert_work(q0.subrange(0, k as int), work_item) + q0.subrange(
                    k as int,
                    q0.len() as int,
                ),
            decreases k,
        {
            let ghost pre = q0.subrange(0, k as int);
            assert(pre.drop_last() =~= q0.subrange(0, k - 1));
            assert(q0.subrange(k - 1, q0.len() as int) =~= seq![pre.last()] + q0.subrange(k as int, q0.len() as int));
            assert(insert_work(pre.drop_last(), work_item).push(pre.last()) + q0.subrange(k as int, q0.len() as int)
                =~= insert_work(pre.drop_last(), work_item) + q0.subrange(k - 1, q0.len() as int));
            k = k - 1;
        }
        self.work_queue.insert(k, work_item);
        proof {
            let pre = q0.subrange(0, k as int);
            if k == 0 {
                assert(insert_work(pre, work_item) == seq![work_item]);
            } else {
                assert(insert_work(pre, work_item) == pre.push(work_item));
            }
            assert(self.work_queue@ =~= insert_work(pre, work_item) + q0.subrange(k as int, q0.len() as int));
            lemma_insert_work_sorted(q0, work_item);
        }
        Ok(())
    }
}

/// The worker limit after an adjustment under the given pressure.
pub open spec fn adjusted_limit(
    limit: int,
    max_workers: int,
    active: int,
    queue_len: int,
    cache: CacheRegistry,
) -> int {
    if pressure_above_09(cache) || queue_len > QUEUE_PRESSURE_THRESHOLD {
        if limit / 2 >= 1 {
            limit / 2
        } else {
            1
        }
    } else if pressure_below_06(cache) && queue_len < 5 && active == limit {
        if limit + 1 <= max_workers {
            limit + 1
        } else {
            max_workers
        }
    } else {
        limit
    }
}

impl BackpressureController {
    /// Whether the host should start another worker: a slot is free and work
    /// is queued.
    pub fn should_spawn_worker(&self) -> (r: bool)
        ensures
            r == (self.spec_active() < self.spec_limit() && self.spec_queue().len() > 0),
    {
        self.active_workers < self.current_worker_limit && self.work_queue.len() > 0
    }

    /// The host started a worker.
    pub fn worker_started(&mut self)
        requires
            old(self).spec_active() < usize::MAX,
        ensures
            final(self).spec_active() == old(self).spec_active() + 1,
            final(self).spec_queue() == old(self).spec_queue(),
            final(self).spec_limit() == old(self).spec_limit(),
            final(self).spec_max_workers() == old(self).spec_max_workers(),
            final(self).spec_rejected() == old(self).spec_rejected(),
            final(self).spec_processed() == old(self).spec_processed(),
            final(self).spec_last_adjustment() == old(self).spec_last_adjustment(),
    {
        self.active_workers = self.active_workers + 1;
    }

    /// A worker takes the highest priority item, if any.
    pub fn next_work(&mut self) -> (r: Option<WorkItem>)
        requires
            old(self).wf(),
        ensures
            final(self).wf(),
            old(self).spec_queue().len() == 0 ==> r.is_none() && final(self).spec_queue() == old(self).spec_queue(),
            old(self).spec_queue().len() > 0 ==> r == Some(old(self).spec_queue()[0]) && final(self).spec_queue()
                == old(self).spec_queue().subrange(1, old(self).spec_queue().len() as int),
            final(self).spec_active() == old(self).spec_active(),
            final(self).spec_limit() == old(self).spec_limit(),
            final(self).spec_max_workers() == old(self).spec_max_workers(),
            final(self).spec_rejected() == old(self).spec_rejected(),
            final(self).spec_processed() == old(self).spec_processed(),
            final(self).spec_last_adjustment() == old(self).spec_last_adjustment(),
    {
        if self.work_queue.len() == 0 {
            return None;
        }
        let ghost q0 = self.work_queue@;
        let item = self.work_queue.remove(0);
        assert(self.work_queue@ =~= q0.subrange(1, q0.len() as int));
        proof {
            let q = self.work_queue@;
            assert forall|i: int, j: int| 0 <= i < j < q.len() implies (#[trigger] q[i]).priority >= (#[trigger] q[j]).priority by {
                assert(q[i] == q0[i + 1] && q[j] == q0[j + 1]);
            }
        }
        Some(item)
    }

    /// A worker finished one item.
    pub fn work_completed(&mut self)
        ensures
            final(self).spec_processed() == if old(self).spec_processed() == usize::MAX {
                old(self).spec_processed()
            } else {
                old(self).spec_processed() + 1
            },
            final(self).spec_queue() == old(self).spec_queue(),
            final(self).spec_active() == old(self).spec_active(),
            final(self).spec_limit() == old(self).spec_limit(),
            final(self).spec_max_workers() == old(self).spec_max_workers(),
            final(self).spec_rejected() == old(self).spec_rejected(),
            final(self).spec_last_adjustment() == old(self).spec_last_adjustment(),
    {
        if self.total_processed < usize::MAX {
            self.total_processed = self.total_processed + 1;
        }
    }

    /// A worker found the queue empty and stopped.
    pub fn worker_finished(&mut self)
        requires
            old(self).spec_active() > 0,
        ensures
            final(self).spec_active() == old(self).spec_active() - 1,
            final(self).spec_queue() == old(self).spec_queue(),
            final(self).spec_limit() == old(self).spec_limit(),
            final(self).spec_max_workers() == old(self).spec_max_workers(),
            final(self).spec_rejected() == old(self).spec_rejected(),
            final(self).spec_processed() == old(self).spec_processed(),
            final(self).spec_last_adjustment() == old(self).spec_last_adjustment(),
    {
        self.active_workers = self.active_workers - 1;
    }

    /// One tick of the adaptive loop at `now`. Within five seconds of the
    /// last adjustment nothing changes. Otherwise: memory pressure above 0.9
    /// or more than 20 queued halves the limit (at least one); pressure below
    /// 0.6 with fewer than five queued and every allowed worker busy raises it
    /// by one (at most the maximum); else it stays. Returns whether the tick
    /// was taken.
    pub fn adjust_worker_limits_at(&mut self, cache: &CacheRegistry, now: u64) -> (r: bool)
        requires
            old(self).wf(),
        ensures
            final(self).wf(),
            r == (now >= old(self).spec_last_adjustment() && now - old(self).spec_last_adjustment() >= ADJUST_INTERVAL_SECONDS),
            !r ==> *final(self) == *old(self),
            r ==> final(self).spec_last_adjustment() == now && final(self).spec_limit() == adjusted_limit(
                old(self).spec_limit(),
                old(self).spec_max_workers(),
                old(self).spec_active(),
                old(self).spec_queue().len() as int,
                *cache,
            ),
            final(self).spec_queue() == old(self).spec_queue(),
            final(self).spec_active() == old(self).spec_active(),
            final(self).spec_max_workers() == old(self).spec_max_workers(),
            final(self).spec_rejected() == old(self).spec_rejected(),
            final(self).spec_processed() == old(self).spec_processed(),
    {
        if now < self.last_adjustment || now - self.last_adjustment < ADJUST_INTERVAL_SECONDS {
            return false;
        }
        self.last_adjustment = now;
        let (semantic_used, image_used) = cache.get_memory_stats();
        let (semantic_limit, image_limit) = cache.limits();
        let used = semantic_used as u128 + image_used as u128;
        let capacity = semantic_limit as u128 + image_limit as u128;
        let queue_len = self.work_queue.len();
        let limit = self.current_worker_limit;
        if 10 * used > 9 * capacity || queue_len > QUEUE_PRESSURE_THRESHOLD {
            self.current_worker_limit = if limit / 2 >= 1 {
                limit / 2
            } else {
                1
            };
        } else if 5 * used < 3 * capacity && queue_len < 5 && self.active_workers == limit {
            self.current_worker_limit = if limit < self.max_concurrent_workers {
                limit + 1
            } else {
                self.max_concurrent_workers
            };
        }
        true
    }

    /// One tick of the adaptive loop now; see `adjust_worker_limits_at`.
    pub fn adjust_worker_limits(&mut self, cache: &CacheRegistry) -> (r: bool)
        requires
            old(self).wf(),
        ensures
            final(self).wf(),
            !r ==> *final(self) == *old(self),
            r ==> final(self).spec_limit() == adjusted_limit(
                old(self).spec_limit(),
                old(self).spec_max_workers(),
                old(self).spec_active(),
                old(self).spec_queue().len() as int,
                *cache,
            ),
            final(self).spec_queue() == old(self).spec_queue(),
            final(self).spec_active() == old(self).spec_active(),
            final(self).spec_max_workers() == old(self).spec_max_workers(),
            final(self).spec_rejected() == old(self).spec_rejected(),
            final(self).spec_processed() == old(self).spec_processed(),
    {
        let now = current_timestamp();
        self.adjust_worker_limits_at(cache, now)
    }

    /// Current counters; memory pressure in millionths of the cache's total
    /// limit (0 for a cache that allows nothing).
    pub fn get_backpressure_stats(&self, cache: &CacheRegistry) -> (r: BackpressureStats)
        ensures
            r.active_workers == self.spec_active(),
            r.worker_limit == self.spec_limit(),
            r.queue_size == self.spec_queue().len(),
            r.total_processed == self.spec_processed(),
            r.rejected_due_to_pressure == self.spec_rejected(),
            cache_capacity(*cache) > 0 && cache_used(*cache) <= cache_capacity(*cache) ==> r.memory_pressure
                == cache_used(*cache) * (PPM as int) / cache_capacity(*cache),
    {
        let (semantic_used, image_used) = cache.get_memory_stats();
        let (semantic_limit, image_limit) = cache.limits();
        let used = semantic_used as u128 + image_used as u128;
        let capacity = semantic_limit as u128 + image_limit as u128;
        let pressure: u64 = if capacity == 0 || used > capacity {
            if capacity == 0 { 0 } else { PPM }
        } else {
            proof {
                vstd::arithmetic::mul::lemma_mul_inequality(used as int, capacity as int, PPM as int);
                vstd::arithmetic::div_mod::lemma_div_is_ordered((used * PPM as u128) as int, (capacity * PPM as u128) as int, capacity as int);
                vstd::arithmetic::div_mod::lemma_div_multiples_vanish(PPM as int, capacity as int);
                assert(capacity * PPM == PPM * capacity) by (nonlinear_arith);
                assert(used * PPM == PPM * used) by (nonlinear_arith);
            }
            (used * PPM as u128 / capacity) as u64
        };
        BackpressureStats {
            active_workers: self.active_workers,
            worker_limit: self.current_worker_limit,
            queue_size: self.work_queue.len(),
            memory_pressure: pressure,
            total_processed: self.total_processed,
            rejected_due_to_pressure: self.rejected_due_to_pressure,
        }
    }
}

} // verus!
