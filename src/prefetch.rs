use vstd::prelude::*;

use crate::cache::{image_index, semantic_index, CacheRegistry};
use crate::court::PPM;
use crate::text::current_timestamp;

verus! {

/// What the user is looking at and how fast they move.
#[derive(Debug, Clone, Copy)]
pub struct UserIntent {
    pub current_page: u32,
    /// Pages per second; positive when scrolling forward.
    pub scroll_velocity: i64,
    /// First and last page in view.
    pub viewport_range: (u32, u32),
    pub last_updated: u64,
}

/// Which tiers a prefetch should warm.
#[derive(Debug, Clone, Copy, PartialEq, Eq, Structural)]
pub enum PrefetchType {
    Semantic,
    Image,
    Both,
}

/// One page to warm, with its priority in millionths.
#[derive(Debug, Clone, Copy, PartialEq, Eq, Structural)]
pub struct PrefetchRequest {
    pub page_id: u32,
    pub priority: u64,
    pub request_type: PrefetchType,
}

/// Queue and intent counters.
#[derive(Debug, Clone)]
pub struct PrefetchStats {
    pub queue_size: usize,
    pub current_page: u32,
    pub scroll_velocity: i64,
    pub semantic_memory_usage: usize,
    pub image_memory_usage: usize,
}

/// Pages behind the current one that are considered.
pub const WINDOW_BEHIND: u32 = 10;

/// Pages ahead of the current one that are considered.
pub const WINDOW_AHEAD: u32 = 20;

/// Seconds over which an intent's weight decays to zero.
pub const INTENT_DECAY_SECONDS: u64 = 3600;

pub open spec fn abs_diff(a: int, b: int) -> int {
    if a >= b {
        a - b
    } else {
        b - a
    }
}

/// `1 / (1 + 0.1·d)` in millionths.
pub open spec fn proximity_score(d: int) -> int {
    10_000_000int / (10 + d)
}

/// The velocity term: for a forward velocity, closeness to the page two
/// seconds ahead, `1 / (1 + 0.05·d)`; otherwise the proximity.
pub open spec fn velocity_score(page: u32, intent: UserIntent) -> int {
    if intent.scroll_velocity > 0 {
        let predicted = intent.current_page + 2 * intent.scroll_velocity;
        20_000_000int / (20 + abs_diff(page as int, predicted))
    } else {
        proximity_score(abs_diff(page as int, intent.current_page as int))
    }
}

/// One inside the viewport, `1 / (1 + 0.2·d)` at distance `d` outside it.
pub open spec fn viewport_score(page: u32, intent: UserIntent) -> int {
    let (start, end) = intent.viewport_range;
    if start <= page && page <= end {
        PPM as int
    } else if page < start {
        5_000_000int / (5 + (start as int - page as int))
    } else {
        5_000_000int / (5 + (page as int - end as int))
    }
}

/// `1 - min(1, elapsed / 3600)` in millionths.
pub open spec fn time_factor(intent: UserIntent, now: u64) -> int {
    let elapsed = if now >= intent.last_updated {
        now - intent.last_updated
    } else {
        0
    };
    if elapsed >= INTENT_DECAY_SECONDS {
        0
    } else {
        PPM - elapsed * (PPM as int) / (INTENT_DECAY_SECONDS as int)
    }
}

/// The prefetch priority of `page`, in millionths.
pub open spec fn page_priority(
    page: u32,
    intent: UserIntent,
    w_vel: u64,
    w_prox: u64,
    w_view: u64,
    now: u64,
) -> int {
    let mix = (w_vel * velocity_score(page, intent) + w_prox * proximity_score(
        abs_diff(page as int, intent.current_page as int),
    ) + w_view * viewport_score(page, intent)) / (PPM as int);
    mix * time_factor(intent, now) / (PPM as int)
}

pub open spec fn request_type_of(has_semantic: bool, has_image: bool) -> PrefetchType {
    if !has_semantic && has_image {
        PrefetchType::Semantic
    } else if has_semantic && !has_image {
        PrefetchType::Image
    } else {
        PrefetchType::Both
    }
}

/// Inserts `r` after every request of at least its priority.
pub open spec fn insert_by_priority(q: Seq<PrefetchRequest>, r: PrefetchRequest) -> Seq<PrefetchRequest>
    decreases q.len(),
{
    if q.len() == 0 {
        seq![r]
    } else if q.last().priority >= r.priority {
        q.push(r)
    } else {
        insert_by_priority(q.drop_last(), r).push(q.last())
    }
}

/// Requests in non-increasing priority order.
pub open spec fn by_priority(q: Seq<PrefetchRequest>) -> bool {
    forall|i: int, j: int| 0 <= i < j < q.len() ==> (#[trigger] q[i]).priority >= (#[trigger] q[j]).priority
}

/// `requests` sorted by priority: each inserted, in order, after every
/// request of at least its priority (so ties keep their order).
pub open spec fn sorted_by_priority(requests: Seq<PrefetchRequest>) -> Seq<PrefetchRequest>
    decreases requests.len(),
{
    if requests.len() == 0 {
        Seq::empty()
    } else {
        insert_by_priority(sorted_by_priority(requests.drop_last()), requests.last())
    }
}

/// Whether the cache holds both tiers of `page`.
pub open spec fn fully_cached(cache: CacheRegistry, page: u32) -> bool {
    semantic_index(cache.spec_semantic(), page).is_some() && image_index(cache.spec_images(), page).is_some()
}

/// The first page of the window around `current`.
pub open spec fn window_start(current: u32) -> int {
    if current > WINDOW_BEHIND {
        current - WINDOW_BEHIND
    } else {
        0
    }
}

/// The last page of the window around `current`.
pub open spec fn window_end(current: u32) -> int {
    if current as int + WINDOW_AHEAD > u32::MAX {
        u32::MAX as int
    } else {
        current + WINDOW_AHEAD
    }
}

/// The request for `page`, when one is queued at all.
pub open spec fn request_for(
    page: u32,
    intent: UserIntent,
    cache: CacheRegistry,
    w: (u64, u64, u64),
    now: u64,
) -> Option<PrefetchRequest> {
    let pr = page_priority(page, intent, w.0, w.1, w.2, now);
    if fully_cached(cache, page) {
        None
    } else {
        Some(
            PrefetchRequest {
                page_id: page,
                priority: pr as u64,
                request_type: request_type_of(
                    semantic_index(cache.spec_semantic(), page).is_some(),
                    image_index(cache.spec_images(), page).is_some(),
                ),
            },
        )
    }
}

/// The requests for the window's pages up to `last`, in page order.
pub open spec fn window_requests(
    intent: UserIntent,
    cache: CacheRegistry,
    w: (u64, u64, u64),
    now: u64,
    last: int,
) -> Seq<PrefetchRequest>
    decreases last + 1 - window_start(intent.current_page),
{
    if last < window_start(intent.current_page) {
        Seq::empty()
    } else {
        let earlier = window_requests(intent, cache, w, now, last - 1);
        match request_for(last as u32, intent, cache, w, now) {
            Some(r) => earlier.push(r),
            None => earlier,
        }
    }
}

proof fn lemma_insert_len(q: Seq<PrefetchRequest>, r: PrefetchRequest)
    ensures
        insert_by_priority(q, r).len() == q.len() + 1,
    decreases q.len(),
{
    if q.len() > 0 && q.last().priority < r.priority {
        lemma_insert_len(q.drop_last(), r);
    }
}

proof fn lemma_insert_sorted(q: Seq<PrefetchRequest>, r: PrefetchRequest)
    requires
        by_priority(q),
    ensures
        by_priority(insert_by_priority(q, r)),
        insert_by_priority(q, r).len() == q.len() + 1,
        forall|i: int| 0 <= i < insert_by_priority(q, r).len() ==> (#[trigger] insert_by_priority(q, r)[i]).priority
            >= if q.len() > 0 && q.last().priority < r.priority { q.last().priority } else { 0 },
    decreases q.len(),
{
    lemma_insert_len(q, r);
    if q.len() == 0 {
    } else if q.last().priority >= r.priority {
    } else {
        let q0 = q.drop_last();
        assert(by_priority(q0));
        lemma_insert_sorted(q0, r);
        let ins = insert_by_priority(q0, r);
        assert forall|i: int| 0 <= i < ins.len() implies (#[trigger] ins[i]).priority >= q.last().priority by {
            if q0.len() > 0 && q0.last().priority < r.priority {
                assert(q0.last().priority >= q.last().priority);
            } else {
                // ins is q0 with r appended or r alone
                if q0.len() == 0 {
                    assert(ins[i] == r);
                } else {
                    if i < q0.len() {
                        assert(ins[i] == q0[i]);
                        assert(q[i].priority >= q[q.len() - 1].priority);
                    } else {
                        assert(ins[i] == r);
                    }
                }
            }
        }
    }
}

proof fn lemma_sorted_by_priority(c: Seq<PrefetchRequest>)
    ensures
        by_priority(sorted_by_priority(c)),
        sorted_by_priority(c).len() == c.len(),
    decreases c.len(),
{
    if c.len() > 0 {
        lemma_sorted_by_priority(c.drop_last());
        lemma_insert_sorted(sorted_by_priority(c.drop_last()), c.last());
    }
}

/// Scores pages around the reader's position and keeps a bounded queue of
/// the ones worth warming, highest priority first.
#[derive(Debug)]
pub struct IntentAwarePrefetcher {
    user_intent: UserIntent,
    prefetch_queue: Vec<PrefetchRequest>,
    max_queue_size: usize,
    prefetch_batch_size: usize,
    velocity_weight: u64,
    proximity_weight: u64,
    recency_weight: u64,
}

impl IntentAwarePrefetcher {
    pub closed spec fn spec_intent(&self) -> UserIntent {
        self.user_intent
    }

    pub closed spec fn spec_queue(&self) -> Seq<PrefetchRequest> {
        self.prefetch_queue@
    }

    pub closed spec fn spec_max_queue(&self) -> int {
        self.max_queue_size as int
    }

    pub closed spec fn spec_batch_size(&self) -> int {
        self.prefetch_batch_size as int
    }

    /// Velocity, proximity and viewport weights, in millionths.
    pub closed spec fn spec_weights(&self) -> (u64, u64, u64) {
        (self.velocity_weight, self.proximity_weight, self.recency_weight)
    }

    pub closed spec fn wf(&self) -> bool {
        self.velocity_weight + self.proximity_weight + self.recency_weight == PPM
    }

    /// The queue `update_user_intent` leaves for `intent` over `cache`.
    pub open spec fn planned_queue(&self, intent: UserIntent, cache: CacheRegistry, now: u64) -> Seq<PrefetchRequest> {
        let all = sorted_by_priority(
            window_requests(intent, cache, self.spec_weights(), now, window_end(intent.current_page)),
        );
        if all.len() > self.spec_max_queue() {
            all.subrange(0, self.spec_max_queue())
        } else {
            all
        }
    }

    /// A prefetcher at page 0 with an empty queue, created at `now`: queue
    /// bound 50, batches of 5, weights 0.4 velocity, 0.3 proximity, 0.3
    /// viewport.
    pub fn new_at(now: u64) -> (r: IntentAwarePrefetcher)
        ensures
            r.wf(),
            r.spec_queue().len() == 0,
            r.spec_max_queue() == 50,
            r.spec_batch_size() == 5,
            r.spec_weights() == (400_000u64, 300_000u64, 300_000u64),
            r.spec_intent().current_page == 0,
            r.spec_intent().last_updated == now,
    {
        IntentAwarePrefetcher {
            user_intent: UserIntent {
                current_page: 0,
                scroll_velocity: 0,
                viewport_range: (0, 0),
                last_updated: now,
            },
            prefetch_queue: Vec::new(),
            max_queue_size: 50,
            prefetch_batch_size: 5,
            velocity_weight: 400_000,
            proximity_weight: 300_000,
            recency_weight: 300_000,
        }
    }

    /// A prefetcher created now; see `new_at`.
    pub fn new() -> (r: IntentAwarePrefetcher)
        ensures
            r.wf(),
            r.spec_queue().len() == 0,
            r.spec_max_queue() == 50,
            r.spec_batch_size() == 5,
    {
        let now = current_timestamp();
        IntentAwarePrefetcher::new_at(now)
    }

    /// The current intent.
    pub fn user_intent(&self) -> (r: UserIntent)
        ensures
            r == self.spec_intent(),
    {
        self.user_intent
    }

    /// The queued requests, highest priority first.
    pub fn queue(&self) -> (r: &Vec<PrefetchRequest>)
        ensures
            r@ == self.spec_queue(),
    {
        &self.prefetch_queue
    }
}

proof fn lemma_score_bound(n: int, c: int, d: int)
    requires
        0 <= d,
        0 < c,
        n >= 0,
        n / c <= PPM,
    ensures
        0 <= n / (c + d) <= PPM,
{
    vstd::arithmetic::div_mod::lemma_div_is_ordered_by_denominator(n, c, c + d);
    vstd::arithmetic::div_mod::lemma_div_pos_is_pos(n, c + d);
}

/// `q` with `r` inserted after every request of at least its priority.
fn insert_request(q: &mut Vec<PrefetchRequest>, r: PrefetchRequest)
    ensures
        final(q)@ == insert_by_priority(old(q)@, r),
{
    let ghost q0 = q@;
    let mut k: usize = q.len();
    assert(q0.subrange(k as int, q0.len() as int) =~= Seq::<PrefetchRequest>::empty());
    assert(q0.subrange(0, k as int) =~= q0);
    while k > 0 && q[k - 1].priority < r.priority
        invariant
            q@ == q0,
            k <= q0.len(),
            insert_by_priority(q0, r) == insert_by_priority(q0.subrange(0, k as int), r) + q0.subrange(
                k as int,
                q0.len() as int,
            ),
        decreases k,
    {
        let ghost pre = q0.subrange(0, k as int);
        assert(pre.drop_last() =~= q0.subrange(0, k - 1));
        assert(q0.subrange(k - 1, q0.len() as int) =~= seq![pre.last()] + q0.subrange(k as int, q0.len() as int));
        assert(insert_by_priority(pre, r) == insert_by_priority(pre.drop_last(), r).push(pre.last()));
        assert(insert_by_priority(pre.drop_last(), r).push(pre.last()) + q0.subrange(k as int, q0.len() as int)
            =~= insert_by_priority(pre.drop_last(), r) + q0.subrange(k - 1, q0.len() as int));
        k = k - 1;
    }
    q.insert(k, r);
    proof {
        let pre = q0.subrange(0, k as int);
        if k == 0 {
            assert(insert_by_priority(pre, r) == seq![r]);
        } else {
            assert(insert_by_priority(pre, r) == pre.push(r));
        }
        assert(q@ =~= insert_by_priority(pre, r) + q0.subrange(k as int, q0.len() as int));
    }
}

impl IntentAwarePrefetcher {
    /// The priority of `page_id` under `intent` at `now`, in millionths:
    /// the weighted mix of velocity prediction, proximity and viewport
    /// alignment, scaled by how fresh the intent is.
    pub fn calculate_page_priority(&self, page_id: u32, intent: &UserIntent, now: u64) -> (r: u64)
        requires
            self.wf(),
        ensures
            r == page_priority(page_id, *intent, self.spec_weights().0, self.spec_weights().1, self.spec_weights().2, now),
            r <= PPM,
    {
        let elapsed: u64 = if now >= intent.last_updated {
            now - intent.last_updated
        } else {
            0
        };
        let time: u64 = if elapsed >= INTENT_DECAY_SECONDS {
            0
        } else {
            proof {
                assert(elapsed * PPM <= INTENT_DECAY_SECONDS * PPM) by (nonlinear_arith)
                    requires elapsed < INTENT_DECAY_SECONDS;
                vstd::arithmetic::div_mod::lemma_div_is_ordered((elapsed * PPM) as int, (INTENT_DECAY_SECONDS * PPM) as int, INTENT_DECAY_SECONDS as int);
                vstd::arithmetic::div_mod::lemma_div_multiples_vanish(PPM as int, INTENT_DECAY_SECONDS as int);
            }
            PPM - elapsed * PPM / INTENT_DECAY_SECONDS
        };
        let distance: u64 = if page_id >= intent.current_page {
            (page_id - intent.current_page) as u64
        } else {
            (intent.current_page - page_id) as u64
        };
        proof {
            lemma_score_bound(10_000_000, 10, distance as int);
        }
        let proximity: u64 = 10_000_000 / (10 + distance);
        let velocity: u64 = if intent.scroll_velocity > 0 {
            let predicted: i128 = intent.current_page as i128 + 2 * (intent.scroll_velocity as i128);
            let pd: i128 = if (page_id as i128) >= predicted {
                page_id as i128 - predicted
            } else {
                predicted - page_id as i128
            };
            proof {
                lemma_score_bound(20_000_000, 20, pd as int);
            }
            (20_000_000 / (20 + pd)) as u64
        } else {
            proximity
        };
        let (start, end) = intent.viewport_range;
        let view: u64 = if start <= page_id && page_id <= end {
            PPM
        } else if page_id < start {
            proof {
                lemma_score_bound(5_000_000, 5, (start - page_id) as int);
            }
            5_000_000 / (5 + (start - page_id) as u64)
        } else {
            proof {
                lemma_score_bound(5_000_000, 5, (page_id - end) as int);
            }
            5_000_000 / (5 + (page_id - end) as u64)
        };
        let wv = self.velocity_weight;
        let wp = self.proximity_weight;
        let ww = self.recency_weight;
        proof {
            vstd::arithmetic::mul::lemma_mul_upper_bound(wv as int, wv as int, velocity as int, PPM as int);
            vstd::arithmetic::mul::lemma_mul_upper_bound(wp as int, wp as int, proximity as int, PPM as int);
            vstd::arithmetic::mul::lemma_mul_upper_bound(ww as int, ww as int, view as int, PPM as int);
            assert(wv * PPM + wp * PPM + ww * PPM == (wv + wp + ww) * PPM) by (nonlinear_arith);
            vstd::arithmetic::div_mod::lemma_div_is_ordered(
                (wv * velocity + wp * proximity + ww * view) as int,
                (PPM * PPM) as int,
                PPM as int,
            );
            vstd::arithmetic::div_mod::lemma_div_multiples_vanish(PPM as int, PPM as int);
        }
        let mix: u64 = (wv * velocity + wp * proximity + ww * view) / PPM;
        proof {
            vstd::arithmetic::mul::lemma_mul_upper_bound(mix as int, PPM as int, time as int, PPM as int);
            vstd::arithmetic::div_mod::lemma_div_is_ordered((mix * time) as int, (PPM * PPM) as int, PPM as int);
        }
        mix * time / PPM
    }

    /// Which tiers `page_id` still needs.
    pub fn determine_request_type(&self, page_id: u32, cache: &CacheRegistry) -> (r: PrefetchType)
        ensures
            r == request_type_of(
                semantic_index(cache.spec_semantic(), page_id).is_some(),
                image_index(cache.spec_images(), page_id).is_some(),
            ),
    {
        let has_semantic = cache.contains_semantic(page_id);
        let has_image = cache.contains_image(page_id);
        if !has_semantic && has_image {
            PrefetchType::Semantic
        } else if has_semantic && !has_image {
            PrefetchType::Image
        } else {
            PrefetchType::Both
        }
    }
}

/// Whether a request may be dispatched given what each tier accepts: a
/// request for both tiers needs both.
pub open spec fn dispatchable(r: PrefetchRequest, semantic_ok: bool, image_ok: bool) -> bool {
    match r.request_type {
        PrefetchType::Semantic => semantic_ok,
        PrefetchType::Image => image_ok,
        PrefetchType::Both => semantic_ok && image_ok,
    }
}

/// The dispatchable requests of `batch`, in order.
pub open spec fn dispatch_list(batch: Seq<PrefetchRequest>, semantic_ok: bool, image_ok: bool) -> Seq<(u32, PrefetchType)>
    decreases batch.len(),
{
    if batch.len() == 0 {
        Seq::empty()
    } else {
        let earlier = dispatch_list(batch.drop_last(), semantic_ok, image_ok);
        if dispatchable(batch.last(), semantic_ok, image_ok) {
            earlier.push((batch.last().page_id, batch.last().request_type))
        } else {
            earlier
        }
    }
}

impl IntentAwarePrefetcher {
    /// Rebuilds the queue at `now`: every page of the window (ten behind,
    /// twenty ahead of the current page, the current page included) that is
    /// not cached in both tiers, sorted by priority (ties in page order) and
    /// cut at the queue bound.
    fn calculate_priorities(&mut self, cache: &CacheRegistry, now: u64)
        requires
            old(self).wf(),
        ensures
            final(self).wf(),
            final(self).spec_intent() == old(self).spec_intent(),
            final(self).spec_weights() == old(self).spec_weights(),
            final(self).spec_max_queue() == old(self).spec_max_queue(),
            final(self).spec_batch_size() == old(self).spec_batch_size(),
            final(self).spec_queue() == old(self).planned_queue(old(self).spec_intent(), *cache, now),
    {
        let intent = self.user_intent;
        let current = intent.current_page;
        let start: u64 = if current > WINDOW_BEHIND {
            (current - WINDOW_BEHIND) as u64
        } else {
            0
        };
        let end: u64 = if current as u64 + WINDOW_AHEAD as u64 > u32::MAX as u64 {
            u32::MAX as u64
        } else {
            current as u64 + WINDOW_AHEAD as u64
        };
        let ghost w = self.spec_weights();
        let mut queue: Vec<PrefetchRequest> = Vec::new();
        let mut page: u64 = start;
        while page <= end
            invariant
                start == window_start(current),
                end == window_end(current),
                start <= page <= end + 1,
                end <= u32::MAX,
                current == intent.current_page,
                intent == self.user_intent,
                self.wf(),
                w == self.spec_weights(),
                queue@ == sorted_by_priority(window_requests(intent, *cache, w, now, page - 1)),
            decreases end + 1 - page,
        {
            let p = page as u32;
            let ghost before = window_requests(intent, *cache, w, now, page - 1);
            proof {
                assert(window_requests(intent, *cache, w, now, page as int) == match request_for(
                    p,
                    intent,
                    *cache,
                    w,
                    now,
                ) {
                    Some(r) => before.push(r),
                    None => before,
                });
            }
            let skip = cache.contains_semantic(p) && cache.contains_image(p);
            if !skip {
                let priority = self.calculate_page_priority(p, &intent, now);
                let kind = self.determine_request_type(p, cache);
                let req = PrefetchRequest { page_id: p, priority, request_type: kind };
                proof {
                    assert(request_for(p, intent, *cache, w, now) == Some(req));
                    assert(before.push(req).drop_last() =~= before);
                }
                insert_request(&mut queue, req);
            }
            page = page + 1;
        }
        let ghost all = queue@;
        proof {
            lemma_sorted_by_priority(window_requests(intent, *cache, w, now, end as int));
        }
        while queue.len() > self.max_queue_size
            invariant
                all.len() > self.max_queue_size ==> queue@.len() >= self.max_queue_size,
                all.len() <= self.max_queue_size ==> queue@ == all,
                all.len() >= queue@.len(),
                queue@ == all.subrange(0, queue@.len() as int),
            decreases queue@.len(),
        {
            queue.pop();
            assert(queue@ =~= all.subrange(0, queue@.len() as int));
        }
        proof {
            if all.len() <= self.max_queue_size {
                assert(queue@ =~= all);
            }
        }
        self.prefetch_queue = queue;
    }

    /// Replaces the intent at `now` and rebuilds the queue from it.
    pub fn update_user_intent_at(
        &mut self,
        current_page: u32,
        scroll_velocity: i64,
        viewport_range: (u32, u32),
        cache: &CacheRegistry,
        now: u64,
    )
        requires
            old(self).wf(),
        ensures
            final(self).wf(),
            final(self).spec_intent() == (UserIntent {
                current_page,
                scroll_velocity,
                viewport_range,
                last_updated: now,
            }),
            final(self).spec_weights() == old(self).spec_weights(),
            final(self).spec_max_queue() == old(self).spec_max_queue(),
            final(self).spec_batch_size() == old(self).spec_batch_size(),
            final(self).spec_queue() == old(self).planned_queue(final(self).spec_intent(), *cache, now),
            by_priority(final(self).spec_queue()),
            final(self).spec_queue().len() <= old(self).spec_max_queue(),
    {
        self.user_intent = UserIntent { current_page, scroll_velocity, viewport_range, last_updated: now };
        self.calculate_priorities(cache, now);
        proof {
            let all = sorted_by_priority(
                window_requests(self.user_intent, *cache, self.spec_weights(), now, window_end(current_page)),
            );
            lemma_sorted_by_priority(
                window_requests(self.user_intent, *cache, self.spec_weights(), now, window_end(current_page)),
            );
            let q = self.prefetch_queue@;
            assert forall|i: int, j: int| 0 <= i < j < q.len() implies (#[trigger] q[i]).priority >= (#[trigger] q[j]).priority by {
                assert(q[i] == all[i] && q[j] == all[j]);
            }
        }
    }

    /// Replaces the intent now; see `update_user_intent_at`.
    pub fn update_user_intent(
        &mut self,
        current_page: u32,
        scroll_velocity: i64,
        viewport_range: (u32, u32),
        cache: &CacheRegistry,
    )
        requires
            old(self).wf(),
        ensures
            final(self).wf(),
            final(self).spec_intent().current_page == current_page,
            final(self).spec_intent().scroll_velocity == scroll_velocity,
            final(self).spec_intent().viewport_range == viewport_range,
            final(self).spec_queue() == old(self).planned_queue(final(self).spec_intent(), *cache, final(self).spec_intent().last_updated),
    {
        let now = current_timestamp();
        self.update_user_intent_at(current_page, scroll_velocity, viewport_range, cache, now);
    }

    /// One round of the prefetch worker: takes up to a batch of the highest
    /// priority requests off the queue and returns, in order, the pages and
    /// tiers to fetch, skipping those the cache cannot accept now.
    pub fn next_batch(&mut self, cache: &CacheRegistry) -> (r: Vec<(u32, PrefetchType)>)
        requires
            old(self).wf(),
        ensures
            final(self).wf(),
            final(self).spec_intent() == old(self).spec_intent(),
            final(self).spec_weights() == old(self).spec_weights(),
            final(self).spec_max_queue() == old(self).spec_max_queue(),
            final(self).spec_batch_size() == old(self).spec_batch_size(),
            ({
                let q = old(self).spec_queue();
                let k = if q.len() < old(self).spec_batch_size() { q.len() as int } else { old(self).spec_batch_size() };
                &&& final(self).spec_queue() == q.subrange(k, q.len() as int)
                &&& r@ == dispatch_list(
                    q.subrange(0, k),
                    5 * cache.spec_semantic_usage() < 4 * cache.spec_semantic_limit(),
                    5 * cache.spec_image_usage() < 4 * cache.spec_image_limit(),
                )
            }),
    {
        let semantic_ok = cache.can_accept_semantic_work();
        let image_ok = cache.can_accept_image_work();
        let ghost q = self.prefetch_queue@;
        let mut out: Vec<(u32, PrefetchType)> = Vec::new();
        let mut taken: usize = 0;
        assert(q.subrange(0, 0) =~= Seq::<PrefetchRequest>::empty());
        assert(q =~= q.subrange(0, q.len() as int));
        while taken < self.prefetch_batch_size && self.prefetch_queue.len() > 0
            invariant
                taken <= self.prefetch_batch_size,
                taken <= q.len(),
                self.prefetch_queue@ == q.subrange(taken as int, q.len() as int),
                out@ == dispatch_list(q.subrange(0, taken as int), semantic_ok, image_ok),
                self.user_intent == old(self).user_intent,
                self.max_queue_size == old(self).max_queue_size,
                self.prefetch_batch_size == old(self).prefetch_batch_size,
                self.velocity_weight == old(self).velocity_weight,
                self.proximity_weight == old(self).proximity_weight,
                self.recency_weight == old(self).recency_weight,
                q == old(self).prefetch_queue@,
            decreases self.prefetch_queue@.len(),
        {
            let req = self.prefetch_queue.remove(0);
            proof {
                assert(q.subrange(0, taken + 1).drop_last() =~= q.subrange(0, taken as int));
                assert(self.prefetch_queue@ =~= q.subrange(taken + 1, q.len() as int));
            }
            let ok = match req.request_type {
                PrefetchType::Semantic => semantic_ok,
                PrefetchType::Image => image_ok,
                PrefetchType::Both => semantic_ok && image_ok,
            };
            if ok {
                out.push((req.page_id, req.request_type));
            }
            taken = taken + 1;
        }
        out
    }

    /// Queue size, intent and cache usage.
    pub fn get_prefetch_stats(&self, cache: &CacheRegistry) -> (r: PrefetchStats)
        ensures
            r.queue_size == self.spec_queue().len(),
            r.current_page == self.spec_intent().current_page,
            r.scroll_velocity == self.spec_intent().scroll_velocity,
            r.semantic_memory_usage == cache.spec_semantic_usage(),
            r.image_memory_usage == cache.spec_image_usage(),
    {
        let (semantic_usage, image_usage) = cache.get_memory_stats();
        PrefetchStats {
            queue_size: self.prefetch_queue.len(),
            current_page: self.user_intent.current_page,
            scroll_velocity: self.user_intent.scroll_velocity,
            semantic_memory_usage: semantic_usage,
            image_memory_usage: image_usage,
        }
    }
}

/// Updating the intent twice with equal inputs yields the same queue: the
/// queue is a function of the intent, the cache contents and the time.
pub proof fn lemma_update_intent_idempotent(
    p: IntentAwarePrefetcher,
    q: IntentAwarePrefetcher,
    intent: UserIntent,
    cache: CacheRegistry,
    now: u64,
)
    requires
        p.spec_weights() == q.spec_weights(),
        p.spec_max_queue() == q.spec_max_queue(),
    ensures
        p.planned_queue(intent, cache, now) == q.planned_queue(intent, cache, now),
{
}

/// With no forward velocity, pages are prioritized by proximity alone: the
/// velocity term equals the proximity, and of two pages that the viewport
/// scores alike, the one nearer the current page has at least the priority
/// of the farther one.
pub proof fn lemma_static_reading_by_proximity(
    p1: u32,
    p2: u32,
    intent: UserIntent,
    w_vel: u64,
    w_prox: u64,
    w_view: u64,
    now: u64,
)
    requires
        intent.scroll_velocity <= 0,
        abs_diff(p1 as int, intent.current_page as int) <= abs_diff(p2 as int, intent.current_page as int),
        viewport_score(p1, intent) == viewport_score(p2, intent),
    ensures
        velocity_score(p1, intent) == proximity_score(abs_diff(p1 as int, intent.current_page as int)),
        page_priority(p1, intent, w_vel, w_prox, w_view, now) >= page_priority(p2, intent, w_vel, w_prox, w_view, now),
{
    let d1 = abs_diff(p1 as int, intent.current_page as int);
    let d2 = abs_diff(p2 as int, intent.current_page as int);
    let x1 = proximity_score(d1);
    let x2 = proximity_score(d2);
    vstd::arithmetic::div_mod::lemma_div_is_ordered_by_denominator(10_000_000, 10 + d1, 10 + d2);
    let v = viewport_score(p1, intent);
    vstd::arithmetic::mul::lemma_mul_inequality(x2, x1, w_vel as int);
    vstd::arithmetic::mul::lemma_mul_inequality(x2, x1, w_prox as int);
    assert(w_vel * x2 <= w_vel * x1) by (nonlinear_arith)
        requires x2 <= x1, w_vel >= 0;
    assert(w_prox * x2 <= w_prox * x1) by (nonlinear_arith)
        requires x2 <= x1, w_prox >= 0;
    let m1 = (w_vel * x1 + w_prox * x1 + w_view * v) / (PPM as int);
    let m2 = (w_vel * x2 + w_prox * x2 + w_view * v) / (PPM as int);
    vstd::arithmetic::div_mod::lemma_div_is_ordered(
        w_vel * x2 + w_prox * x2 + w_view * v,
        w_vel * x1 + w_prox * x1 + w_view * v,
        PPM as int,
    );
    let t = time_factor(intent, now);
    let elapsed: int = if now >= intent.last_updated { now - intent.last_updated } else { 0 };
    if elapsed < INTENT_DECAY_SECONDS {
        assert(elapsed * PPM <= INTENT_DECAY_SECONDS * PPM) by (nonlinear_arith)
            requires elapsed < INTENT_DECAY_SECONDS, elapsed >= 0;
        vstd::arithmetic::div_mod::lemma_div_is_ordered(elapsed * PPM, (INTENT_DECAY_SECONDS * PPM) as int, INTENT_DECAY_SECONDS as int);
        vstd::arithmetic::div_mod::lemma_div_multiples_vanish(PPM as int, INTENT_DECAY_SECONDS as int);
    }
    assert(t >= 0);
    assert(m2 * t <= m1 * t) by (nonlinear_arith)
        requires m2 <= m1, t >= 0;
    vstd::arithmetic::div_mod::lemma_div_is_ordered(m2 * t, m1 * t, PPM as int);
}

} // verus!
