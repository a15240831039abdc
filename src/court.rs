use vstd::prelude::*;

use crate::text::{current_timestamp, same_text};

verus! {

/// One unit in millionths: fractions in [0, 1] are held as integers in
/// [0, PPM].
pub const PPM: u64 = 1_000_000;

/// Thirty days, the age at which the age factor saturates.
pub const AGE_SATURATION_SECONDS: u64 = 2_592_000;

/// File count at which the entropy factor saturates.
pub const ENTROPY_REFERENCE_FILES: u64 = 1000;

/// A registered cache artifact: facts only.
#[derive(Debug, Clone)]
pub struct CacheEntry {
    pub file_id: String,
    pub file_path: String,
    pub file_size_bytes: u64,
    pub file_count: usize,
    pub created_at: u64,
    pub last_accessed_at: u64,
    pub access_count: u64,
    pub user_pinned: bool,
    /// Distance from the viewport in millionths (0 = in view, PPM = far).
    pub viewport_distance: u64,
}

/// Fragmentation indicators of an entry.
#[derive(Debug, Clone, Copy)]
pub struct EntropyMetrics {
    pub file_count: usize,
    pub subdirectory_count: usize,
    pub avg_file_size_bytes: u64,
    /// In millionths.
    pub entropy_factor: u64,
}

/// Severity classes of an eviction score, from least to most severe.
#[derive(Debug, Clone, Copy, PartialEq, Eq, PartialOrd, Ord, Structural)]
pub enum EvictionSeverity {
    Low,
    Medium,
    High,
    Critical,
}

impl EvictionSeverity {
    pub open spec fn spec_rank(self) -> u8 {
        match self {
            EvictionSeverity::Low => 0,
            EvictionSeverity::Medium => 1,
            EvictionSeverity::High => 2,
            EvictionSeverity::Critical => 3,
        }
    }

    /// Position in the order Low < Medium < High < Critical.
    pub fn rank(&self) -> (r: u8)
        ensures
            r == self.spec_rank(),
    {
        match self {
            EvictionSeverity::Low => 0,
            EvictionSeverity::Medium => 1,
            EvictionSeverity::High => 2,
            EvictionSeverity::Critical => 3,
        }
    }
}

/// The weighted parts of an eviction score, all in millionths.
#[derive(Debug, Clone)]
pub struct EvictionScore {
    pub file_id: String,
    pub size_component: u64,
    pub age_component: u64,
    pub viewport_component: u64,
    pub entropy_component: u64,
    pub total_score: u64,
    pub severity_level: EvictionSeverity,
}

/// What the court decides for an entry.
#[derive(Debug, Clone, Copy, PartialEq, Eq, Structural)]
pub enum EvictionAction {
    Retain,
    Monitor,
    SoftDelete,
    HardDelete,
}

/// The court's decision on one entry.
#[derive(Debug, Clone)]
pub struct EvictionVerdict {
    pub file_id: String,
    pub action: EvictionAction,
    pub reason: String,
    /// The total score in millionths.
    pub score: u64,
    pub timestamp: u64,
    pub is_reversible: bool,
}

/// Scoring and retention policy. Weights and thresholds are in millionths.
#[derive(Debug, Clone)]
pub struct EvictionPolicy {
    pub max_cache_size_bytes: u64,
    pub min_age_seconds: u64,
    pub size_weight: u64,
    pub age_weight: u64,
    pub viewport_weight: u64,
    pub entropy_weight: u64,
    pub entropy_high_file_count: usize,
    pub entropy_warning_threshold: u64,
    pub eviction_threshold_critical: u64,
    pub eviction_threshold_high: u64,
    pub eviction_threshold_medium: u64,
    pub max_files_per_directory: usize,
    pub purge_all_enabled: bool,
}

impl EvictionPolicy {
    /// A usable policy: a positive cache limit and weights that sum to one.
    pub open spec fn wf(&self) -> bool {
        &&& self.max_cache_size_bytes > 0
        &&& self.size_weight + self.age_weight + self.viewport_weight + self.entropy_weight == PPM
    }

    /// The default policy: 500 MiB, one day minimum age, weights
    /// 0.25 / 0.25 / 0.30 / 0.20, thresholds 0.8 / 0.6 / 0.4.
    pub fn default_policy() -> (r: EvictionPolicy)
        ensures
            r.wf(),
            r.max_cache_size_bytes == 524_288_000,
            r.min_age_seconds == 86400,
            r.size_weight == 250_000,
            r.age_weight == 250_000,
            r.viewport_weight == 300_000,
            r.entropy_weight == 200_000,
            r.eviction_threshold_critical == 800_000,
            r.eviction_threshold_high == 600_000,
            r.eviction_threshold_medium == 400_000,
            !r.purge_all_enabled,
    {
        EvictionPolicy {
            max_cache_size_bytes: 524_288_000,
            min_age_seconds: 86400,
            size_weight: 250_000,
            age_weight: 250_000,
            viewport_weight: 300_000,
            entropy_weight: 200_000,
            entropy_high_file_count: 10000,
            entropy_warning_threshold: 600_000,
            eviction_threshold_critical: 800_000,
            eviction_threshold_high: 600_000,
            eviction_threshold_medium: 400_000,
            max_files_per_directory: 50000,
            purge_all_enabled: false,
        }
    }
}

impl Default for EvictionPolicy {
    fn default() -> (r: EvictionPolicy)
        ensures
            r.wf(),
    {
        EvictionPolicy::default_policy()
    }
}

// ------------------------------------------------------------------
// Scoring model
// ------------------------------------------------------------------

/// `min(1, n / d)` in millionths, rounded down.
pub open spec fn ratio_ppm(n: int, d: int) -> int {
    if n * (PPM as int) / d >= PPM as int {
        PPM as int
    } else {
        n * (PPM as int) / d
    }
}

/// `w · r` for a weight and a fraction, both in millionths.
pub open spec fn weighted(w: int, r: int) -> int {
    w * r / (PPM as int)
}

pub open spec fn size_ratio_of(size: u64, policy: EvictionPolicy) -> int {
    ratio_ppm(size as int, policy.max_cache_size_bytes as int)
}

pub open spec fn age_seconds_of(created_at: u64, now: u64) -> int {
    if now >= created_at {
        now - created_at
    } else {
        0
    }
}

pub open spec fn age_factor_of(created_at: u64, now: u64, policy: EvictionPolicy) -> int {
    if age_seconds_of(created_at, now) > policy.min_age_seconds {
        ratio_ppm(age_seconds_of(created_at, now), AGE_SATURATION_SECONDS as int)
    } else {
        0
    }
}

pub open spec fn viewport_factor_of(distance: u64) -> int {
    if distance >= PPM {
        PPM as int
    } else {
        distance as int
    }
}

/// `min(1, file_count / 1000)` in millionths.
pub open spec fn entropy_factor_of(file_count: int) -> int {
    if file_count >= ENTROPY_REFERENCE_FILES {
        PPM as int
    } else {
        file_count * 1000
    }
}

pub open spec fn severity_of(total: int, policy: EvictionPolicy) -> EvictionSeverity {
    if total >= policy.eviction_threshold_critical {
        EvictionSeverity::Critical
    } else if total >= policy.eviction_threshold_high {
        EvictionSeverity::High
    } else if total >= policy.eviction_threshold_medium {
        EvictionSeverity::Medium
    } else {
        EvictionSeverity::Low
    }
}

/// The total score of an entry with the given facts, in millionths.
pub open spec fn total_score_of(
    policy: EvictionPolicy,
    size: u64,
    created_at: u64,
    viewport_distance: u64,
    entropy_factor: u64,
    now: u64,
) -> int {
    weighted(policy.size_weight as int, size_ratio_of(size, policy))
        + weighted(policy.age_weight as int, age_factor_of(created_at, now, policy))
        + weighted(policy.viewport_weight as int, viewport_factor_of(viewport_distance))
        + weighted(
        policy.entropy_weight as int,
        if entropy_factor >= PPM {
            PPM as int
        } else {
            entropy_factor as int
        },
    )
}

/// The action the court's policy gives an entry of the given severity.
pub open spec fn action_of(
    entry: CacheEntry,
    severity: EvictionSeverity,
    current_cache_size: u64,
    policy: EvictionPolicy,
) -> EvictionAction {
    if entry.user_pinned {
        EvictionAction::Retain
    } else if entry.viewport_distance < 100_000 && entry.access_count > 5 {
        EvictionAction::Retain
    } else if severity == EvictionSeverity::Critical && current_cache_size
        > policy.max_cache_size_bytes {
        EvictionAction::HardDelete
    } else if severity.spec_rank() >= 2 {
        EvictionAction::SoftDelete
    } else if severity == EvictionSeverity::Medium {
        EvictionAction::Monitor
    } else {
        EvictionAction::Retain
    }
}

proof fn lemma_weighted_bounded(w: int, r: int)
    requires
        0 <= w,
        0 <= r <= PPM,
    ensures
        0 <= weighted(w, r) <= w,
{
    vstd::arithmetic::mul::lemma_mul_inequality(r, PPM as int, w);
    vstd::arithmetic::div_mod::lemma_div_is_ordered(r * w, PPM * w, PPM as int);
    vstd::arithmetic::div_mod::lemma_div_multiples_vanish(w, PPM as int);
    vstd::arithmetic::div_mod::lemma_div_pos_is_pos(w * r, PPM as int);
    assert(r * w == w * r) by (nonlinear_arith);
    assert(PPM * w == (PPM as int) * w);
    assert(0 <= w * r) by (nonlinear_arith)
        requires
            0 <= w,
            0 <= r,
    ;
}

/// `min(PPM, n * PPM / d)`, computed without overflow.
fn ratio(n: u64, d: u64) -> (r: u64)
    requires
        d > 0,
    ensures
        r == ratio_ppm(n as int, d as int),
        r <= PPM,
{
    let scaled: u128 = (n as u128) * (PPM as u128) / (d as u128);
    if scaled >= PPM as u128 {
        PPM
    } else {
        scaled as u64
    }
}

fn weigh(w: u64, r: u64) -> (out: u64)
    requires
        w <= PPM,
        r <= PPM,
    ensures
        out == weighted(w as int, r as int),
        out <= w,
{
    proof {
        lemma_weighted_bounded(w as int, r as int);
        vstd::arithmetic::mul::lemma_mul_upper_bound(w as int, PPM as int, r as int, PPM as int);
    }
    w * r / PPM
}

// ------------------------------------------------------------------
// Registry
// ------------------------------------------------------------------

/// Sum of the sizes of `s`.
pub open spec fn sum_sizes(s: Seq<CacheEntry>) -> int
    decreases s.len(),
{
    if s.len() == 0 {
        0
    } else {
        sum_sizes(s.drop_last()) + s.last().file_size_bytes
    }
}

/// Index of the entry with id `id` in `s`, if any.
pub open spec fn find_id(s: Seq<CacheEntry>, id: Seq<char>) -> Option<int> {
    if exists|i: int| 0 <= i < s.len() && (#[trigger] s[i]).file_id@ == id {
        Some(choose|i: int| 0 <= i < s.len() && (#[trigger] s[i]).file_id@ == id)
    } else {
        None
    }
}

/// Facts about every known cache artifact. Makes no decisions.
#[derive(Debug, Clone)]
pub struct CacheRegistry {
    entries: Vec<CacheEntry>,
    total_size_bytes: u64,
    last_updated: u64,
}

/// Informational registry counters.
#[derive(Debug, Clone)]
pub struct RegistryStats {
    pub entry_count: usize,
    pub total_size_bytes: u64,
    pub last_updated: u64,
}

proof fn lemma_sum_update(s: Seq<CacheEntry>, i: int, e: CacheEntry)
    requires
        0 <= i < s.len(),
    ensures
        sum_sizes(s.update(i, e)) == sum_sizes(s) - s[i].file_size_bytes + e.file_size_bytes,
    decreases s.len(),
{
    if i == s.len() - 1 {
        assert(s.update(i, e).drop_last() =~= s.drop_last());
    } else {
        lemma_sum_update(s.drop_last(), i, e);
        assert(s.update(i, e).drop_last() =~= s.drop_last().update(i, e));
    }
}

proof fn lemma_sum_nonneg_le(s: Seq<CacheEntry>, i: int)
    requires
        0 <= i < s.len(),
    ensures
        s[i].file_size_bytes <= sum_sizes(s),
        sum_sizes(s) >= 0,
    decreases s.len(),
{
    lemma_sum_nonneg(s.drop_last());
    if i < s.len() - 1 {
        lemma_sum_nonneg_le(s.drop_last(), i);
    }
}

proof fn lemma_sum_nonneg(s: Seq<CacheEntry>)
    ensures
        sum_sizes(s) >= 0,
    decreases s.len(),
{
    if s.len() > 0 {
        lemma_sum_nonneg(s.drop_last());
    }
}

impl CacheRegistry {
    pub closed spec fn spec_entries(&self) -> Seq<CacheEntry> {
        self.entries@
    }

    pub closed spec fn spec_total(&self) -> u64 {
        self.total_size_bytes
    }

    pub closed spec fn spec_last_updated(&self) -> u64 {
        self.last_updated
    }

    /// Ids are unique and the tracked total is the sum of the entries' sizes.
    pub closed spec fn wf(&self) -> bool {
        &&& forall|i: int, j: int|
            0 <= i < j < self.entries@.len() ==> (#[trigger] self.entries@[i]).file_id@
                != (#[trigger] self.entries@[j]).file_id@
        &&& self.total_size_bytes == sum_sizes(self.entries@)
    }

    /// An empty registry.
    pub fn new() -> (r: CacheRegistry)
        ensures
            r.wf(),
            r.spec_entries().len() == 0,
            r.spec_total() == 0,
    {
        let now = current_timestamp();
        CacheRegistry { entries: Vec::new(), total_size_bytes: 0, last_updated: now }
    }

    /// Position of the entry with id `file_id`.
    fn position(&self, file_id: &str) -> (r: Option<usize>)
        ensures
            match r {
                Some(i) => i < self.entries@.len() && self.entries@[i as int].file_id@ == file_id@,
                None => forall|i: int|
                    0 <= i < self.entries@.len() ==> (#[trigger] self.entries@[i]).file_id@
                        != file_id@,
            },
    {
        let mut i: usize = 0;
        while i < self.entries.len()
            invariant
                i <= self.entries@.len(),
                forall|k: int| 0 <= k < i ==> (#[trigger] self.entries@[k]).file_id@ != file_id@,
            decreases self.entries@.len() - i,
        {
            if same_text(self.entries[i].file_id.as_str(), file_id) {
                return Some(i);
            }
            i = i + 1;
        }
        None
    }

    /// Records `entry` at time `now`. An entry with the same id is replaced in
    /// place and the total adjusted; otherwise the entry is added.
    pub fn register_entry_at(&mut self, entry: CacheEntry, now: u64)
        requires
            old(self).wf(),
            old(self).spec_total() + entry.file_size_bytes <= u64::MAX,
        ensures
            final(self).wf(),
            final(self).spec_total() == sum_sizes(final(self).spec_entries()),
            final(self).spec_last_updated() == now,
            match find_id(old(self).spec_entries(), entry.file_id@) {
                Some(i) => final(self).spec_entries() == old(self).spec_entries().update(i, entry),
                None => final(self).spec_entries() == old(self).spec_entries().push(entry),
            },
    {
        let pos = self.position(entry.file_id.as_str());
        match pos {
            Some(i) => {
                proof {
                    let s = self.entries@;
                    let j = choose|j: int| 0 <= j < s.len() && (#[trigger] s[j]).file_id@ == entry.file_id@;
                    assert(s[j].file_id@ == s[i as int].file_id@);
                    if j != i as int {
                        if j < i as int {
                            assert(s[j].file_id@ != s[i as int].file_id@);
                        } else {
                            assert(s[i as int].file_id@ != s[j].file_id@);
                        }
                    }
                    lemma_sum_update(s, i as int, entry);
                    lemma_sum_nonneg_le(s, i as int);
                }
                let old_size = self.entries[i].file_size_bytes;
                self.total_size_bytes = self.total_size_bytes - old_size + entry.file_size_bytes;
                let ghost s0 = self.entries@;
                self.entries.set(i, entry);
                assert(forall|k: int| 0 <= k < s0.len() && k != i ==> self.entries@[k] == s0[k]);
            },
            None => {
                let ghost s0 = self.entries@;
                self.total_size_bytes = self.total_size_bytes + entry.file_size_bytes;
                self.entries.push(entry);
                assert(self.entries@.drop_last() =~= s0);
            },
        }
        self.last_updated = now;
    }

    /// Records `entry` at the current time; see `register_entry_at`.
    pub fn register_entry(&mut self, entry: CacheEntry)
        requires
            old(self).wf(),
            old(self).spec_total() + entry.file_size_bytes <= u64::MAX,
        ensures
            final(self).wf(),
            final(self).spec_total() == sum_sizes(final(self).spec_entries()),
            match find_id(old(self).spec_entries(), entry.file_id@) {
                Some(i) => final(self).spec_entries() == old(self).spec_entries().update(i, entry),
                None => final(self).spec_entries() == old(self).spec_entries().push(entry),
            },
    {
        let now = current_timestamp();
        self.register_entry_at(entry, now);
    }
}

impl CacheRegistry {
    /// Marks the entry `file_id` as accessed at `now`: its access time becomes
    /// `now` and its access count grows by one (saturating). Returns whether
    /// the id was known; an unknown id leaves the registry unchanged.
    pub fn touch_entry_at(&mut self, file_id: &str, now: u64) -> (r: bool)
        requires
            old(self).wf(),
        ensures
            final(self).wf(),
            final(self).spec_total() == old(self).spec_total(),
            r == find_id(old(self).spec_entries(), file_id@).is_some(),
            r ==> final(self).spec_last_updated() == now,
            !r ==> *final(self) == *old(self),
            final(self).spec_entries().len() == old(self).spec_entries().len(),
            forall|k: int|
                0 <= k < old(self).spec_entries().len() && (#[trigger] old(self).spec_entries()[k]).file_id@
                    != file_id@ ==> final(self).spec_entries()[k] == old(self).spec_entries()[k],
            forall|k: int|
                0 <= k < old(self).spec_entries().len() && (#[trigger] old(self).spec_entries()[k]).file_id@
                    == file_id@ ==> {
                    let e0 = old(self).spec_entries()[k];
                    let e1 = final(self).spec_entries()[k];
                    &&& e1.last_accessed_at == now
                    &&& e1.access_count == if e0.access_count == u64::MAX {
                        e0.access_count
                    } else {
                        (e0.access_count + 1) as u64
                    }
                    &&& e1.file_id == e0.file_id
                    &&& e1.file_path == e0.file_path
                    &&& e1.file_size_bytes == e0.file_size_bytes
                    &&& e1.file_count == e0.file_count
                    &&& e1.created_at == e0.created_at
                    &&& e1.user_pinned == e0.user_pinned
                    &&& e1.viewport_distance == e0.viewport_distance
                },
    {
        match self.position(file_id) {
            Some(i) => {
                let ghost s0 = self.entries@;
                proof {
                    assert(find_id(s0, file_id@).is_some());
                    assert forall|k: int|
                        0 <= k < s0.len() && (#[trigger] s0[k]).file_id@ == file_id@ implies k
                        == i as int by {
                        if k < i as int {
                            assert(s0[k].file_id@ != s0[i as int].file_id@);
                        } else if k > i as int {
                            assert(s0[i as int].file_id@ != s0[k].file_id@);
                        }
                    }
                }
                let old_entry = &self.entries[i];
                let count = if old_entry.access_count == u64::MAX {
                    old_entry.access_count
                } else {
                    old_entry.access_count + 1
                };
                let updated = CacheEntry {
                    file_id: old_entry.file_id.clone(),
                    file_path: old_entry.file_path.clone(),
                    file_size_bytes: old_entry.file_size_bytes,
                    file_count: old_entry.file_count,
                    created_at: old_entry.created_at,
                    last_accessed_at: now,
                    access_count: count,
                    user_pinned: old_entry.user_pinned,
                    viewport_distance: old_entry.viewport_distance,
                };
                proof {
                    lemma_sum_update(s0, i as int, updated);
                }
                self.entries.set(i, updated);
                self.last_updated = now;
                assert(forall|k: int| 0 <= k < s0.len() && k != i ==> self.entries@[k] == s0[k]);
                true
            },
            None => false,
        }
    }

    /// Marks the entry `file_id` as accessed now; see `touch_entry_at`.
    pub fn touch_entry(&mut self, file_id: &str) -> (r: bool)
        requires
            old(self).wf(),
        ensures
            final(self).wf(),
            final(self).spec_total() == old(self).spec_total(),
            r == find_id(old(self).spec_entries(), file_id@).is_some(),
            !r ==> *final(self) == *old(self),
            final(self).spec_entries().len() == old(self).spec_entries().len(),
            forall|k: int|
                0 <= k < old(self).spec_entries().len() && (#[trigger] old(self).spec_entries()[k]).file_id@
                    != file_id@ ==> final(self).spec_entries()[k] == old(self).spec_entries()[k],
            exists|t: u64| #[trigger] touched_at(old(self).spec_entries(), final(self).spec_entries(), file_id@, t),
    {
        let now = current_timestamp();
        let r = self.touch_entry_at(file_id, now);
        assert(touched_at(old(self).spec_entries(), self.spec_entries(), file_id@, now));
        r
    }

    /// All entries, for the court to iterate over.
    pub fn entries(&self) -> (r: &Vec<CacheEntry>)
        ensures
            r@ == self.spec_entries(),
    {
        &self.entries
    }

    /// The tracked total size.
    pub fn total_size_bytes(&self) -> (r: u64)
        requires
            self.wf(),
        ensures
            r == self.spec_total(),
            r == sum_sizes(self.spec_entries()),
    {
        self.total_size_bytes
    }

    /// Entry count, total size and time of the last change.
    pub fn stats(&self) -> (r: RegistryStats)
        ensures
            r.entry_count == self.spec_entries().len(),
            r.total_size_bytes == self.spec_total(),
            r.last_updated == self.spec_last_updated(),
    {
        RegistryStats {
            entry_count: self.entries.len(),
            total_size_bytes: self.total_size_bytes,
            last_updated: self.last_updated,
        }
    }
}

proof fn lemma_sum_remove(s: Seq<CacheEntry>, i: int)
    requires
        0 <= i < s.len(),
    ensures
        sum_sizes(s.remove(i)) == sum_sizes(s) - s[i].file_size_bytes,
    decreases s.len(),
{
    if i == s.len() - 1 {
        assert(s.remove(i) =~= s.drop_last());
    } else {
        lemma_sum_remove(s.drop_last(), i);
        assert(s.remove(i).drop_last() =~= s.drop_last().remove(i));
    }
}

impl CacheRegistry {
    /// Forgets the entry `file_id` at `now` (a soft delete: the file stays on
    /// disk). Returns whether the id was known; an unknown id changes nothing.
    pub fn remove_entry_at(&mut self, file_id: &str, now: u64) -> (r: bool)
        requires
            old(self).wf(),
        ensures
            final(self).wf(),
            final(self).spec_total() == sum_sizes(final(self).spec_entries()),
            r == find_id(old(self).spec_entries(), file_id@).is_some(),
            find_id(final(self).spec_entries(), file_id@).is_none(),
            !r ==> *final(self) == *old(self),
            r ==> final(self).spec_last_updated() == now,
            forall|k: int|
                0 <= k < old(self).spec_entries().len() && (#[trigger] old(self).spec_entries()[k]).file_id@
                    != file_id@ ==> final(self).spec_entries().contains(old(self).spec_entries()[k]),
            forall|k: int|
                0 <= k < final(self).spec_entries().len() ==> old(self).spec_entries().contains(
                    #[trigger] final(self).spec_entries()[k],
                ),
    {
        match self.position(file_id) {
            None => false,
            Some(i) => {
                let ghost s0 = self.entries@;
                proof {
                    lemma_sum_remove(s0, i as int);
                    lemma_sum_nonneg_le(s0, i as int);
                }
                let old_size = self.entries[i].file_size_bytes;
                self.entries.remove(i);
                self.total_size_bytes = self.total_size_bytes - old_size;
                self.last_updated = now;
                proof {
                    let s1 = self.entries@;
                    assert(s1 =~= s0.remove(i as int));
                    assert forall|a: int, b: int| 0 <= a < b < s1.len() implies (#[trigger] s1[a]).file_id@
                        != (#[trigger] s1[b]).file_id@ by {
                        let a0 = if a < i { a } else { a + 1 };
                        let b0 = if b < i { b } else { b + 1 };
                        assert(s1[a] == s0[a0] && s1[b] == s0[b0]);
                    }
                    assert forall|k: int| 0 <= k < s1.len() implies (#[trigger] s1[k]).file_id@ != file_id@ by {
                        let k0 = if k < i { k } else { k + 1 };
                        assert(s1[k] == s0[k0]);
                        if k0 < i {
                            assert(s0[k0].file_id@ != s0[i as int].file_id@);
                        } else {
                            assert(s0[i as int].file_id@ != s0[k0].file_id@);
                        }
                    }
                    assert forall|k: int|
                        0 <= k < s0.len() && (#[trigger] s0[k]).file_id@ != file_id@ implies s1.contains(s0[k]) by {
                        if k < i {
                            assert(s1[k] == s0[k]);
                        } else {
                            assert(k != i);
                            assert(s1[k - 1] == s0[k]);
                        }
                    }
                    assert forall|k: int| 0 <= k < s1.len() implies s0.contains(#[trigger] s1[k]) by {
                        let k0 = if k < i { k } else { k + 1 };
                        assert(s1[k] == s0[k0]);
                    }
                }
                true
            },
        }
    }
}

impl Default for CacheRegistry {
    fn default() -> (r: CacheRegistry)
        ensures
            r.wf(),
            r.spec_entries().len() == 0,
    {
        CacheRegistry::new()
    }
}

/// Fragmentation indicators of an entry: its entropy factor is
/// `min(1, file_count / 1000)`, 0 for an entry of no files.
pub fn calculate_entropy(entry: &CacheEntry) -> (r: EntropyMetrics)
    ensures
        r.file_count == entry.file_count,
        r.entropy_factor == entropy_factor_of(entry.file_count as int),
        r.subdirectory_count == 1,
        entry.file_count > 0 ==> r.avg_file_size_bytes == entry.file_size_bytes
            / (entry.file_count as u64),
        entry.file_count == 0 ==> r.avg_file_size_bytes == 0,
{
    let factor: u64 = if entry.file_count as u64 >= ENTROPY_REFERENCE_FILES {
        PPM
    } else {
        entry.file_count as u64 * 1000
    };
    let avg = if entry.file_count > 0 {
        entry.file_size_bytes / (entry.file_count as u64)
    } else {
        0
    };
    EntropyMetrics {
        file_count: entry.file_count,
        subdirectory_count: 1,
        avg_file_size_bytes: avg,
        entropy_factor: factor,
    }
}

/// Applies the eviction policy; keeps an in-memory log of its verdicts.
pub struct ResourceCourt {
    policy: EvictionPolicy,
    judgment_log: Vec<EvictionVerdict>,
}

/// The reason text recorded with a verdict, by the rule that decided it.
pub open spec fn reason_of(entry: CacheEntry, severity: EvictionSeverity, current_cache_size: u64, policy: EvictionPolicy) -> Seq<char> {
    if entry.user_pinned {
        "Pinned by user"@
    } else if entry.viewport_distance < 100_000 && entry.access_count > 5 {
        "In viewport and frequently accessed"@
    } else if severity == EvictionSeverity::Critical && current_cache_size > policy.max_cache_size_bytes {
        "Critical score while cache is over its limit"@
    } else if severity.spec_rank() >= 2 {
        "High score"@
    } else if severity == EvictionSeverity::Medium {
        "Medium score"@
    } else {
        "Low score"@
    }
}

/// `v` holds the court's verdicts on `entries` at time `t`, in order.
pub open spec fn verdicts_at(v: Seq<EvictionVerdict>, entries: Seq<CacheEntry>, current_cache_size: u64, policy: EvictionPolicy, t: u64) -> bool {
    &&& v.len() == entries.len()
    &&& forall|i: int|
        0 <= i < v.len() ==> verdict_matches(
            #[trigger] v[i],
            entries[i],
            entropy_factor_of(entries[i].file_count as int) as u64,
            current_cache_size,
            policy,
            t,
        )
}

/// `after` is `before` with every entry named `id` marked accessed at `t`.
pub open spec fn touched_at(before: Seq<CacheEntry>, after: Seq<CacheEntry>, id: Seq<char>, t: u64) -> bool {
    forall|k: int|
        0 <= k < before.len() && (#[trigger] before[k]).file_id@ == id ==> {
            let e0 = before[k];
            let e1 = after[k];
            &&& e1.last_accessed_at == t
            &&& e1.access_count == if e0.access_count == u64::MAX {
                e0.access_count
            } else {
                (e0.access_count + 1) as u64
            }
            &&& e1.file_id == e0.file_id
            &&& e1.file_path == e0.file_path
            &&& e1.file_size_bytes == e0.file_size_bytes
            &&& e1.file_count == e0.file_count
            &&& e1.created_at == e0.created_at
            &&& e1.user_pinned == e0.user_pinned
            &&& e1.viewport_distance == e0.viewport_distance
        }
}

/// Two verdicts agree field by field.
pub open spec fn same_verdict(a: EvictionVerdict, b: EvictionVerdict) -> bool {
    &&& a.file_id@ == b.file_id@
    &&& a.action == b.action
    &&& a.reason@ == b.reason@
    &&& a.score == b.score
    &&& a.timestamp == b.timestamp
    &&& a.is_reversible == b.is_reversible
}

/// The verdict the court renders for `entry` at `now`.
pub open spec fn verdict_matches(
    v: EvictionVerdict,
    entry: CacheEntry,
    entropy_factor: u64,
    current_cache_size: u64,
    policy: EvictionPolicy,
    now: u64,
) -> bool {
    let total = total_score_of(
        policy,
        entry.file_size_bytes,
        entry.created_at,
        entry.viewport_distance,
        entropy_factor,
        now,
    );
    let action = action_of(entry, severity_of(total, policy), current_cache_size, policy);
    &&& v.file_id@ == entry.file_id@
    &&& v.reason@ == reason_of(entry, severity_of(total, policy), current_cache_size, policy)
    &&& v.score == total
    &&& v.action == action
    &&& v.timestamp == now
    &&& v.is_reversible == (action != EvictionAction::HardDelete)
}

impl ResourceCourt {
    pub closed spec fn spec_policy(&self) -> EvictionPolicy {
        self.policy
    }

    pub closed spec fn spec_log(&self) -> Seq<EvictionVerdict> {
        self.judgment_log@
    }

    /// A court applying `policy`, with an empty log.
    pub fn new(policy: EvictionPolicy) -> (r: ResourceCourt)
        ensures
            r.spec_policy() == policy,
            r.spec_log().len() == 0,
    {
        ResourceCourt { policy, judgment_log: Vec::new() }
    }

    /// Scores `entry` at `current_time`: each part is its weight times its
    /// factor (size ratio, age factor, viewport distance, entropy factor, each
    /// clamped to one), the total is their sum, and the severity follows from
    /// the policy's thresholds. Depends on nothing else.
    pub fn calculate_eviction_score(
        &self,
        entry: &CacheEntry,
        entropy: &EntropyMetrics,
        current_time: u64,
    ) -> (r: EvictionScore)
        requires
            self.spec_policy().wf(),
        ensures
            r.file_id@ == entry.file_id@,
            r.size_component == weighted(
                self.spec_policy().size_weight as int,
                size_ratio_of(entry.file_size_bytes, self.spec_policy()),
            ),
            r.age_component == weighted(
                self.spec_policy().age_weight as int,
                age_factor_of(entry.created_at, current_time, self.spec_policy()),
            ),
            r.viewport_component == weighted(
                self.spec_policy().viewport_weight as int,
                viewport_factor_of(entry.viewport_distance),
            ),
            r.entropy_component == weighted(
                self.spec_policy().entropy_weight as int,
                if entropy.entropy_factor >= PPM {
                    PPM as int
                } else {
                    entropy.entropy_factor as int
                },
            ),
            r.total_score == total_score_of(
                self.spec_policy(),
                entry.file_size_bytes,
                entry.created_at,
                entry.viewport_distance,
                entropy.entropy_factor,
                current_time,
            ),
            r.total_score <= PPM,
            r.severity_level == severity_of(r.total_score as int, self.spec_policy()),
    {
        let p = &self.policy;
        let size_ratio = ratio(entry.file_size_bytes, p.max_cache_size_bytes);
        let size_component = weigh(p.size_weight, size_ratio);
        let age_seconds = if current_time >= entry.created_at {
            current_time - entry.created_at
        } else {
            0
        };
        let age_factor = if age_seconds > p.min_age_seconds {
            ratio(age_seconds, AGE_SATURATION_SECONDS)
        } else {
            0
        };
        let age_component = weigh(p.age_weight, age_factor);
        let viewport = if entry.viewport_distance >= PPM {
            PPM
        } else {
            entry.viewport_distance
        };
        let viewport_component = weigh(p.viewport_weight, viewport);
        let entropy_factor = if entropy.entropy_factor >= PPM {
            PPM
        } else {
            entropy.entropy_factor
        };
        let entropy_component = weigh(p.entropy_weight, entropy_factor);
        let total_score = size_component + age_component + viewport_component + entropy_component;
        let severity_level = if total_score >= p.eviction_threshold_critical {
            EvictionSeverity::Critical
        } else if total_score >= p.eviction_threshold_high {
            EvictionSeverity::High
        } else if total_score >= p.eviction_threshold_medium {
            EvictionSeverity::Medium
        } else {
            EvictionSeverity::Low
        };
        EvictionScore {
            file_id: entry.file_id.clone(),
            size_component,
            age_component,
            viewport_component,
            entropy_component,
            total_score,
            severity_level,
        }
    }

    /// Turns a score into a verdict by the policy's rules, first match wins:
    /// pinned, or in view and hot: retain; critical while the cache is over its
    /// limit: hard delete; high or worse: soft delete; medium: monitor;
    /// otherwise retain. Only a hard delete is irreversible.
    fn render_verdict(
        &self,
        entry: &CacheEntry,
        score: &EvictionScore,
        current_cache_size: u64,
        now: u64,
    ) -> (r: EvictionVerdict)
        ensures
            r.file_id@ == entry.file_id@,
            r.score == score.total_score,
            r.action == action_of(*entry, score.severity_level, current_cache_size, self.spec_policy()),
            r.reason@ == reason_of(*entry, score.severity_level, current_cache_size, self.spec_policy()),
            r.timestamp == now,
            r.is_reversible == (r.action != EvictionAction::HardDelete),
    {
        let (action, reason) = if entry.user_pinned {
            (EvictionAction::Retain, "Pinned by user")
        } else if entry.viewport_distance < 100_000 && entry.access_count > 5 {
            (EvictionAction::Retain, "In viewport and frequently accessed")
        } else if score.severity_level == EvictionSeverity::Critical && current_cache_size
            > self.policy.max_cache_size_bytes {
            (EvictionAction::HardDelete, "Critical score while cache is over its limit")
        } else if score.severity_level.rank() >= 2 {
            (EvictionAction::SoftDelete, "High score")
        } else if score.severity_level == EvictionSeverity::Medium {
            (EvictionAction::Monitor, "Medium score")
        } else {
            (EvictionAction::Retain, "Low score")
        };
        let is_reversible = match action {
            EvictionAction::HardDelete => false,
            _ => true,
        };
        EvictionVerdict {
            file_id: entry.file_id.clone(),
            action,
            reason: String::from_str(reason),
            score: score.total_score,
            timestamp: now,
            is_reversible,
        }
    }

    /// Judges every entry of `registry` at time `now`, in registry order, and
    /// appends the verdicts to the log.
    pub fn judge_entries_at(
        &mut self,
        registry: &CacheRegistry,
        current_cache_size: u64,
        now: u64,
    ) -> (r: Vec<EvictionVerdict>)
        requires
            old(self).spec_policy().wf(),
        ensures
            final(self).spec_policy() == old(self).spec_policy(),
            r.len() == registry.spec_entries().len(),
            forall|i: int|
                0 <= i < r.len() ==> verdict_matches(
                    #[trigger] r@[i],
                    registry.spec_entries()[i],
                    entropy_factor_of(registry.spec_entries()[i].file_count as int) as u64,
                    current_cache_size,
                    old(self).spec_policy(),
                    now,
                ),
            final(self).spec_log().len() == old(self).spec_log().len() + r.len(),
            forall|i: int|
                0 <= i < old(self).spec_log().len() ==> final(self).spec_log()[i] == old(
                    self,
                ).spec_log()[i],
            forall|i: int|
                0 <= i < r.len() ==> same_verdict(
                    #[trigger] final(self).spec_log()[old(self).spec_log().len() + i],
                    r@[i],
                ),
    {
        let entries = registry.entries();
        let mut verdicts: Vec<EvictionVerdict> = Vec::new();
        let ghost log0 = self.judgment_log@;
        let mut i: usize = 0;
        while i < entries.len()
            invariant
                entries@ == registry.spec_entries(),
                i <= entries.len(),
                verdicts.len() == i,
                self.policy == old(self).spec_policy(),
                self.policy.wf(),
                self.judgment_log@.len() == log0.len() + i,
                log0 == old(self).spec_log(),
                forall|k: int| 0 <= k < log0.len() ==> self.judgment_log@[k] == log0[k],
                forall|k: int|
                    0 <= k < i ==> verdict_matches(
                        #[trigger] verdicts@[k],
                        entries@[k],
                        entropy_factor_of(entries@[k].file_count as int) as u64,
                        current_cache_size,
                        self.policy,
                        now,
                    ),
                forall|k: int|
                    0 <= k < i ==> same_verdict(#[trigger] self.judgment_log@[log0.len() + k], verdicts@[k]),
            decreases entries.len() - i,
        {
            let entry = &entries[i];
            let entropy = calculate_entropy(entry);
            let score = self.calculate_eviction_score(entry, &entropy, now);
            let verdict = self.render_verdict(entry, &score, current_cache_size, now);
            let logged = self.render_verdict(entry, &score, current_cache_size, now);
            verdicts.push(verdict);
            self.judgment_log.push(logged);
            i = i + 1;
        }
        verdicts
    }

    /// Judges every entry of `registry` now; see `judge_entries_at`.
    pub fn judge_entries(&mut self, registry: &CacheRegistry, current_cache_size: u64) -> (r: Vec<
        EvictionVerdict,
    >)
        requires
            old(self).spec_policy().wf(),
        ensures
            final(self).spec_policy() == old(self).spec_policy(),
            r.len() == registry.spec_entries().len(),
            exists|t: u64| #[trigger] verdicts_at(r@, registry.spec_entries(), current_cache_size, old(self).spec_policy(), t),
            final(self).spec_log().len() == old(self).spec_log().len() + r.len(),
            forall|i: int|
                0 <= i < old(self).spec_log().len() ==> final(self).spec_log()[i] == old(
                    self,
                ).spec_log()[i],
            forall|i: int|
                0 <= i < r.len() ==> same_verdict(
                    #[trigger] final(self).spec_log()[old(self).spec_log().len() + i],
                    r@[i],
                ),
    {
        let now = current_timestamp();
        let r = self.judge_entries_at(registry, current_cache_size, now);
        assert(verdicts_at(r@, registry.spec_entries(), current_cache_size, old(self).spec_policy(), now));
        r
    }

    /// The verdicts rendered so far, oldest first.
    pub fn judgment_log(&self) -> (r: &Vec<EvictionVerdict>)
        ensures
            r@ == self.spec_log(),
    {
        &self.judgment_log
    }

    /// The policy this court applies.
    pub fn policy(&self) -> (r: &EvictionPolicy)
        ensures
            *r == self.spec_policy(),
    {
        &self.policy
    }
}

/// The score is a pure function of the entry's size, creation time, viewport
/// distance and entropy factor, the policy and the time: two entries that agree
/// on those score the same, whatever else differs.
pub proof fn lemma_score_deterministic(
    policy: EvictionPolicy,
    a: CacheEntry,
    b: CacheEntry,
    entropy_factor: u64,
    now: u64,
)
    requires
        a.file_size_bytes == b.file_size_bytes,
        a.created_at == b.created_at,
        a.viewport_distance == b.viewport_distance,
    ensures
        total_score_of(policy, a.file_size_bytes, a.created_at, a.viewport_distance, entropy_factor, now)
            == total_score_of(policy, b.file_size_bytes, b.created_at, b.viewport_distance, entropy_factor, now),
{
}

} // verus!
