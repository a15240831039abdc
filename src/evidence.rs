use vstd::prelude::*;

use crate::protocol::{string_key_of, bbox_hash_of, CacheKey, EvidenceRequest, EvidenceResponse};
use crate::text::{chars_of, string_of};

verus! {

#[verifier::external_type_specification]
#[verifier::external_body]
#[verifier::reject_recursive_types(K)]
#[verifier::reject_recursive_types(V)]
#[verifier::reject_recursive_types(S)]
pub struct ExLruCache<K, V, S>(lru::LruCache<K, V, S>);

#[verifier::external_type_specification]
#[verifier::external_body]
pub struct ExLruHasher(lru::DefaultHasher);

/// The entries of an LRU cache of crops, most recently used first.
pub uninterp spec fn lru_entries(c: lru::LruCache<String, Vec<u8>>) -> Seq<(Seq<char>, Seq<u8>)>;

/// The capacity an LRU cache of crops was made with.
pub uninterp spec fn lru_capacity(c: lru::LruCache<String, Vec<u8>>) -> nat;

/// Index of the entry for `key`, if any.
pub open spec fn entry_index(s: Seq<(Seq<char>, Seq<u8>)>, key: Seq<char>) -> Option<int> {
    if exists|i: int| 0 <= i < s.len() && (#[trigger] s[i]).0 == key {
        Some(choose|i: int| 0 <= i < s.len() && (#[trigger] s[i]).0 == key)
    } else {
        None
    }
}

/// Relies on `lru::LruCache::new`: an empty cache holding at most
/// `max_items` entries; it panics on zero, which `requires` rules out.
#[verifier::external_body]
fn lru_new(max_items: usize) -> (r: lru::LruCache<String, Vec<u8>>)
    requires
        max_items > 0,
    ensures
        lru_entries(r).len() == 0,
        lru_capacity(r) == max_items,
{
    lru::LruCache::new(std::num::NonZeroUsize::new(max_items).unwrap())
}

/// Relies on `lru::LruCache::get`: a hit returns the value and moves its
/// entry to the most recently used position; a miss changes nothing.
#[verifier::external_body]
fn lru_get(c: &mut lru::LruCache<String, Vec<u8>>, key: &str) -> (r: Option<Vec<u8>>)
    ensures
        lru_capacity(*final(c)) == lru_capacity(*old(c)),
        match entry_index(lru_entries(*old(c)), key@) {
            None => r.is_none() && lru_entries(*final(c)) == lru_entries(*old(c)),
            Some(i) => r matches Some(v) && v@ == lru_entries(*old(c))[i].1 && lru_entries(*final(c))
                == seq![lru_entries(*old(c))[i]] + lru_entries(*old(c)).remove(i),
        },
{
    c.get(key).cloned()
}

/// Relies on `lru::LruCache::put`: an existing entry for the key takes the
/// new value and becomes most recently used; otherwise the entry is added as
/// most recently used, after dropping the least recently used one if the
/// cache is full.
#[verifier::external_body]
fn lru_put(c: &mut lru::LruCache<String, Vec<u8>>, key: String, data: Vec<u8>)
    ensures
        lru_capacity(*final(c)) == lru_capacity(*old(c)),
        match entry_index(lru_entries(*old(c)), key@) {
            Some(i) => lru_entries(*final(c)) == seq![(key@, data@)] + lru_entries(*old(c)).remove(i),
            None => if lru_entries(*old(c)).len() == lru_capacity(*old(c)) {
                lru_entries(*final(c)) == seq![(key@, data@)] + lru_entries(*old(c)).drop_last()
            } else {
                lru_entries(*final(c)) == seq![(key@, data@)] + lru_entries(*old(c))
            },
        },
{
    c.put(key, data);
}

/// What `base64`'s standard engine makes of some bytes.
pub uninterp spec fn base64_of(b: Seq<u8>) -> Seq<char>;

/// A character of the standard base64 alphabet, or the padding `=`.
pub open spec fn base64_alphabet(c: char) -> bool {
    ('A' <= c && c <= 'Z') || ('a' <= c && c <= 'z') || ('0' <= c && c <= '9') || c == '+' || c == '/'
        || c == '='
}

/// Relies on `base64::engine::general_purpose::STANDARD.encode`: standard
/// alphabet with padding, a function of the bytes alone; four characters for
/// every three bytes or part of three.
#[verifier::external_body]
fn encode_base64(b: &Vec<u8>) -> (r: String)
    ensures
        r@ == base64_of(b@),
        r@.len() == 4 * ((b@.len() + 2) / 3),
        forall|i: int| 0 <= i < r@.len() ==> base64_alphabet(#[trigger] r@[i]),
{
    base64::Engine::encode(&base64::engine::general_purpose::STANDARD, b)
}

/// The in-memory cache of rendered crops: bytes by key string, bounded by a
/// number of entries, least recently used dropped first.
pub struct EvidenceCache {
    memory_cache: lru::LruCache<String, Vec<u8>>,
}

impl EvidenceCache {
    /// Entries, most recently used first.
    pub closed spec fn spec_entries(&self) -> Seq<(Seq<char>, Seq<u8>)> {
        lru_entries(self.memory_cache)
    }

    pub closed spec fn spec_capacity(&self) -> nat {
        lru_capacity(self.memory_cache)
    }

    /// An empty cache of at most `max_items` crops.
    pub fn new(max_items: usize) -> (r: EvidenceCache)
        requires
            max_items > 0,
        ensures
            r.spec_entries().len() == 0,
            r.spec_capacity() == max_items,
    {
        EvidenceCache { memory_cache: lru_new(max_items) }
    }

    /// The crop stored under `key`, which becomes most recently used.
    pub fn get(&mut self, key: &str) -> (r: Option<Vec<u8>>)
        ensures
            final(self).spec_capacity() == old(self).spec_capacity(),
            match entry_index(old(self).spec_entries(), key@) {
                None => r.is_none() && final(self).spec_entries() == old(self).spec_entries(),
                Some(i) => r matches Some(v) && v@ == old(self).spec_entries()[i].1
                    && final(self).spec_entries() == seq![old(self).spec_entries()[i]] + old(
                    self,
                ).spec_entries().remove(i),
            },
    {
        lru_get(&mut self.memory_cache, key)
    }

    /// Stores a crop under `key` as most recently used, dropping the least
    /// recently used one when a new key meets a full cache.
    pub fn put(&mut self, key: String, data: Vec<u8>)
        ensures
            final(self).spec_capacity() == old(self).spec_capacity(),
            final(self).spec_entries()[0] == (key@, data@),
            match entry_index(old(self).spec_entries(), key@) {
                Some(i) => final(self).spec_entries() == seq![(key@, data@)] + old(self).spec_entries().remove(i),
                None => if old(self).spec_entries().len() == old(self).spec_capacity() {
                    final(self).spec_entries() == seq![(key@, data@)] + old(self).spec_entries().drop_last()
                } else {
                    final(self).spec_entries() == seq![(key@, data@)] + old(self).spec_entries()
                },
            },
    {
        lru_put(&mut self.memory_cache, key, data);
    }
}

/// The cache key string of a request: its fingerprint (the file path), page,
/// resolution and box.
pub open spec fn request_key_of(request: EvidenceRequest) -> Seq<char> {
    string_key_of(request.file_path@, request.page_index, request.dpi, bbox_hash_of(request.bbox))
}

/// The cache key string of `request`.
pub fn request_key(request: &EvidenceRequest) -> (r: String)
    ensures
        r@ == request_key_of(*request),
{
    let key = CacheKey::new(request.file_path.as_str(), request.page_index, request.dpi, &request.bbox);
    key.to_string_key()
}

/// Serves `request` from the crop cache when it holds the crop: a success
/// with the crop's bytes in base64, marked as a cache hit, without any
/// worker; `None` on a miss, when the request goes to a worker.
pub fn cached_evidence(cache: &mut EvidenceCache, request: &EvidenceRequest) -> (r: Option<EvidenceResponse>)
    ensures
        final(cache).spec_capacity() == old(cache).spec_capacity(),
        match entry_index(old(cache).spec_entries(), request_key_of(*request)) {
            None => r.is_none() && final(cache).spec_entries() == old(cache).spec_entries(),
            Some(i) => r matches Some(EvidenceResponse::Success(s)) && s.request_id@ == request.request_id@
                && s.data_base64@ == base64_of(old(cache).spec_entries()[i].1)
                && s.data_base64@.len() == 4 * ((old(cache).spec_entries()[i].1.len() + 2) / 3)
                && s.mime_type@ == "image/jpeg"@
                && s.is_cache_hit && s.width == 0 && s.height == 0,
        },
{
    let key = request_key(request);
    match cache.get(key.as_str()) {
        None => None,
        Some(bytes) => {
            let encoded = encode_base64(&bytes);
            Some(
                EvidenceResponse::success(
                    string_of(&chars_of(request.request_id.as_str())),
                    encoded,
                    String::from_str("image/jpeg"),
                    (0, 0),
                    true,
                ),
            )
        },
    }
}

} // verus!
