//! The caching facade: derives a request's key, answers from the store when
//! it can, and stores what a successful request returned otherwise. The
//! request itself is made by the caller between `lookup` and `record`.
use vstd::prelude::*;
use vstd::string::*;
use lru_time_cache::LruCache;
use crate::key::{cache_key, key_of, CacheKey};
use crate::store::{
    bytes_of, empty_store, insert_step, lemma_insert_step_wf, lemma_probe_step_wf, lru_contains,
    lru_insert, lru_probe, lru_with_capacity, lru_with_expiry_duration,
    lru_with_expiry_duration_and_capacity, probe_step, store_model, StoreModel, MAX_EXPIRY_MILLIS,
};

verus! {

/// The answer of a lookup: the stored response, or the key under which the
/// response of the request, once made, is to be recorded.
pub enum Lookup {
    Hit(Vec<u8>),
    Miss(CacheKey),
}

/// A request cache owned by one client.
pub struct CachingClient {
    cache: LruCache<CacheKey, Vec<u8>>,
}

/// A recording of `stored` (the response, or `None` when the request failed)
/// under `k` in `old` that leaves `new`: a failure changes nothing.
pub open spec fn record_step(old: StoreModel, k: CacheKey, stored: Option<Seq<u8>>, new: StoreModel) -> bool {
    match stored {
        None => new == old,
        Some(v) => insert_step(old, k, v, new),
    }
}

impl View for CachingClient {
    type V = StoreModel;

    closed spec fn view(&self) -> StoreModel {
        store_model(self.cache)
    }
}

impl CachingClient {
    pub open spec fn wf(&self) -> bool {
        self@.wf()
    }

    /// A client whose cache holds at most `cache_size` responses, evicting
    /// the least recently used one when full. The cache reserves room for
    /// `cache_size` keys of 16 bytes up front, which must fit in `isize::MAX`
    /// bytes.
    pub fn with_capacity(cache_size: usize) -> (r: Self)
        requires
            0 < cache_size <= isize::MAX as usize / 16,
        ensures
            r.wf(),
            r@ == empty_store(cache_size as nat, None),
    {
        let cache = lru_with_capacity(cache_size);
        proof {
            assert(store_model(cache).entries =~= Map::empty());
            assert(store_model(cache).order =~= Seq::empty());
        }
        CachingClient { cache }
    }

    /// A client whose cached responses expire `expiry_millis` milliseconds
    /// after they were last stored or read, with no bound on their number.
    /// A response's age counts from its last store or read, not from its
    /// first insertion: one read often enough never expires.
    pub fn with_expiry_duration(expiry_millis: u64) -> (r: Self)
        requires
            0 < expiry_millis <= MAX_EXPIRY_MILLIS,
        ensures
            r.wf(),
            r@ == empty_store(usize::MAX as nat, Some(expiry_millis as nat)),
    {
        let cache = lru_with_expiry_duration(expiry_millis);
        proof {
            assert(store_model(cache).entries =~= Map::empty());
            assert(store_model(cache).order =~= Seq::empty());
        }
        CachingClient { cache }
    }

    /// A client whose cache holds at most `cache_size` responses, each of
    /// which expires `expiry_millis` milliseconds after it was last stored
    /// or read (not after its first insertion). Room is reserved as in
    /// `with_capacity`.
    pub fn with_expiry_duration_and_capacity(cache_size: usize, expiry_millis: u64) -> (r: Self)
        requires
            0 < cache_size <= isize::MAX as usize / 16,
            0 < expiry_millis <= MAX_EXPIRY_MILLIS,
        ensures
            r.wf(),
            r@ == empty_store(cache_size as nat, Some(expiry_millis as nat)),
    {
        let cache = lru_with_expiry_duration_and_capacity(expiry_millis, cache_size);
        proof {
            assert(store_model(cache).entries =~= Map::empty());
            assert(store_model(cache).order =~= Seq::empty());
        }
        CachingClient { cache }
    }

    /// Looks up the request with target `target` and encoded body `body`:
    /// a hit hands back a copy of the stored response and makes it the most
    /// recently used; a miss leaves the cache as it was and hands back the
    /// key to record the response under.
    pub fn lookup(&mut self, target: &str, body: &[u8]) -> (r: Lookup)
        requires
            old(self).wf(),
        ensures
            final(self).wf(),
            match r {
                Lookup::Hit(v) => probe_step(
                    old(self)@,
                    key_of(target.spec_bytes(), body@),
                    Some(v@),
                    final(self)@,
                ),
                Lookup::Miss(k) => k == key_of(target.spec_bytes(), body@) && probe_step(
                    old(self)@,
                    k,
                    None,
                    final(self)@,
                ),
            },
    {
        let key = cache_key(target, body);
        let r = lru_probe(&mut self.cache, key);
        proof {
            lemma_probe_step_wf(old(self)@, key, bytes_of(r), self@);
        }
        match r {
            Some(v) => Lookup::Hit(v),
            None => Lookup::Miss(key),
        }
    }

    /// Records the outcome of the request whose key a miss handed out, and
    /// hands the outcome back: a response is stored under `key`, a failure
    /// leaves the cache as it was.
    pub fn record<E>(&mut self, key: CacheKey, outcome: Result<Vec<u8>, E>) -> (r: Result<Vec<u8>, E>)
        requires
            old(self).wf(),
        ensures
            final(self).wf(),
            r == outcome,
            record_step(
                old(self)@,
                key,
                match outcome {
                    Ok(v) => Some(v@),
                    Err(_) => None,
                },
                final(self)@,
            ),
    {
        match outcome {
            Ok(v) => {
                let stored = v.clone();
                proof {
                    assert(stored@ =~= v@);
                }
                lru_insert(&mut self.cache, key, stored);
                proof {
                    lemma_insert_step_wf(old(self)@, key, v@, self@);
                }
                Ok(v)
            },
            Err(e) => Err(e),
        }
    }

    /// Whether a response is stored for the request with target `target`
    /// and encoded body `body`; the recency order is left alone. Without
    /// expiry this is exact; with it, an entry found is one the cache holds.
    pub fn contains(&self, target: &str, body: &[u8]) -> (r: bool)
        ensures
            r ==> self@.entries.contains_key(key_of(target.spec_bytes(), body@)),
            !self@.expiring() ==> r == self@.entries.contains_key(key_of(target.spec_bytes(), body@)),
    {
        let key = cache_key(target, body);
        lru_contains(&self.cache, key)
    }
}

} // verus!
