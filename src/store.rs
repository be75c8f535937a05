//! The cache store: lru_time_cache's `LruCache`, keyed by request keys and
//! holding encoded responses, described by an abstract model of its entries,
//! their recency order, its capacity and whether entries expire.
use vstd::prelude::*;
use lru_time_cache::LruCache;
use std::time::Duration;
use crate::key::CacheKey;

verus! {

#[verifier::external_type_specification]
#[verifier::external_body]
#[verifier::reject_recursive_types(Key)]
#[verifier::reject_recursive_types(Value)]
pub struct ExLruCache<Key, Value>(LruCache<Key, Value>);

/// The entries that a cache holds, expired ones not yet removed included.
pub uninterp spec fn lru_entries(c: LruCache<(u64, u64), Vec<u8>>) -> Map<(u64, u64), Seq<u8>>;

/// The keys of a cache's entries from least to most recently used.
pub uninterp spec fn lru_order(c: LruCache<(u64, u64), Vec<u8>>) -> Seq<(u64, u64)>;

/// The number of entries that a cache was built to hold at most.
pub uninterp spec fn lru_capacity(c: LruCache<(u64, u64), Vec<u8>>) -> nat;

/// The expiry duration that a cache was built with, in whole milliseconds;
/// `None` when its entries never expire.
pub uninterp spec fn lru_time_to_live(c: LruCache<(u64, u64), Vec<u8>>) -> Option<nat>;

/// The longest expiry duration accepted, in milliseconds (about 31,700
/// years): an entry's time stamp plus this duration stays far inside the
/// range of `Instant`, whose addition panics on overflow.
pub const MAX_EXPIRY_MILLIS: u64 = 1_000_000_000_000_000;

/// What a cache holds, as mathematical values.
pub ghost struct StoreModel {
    pub entries: Map<CacheKey, Seq<u8>>,
    /// Keys from least to most recently used.
    pub order: Seq<CacheKey>,
    pub capacity: nat,
    /// The expiry duration in milliseconds, if entries expire.
    pub ttl_millis: Option<nat>,
}

pub open spec fn store_model(c: LruCache<CacheKey, Vec<u8>>) -> StoreModel {
    StoreModel {
        entries: lru_entries(c),
        order: lru_order(c),
        capacity: lru_capacity(c),
        ttl_millis: lru_time_to_live(c),
    }
}

/// An empty store of the given capacity and expiry duration.
pub open spec fn empty_store(capacity: nat, ttl_millis: Option<nat>) -> StoreModel {
    StoreModel { entries: Map::empty(), order: Seq::empty(), capacity, ttl_millis }
}

impl StoreModel {
    /// Whether entries expire.
    pub open spec fn expiring(self) -> bool {
        self.ttl_millis is Some
    }

    /// The order lists each key of `entries` once, and no more keys than
    /// the capacity allows.
    pub open spec fn wf(self) -> bool {
        &&& self.capacity > 0
        &&& self.order.no_duplicates()
        &&& self.order.len() <= self.capacity
        &&& forall|k: CacheKey| #[trigger] self.entries.contains_key(k) <==> self.order.contains(k)
    }

    /// Whether expiry may remove the `n` least recently used entries: any
    /// number of them when entries expire, none otherwise.
    pub open spec fn may_expire(self, n: int) -> bool {
        &&& 0 <= n <= self.order.len()
        &&& !self.expiring() ==> n == 0
    }

    /// The store without its `n` least recently used entries.
    pub open spec fn drop_oldest(self, n: int) -> StoreModel {
        StoreModel {
            entries: self.entries.remove_keys(self.order.subrange(0, n).to_set()),
            order: self.order.subrange(n, self.order.len() as int),
            ..self
        }
    }

    /// The store with `k` made the most recently used key.
    pub open spec fn touch(self, k: CacheKey) -> StoreModel {
        StoreModel { order: self.order.remove_value(k).push(k), ..self }
    }

    /// The store after `k` is set to `v`: an existing entry is replaced and
    /// made most recent; a new one is appended, and when the store is full
    /// the least recently used entry is evicted first.
    pub open spec fn put(self, k: CacheKey, v: Seq<u8>) -> StoreModel {
        if self.entries.contains_key(k) {
            StoreModel {
                entries: self.entries.insert(k, v),
                order: self.order.remove_value(k).push(k),
                ..self
            }
        } else if self.order.len() >= self.capacity {
            StoreModel {
                entries: self.entries.remove(self.order[0]).insert(k, v),
                order: self.order.drop_first().push(k),
                ..self
            }
        } else {
            StoreModel { entries: self.entries.insert(k, v), order: self.order.push(k), ..self }
        }
    }
}

/// A lookup of `k` in `old` that leaves `new`: `hit` is the value found, if
/// any. A miss changes nothing; without expiry it happens exactly when `k`
/// has no entry. A hit returns the stored value, after expiry removed some
/// least recently used entries other than `k`, and makes `k` most recent.
pub open spec fn probe_step(old: StoreModel, k: CacheKey, hit: Option<Seq<u8>>, new: StoreModel) -> bool {
    match hit {
        None => new == old && (!old.expiring() ==> !old.entries.contains_key(k)),
        Some(v) => exists|n: int|
            old.may_expire(n) && (#[trigger] old.drop_oldest(n)).entries.contains_key(k)
                && v == old.entries[k] && new == old.drop_oldest(n).touch(k),
    }
}

/// An insertion of `v` under `k` into `old` that leaves `new`: expiry may
/// first remove some least recently used entries, then `put` applies.
pub open spec fn insert_step(old: StoreModel, k: CacheKey, v: Seq<u8>, new: StoreModel) -> bool {
    exists|n: int| old.may_expire(n) && new == (#[trigger] old.drop_oldest(n)).put(k, v)
}

/// Removing a key from a duplicate-free order removes exactly that key.
proof fn lemma_remove_value(s: Seq<CacheKey>, k: CacheKey)
    requires
        s.no_duplicates(),
        s.contains(k),
    ensures
        s.remove_value(k).no_duplicates(),
        s.remove_value(k).len() == s.len() - 1,
        forall|x: CacheKey| #[trigger] s.remove_value(k).contains(x) <==> (s.contains(x) && x != k),
{
    s.index_of_first_ensures(k);
    let i = s.index_of_first(k).unwrap();
    s.remove_ensures(i);
    let r = s.remove(i);
    assert(r == s.remove_value(k));
    assert forall|x: CacheKey| #[trigger] r.contains(x) <==> (s.contains(x) && x != k) by {
        if r.contains(x) {
            let j = choose|j: int| 0 <= j < r.len() && r[j] == x;
            if j < i {
                assert(s[j] == x);
            } else {
                assert(s[j + 1] == x);
            }
        }
        if s.contains(x) && x != k {
            let j = choose|j: int| 0 <= j < s.len() && s[j] == x;
            if j < i {
                assert(r[j] == x);
            } else {
                assert(r[j - 1] == x);
            }
        }
    }
    assert forall|a: int, b: int| 0 <= a < r.len() && 0 <= b < r.len() && a != b implies r[a]
        != r[b] by {
        let sa = if a < i { a } else { a + 1 };
        let sb = if b < i { b } else { b + 1 };
        assert(r[a] == s[sa]);
        assert(r[b] == s[sb]);
    }
}

/// Appending a key absent from a duplicate-free order keeps it free of
/// duplicates.
proof fn lemma_push(s: Seq<CacheKey>, k: CacheKey)
    requires
        s.no_duplicates(),
        !s.contains(k),
    ensures
        s.push(k).no_duplicates(),
        forall|x: CacheKey| #[trigger] s.push(k).contains(x) <==> (s.contains(x) || x == k),
{
    let r = s.push(k);
    assert forall|x: CacheKey| #[trigger] r.contains(x) <==> (s.contains(x) || x == k) by {
        if r.contains(x) {
            let j = choose|j: int| 0 <= j < r.len() && r[j] == x;
            if j < s.len() {
                assert(s[j] == x);
            }
        }
        if s.contains(x) {
            let j = choose|j: int| 0 <= j < s.len() && s[j] == x;
            assert(r[j] == x);
        }
        if x == k {
            assert(r[s.len() as int] == x);
        }
    }
    assert forall|a: int, b: int| 0 <= a < r.len() && 0 <= b < r.len() && a != b implies r[a]
        != r[b] by {
        if a < s.len() && b < s.len() {
            assert(r[a] == s[a] && r[b] == s[b]);
        } else if a < s.len() {
            assert(r[a] == s[a]);
        } else if b < s.len() {
            assert(r[b] == s[b]);
        }
    }
}

/// Dropping least recently used entries keeps a store well formed.
proof fn lemma_drop_oldest_wf(s: StoreModel, n: int)
    requires
        s.wf(),
        0 <= n <= s.order.len(),
    ensures
        s.drop_oldest(n).wf(),
{
    let d = s.drop_oldest(n);
    let pre = s.order.subrange(0, n);
    let suf = s.order.subrange(n, s.order.len() as int);
    assert forall|x: CacheKey| #[trigger] suf.contains(x) <==> (s.order.contains(x)
        && !pre.to_set().contains(x)) by {
        if suf.contains(x) {
            let j = choose|j: int| 0 <= j < suf.len() && suf[j] == x;
            assert(s.order[n + j] == x);
            if pre.contains(x) {
                let i = choose|i: int| 0 <= i < pre.len() && pre[i] == x;
                assert(s.order[i] == x);
            }
        }
        if s.order.contains(x) && !pre.contains(x) {
            let j = choose|j: int| 0 <= j < s.order.len() && s.order[j] == x;
            if j < n {
                assert(pre[j] == x);
            } else {
                assert(suf[j - n] == x);
            }
        }
    }
    assert forall|k: CacheKey| #[trigger] d.entries.contains_key(k) <==> d.order.contains(k) by {
        assert(s.entries.contains_key(k) <==> s.order.contains(k));
    }
    assert forall|a: int, b: int| 0 <= a < suf.len() && 0 <= b < suf.len() && a != b implies suf[a]
        != suf[b] by {
        assert(suf[a] == s.order[n + a] && suf[b] == s.order[n + b]);
    }
}

/// Making a stored key most recent keeps a store well formed.
proof fn lemma_touch_wf(s: StoreModel, k: CacheKey)
    requires
        s.wf(),
        s.entries.contains_key(k),
    ensures
        s.touch(k).wf(),
{
    lemma_remove_value(s.order, k);
    lemma_push(s.order.remove_value(k), k);
    let t = s.touch(k);
    assert forall|x: CacheKey| #[trigger] t.entries.contains_key(x) <==> t.order.contains(x) by {
        assert(s.entries.contains_key(x) <==> s.order.contains(x));
    }
}

/// Setting a key keeps a store well formed.
proof fn lemma_put_wf(s: StoreModel, k: CacheKey, v: Seq<u8>)
    requires
        s.wf(),
    ensures
        s.put(k, v).wf(),
{
    let t = s.put(k, v);
    if s.entries.contains_key(k) {
        lemma_remove_value(s.order, k);
        lemma_push(s.order.remove_value(k), k);
        assert forall|x: CacheKey| #[trigger] t.entries.contains_key(x) <==> t.order.contains(x) by {
            assert(s.entries.contains_key(x) <==> s.order.contains(x));
        }
    } else if s.order.len() >= s.capacity {
        let first = s.order[0];
        assert(s.order.contains(first));
        assert(s.order.drop_first() == s.order.remove_value(first)) by {
            s.order.index_of_first_ensures(first);
        }
        lemma_remove_value(s.order, first);
        assert(!s.order.drop_first().contains(k)) by {
            assert(!s.order.contains(k));
        }
        lemma_push(s.order.drop_first(), k);
        assert forall|x: CacheKey| #[trigger] t.entries.contains_key(x) <==> t.order.contains(x) by {
            assert(s.entries.contains_key(x) <==> s.order.contains(x));
        }
    } else {
        assert(!s.order.contains(k)) by {
            assert(s.entries.contains_key(k) <==> s.order.contains(k));
        }
        lemma_push(s.order, k);
        assert forall|x: CacheKey| #[trigger] t.entries.contains_key(x) <==> t.order.contains(x) by {
            assert(s.entries.contains_key(x) <==> s.order.contains(x));
        }
    }
}

/// A lookup keeps a well-formed store well formed.
pub proof fn lemma_probe_step_wf(old: StoreModel, k: CacheKey, hit: Option<Seq<u8>>, new: StoreModel)
    requires
        old.wf(),
        probe_step(old, k, hit, new),
    ensures
        new.wf(),
{
    if hit is Some {
        let n = choose|n: int|
            old.may_expire(n) && (#[trigger] old.drop_oldest(n)).entries.contains_key(k)
                && hit->0 == old.entries[k] && new == old.drop_oldest(n).touch(k);
        lemma_drop_oldest_wf(old, n);
        lemma_touch_wf(old.drop_oldest(n), k);
    }
}

/// An insertion keeps a well-formed store well formed.
pub proof fn lemma_insert_step_wf(old: StoreModel, k: CacheKey, v: Seq<u8>, new: StoreModel)
    requires
        old.wf(),
        insert_step(old, k, v, new),
    ensures
        new.wf(),
{
    let n = choose|n: int| old.may_expire(n) && new == (#[trigger] old.drop_oldest(n)).put(k, v);
    lemma_drop_oldest_wf(old, n);
    lemma_put_wf(old.drop_oldest(n), k, v);
}

pub open spec fn bytes_of(r: Option<Vec<u8>>) -> Option<Seq<u8>> {
    match r {
        Some(v) => Some(v@),
        None => None,
    }
}

/// Relies on LruCache::with_capacity: an empty cache that holds at most
/// `capacity` entries and never expires them. It reserves room for
/// `capacity` keys of 16 bytes, and `VecDeque::with_capacity` panics past
/// `isize::MAX` bytes.
#[verifier::external_body]
pub(crate) fn lru_with_capacity(capacity: usize) -> (r: LruCache<CacheKey, Vec<u8>>)
    requires
        0 < capacity <= isize::MAX as usize / 16,
    ensures
        lru_entries(r).dom() == Set::<CacheKey>::empty(),
        lru_order(r).len() == 0,
        lru_capacity(r) == capacity as nat,
        lru_time_to_live(r) == None::<nat>,
{
    LruCache::with_capacity(capacity)
}

/// Relies on LruCache::with_expiry_duration: an empty cache whose capacity
/// is `usize::MAX` and whose entries expire after `expiry_millis`
/// milliseconds. The bound keeps the cache's `Instant + Duration` sums from
/// overflowing.
#[verifier::external_body]
pub(crate) fn lru_with_expiry_duration(expiry_millis: u64) -> (r: LruCache<CacheKey, Vec<u8>>)
    requires
        0 < expiry_millis <= MAX_EXPIRY_MILLIS,
    ensures
        lru_entries(r).dom() == Set::<CacheKey>::empty(),
        lru_order(r).len() == 0,
        lru_capacity(r) == usize::MAX as nat,
        lru_time_to_live(r) == Some(expiry_millis as nat),
{
    LruCache::with_expiry_duration(Duration::from_millis(expiry_millis))
}

/// Relies on LruCache::with_expiry_duration_and_capacity: an empty cache that
/// holds at most `capacity` entries and whose entries expire after
/// `expiry_millis` milliseconds. It reserves room as `with_capacity` does,
/// and the expiry is bounded as in `with_expiry_duration`.
#[verifier::external_body]
pub(crate) fn lru_with_expiry_duration_and_capacity(expiry_millis: u64, capacity: usize) -> (r:
    LruCache<CacheKey, Vec<u8>>)
    requires
        0 < capacity <= isize::MAX as usize / 16,
        0 < expiry_millis <= MAX_EXPIRY_MILLIS,
    ensures
        lru_entries(r).dom() == Set::<CacheKey>::empty(),
        lru_order(r).len() == 0,
        lru_capacity(r) == capacity as nat,
        lru_time_to_live(r) == Some(expiry_millis as nat),
{
    LruCache::with_expiry_duration_and_capacity(Duration::from_millis(expiry_millis), capacity)
}

/// Relies on LruCache::entry with OccupiedEntry::into_mut: a vacant entry
/// leaves the cache untouched; an occupied one first removes the expired
/// entries (a prefix of the recency order, the key's own entry being live),
/// then moves the key to the back of the order.
#[verifier::external_body]
pub(crate) fn lru_probe(c: &mut LruCache<CacheKey, Vec<u8>>, k: CacheKey) -> (r: Option<Vec<u8>>)
    requires
        store_model(*old(c)).wf(),
    ensures
        probe_step(store_model(*old(c)), k, bytes_of(r), store_model(*final(c))),
{
    match c.entry(k) {
        lru_time_cache::Entry::Occupied(e) => Some(e.into_mut().clone()),
        lru_time_cache::Entry::Vacant(_) => None,
    }
}

/// Relies on LruCache::insert: the expired entries (a prefix of the recency
/// order) are removed, then an existing entry for `k` is replaced and moved
/// to the back of the order, or a new one is pushed there after the least
/// recently used entry is dropped from a full cache.
#[verifier::external_body]
pub(crate) fn lru_insert(c: &mut LruCache<CacheKey, Vec<u8>>, k: CacheKey, v: Vec<u8>)
    requires
        store_model(*old(c)).wf(),
    ensures
        insert_step(store_model(*old(c)), k, v@, store_model(*final(c))),
{
    let _ = c.insert(k, v);
}

/// Relies on LruCache::contains_key: true only for a key with an entry,
/// and, without expiry, for every such key.
#[verifier::external_body]
pub(crate) fn lru_contains(c: &LruCache<CacheKey, Vec<u8>>, k: CacheKey) -> (r: bool)
    ensures
        r ==> lru_entries(*c).contains_key(k),
        lru_time_to_live(*c) is None ==> r == lru_entries(*c).contains_key(k),
{
    c.contains_key(&k)
}

} // verus!
