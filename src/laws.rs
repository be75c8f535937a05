//! Properties of the facade across several calls, stated over the steps
//! that `CachingClient::lookup` and `CachingClient::record` guarantee.
use vstd::prelude::*;
use crate::client::record_step;
use crate::key::{key_of, CacheKey};
use crate::store::{insert_step, probe_step, StoreModel};

verus! {

/// A response stored under `k` is the value that `k` then maps to.
proof fn lemma_stored_value(s: StoreModel, k: CacheKey, v: Seq<u8>, t: StoreModel)
    requires
        insert_step(s, k, v, t),
    ensures
        t.entries.contains_key(k),
        t.entries[k] == v,
        t.expiring() == s.expiring(),
{
    let n = choose|n: int| s.may_expire(n) && t == (#[trigger] s.drop_oldest(n)).put(k, v);
    let d = s.drop_oldest(n);
    if d.entries.contains_key(k) {
    } else if d.order.len() >= d.capacity {
    } else {
    }
}

/// Two consecutive calls for one request: after a miss whose response was
/// stored, the next lookup of the same key can only hit that very response,
/// and without expiry it does hit it, so the request is made only once.
pub proof fn lemma_second_call_hits(
    s0: StoreModel,
    s1: StoreModel,
    s2: StoreModel,
    s3: StoreModel,
    k: CacheKey,
    v: Seq<u8>,
    hit: Option<Seq<u8>>,
)
    requires
        probe_step(s0, k, None, s1),
        record_step(s1, k, Some(v), s2),
        probe_step(s2, k, hit, s3),
    ensures
        hit is Some ==> hit == Some(v),
        !s0.expiring() ==> hit == Some(v),
{
    lemma_stored_value(s1, k, v, s2);
}

/// Requests with equal targets and equal encoded bodies share one key, so
/// once the first one's response is stored the second one can only hit it,
/// and without expiry it does.
pub proof fn lemma_equal_requests_share_entry(
    target1: Seq<u8>,
    body1: Seq<u8>,
    target2: Seq<u8>,
    body2: Seq<u8>,
    s0: StoreModel,
    s1: StoreModel,
    s2: StoreModel,
    s3: StoreModel,
    v: Seq<u8>,
    hit: Option<Seq<u8>>,
)
    requires
        target1 == target2,
        body1 == body2,
        probe_step(s0, key_of(target1, body1), None, s1),
        record_step(s1, key_of(target1, body1), Some(v), s2),
        probe_step(s2, key_of(target2, body2), hit, s3),
    ensures
        key_of(target1, body1) == key_of(target2, body2),
        hit is Some ==> hit == Some(v),
        !s0.expiring() ==> hit == Some(v),
{
    lemma_second_call_hits(s0, s1, s2, s3, key_of(target1, body1), v, hit);
}

/// A failed request is not cached: the miss and the failure leave the store
/// as it was, and without expiry the key still has no entry, so the next
/// identical call misses again and makes the request anew.
pub proof fn lemma_failure_not_cached(
    s0: StoreModel,
    s1: StoreModel,
    s2: StoreModel,
    s3: StoreModel,
    k: CacheKey,
    hit: Option<Seq<u8>>,
)
    requires
        probe_step(s0, k, None, s1),
        record_step(s1, k, None, s2),
        probe_step(s2, k, hit, s3),
    ensures
        s2 == s0,
        !s0.expiring() ==> !s2.entries.contains_key(k) && hit is None,
{
    if !s0.expiring() && hit is Some {
        let n = choose|n: int|
            s2.may_expire(n) && (#[trigger] s2.drop_oldest(n)).entries.contains_key(k)
                && hit->0 == s2.entries[k] && s3 == s2.drop_oldest(n).touch(k);
        assert(n == 0);
        assert(s2.order.subrange(0, 0).to_set() =~= Set::empty());
        assert(s2.drop_oldest(0).entries =~= s2.entries);
    }
}

/// Without expiry, recording a response for a new key in a full store
/// evicts exactly the least recently used entry: the others keep their
/// values, and the new key becomes the most recently used.
pub proof fn lemma_full_store_evicts_least_recent(
    s0: StoreModel,
    s1: StoreModel,
    k: CacheKey,
    v: Seq<u8>,
)
    requires
        s0.wf(),
        !s0.expiring(),
        s0.order.len() == s0.capacity,
        !s0.entries.contains_key(k),
        record_step(s0, k, Some(v), s1),
    ensures
        !s1.entries.contains_key(s0.order[0]),
        s1.entries.contains_key(k),
        s1.entries[k] == v,
        forall|x: CacheKey|
            x != s0.order[0] && #[trigger] s0.entries.contains_key(x) ==> s1.entries.contains_key(x)
                && s1.entries[x] == s0.entries[x],
        s1.order == s0.order.drop_first().push(k),
{
    let n = choose|n: int| s0.may_expire(n) && s1 == (#[trigger] s0.drop_oldest(n)).put(k, v);
    assert(n == 0);
    assert(s0.order.subrange(0, 0).to_set() =~= Set::empty());
    assert(s0.drop_oldest(0).entries =~= s0.entries);
    assert(s0.drop_oldest(0).order =~= s0.order);
    assert(s0.drop_oldest(0) == s0);
    assert(s0.order.contains(s0.order[0]));
}

} // verus!
