//! Derivation of cache keys from a request's identity.
use vstd::prelude::*;
use vstd::string::*;

verus! {

/// FNV-1a 64-bit offset basis.
pub const FNV_OFFSET: u64 = 0xcbf2_9ce4_8422_2325;

/// FNV-1a 64-bit prime.
pub const FNV_PRIME: u64 = 0x0000_0100_0000_01b3;

/// The key under which a response is cached: the fingerprint of the target,
/// then the fingerprint of the encoded body.
pub type CacheKey = (u64, u64);

/// One FNV-1a round: mix a byte into the running hash.
pub open spec fn fnv_step(h: u64, b: u8) -> u64 {
    (h ^ (b as u64)).wrapping_mul(FNV_PRIME)
}

/// The FNV-1a 64-bit hash of a byte sequence.
pub open spec fn fnv_hash(s: Seq<u8>) -> u64
    decreases s.len(),
{
    if s.len() == 0 {
        FNV_OFFSET
    } else {
        fnv_step(fnv_hash(s.drop_last()), s.last())
    }
}

/// The key of a request with target bytes `target` and encoded body `body`.
pub open spec fn key_of(target: Seq<u8>, body: Seq<u8>) -> CacheKey {
    (fnv_hash(target), fnv_hash(body))
}

/// Fingerprints a byte sequence with the FNV-1a 64-bit hash: a pure,
/// deterministic function of the bytes, not collision resistant.
pub fn do_hash(v: &[u8]) -> (r: u64)
    ensures
        r == fnv_hash(v@),
{
    let mut h: u64 = FNV_OFFSET;
    let mut i: usize = 0;
    while i < v.len()
        invariant
            i <= v@.len(),
            h == fnv_hash(v@.subrange(0, i as int)),
        decreases v@.len() - i,
    {
        proof {
            let next = v@.subrange(0, i as int + 1);
            assert(next.drop_last() =~= v@.subrange(0, i as int));
        }
        h = (h ^ (v[i] as u64)).wrapping_mul(FNV_PRIME);
        i = i + 1;
    }
    assert(v@.subrange(0, v@.len() as int) =~= v@);
    h
}

/// Derives the cache key of a request from its target and its encoded body.
/// Equal targets and equal body bytes always give equal keys.
pub fn cache_key(target: &str, body: &[u8]) -> (r: CacheKey)
    ensures
        r == key_of(target.spec_bytes(), body@),
{
    let t = target.as_bytes_vec();
    (do_hash(t.as_slice()), do_hash(body))
}

} // verus!
