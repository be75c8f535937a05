use caching_client::client::{CachingClient, Lookup};
use caching_client::key::{cache_key, do_hash, FNV_OFFSET};
use caching_client::store::MAX_EXPIRY_MILLIS;
use std::time::{Duration, Instant};

fn call(
    client: &mut CachingClient,
    target: &str,
    body: &[u8],
    calls: &mut u32,
    answer: Result<Vec<u8>, String>,
) -> Result<Vec<u8>, String> {
    match client.lookup(target, body) {
        Lookup::Hit(v) => Ok(v),
        Lookup::Miss(key) => {
            *calls += 1;
            client.record(key, answer)
        }
    }
}

fn store(client: &mut CachingClient, target: &str, value: &[u8]) {
    match client.lookup(target, b"{}") {
        Lookup::Miss(key) => {
            let r: Result<Vec<u8>, String> = client.record(key, Ok(value.to_vec()));
            assert_eq!(r, Ok(value.to_vec()));
        }
        Lookup::Hit(_) => panic!("expected a miss for {}", target),
    }
}

fn is_hit(client: &mut CachingClient, target: &str) -> bool {
    matches!(client.lookup(target, b"{}"), Lookup::Hit(_))
}

fn wait_until(start: Instant, elapsed: Duration) {
    while start.elapsed() < elapsed {}
}

#[test]
fn hash_of_empty_is_offset_basis() {
    assert_eq!(do_hash(b""), FNV_OFFSET);
    assert_eq!(do_hash(b""), 0xcbf2_9ce4_8422_2325);
}

#[test]
fn hash_known_values() {
    assert_eq!(do_hash(b"a"), 0xaf63_dc4c_8601_ec8c);
    assert_eq!(do_hash(b"foobar"), 0x8594_4171_f739_67e8);
    assert_ne!(do_hash(b"ab"), do_hash(b"ba"));
}

#[test]
fn key_is_target_hash_then_body_hash() {
    let k = cache_key("a", b"foobar");
    assert_eq!(k, (0xaf63_dc4c_8601_ec8c, 0x8594_4171_f739_67e8));
    assert_ne!(cache_key("http://x/a", b"1"), cache_key("http://x/a", b"2"));
    assert_ne!(cache_key("http://x/a", b"1"), cache_key("http://x/b", b"1"));
}

#[test]
fn idempotent_hit_reaches_executor_once() {
    let mut client = CachingClient::with_capacity(4);
    let mut calls = 0u32;
    let first = call(&mut client, "http://h/api", b"{\"q\":1}", &mut calls, Ok(b"[1,2]".to_vec()));
    let second = call(&mut client, "http://h/api", b"{\"q\":1}", &mut calls, Ok(b"other".to_vec()));
    assert_eq!(first, Ok(b"[1,2]".to_vec()));
    assert_eq!(second, first);
    assert_eq!(calls, 1);
}

#[test]
fn structurally_equal_requests_share_a_key() {
    let target1 = String::from("http://h/api");
    let target2 = format!("http://{}/{}", "h", "api");
    let body1: Vec<u8> = b"{\"q\":[1,2]}".to_vec();
    let body2: Vec<u8> = format!("{{\"q\":[{},{}]}}", 1, 2).into_bytes();
    assert_eq!(cache_key(&target1, &body1), cache_key(&target2, &body2));
    let mut client = CachingClient::with_capacity(4);
    let mut calls = 0u32;
    let _ = call(&mut client, &target1, &body1, &mut calls, Ok(b"7".to_vec()));
    let r = call(&mut client, &target2, &body2, &mut calls, Ok(b"8".to_vec()));
    assert_eq!(r, Ok(b"7".to_vec()));
    assert_eq!(calls, 1);
}

#[test]
fn capacity_evicts_least_recently_used() {
    let mut client = CachingClient::with_capacity(2);
    store(&mut client, "A", b"a");
    store(&mut client, "B", b"b");
    store(&mut client, "C", b"c");
    assert!(!client.contains("A", b"{}"));
    assert!(!is_hit(&mut client, "A"));
    assert!(is_hit(&mut client, "B"));
    store(&mut client, "D", b"d");
    assert!(!client.contains("C", b"{}"));
    assert!(client.contains("B", b"{}"));
    assert!(client.contains("D", b"{}"));
    match client.lookup("B", b"{}") {
        Lookup::Hit(v) => assert_eq!(v, b"b".to_vec()),
        Lookup::Miss(_) => panic!("B was evicted"),
    }
}

#[test]
fn capacity_one_keeps_latest() {
    let mut client = CachingClient::with_capacity(1);
    store(&mut client, "A", b"a");
    store(&mut client, "B", b"b");
    assert!(!client.contains("A", b"{}"));
    assert!(client.contains("B", b"{}"));
}

#[test]
fn entry_expires_after_duration() {
    let mut client = CachingClient::with_expiry_duration(1000);
    let start = Instant::now();
    store(&mut client, "A", b"a");
    wait_until(start, Duration::from_millis(300));
    assert!(client.contains("A", b"{}"));
    wait_until(start, Duration::from_millis(1500));
    assert!(!client.contains("A", b"{}"));
    let mut calls = 0u32;
    let r = call(&mut client, "A", b"{}", &mut calls, Ok(b"fresh".to_vec()));
    assert_eq!(r, Ok(b"fresh".to_vec()));
    assert_eq!(calls, 1);
}

#[test]
fn failure_is_not_cached() {
    let mut client = CachingClient::with_capacity(4);
    let mut calls = 0u32;
    let r = call(&mut client, "http://h/api", b"1", &mut calls, Err(String::from("timeout")));
    assert_eq!(r, Err(String::from("timeout")));
    assert!(!client.contains("http://h/api", b"1"));
    let r = call(&mut client, "http://h/api", b"1", &mut calls, Ok(b"ok".to_vec()));
    assert_eq!(r, Ok(b"ok".to_vec()));
    assert_eq!(calls, 2);
    let r = call(&mut client, "http://h/api", b"1", &mut calls, Err(String::from("unused")));
    assert_eq!(r, Ok(b"ok".to_vec()));
    assert_eq!(calls, 2);
}

#[test]
fn combined_policy_expires_below_capacity() {
    let mut client = CachingClient::with_expiry_duration_and_capacity(10, 1000);
    let start = Instant::now();
    store(&mut client, "A", b"a");
    store(&mut client, "B", b"b");
    wait_until(start, Duration::from_millis(300));
    assert!(client.contains("A", b"{}"));
    wait_until(start, Duration::from_millis(1500));
    assert!(!client.contains("A", b"{}"));
    assert!(!is_hit(&mut client, "B"));
}

#[test]
fn combined_policy_evicts_on_capacity() {
    let mut client = CachingClient::with_expiry_duration_and_capacity(2, 3_600_000);
    store(&mut client, "A", b"a");
    store(&mut client, "B", b"b");
    store(&mut client, "C", b"c");
    assert!(!client.contains("A", b"{}"));
    assert!(client.contains("B", b"{}"));
    assert!(client.contains("C", b"{}"));
}

#[test]
fn miss_leaves_cache_unchanged_and_names_key() {
    let mut client = CachingClient::with_capacity(2);
    store(&mut client, "A", b"a");
    store(&mut client, "B", b"b");
    match client.lookup("Z", b"{}") {
        Lookup::Miss(k) => assert_eq!(k, cache_key("Z", b"{}")),
        Lookup::Hit(_) => panic!("Z was never stored"),
    }
    assert!(client.contains("A", b"{}"));
    assert!(client.contains("B", b"{}"));
}

#[test]
fn read_restarts_an_entry_age() {
    let mut client = CachingClient::with_expiry_duration(1000);
    let start = Instant::now();
    store(&mut client, "A", b"a");
    wait_until(start, Duration::from_millis(700));
    assert!(is_hit(&mut client, "A"));
    wait_until(start, Duration::from_millis(1300));
    assert!(client.contains("A", b"{}"));
    wait_until(start, Duration::from_millis(2200));
    assert!(!client.contains("A", b"{}"));
}

#[test]
fn longest_expiry_is_usable() {
    let mut client = CachingClient::with_expiry_duration_and_capacity(2, MAX_EXPIRY_MILLIS);
    store(&mut client, "A", b"a");
    store(&mut client, "B", b"b");
    assert!(client.contains("A", b"{}"));
    assert!(is_hit(&mut client, "A"));
    store(&mut client, "C", b"c");
    assert!(!client.contains("B", b"{}"));
    assert!(client.contains("A", b"{}"));
}
