use bytes::Bytes;
use hyper::header::HeaderValue;
use hyper::HeaderMap;
use std::sync::Arc;
use untitled_cache_server::cache::{choose_victim, FetchOutcome, Lookup, TlruCache};
use untitled_cache_server::content::{CacheError, CacheResult};
use untitled_cache_server::store::Slot;

fn headers(kind: &'static str) -> Arc<HeaderMap> {
    let mut map = HeaderMap::new();
    map.insert("content-type", HeaderValue::from_static(kind));
    Arc::new(map)
}

fn body(text: &'static str, expires: u64) -> CacheResult {
    Ok((Bytes::from_static(text.as_bytes()), headers("text/plain"), expires))
}

/// Fetches the resource under `key` and files it at `now`.
fn fill(cache: &mut TlruCache, key: u64, text: &'static str, now: u64, expires: u64) {
    assert!(matches!(cache.lookup(key, key, now), Lookup::Fetch(k) if k == key));
    let result = cache.finish_fetch(key, FetchOutcome::Finished(body(text, expires)), now);
    assert_eq!(&result.unwrap().0[..], text.as_bytes());
}

fn is_hit(found: Lookup, text: &str, until: u64) -> bool {
    match found {
        Lookup::Hit(data, headers, expires) => {
            &data[..] == text.as_bytes()
                && headers.get("content-type").unwrap() == "text/plain"
                && expires == until
        }
        _ => false,
    }
}

#[test]
fn a_new_cache_is_empty() {
    let cache = TlruCache::new(42);
    assert_eq!(cache.diagnostics(), (0, 0, 0, 0, 42));
}

#[test]
fn stored_resource_is_served_until_it_expires() {
    let mut cache = TlruCache::new(100);
    fill(&mut cache, 1, "hello", 10, 50);
    assert!(is_hit(cache.lookup(1, 9, 11), "hello", 50));
    assert!(is_hit(cache.lookup(1, 9, 49), "hello", 50));
    assert!(matches!(cache.lookup(1, 9, 50), Lookup::Fetch(1)));
}

#[test]
fn expired_data_is_no_longer_accounted_for() {
    let mut cache = TlruCache::new(100);
    fill(&mut cache, 1, "hello", 10, 50);
    assert_eq!(cache.diagnostics(), (1, 0, 0, 5, 100));
    assert!(matches!(cache.lookup(1, 9, 51), Lookup::Fetch(1)));
    assert_eq!(cache.diagnostics(), (1, 0, 0, 0, 100));
    cache.finish_fetch(1, FetchOutcome::Finished(body("hi", 99)), 52).unwrap();
    assert_eq!(cache.diagnostics(), (1, 0, 0, 2, 100));
}

#[test]
fn only_one_request_fetches() {
    let mut cache = TlruCache::new(100);
    assert!(matches!(cache.lookup(1, 7, 10), Lookup::Fetch(1)));
    assert!(matches!(cache.lookup(1, 8, 11), Lookup::Wait(7)));
    assert!(matches!(cache.lookup(1, 9, 12), Lookup::Wait(7)));
    assert!(matches!(cache.lookup(2, 10, 13), Lookup::Fetch(2)));
}

#[test]
fn resources_have_keys_of_their_own() {
    let mut cache = TlruCache::new(100);
    let key = match cache.get_or_fetch("/index.html", 1, 10) {
        Lookup::Fetch(key) => key,
        _ => panic!("nothing is cached yet"),
    };
    assert!(matches!(cache.get_or_fetch("/index.html", 2, 11), Lookup::Wait(1)));
    let other = match cache.get_or_fetch("/other.html", 3, 12) {
        Lookup::Fetch(other) => other,
        _ => panic!("nothing is cached yet"),
    };
    assert_ne!(key, other);
    cache.finish_fetch(key, FetchOutcome::Finished(body("index", 99)), 13).unwrap();
    assert!(is_hit(cache.get_or_fetch("/index.html", 4, 14), "index", 99));
    assert!(matches!(cache.get_or_fetch("/other.html", 5, 15), Lookup::Wait(3)));
}

#[test]
fn failures_are_not_cached() {
    let mut cache = TlruCache::new(100);
    assert!(matches!(cache.lookup(1, 7, 10), Lookup::Fetch(1)));
    let failure = Err(CacheError::Fetch("connection refused".to_string(), 502));
    match cache.finish_fetch(1, FetchOutcome::Finished(failure), 11) {
        Err(CacheError::Fetch(description, status)) => {
            assert_eq!(description, "connection refused");
            assert_eq!(status, 502);
        }
        _ => panic!("the failure is passed on"),
    }
    assert_eq!(cache.diagnostics(), (0, 0, 0, 0, 100));
    assert!(matches!(cache.lookup(1, 8, 12), Lookup::Fetch(1)));
    let aborted = cache.finish_fetch(1, FetchOutcome::Aborted, 13);
    assert!(matches!(aborted, Err(CacheError::Unknown)));
    assert!(matches!(cache.lookup(1, 9, 14), Lookup::Fetch(1)));
}

#[test]
fn a_failure_takes_out_what_another_fetch_filed() {
    let mut cache = TlruCache::new(100);
    fill(&mut cache, 1, "hello", 10, 50);
    assert!(cache.finish_fetch(1, FetchOutcome::Aborted, 11).is_err());
    assert_eq!(cache.diagnostics(), (0, 0, 0, 0, 100));
}

#[test]
fn refiling_replaces_the_old_size() {
    let mut cache = TlruCache::new(100);
    fill(&mut cache, 1, "hello", 10, 50);
    cache.finish_fetch(1, FetchOutcome::Finished(body("hello again", 60)), 11).unwrap();
    assert_eq!(cache.diagnostics(), (1, 0, 0, 11, 100));
}

#[test]
fn least_recently_used_is_evicted_first() {
    let mut cache = TlruCache::new(10);
    fill(&mut cache, 1, "aaa", 1, 100);
    fill(&mut cache, 2, "bbb", 2, 100);
    fill(&mut cache, 3, "ccc", 3, 100);
    assert!(is_hit(cache.lookup(1, 9, 4), "aaa", 100));
    fill(&mut cache, 4, "dddd", 5, 100);
    assert_eq!(cache.diagnostics(), (3, 0, 0, 10, 10));
    assert!(matches!(cache.lookup(2, 9, 6), Lookup::Fetch(2)));
    assert!(is_hit(cache.lookup(1, 9, 7), "aaa", 100));
    assert!(is_hit(cache.lookup(3, 9, 8), "ccc", 100));
    assert!(is_hit(cache.lookup(4, 9, 9), "dddd", 100));
}

#[test]
fn room_is_made_only_if_needed() {
    let mut cache = TlruCache::new(10);
    fill(&mut cache, 1, "aaaaa", 1, 100);
    cache.make_fit(5, 2);
    assert_eq!(cache.diagnostics(), (1, 0, 0, 5, 10));
    cache.make_fit(6, 2);
    assert_eq!(cache.diagnostics(), (0, 0, 0, 0, 10));
}

#[test]
fn evictions_stop_once_there_is_room() {
    let mut cache = TlruCache::new(10);
    fill(&mut cache, 1, "aaa", 1, 100);
    fill(&mut cache, 2, "bbb", 2, 100);
    fill(&mut cache, 3, "ccc", 3, 100);
    cache.make_fit(6, 4);
    assert_eq!(cache.diagnostics(), (1, 0, 0, 3, 10));
    assert!(is_hit(cache.lookup(3, 9, 5), "ccc", 100));
}

#[test]
fn fetches_survive_while_cached_entries_give_room() {
    let mut cache = TlruCache::new(5);
    assert!(matches!(cache.lookup(9, 77, 1), Lookup::Fetch(9)));
    fill(&mut cache, 1, "aaaaa", 2, 100);
    fill(&mut cache, 2, "bbbbb", 3, 100);
    assert!(matches!(cache.lookup(9, 78, 4), Lookup::Wait(77)));
    assert!(matches!(cache.lookup(1, 79, 5), Lookup::Fetch(1)));
}

#[test]
fn evicting_says_how_much_was_freed() {
    let mut cache = TlruCache::new(10);
    fill(&mut cache, 1, "aaa", 1, 100);
    assert!(matches!(cache.lookup(2, 7, 2), Lookup::Fetch(2)));
    assert_eq!(cache.evict_one(3), 3);
    assert_eq!(cache.diagnostics(), (1, 0, 0, 0, 10));
    assert_eq!(cache.evict_one(4), 0);
    assert_eq!(cache.diagnostics(), (0, 0, 0, 0, 10));
}

#[test]
fn a_resource_as_large_as_the_limit_fits() {
    let mut cache = TlruCache::new(5);
    assert!(cache.can_hold(5));
    assert!(!cache.can_hold(6));
    assert!(cache.can_finish(&FetchOutcome::Finished(body("aaaaa", 100))));
    assert!(!cache.can_finish(&FetchOutcome::Finished(body("aaaaaa", 100))));
    assert!(cache.can_finish(&FetchOutcome::Finished(Err(CacheError::Unknown))));
    assert!(cache.can_finish(&FetchOutcome::Aborted));
    fill(&mut cache, 1, "aaaaa", 1, 100);
    assert_eq!(cache.diagnostics(), (1, 0, 0, 5, 5));
}

#[test]
fn the_oldest_slot_walked_last_is_chosen() {
    let slot = |key: u64, last_accessed: Option<u64>| Slot { key, last_accessed, size: 1 };
    let slots = vec![slot(1, Some(5)), slot(2, None), slot(3, Some(4)), slot(4, Some(4)), slot(5, Some(6))];
    assert_eq!(choose_victim(&slots, 10), 3);
    assert_eq!(choose_victim(&slots, 4), 3);
    assert_eq!(choose_victim(&slots, 3), 0);
    assert_eq!(choose_victim(&vec![slot(1, None), slot(2, Some(9))], 9), 1);
    assert_eq!(choose_victim(&vec![slot(1, None), slot(2, None)], 9), 0);
}

#[test]
fn errors_have_messages() {
    assert_eq!(CacheError::Fetch("timeout".to_string(), 504).message(), "failed to fetch resource");
    assert_eq!(CacheError::Unknown.message(), "unexpected error");
}

#[test]
fn the_shortfall_is_what_has_to_go() {
    let mut cache = TlruCache::new(10);
    fill(&mut cache, 1, "aaaa", 1, 100);
    assert_eq!(cache.shortfall(5), None);
    assert_eq!(cache.shortfall(6), Some(0));
    assert_eq!(cache.shortfall(9), Some(3));
}
