use bytes::Bytes;
use hyper::header::HeaderValue;
use hyper::HeaderMap;
use std::sync::Arc;
use untitled_cache_server::cache::{FetchOutcome, Lookup, TlruCache};
use untitled_cache_server::content::CacheError;
use untitled_cache_server::request::{
    fetch_failed, fetched, respond, wait_step, WaitEvent, WaitStep,
};

fn headers() -> Arc<HeaderMap> {
    let mut map = HeaderMap::new();
    map.insert("etag", HeaderValue::from_static("abc"));
    Arc::new(map)
}

#[test]
fn a_resource_is_answered_with_body_and_headers() {
    let reply = respond(Ok((Bytes::from_static(b"hello"), headers(), 99)));
    assert_eq!(reply.status, 200);
    assert_eq!(&reply.body[..], b"hello");
    assert_eq!(reply.headers.unwrap().get("etag").unwrap(), "abc");
}

#[test]
fn a_failed_fetch_is_answered_with_its_status() {
    let reply = respond(Err(CacheError::Fetch("gone".to_string(), 410)));
    assert_eq!(reply.status, 410);
    assert!(reply.body.is_empty());
    assert!(reply.headers.is_none());
}

#[test]
fn an_unknown_error_is_answered_with_500() {
    let reply = respond(Err(CacheError::Unknown));
    assert_eq!(reply.status, 500);
    assert!(reply.body.is_empty());
    assert!(reply.headers.is_none());
}

#[test]
fn failures_without_a_status_count_as_500() {
    match fetch_failed("refused".to_string(), None) {
        Err(CacheError::Fetch(description, status)) => {
            assert_eq!(description, "refused");
            assert_eq!(status, 500);
        }
        _ => panic!("a failed fetch is an error"),
    }
    assert!(matches!(
        fetch_failed("not found".to_string(), Some(404)),
        Err(CacheError::Fetch(_, 404))
    ));
}

#[test]
fn fetched_resources_live_for_thirty_seconds() {
    let (data, _, expires) = fetched(Bytes::from_static(b"x"), headers(), 1_000).unwrap();
    assert_eq!(&data[..], b"x");
    assert_eq!(expires, 30_000_001_000);

    let mut cache = TlruCache::new(100);
    assert!(matches!(cache.lookup(1, 1, 0), Lookup::Fetch(1)));
    let result = fetched(data, headers(), 1_000);
    cache.finish_fetch(1, FetchOutcome::Finished(result), 1_001).unwrap();
    assert!(matches!(cache.lookup(1, 2, 30_000_000_999), Lookup::Hit(_, _, 30_000_001_000)));
    assert!(matches!(cache.lookup(1, 2, 30_000_001_000), Lookup::Fetch(1)));
}

#[test]
fn waiting_ends_with_a_result_or_a_closed_channel() {
    assert!(matches!(wait_step(WaitEvent::Checked(None)), WaitStep::Await));
    assert!(matches!(wait_step(WaitEvent::Changed), WaitStep::Check));
    assert!(matches!(
        wait_step(WaitEvent::Closed),
        WaitStep::Done(Err(CacheError::Unknown))
    ));
    let published = Ok((Bytes::from_static(b"hello"), headers(), 99));
    match wait_step(WaitEvent::Checked(Some(published))) {
        WaitStep::Done(Ok((data, headers, expires))) => {
            assert_eq!(&data[..], b"hello");
            assert_eq!(headers.get("etag").unwrap(), "abc");
            assert_eq!(expires, 99);
        }
        _ => panic!("the published result ends the wait"),
    }
}

#[test]
fn fetcher_and_waiters_get_the_same_result() {
    let mut cache = TlruCache::new(100);
    assert!(matches!(cache.lookup(1, 5, 0), Lookup::Fetch(1)));
    assert!(matches!(cache.lookup(1, 6, 1), Lookup::Wait(5)));
    let failure = fetch_failed("bad gateway".to_string(), Some(502));
    let waiter = match wait_step(WaitEvent::Checked(Some(failure.clone()))) {
        WaitStep::Done(result) => respond(result),
        _ => panic!("the published result ends the wait"),
    };
    let fetcher = respond(cache.finish_fetch(1, FetchOutcome::Finished(failure), 2));
    assert_eq!(waiter.status, 502);
    assert_eq!(fetcher.status, 502);
}
