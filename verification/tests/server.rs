use cached::db::MainDB;
use cached::error::{ClientError, Error};
use cached::domain::{Key, Value};
use cached::primitives::StatusCode;
use cached::request::Request;
use cached::response::{Response, ResponseBody, ResponseBodyGet, ResponseGet};
use cached::server::{handle_request, ConnectionLimit};

fn key(s: &str) -> Key {
    Key::parse(s.to_string()).unwrap()
}

fn value(s: &str) -> Value {
    Value::parse(s.to_string()).unwrap()
}

fn put(k: &str, v: &str, ttl: Option<u128>) -> Request {
    Request::Put {
        key: key(k),
        value: value(v),
        ttl_since_unix_epoch_in_millis: ttl,
    }
}

fn get_hit(k: &str, v: &str, ttl: Option<u128>) -> Response {
    Response::new(
        StatusCode::Success,
        ResponseBody::Get(Some(ResponseBodyGet {
            key: key(k),
            value: value(v),
            ttl_since_unix_epoch_in_millis: ttl,
        })),
    )
}

fn get_miss() -> Response {
    Response::new(StatusCode::KeyNotFound, ResponseBody::Get(None))
}

#[test]
fn scenario_put_get_round_trip() {
    let mut db = MainDB::new();
    let now: u128 = 10;
    let resp = handle_request(&mut db, put("ABC", "1234", None), now);
    assert_eq!(resp, Response::new(StatusCode::Success, ResponseBody::Put));
    let resp = handle_request(&mut db, Request::Get(key("ABC")), now);
    assert_eq!(resp, get_hit("ABC", "1234", None));
}

#[test]
fn scenario_get_on_fresh_cache_misses() {
    let mut db = MainDB::new();
    let resp = handle_request(&mut db, Request::Get(key("ABC")), 0);
    assert_eq!(resp, get_miss());
}

#[test]
fn scenario_ttl_in_the_future_expires_later() {
    let mut db = MainDB::new();
    let now: u128 = 50_000;
    let resp = handle_request(&mut db, put("k", "v", Some(now + 1000)), now);
    assert_eq!(resp, Response::new(StatusCode::Success, ResponseBody::Put));

    let resp = handle_request(&mut db, Request::Get(key("k")), now);
    assert_eq!(resp, get_hit("k", "v", Some(now + 1000)));

    let resp = handle_request(&mut db, Request::Get(key("k")), now + 1001);
    assert_eq!(resp, get_miss());
}

#[test]
fn scenario_ttl_in_the_past_stores_nothing() {
    let mut db = MainDB::new();
    let now: u128 = 50_000;
    let resp = handle_request(&mut db, put("k", "v", Some(now - 1)), now);
    assert_eq!(resp, Response::new(StatusCode::Success, ResponseBody::Put));
    let resp = handle_request(&mut db, Request::Get(key("k")), now);
    assert_eq!(resp, get_miss());
}

#[test]
fn scenario_putting_the_same_key_twice_fails() {
    let mut db = MainDB::new();
    let now: u128 = 7;
    let resp = handle_request(&mut db, put("k", "v", None), now);
    assert_eq!(resp, Response::new(StatusCode::Success, ResponseBody::Put));
    let resp = handle_request(&mut db, put("k", "w", None), now);
    assert_eq!(resp, Response::new(StatusCode::KeyExists, ResponseBody::Put));
    let resp = handle_request(&mut db, Request::Get(key("k")), now);
    assert_eq!(resp, get_hit("k", "v", None));
}

#[test]
fn scenario_delete_then_get_misses() {
    let mut db = MainDB::new();
    let now: u128 = 10;
    handle_request(&mut db, put("ABC", "1234", None), now);
    let resp = handle_request(&mut db, Request::Delete(key("ABC")), now);
    assert_eq!(resp, Response::new(StatusCode::Success, ResponseBody::Delete));
    let resp = handle_request(&mut db, Request::Get(key("ABC")), now);
    assert_eq!(resp, get_miss());
    let resp = handle_request(&mut db, Request::Delete(key("ABC")), now);
    assert_eq!(
        resp,
        Response::new(StatusCode::KeyNotFound, ResponseBody::Delete)
    );
}

#[test]
fn scenario_flush_empties_the_cache() {
    let mut db = MainDB::new();
    let now: u128 = 10;
    handle_request(&mut db, put("one", "1", None), now);
    handle_request(&mut db, put("two", "2", Some(now + 100)), now);
    let resp = handle_request(&mut db, Request::Flush, now);
    assert_eq!(resp, Response::new(StatusCode::Success, ResponseBody::Flush));
    assert_eq!(handle_request(&mut db, Request::Get(key("one")), now), get_miss());
    assert_eq!(handle_request(&mut db, Request::Get(key("two")), now), get_miss());
}

#[test]
fn test_response_get_view_of_a_hit_and_a_miss() {
    let hit = ResponseGet::from_response(get_hit("ABC", "1234", Some(9))).unwrap();
    assert_eq!(hit.status(), StatusCode::Success);
    assert_eq!(hit.value(), Some(&"1234".to_string()));
    assert_eq!(hit.ttl_since_unix_epoch_in_millis(), Some(9));
    assert_eq!(hit.into_value(), Some("1234".to_string()));

    let miss = ResponseGet::from_response(get_miss()).unwrap();
    assert_eq!(miss.status(), StatusCode::KeyNotFound);
    assert_eq!(miss.value(), None);
    assert_eq!(miss.ttl_since_unix_epoch_in_millis(), None);

    let wrong = ResponseGet::from_response(Response::new(
        StatusCode::Success,
        ResponseBody::Put,
    ));
    assert_eq!(wrong, Err(Error::Client(ClientError::ExpectedValue)));
}

#[test]
fn test_connection_limit_never_exceeds_the_maximum() {
    let mut limit = ConnectionLimit::new(1);
    assert_eq!(limit.max_connections(), 1);
    assert_eq!(limit.active(), 0);

    // The only permit goes to the first taker; the second waits.
    assert!(limit.try_acquire());
    assert_eq!(limit.active(), 1);
    assert!(!limit.try_acquire());
    assert_eq!(limit.active(), 1);

    // Releasing the permit lets the waiter proceed.
    limit.release();
    assert_eq!(limit.active(), 0);
    assert!(limit.try_acquire());
    assert_eq!(limit.active(), 1);
}
