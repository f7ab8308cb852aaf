use cached::db::{DbRequest, DbResponse, MainDB};
use cached::domain::{Key, Value};

fn key(s: &str) -> Key {
    Key::parse(s.to_string()).unwrap()
}

fn value(s: &str) -> Value {
    Value::parse(s.to_string()).unwrap()
}

#[test]
fn test_ttl_elapsed_does_not_return_value() {
    let mut db = MainDB::new();
    let now: u128 = 1_000;
    db.insert(key("Hello"), value("World"), Some(now + 1), now);
    assert!(db.contains_key(&key("Hello")));

    // The TTL elapsed before the read: the entry is dropped by it.
    assert!(db.get(&key("Hello"), now + 10).is_none());
    assert!(!db.contains_key(&key("Hello")));
}

#[test]
fn db_test_ttl_in_past_does_not_store_value() {
    let mut db = MainDB::new();
    let now: u128 = 1_000;
    db.insert(key("Hello"), value("World"), Some(now), now);
    assert!(!db.contains_key(&key("Hello")));
    assert!(db.get(&key("Hello"), now).is_none());
}

#[test]
fn test_ttl_in_future_returns_value() {
    let mut db = MainDB::new();
    let now: u128 = 1_000;
    db.insert(key("Hello"), value("World"), Some(now + 1), now);

    let got = db.get(&key("Hello"), now).unwrap();
    assert_eq!(got.value, value("World"));
    assert_eq!(got.ttl_since_unix_epoch_in_millis, Some(now + 1));

    // Still present after the read.
    assert!(db.contains_key(&key("Hello")));
}

#[test]
fn test_removing_key_is_also_removed_from_ttl_set() {
    let mut db = MainDB::new();
    let now: u128 = 1_000;
    db.insert(key("Hello"), value("World"), Some(now + 100), now);
    assert!(db.contains_key(&key("Hello")));

    db.remove(&key("Hello"));
    assert!(!db.contains_key(&key("Hello")));
    // Re-inserting without a TTL leaves a coherent store: a later read
    // at any time still finds the entry.
    db.insert(key("Hello"), value("Again"), None, now);
    assert!(db.get(&key("Hello"), now + 1_000_000).is_some());
}

#[test]
fn db_test_contains_key_works() {
    let mut db = MainDB::new();
    db.insert(key("Hello"), value("World"), None, 0);

    assert!(db.contains_key(&key("Hello")));
    db.remove(&key("Hello"));
    assert!(!db.contains_key(&key("Hello")));
}

#[test]
fn db_test_clearing_db_works() {
    let mut db = MainDB::new();
    db.insert(key("Hello"), value("World"), None, 0);

    assert!(db.contains_key(&key("Hello")));
    db.clear();
    assert!(!db.contains_key(&key("Hello")));
}

#[test]
fn test_overwriting_with_no_ttl_keeps_the_store_coherent() {
    let mut db = MainDB::new();
    let now: u128 = 5_000;
    db.insert(key("k"), value("v"), Some(now + 500), now);
    // Overwrite at the storage level: the entry loses its TTL and must no
    // longer expire.
    db.insert(key("k"), value("w"), None, now);
    let got = db.get(&key("k"), now + 1_000).unwrap();
    assert_eq!(got.value, value("w"));
    assert_eq!(got.ttl_since_unix_epoch_in_millis, None);
}

#[test]
fn test_handle_request_drives_the_store() {
    let mut db = MainDB::new();
    let now: u128 = 42;
    assert!(db
        .handle_request(
            DbRequest::Insert { key: key("a"), value: value("1"), ttl: None },
            now,
        )
        .is_none());
    match db.handle_request(DbRequest::ContainsKey(key("a")), now) {
        Some(DbResponse::ContainsKey(present)) => assert!(present),
        other => panic!("unexpected reply {:?}", other),
    }
    match db.handle_request(DbRequest::Get(key("a")), now) {
        Some(DbResponse::Get(v)) => assert_eq!(v.value, value("1")),
        other => panic!("unexpected reply {:?}", other),
    }
    assert!(db.handle_request(DbRequest::Remove(key("a")), now).is_none());
    match db.handle_request(DbRequest::ContainsKey(key("a")), now) {
        Some(DbResponse::ContainsKey(present)) => assert!(!present),
        other => panic!("unexpected reply {:?}", other),
    }
    assert!(db.handle_request(DbRequest::Clear, now).is_none());
}
