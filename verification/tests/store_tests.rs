use shorty::models::NewUrl;
use shorty::store::{InsertError, MemStore};

fn new_url(code: &str, url: &str) -> NewUrl {
    NewUrl {
        original_url: url.to_string(),
        short_code: code.to_string(),
    }
}

#[test]
fn insert_then_lookup_returns_the_row() {
    let mut store = MemStore::new();
    let row = store
        .try_insert(new_url("abc123", "https://example.com/x"))
        .unwrap();
    assert_eq!(row.id, 0);
    assert_eq!(row.short_code, "abc123");
    assert_eq!(row.original_url, "https://example.com/x");
    let found = store.find_by_short_code("abc123").unwrap();
    assert_eq!(found.original_url, "https://example.com/x");
    assert_eq!(found.id, 0);
}

#[test]
fn duplicate_code_is_a_uniqueness_violation() {
    let mut store = MemStore::new();
    store
        .try_insert(new_url("abc123", "https://example.com/x"))
        .unwrap();
    let second = store.try_insert(new_url("abc123", "https://example.com/y"));
    assert_eq!(second.unwrap_err(), InsertError::UniqueViolation);
    assert_eq!(store.rows.len(), 1);
}

#[test]
fn same_long_url_may_get_two_codes() {
    let mut store = MemStore::new();
    store
        .try_insert(new_url("abc123", "https://example.com/x"))
        .unwrap();
    store
        .try_insert(new_url("def456", "https://example.com/x"))
        .unwrap();
    assert_eq!(store.rows.len(), 2);
}

#[test]
fn scheduled_fault_fails_the_insert_without_touching_rows() {
    let mut store = MemStore {
        rows: Vec::new(),
        faults: vec![true],
        calls: 0,
        now: 7,
    };
    let r = store.try_insert(new_url("abc123", "https://example.com/x"));
    assert_eq!(r.unwrap_err(), InsertError::Other);
    assert!(store.rows.is_empty());
    assert_eq!(store.calls, 1);
}

#[test]
fn lookup_miss_returns_none() {
    let store = MemStore::new();
    assert!(store.find_by_short_code("zzzzzz").is_none());
}

#[test]
fn reading_twice_returns_the_same_record() {
    let mut store = MemStore::new();
    store
        .try_insert(new_url("abc123", "https://example.com/x"))
        .unwrap();
    let first = store.find_by_short_code("abc123").unwrap();
    let second = store.find_by_short_code("abc123").unwrap();
    assert_eq!(first.original_url, second.original_url);
    assert_eq!(first.short_code, second.short_code);
    assert_eq!(first.id, second.id);
    assert_eq!(first.created_at, second.created_at);
}

#[test]
fn later_inserts_leave_earlier_reads_unchanged() {
    let mut store = MemStore::new();
    store
        .try_insert(new_url("abc123", "https://example.com/x"))
        .unwrap();
    let before = store.find_by_short_code("abc123").unwrap();
    store
        .try_insert(new_url("def456", "https://example.com/y"))
        .unwrap();
    let after = store.find_by_short_code("abc123").unwrap();
    assert_eq!(before.original_url, after.original_url);
    assert_eq!(before.id, after.id);
}

#[test]
fn created_at_comes_from_the_store_clock() {
    let mut store = MemStore::new();
    store.now = 1700000000;
    let row = store
        .try_insert(new_url("abc123", "https://example.com/x"))
        .unwrap();
    assert_eq!(row.created_at, 1700000000);
}
