use shorty::allocator::{allocate, AllocationError, RetryPolicy};
use shorty::models::NewUrl;
use shorty::store::{InsertError, MemStore};

fn code_list(codes: &[&str]) -> Vec<String> {
    codes.iter().map(|c| c.to_string()).collect()
}

fn seed(store: &mut MemStore, code: &str, url: &str) {
    let row = store
        .try_insert(NewUrl {
            original_url: url.to_string(),
            short_code: code.to_string(),
        })
        .expect("seeding must succeed");
    assert_eq!(row.short_code, code);
}

#[test]
fn empty_table_succeeds_on_first_attempt() {
    let mut store = MemStore::new();
    let codes = code_list(&[
        "aaaaaa", "bbbbbb", "cccccc", "dddddd", "eeeeee", "ffffff", "gggggg", "hhhhhh", "iiiiii",
        "jjjjjj",
    ]);
    let url = String::from("https://example.com/a");
    let r = allocate(&mut store, &codes, &url, 10);
    assert_eq!(r.unwrap(), "aaaaaa");
    assert_eq!(store.calls, 1);
    let found = store.find_by_short_code("aaaaaa").expect("code must resolve");
    assert_eq!(found.original_url, "https://example.com/a");
}

#[test]
fn succeeds_on_fourth_attempt_when_first_three_codes_are_taken() {
    let mut store = MemStore::new();
    seed(&mut store, "aaaaaa", "https://example.com/1");
    seed(&mut store, "bbbbbb", "https://example.com/2");
    seed(&mut store, "cccccc", "https://example.com/3");
    let calls_before = store.calls;
    let codes = code_list(&[
        "aaaaaa", "bbbbbb", "cccccc", "dddddd", "eeeeee", "ffffff", "gggggg", "hhhhhh", "iiiiii",
        "jjjjjj",
    ]);
    let url = String::from("https://example.com/b");
    let r = allocate(&mut store, &codes, &url, 10);
    assert_eq!(r.unwrap(), "dddddd");
    assert_eq!(store.calls - calls_before, 4);
}

#[test]
fn exhausts_after_exactly_two_attempts_when_every_code_collides() {
    let mut store = MemStore::new();
    seed(&mut store, "aaaaaa", "https://example.com/1");
    seed(&mut store, "bbbbbb", "https://example.com/2");
    let rows_before = store.rows.len();
    let calls_before = store.calls;
    let codes = code_list(&["aaaaaa", "bbbbbb"]);
    let url = String::from("https://example.com/c");
    let r = allocate(&mut store, &codes, &url, 2);
    assert_eq!(r.unwrap_err(), AllocationError::Exhausted);
    assert_eq!(store.calls - calls_before, 2);
    assert_eq!(store.rows.len(), rows_before);
}

#[test]
fn store_failure_on_first_call_aborts_after_one_attempt() {
    let mut store = MemStore {
        rows: Vec::new(),
        faults: vec![true],
        calls: 0,
        now: 0,
    };
    let codes = code_list(&["aaaaaa", "bbbbbb"]);
    let url = String::from("https://example.com/d");
    let r = allocate(&mut store, &codes, &url, 2);
    assert_eq!(r.unwrap_err(), AllocationError::StoreFailure);
    assert_eq!(store.calls, 1);
    assert!(store.rows.is_empty());
}

#[test]
fn store_failure_is_not_retried_even_after_collisions() {
    let mut store = MemStore {
        rows: Vec::new(),
        faults: vec![false, false, true],
        calls: 0,
        now: 0,
    };
    seed(&mut store, "aaaaaa", "https://example.com/1");
    let codes = code_list(&["aaaaaa", "bbbbbb", "cccccc"]);
    let url = String::from("https://example.com/e");
    let r = allocate(&mut store, &codes, &url, 3);
    assert_eq!(r.unwrap_err(), AllocationError::StoreFailure);
    assert_eq!(store.calls, 3);
}

#[test]
fn successful_codes_are_pairwise_distinct() {
    let mut store = MemStore::new();
    let urls = ["https://a.example/", "https://b.example/", "https://c.example/"];
    let candidates = [
        ["k00000", "k00001"],
        ["k00000", "k10000"],
        ["k10000", "k20000"],
    ];
    let mut granted = Vec::new();
    for (url, cands) in urls.iter().zip(candidates.iter()) {
        let codes = code_list(&cands[..]);
        let url = url.to_string();
        let r = allocate(&mut store, &codes, &url, 2);
        granted.push(r.unwrap());
    }
    for i in 0..granted.len() {
        for j in 0..granted.len() {
            if i != j {
                assert_ne!(granted[i], granted[j]);
            }
        }
    }
}

#[test]
fn retry_policy_gives_up_only_at_the_ceiling() {
    let mut policy = RetryPolicy::new(3);
    assert_eq!(policy.on_failure(InsertError::UniqueViolation), None);
    assert_eq!(policy.on_failure(InsertError::UniqueViolation), None);
    assert_eq!(
        policy.on_failure(InsertError::UniqueViolation),
        Some(AllocationError::Exhausted)
    );
}

#[test]
fn retry_policy_aborts_at_once_on_unrelated_error() {
    let mut policy = RetryPolicy::new(10);
    assert_eq!(
        policy.on_failure(InsertError::Other),
        Some(AllocationError::StoreFailure)
    );
    assert_eq!(policy.attempts, 1);
}
