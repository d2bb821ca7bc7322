use relay::fetch::{Entry, FetchTable, Outcome, INITIAL_BACKOFF};

#[test]
fn table_fetches_each_key_once() {
    let mut t: FetchTable<u32> = FetchTable::new();
    assert_eq!(t.request("https://a.test/actor", 10), Outcome::Fetch);
    assert_eq!(t.request("https://a.test/actor", 10), Outcome::Wait);
    assert_eq!(t.request("https://b.test/actor", 10), Outcome::Fetch);
    assert_eq!(t.request("https://a.test/actor", 11), Outcome::Wait);
    t.complete("https://a.test/actor", Some(1), 12);
    assert_eq!(t.request("https://a.test/actor", 13), Outcome::Hit);
    assert_eq!(t.get("https://a.test/actor"), Some(&Entry::Resolved(1)));
    assert_eq!(t.get("https://b.test/actor"), Some(&Entry::Pending { backoff: 0 }));
    assert_eq!(t.get("https://c.test/actor"), None);
}

#[test]
fn table_caches_failures() {
    let mut t: FetchTable<u32> = FetchTable::new();
    assert_eq!(t.request("b.test", 100), Outcome::Fetch);
    t.complete("b.test", None, 100);
    assert_eq!(t.request("b.test", 101), Outcome::CachedFailure);
    assert_eq!(t.request("b.test", 100 + INITIAL_BACKOFF), Outcome::Fetch);
    t.complete("unknown.test", Some(5), 100);
    assert_eq!(t.get("unknown.test"), None);
}

#[test]
fn resolved_lists_only_resolved_values() {
    let mut t: FetchTable<u32> = FetchTable::new();
    assert!(t.resolved().is_empty());
    t.request("a", 0);
    t.request("b", 0);
    t.request("c", 0);
    t.complete("a", Some(1), 1);
    t.complete("b", None, 1);
    t.complete("c", Some(3), 1);
    let mut values: Vec<u32> = t.resolved().into_iter().copied().collect();
    values.sort();
    assert_eq!(values, vec![1, 3]);
}
