use kvstore::kv::KvStore;
use kvstore::store::MemStore;

fn roundtrip_through_interface<S: KvStore>(store: &mut S) {
    store.set("key1".into(), "value1".into()).unwrap();
    assert_eq!(store.get("key1").unwrap(), Some("value1".into()));
    let found = store.search_by_prefix("key").unwrap();
    assert_eq!(found.len(), 1);
    store.delete("key1").unwrap();
    assert_eq!(store.get("key1").unwrap(), None);
}

#[test]
fn the_storage_interface_serves_the_same_operations() {
    let mut store = MemStore::new();
    roundtrip_through_interface(&mut store);
}

#[test]
fn test_store() {
    let mut store = MemStore::new();
    store.set("key1".into(), "value1".into()).unwrap();
    assert_eq!(store.get("key1").unwrap(), Some("value1".into()));
    store.delete("key1").unwrap();
    assert_eq!(store.get("key1").unwrap(), None);
}

#[test]
fn test_search_by_prefix() {
    let mut store = MemStore::new();
    store.set("apple".into(), "fruit".into()).unwrap();
    store.set("apricot".into(), "fruit".into()).unwrap();
    store.set("banana".into(), "fruit".into()).unwrap();

    let results = store.search_by_prefix("ap").unwrap();
    assert_eq!(results.len(), 2);
    assert!(results.iter().any(|(k, _)| k == "apple"));
    assert!(results.iter().any(|(k, _)| k == "apricot"));
}

#[test]
fn set_replaces_existing_value() {
    let mut store = MemStore::new();
    store.set("k".into(), "one".into()).unwrap();
    store.set("k".into(), "two".into()).unwrap();
    assert_eq!(store.get("k").unwrap(), Some("two".into()));
    let results = store.search_by_prefix("k").unwrap();
    assert_eq!(results.len(), 1);
}

#[test]
fn delete_of_absent_key_is_not_a_fault() {
    let mut store = MemStore::new();
    store.set("kept".into(), "v".into()).unwrap();
    store.delete("missing").unwrap();
    assert_eq!(store.get("kept").unwrap(), Some("v".into()));
}

#[test]
fn get_on_empty_store_is_absent() {
    let store = MemStore::new();
    assert_eq!(store.get("anything").unwrap(), None);
}

#[test]
fn search_with_empty_prefix_returns_everything() {
    let mut store = MemStore::new();
    store.set("a".into(), "1".into()).unwrap();
    store.set("b".into(), "2".into()).unwrap();
    let results = store.search_by_prefix("").unwrap();
    assert_eq!(results.len(), 2);
}

#[test]
fn search_misses_when_no_key_has_the_prefix() {
    let mut store = MemStore::new();
    store.set("apple".into(), "fruit".into()).unwrap();
    let results = store.search_by_prefix("b").unwrap();
    assert!(results.is_empty());
}
