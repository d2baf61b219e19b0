use kvstore::router::{ShardConfig, ShardRouter};
use kvstore::search::{local_search, merge_results, plan_search};
use kvstore::store::MemStore;
use kvstore::types::KeyValue;

fn shard(id: usize, addr: &str, start: &str, end: &str) -> ShardConfig {
    ShardConfig {
        id,
        addr: addr.into(),
        range_start: start.into(),
        range_end: end.into(),
    }
}

fn three_shard_router_on_a() -> ShardRouter {
    ShardRouter::new(
        0,
        vec![
            shard(0, "127.0.0.1:8000", "a", "h"),
            shard(1, "127.0.0.1:8001", "i", "p"),
            shard(2, "127.0.0.1:8002", "q", "z"),
        ],
    )
}

fn kv(key: &str, value: &str) -> KeyValue {
    KeyValue {
        key: key.into(),
        value: value.into(),
    }
}

#[test]
fn original_query_fans_out_to_every_other_shard_with_the_marker() {
    let router = three_shard_router_on_a();
    let plan = plan_search(&router, false);
    assert_eq!(plan.len(), 2);
    assert_eq!(plan[0].addr, "127.0.0.1:8001");
    assert_eq!(plan[1].addr, "127.0.0.1:8002");
    assert!(plan.iter().all(|q| q.forwarded));
}

#[test]
fn relayed_query_plans_no_further_calls() {
    let router = three_shard_router_on_a();
    assert!(plan_search(&router, true).is_empty());
    // Whichever node relays, a marked request is terminal.
    let router_b = ShardRouter::new(1, three_shard_router_on_a().shards);
    assert!(plan_search(&router_b, true).is_empty());
}

#[test]
fn unreachable_peer_drops_out_without_failing_the_search() {
    let local = vec![kv("apple", "fruit")];
    let replies = vec![
        (
            "127.0.0.1:8001".to_string(),
            Ok(vec![kv("iris", "flower"), kv("kiwi", "fruit")]),
        ),
        (
            "127.0.0.1:8002".to_string(),
            Err("connection refused".to_string()),
        ),
    ];
    let out = merge_results(local, replies);
    let keys: Vec<&str> = out.matches.iter().map(|m| m.key.as_str()).collect();
    assert_eq!(keys, vec!["iris", "kiwi", "apple"]);
    assert_eq!(out.failed_peers, vec!["127.0.0.1:8002".to_string()]);
}

#[test]
fn merge_keeps_every_successful_batch_and_local_matches_last() {
    let local = vec![kv("c", "3")];
    let replies = vec![
        ("p1".to_string(), Ok(vec![kv("a", "1")])),
        ("p2".to_string(), Ok(vec![])),
        ("p3".to_string(), Ok(vec![kv("b", "2")])),
    ];
    let out = merge_results(local, replies);
    let keys: Vec<&str> = out.matches.iter().map(|m| m.key.as_str()).collect();
    assert_eq!(keys, vec!["a", "b", "c"]);
    assert!(out.failed_peers.is_empty());
}

#[test]
fn all_peers_failing_still_yields_the_local_matches() {
    let local = vec![kv("apple", "fruit")];
    let replies = vec![
        ("p1".to_string(), Err("down".to_string())),
        ("p2".to_string(), Err("down".to_string())),
    ];
    let out = merge_results(local, replies);
    assert_eq!(out.matches.len(), 1);
    assert_eq!(out.matches[0].key, "apple");
    assert_eq!(out.failed_peers.len(), 2);
}

#[test]
fn local_search_returns_wire_shaped_records() {
    let mut store = MemStore::new();
    store.set("apple".into(), "fruit".into()).unwrap();
    store.set("apricot".into(), "fruit".into()).unwrap();
    store.set("banana".into(), "fruit".into()).unwrap();
    let matches = local_search(&store, "ap");
    assert_eq!(matches.len(), 2);
    assert!(matches.iter().any(|m| m.key == "apple" && m.value == "fruit"));
    assert!(matches.iter().any(|m| m.key == "apricot"));
}

#[test]
fn empty_cluster_plan_is_empty() {
    let router = ShardRouter::new(0, vec![shard(0, "127.0.0.1:8000", "a", "z")]);
    assert!(plan_search(&router, false).is_empty());
}
