use kvstore::dispatch::{
    decide_route, dispatch_delete, dispatch_get, dispatch_set, remote_get_outcome,
    remote_write_outcome, GetStep, RouteDecision, WriteStep,
};
use kvstore::error::KvError;
use kvstore::router::{ShardConfig, ShardRouter};
use kvstore::store::MemStore;

fn shard(id: usize, addr: &str, start: &str, end: &str) -> ShardConfig {
    ShardConfig {
        id,
        addr: addr.into(),
        range_start: start.into(),
        range_end: end.into(),
    }
}

fn router_on_node_a() -> ShardRouter {
    ShardRouter::new(
        0,
        vec![
            shard(0, "127.0.0.1:8000", "a", "m"),
            shard(1, "127.0.0.1:8001", "n", "z"),
        ],
    )
}

#[test]
fn local_key_routes_local_and_foreign_key_names_the_owner() {
    let router = router_on_node_a();
    assert!(matches!(
        decide_route(&router, "apple"),
        Ok(RouteDecision::Local)
    ));
    match decide_route(&router, "yak") {
        Ok(RouteDecision::Forward(addr)) => assert_eq!(addr, "127.0.0.1:8001"),
        _ => panic!("expected a forward decision"),
    }
}

#[test]
fn round_trip_on_owning_node() {
    let router = router_on_node_a();
    let mut store = MemStore::new();

    match dispatch_set(&router, &mut store, "apple".into(), "fruit".into()) {
        Ok(WriteStep::Done) => {}
        _ => panic!("set of an owned key must apply locally"),
    }
    match dispatch_get(&router, &store, "apple") {
        Ok(GetStep::Done(v)) => assert_eq!(v, Some("fruit".into())),
        _ => panic!("get of an owned key must serve locally"),
    }
    match dispatch_delete(&router, &mut store, "apple") {
        Ok(WriteStep::Done) => {}
        _ => panic!("delete of an owned key must apply locally"),
    }
    match dispatch_get(&router, &store, "apple") {
        Ok(GetStep::Done(v)) => assert_eq!(v, None),
        _ => panic!("get after delete must serve locally"),
    }
}

#[test]
fn foreign_key_operations_leave_the_local_store_untouched() {
    let router = router_on_node_a();
    let mut store = MemStore::new();

    match dispatch_set(&router, &mut store, "yak".into(), "animal".into()) {
        Ok(WriteStep::Forward(addr)) => assert_eq!(addr, "127.0.0.1:8001"),
        _ => panic!("set of a foreign key must be forwarded"),
    }
    assert!(store.search_by_prefix("").unwrap().is_empty());

    match dispatch_get(&router, &store, "yak") {
        Ok(GetStep::Forward(addr)) => assert_eq!(addr, "127.0.0.1:8001"),
        _ => panic!("get of a foreign key must be forwarded"),
    }
    match dispatch_delete(&router, &mut store, "yak") {
        Ok(WriteStep::Forward(addr)) => assert_eq!(addr, "127.0.0.1:8001"),
        _ => panic!("delete of a foreign key must be forwarded"),
    }
}

#[test]
fn unowned_key_is_rejected_without_touching_the_store() {
    let router = router_on_node_a();
    let mut store = MemStore::new();
    assert!(matches!(
        dispatch_set(&router, &mut store, "zebra".into(), "v".into()),
        Err(KvError::ConfigurationError)
    ));
    assert!(store.search_by_prefix("").unwrap().is_empty());
}

#[test]
fn peer_reply_success_passes_through() {
    assert_eq!(
        remote_get_outcome(Ok(Some("bar".into()))).unwrap(),
        Some("bar".into())
    );
    assert_eq!(remote_get_outcome(Ok(None)).unwrap(), None);
    assert!(remote_write_outcome(Ok(())).is_ok());
}

#[test]
fn peer_failure_becomes_forwarding_failure_not_absence() {
    match remote_get_outcome(Err("connection refused".into())) {
        Err(KvError::ForwardingFailure(m)) => assert_eq!(m, "connection refused"),
        _ => panic!("a transport error must surface as ForwardingFailure"),
    }
    match remote_write_outcome(Err("timeout".into())) {
        Err(KvError::ForwardingFailure(m)) => assert_eq!(m, "timeout"),
        _ => panic!("a transport error must surface as ForwardingFailure"),
    }
}

#[test]
fn error_messages_name_each_failure() {
    assert_eq!(KvError::NotFound.message(), "key not found");
    assert_eq!(
        KvError::ForwardingFailure("boom".into()).message(),
        "forwarding failed: boom"
    );
    assert_eq!(
        KvError::InternalStorageFailure("disk".into()).message(),
        "internal storage failure: disk"
    );
    assert_eq!(
        KvError::ConfigurationError.message(),
        "no shard owns the key"
    );
}
