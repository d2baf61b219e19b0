//! The request dispatcher: the per-operation local-vs-forward decision.
//!
//! For get, set and delete the dispatcher resolves locality, serves the
//! operation from the local store when this node owns the key, and
//! otherwise instructs the transport to forward it to the owning node's
//! address. The transport's reply is folded back into the one result shape
//! by the `remote_*_outcome` functions: a transport failure becomes a
//! `ForwardingFailure`, never `NotFound`.

use vstd::prelude::*;

use crate::error::{KvError, KvResult};
use crate::router::{first_owner, ShardRouter};
use crate::store::MemStore;

verus! {

/// Where an operation on a key must run.
pub enum RouteDecision {
    /// This node owns the key: serve it from the local store.
    Local,
    /// The node at this address owns the key: forward the operation.
    Forward(String),
}

/// Resolves locality for one key: local when the first owning shard is
/// this node, the owner's address otherwise, `ConfigurationError` when no
/// shard owns the key.
pub fn decide_route(router: &ShardRouter, key: &str) -> (r: Result<RouteDecision, KvError>)
    ensures
        match first_owner(router.shards@, key@) {
            Some(i) => (if router.shards@[i].id == router.my_id {
                r matches Ok(RouteDecision::Local)
            } else {
                r matches Ok(RouteDecision::Forward(a)) && a@ == router.shards@[i].addr@
            }),
            None => r matches Err(e) && e matches KvError::ConfigurationError,
        },
{
    match router.shard_for_key(key) {
        Ok(s) => {
            if s.id == router.my_id {
                Ok(RouteDecision::Local)
            } else {
                Ok(RouteDecision::Forward(s.addr.clone()))
            }
        },
        Err(e) => Err(e),
    }
}

/// Outcome of one get step.
pub enum GetStep {
    /// Served locally: the value, or absence.
    Done(Option<String>),
    /// Forward the get to the owning node at this address.
    Forward(String),
}

/// Outcome of one write (set or delete) step.
pub enum WriteStep {
    /// Applied to the local store.
    Done,
    /// Forward the write to the owning node at this address.
    Forward(String),
}

/// One get: serve from the local store when the key is ours, otherwise
/// name the owner to forward to. The store is never consulted for a
/// foreign key.
pub fn dispatch_get(router: &ShardRouter, store: &MemStore, key: &str) -> (r: Result<
    GetStep,
    KvError,
>)
    requires
        store.inv(),
    ensures
        match first_owner(router.shards@, key@) {
            Some(i) => (if router.shards@[i].id == router.my_id {
                r matches Ok(GetStep::Done(v)) && match v {
                    Some(s) => store@.contains_key(key@) && s@ == store@[key@],
                    None => !store@.contains_key(key@),
                }
            } else {
                r matches Ok(GetStep::Forward(a)) && a@ == router.shards@[i].addr@
            }),
            None => r matches Err(e) && e matches KvError::ConfigurationError,
        },
{
    match decide_route(router, key) {
        Ok(RouteDecision::Local) => match store.get(key) {
            Ok(v) => Ok(GetStep::Done(v)),
            Err(e) => Err(e),
        },
        Ok(RouteDecision::Forward(addr)) => Ok(GetStep::Forward(addr)),
        Err(e) => Err(e),
    }
}

/// One set: apply to the local store when the key is ours, otherwise name
/// the owner to forward to. A foreign or unowned key leaves the local
/// store untouched.
pub fn dispatch_set(router: &ShardRouter, store: &mut MemStore, key: String, value: String) -> (r:
    Result<WriteStep, KvError>)
    requires
        old(store).inv(),
    ensures
        final(store).inv(),
        match first_owner(router.shards@, key@) {
            Some(i) => (if router.shards@[i].id == router.my_id {
                r matches Ok(WriteStep::Done) && final(store)@ == old(store)@.insert(key@, value@)
            } else {
                r matches Ok(WriteStep::Forward(a)) && a@ == router.shards@[i].addr@ && final(store)@ == old(store)@
            }),
            None => r matches Err(e) && e matches KvError::ConfigurationError && final(store)@
                == old(store)@,
        },
{
    match decide_route(router, key.as_str()) {
        Ok(RouteDecision::Local) => match store.set(key, value) {
            Ok(_) => Ok(WriteStep::Done),
            Err(e) => Err(e),
        },
        Ok(RouteDecision::Forward(addr)) => Ok(WriteStep::Forward(addr)),
        Err(e) => Err(e),
    }
}

/// One delete: apply to the local store when the key is ours, otherwise
/// name the owner to forward to.
pub fn dispatch_delete(router: &ShardRouter, store: &mut MemStore, key: &str) -> (r: Result<
    WriteStep,
    KvError,
>)
    requires
        old(store).inv(),
    ensures
        final(store).inv(),
        match first_owner(router.shards@, key@) {
            Some(i) => (if router.shards@[i].id == router.my_id {
                r matches Ok(WriteStep::Done) && final(store)@ == old(store)@.remove(key@)
            } else {
                r matches Ok(WriteStep::Forward(a)) && a@ == router.shards@[i].addr@ && final(store)@ == old(store)@
            }),
            None => r matches Err(e) && e matches KvError::ConfigurationError && final(store)@
                == old(store)@,
        },
{
    match decide_route(router, key) {
        Ok(RouteDecision::Local) => match store.delete(key) {
            Ok(_) => Ok(WriteStep::Done),
            Err(e) => Err(e),
        },
        Ok(RouteDecision::Forward(addr)) => Ok(WriteStep::Forward(addr)),
        Err(e) => Err(e),
    }
}

/// Folds the owning peer's reply to a forwarded get into the dispatcher's
/// result shape: absence stays `None`; a transport failure becomes a
/// `ForwardingFailure` carrying the transport's description.
pub fn remote_get_outcome(resp: Result<Option<String>, String>) -> (r: KvResult<Option<String>>)
    ensures
        resp matches Ok(v) ==> r matches Ok(w) && w == v,
        resp matches Err(m) ==> r matches Err(e) && e matches KvError::ForwardingFailure(t) && t
            == m,
{
    match resp {
        Ok(v) => Ok(v),
        Err(m) => Err(KvError::ForwardingFailure(m)),
    }
}

/// Folds the owning peer's reply to a forwarded set or delete into the
/// dispatcher's result shape.
pub fn remote_write_outcome(resp: Result<(), String>) -> (r: KvResult<()>)
    ensures
        resp matches Ok(v) ==> r is Ok,
        resp matches Err(m) ==> r matches Err(e) && e matches KvError::ForwardingFailure(t) && t
            == m,
{
    match resp {
        Ok(_) => Ok(()),
        Err(m) => Err(KvError::ForwardingFailure(m)),
    }
}

} // verus!
