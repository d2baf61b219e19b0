//! The distributed prefix-search coordinator: scatter, gather, and the
//! forwarding-loop prevention marker.
//!
//! A node always computes its local matches. A query that already carries
//! the forwarding marker is terminal: the plan contains no outbound call,
//! which caps forwarding depth at one hop. An original query fans out to
//! every other shard, each outbound leg carrying the marker set. The
//! gather step merges whatever came back: a failed peer contributes
//! nothing and never fails the aggregate request, and its address is
//! reported so dropped matches stay observable.

use vstd::prelude::*;

use crate::router::{ShardConfig, ShardRouter};
use crate::store::{keys_distinct, prefix_complete, prefix_sound, MemStore};
use crate::types::KeyValue;

verus! {

/// One outbound leg of the fan-out: the peer's address and the forwarding
/// marker to carry, out of band, beside the prefix.
pub struct PeerQuery {
    pub addr: String,
    pub forwarded: bool,
}

/// The addresses of every shard but this node's own, in map order.
pub open spec fn peer_addrs(shards: Seq<ShardConfig>, my_id: usize) -> Seq<Seq<char>>
    decreases shards.len(),
{
    if shards.len() == 0 {
        Seq::empty()
    } else if shards.last().id == my_id {
        peer_addrs(shards.drop_last(), my_id)
    } else {
        peer_addrs(shards.drop_last(), my_id).push(shards.last().addr@)
    }
}

/// The scatter step. A relayed query (marker present) plans no outbound
/// call at all; an original query plans exactly one call per other shard,
/// every leg carrying the marker set.
pub fn plan_search(router: &ShardRouter, forwarded: bool) -> (plan: Vec<PeerQuery>)
    ensures
        forwarded ==> plan@.len() == 0,
        !forwarded ==> plan@.map_values(|q: PeerQuery| q.addr@) == peer_addrs(
            router.shards@,
            router.my_id,
        ),
        forall|t: int| 0 <= t < plan@.len() ==> (#[trigger] plan@[t]).forwarded,
{
    let mut plan: Vec<PeerQuery> = Vec::new();
    if forwarded {
        return plan;
    }
    let n: usize = router.shards.len();
    let mut i: usize = 0;
    while i < n
        invariant
            n == router.shards@.len(),
            i <= n,
            plan@.map_values(|q: PeerQuery| q.addr@) == peer_addrs(
                router.shards@.take(i as int),
                router.my_id,
            ),
            forall|t: int| 0 <= t < plan@.len() ==> (#[trigger] plan@[t]).forwarded,
        decreases n - i,
    {
        let s = &router.shards[i];
        if s.id != router.my_id {
            plan.push(PeerQuery { addr: s.addr.clone(), forwarded: true });
        }
        proof {
            let taken = router.shards@.take(i + 1);
            assert(taken.drop_last() =~= router.shards@.take(i as int));
            assert(taken.last() == router.shards@[i as int]);
            assert(plan@.map_values(|q: PeerQuery| q.addr@) =~= peer_addrs(
                taken,
                router.my_id,
            ));
        }
        i = i + 1;
    }
    proof {
        assert(router.shards@.take(n as int) =~= router.shards@);
    }
    plan
}

/// The pairs of a local scan, as wire-shaped key/value records.
pub open spec fn kv_pairs(v: Seq<KeyValue>) -> Seq<(String, String)> {
    v.map_values(|x: KeyValue| (x.key, x.value))
}

/// The local scan of the coordinator: every locally stored pair whose key
/// begins with `prefix`, each key once.
pub fn local_search(store: &MemStore, prefix: &str) -> (r: Vec<KeyValue>)
    requires
        store.inv(),
    ensures
        prefix_sound(kv_pairs(r@), store@, prefix@),
        prefix_complete(kv_pairs(r@), store@, prefix@),
        keys_distinct(kv_pairs(r@)),
{
    let pairs = match store.search_by_prefix(prefix) {
        Ok(v) => v,
        Err(_) => Vec::new(),
    };
    let ghost orig = pairs@;
    let mut pairs = pairs;
    let mut out: Vec<KeyValue> = Vec::new();
    while pairs.len() > 0
        invariant
            out@.len() <= orig.len(),
            pairs@ == orig.skip(out@.len() as int),
            kv_pairs(out@) == orig.take(out@.len() as int),
        decreases pairs@.len(),
    {
        let ghost n = out@.len() as int;
        let pair = pairs.remove(0);
        proof {
            assert(pair == orig.skip(n)[0]);
            assert(orig.skip(n)[0] == orig[n]);
            assert(orig.skip(n).remove(0) =~= orig.skip(n + 1));
        }
        out.push(KeyValue { key: pair.0, value: pair.1 });
        proof {
            assert(kv_pairs(out@) =~= orig.take(n + 1));
        }
    }
    proof {
        assert(kv_pairs(out@) =~= orig);
    }
    out
}

/// One peer's reply in the gather step: the peer's address and what came
/// back, a batch of matches or a transport failure.
pub type PeerReply = (String, Result<Vec<KeyValue>, String>);

/// The matches of the successful replies, in reply order; a failed peer
/// contributes nothing.
pub open spec fn gathered(replies: Seq<PeerReply>) -> Seq<KeyValue>
    decreases replies.len(),
{
    if replies.len() == 0 {
        Seq::empty()
    } else {
        gathered(replies.drop_last()) + (match replies.last().1 {
            Ok(v) => v@,
            Err(_) => Seq::empty(),
        })
    }
}

/// The addresses of the peers whose call failed, in reply order.
pub open spec fn failed_addrs(replies: Seq<PeerReply>) -> Seq<Seq<char>>
    decreases replies.len(),
{
    if replies.len() == 0 {
        Seq::empty()
    } else if replies.last().1 is Err {
        failed_addrs(replies.drop_last()).push(replies.last().0@)
    } else {
        failed_addrs(replies.drop_last())
    }
}

/// What the coordinator answers: the merged matches, and the peers whose
/// contribution was dropped, kept observable for the caller.
pub struct SearchOutcome {
    pub matches: Vec<KeyValue>,
    pub failed_peers: Vec<String>,
}

/// The gather step. The aggregate never fails: each successful peer
/// contributes its batch, each failed peer contributes nothing and is
/// named among the failed peers; the local matches come last.
pub fn merge_results(local: Vec<KeyValue>, replies: Vec<PeerReply>) -> (out: SearchOutcome)
    ensures
        out.matches@ == gathered(replies@) + local@,
        out.failed_peers@.map_values(|a: String| a@) == failed_addrs(replies@),
{
    let ghost orig = replies@;
    let mut replies = replies;
    let mut matches: Vec<KeyValue> = Vec::new();
    let mut failed: Vec<String> = Vec::new();
    let ghost mut n: int = 0;
    while replies.len() > 0
        invariant
            0 <= n <= orig.len(),
            replies@ == orig.skip(n),
            matches@ == gathered(orig.take(n)),
            failed@.map_values(|a: String| a@) == failed_addrs(orig.take(n)),
        decreases replies@.len(),
    {
        let reply = replies.remove(0);
        proof {
            assert(reply == orig.skip(n)[0]);
            assert(orig.skip(n)[0] == orig[n]);
            assert(orig.skip(n).remove(0) =~= orig.skip(n + 1));
            assert(orig.take(n + 1).drop_last() =~= orig.take(n));
            assert(orig.take(n + 1).last() == orig[n]);
        }
        let (addr, res) = reply;
        match res {
            Ok(mut batch) => {
                matches.append(&mut batch);
            },
            Err(_) => {
                failed.push(addr);
                proof {
                    assert(failed@.map_values(|a: String| a@) =~= failed_addrs(orig.take(n + 1)));
                }
            },
        }
        proof {
            n = n + 1;
        }
    }
    proof {
        assert(orig.take(n) =~= orig);
    }
    let mut local = local;
    matches.append(&mut local);
    SearchOutcome { matches, failed_peers: failed }
}

} // verus!
