//! Startup configuration: the cluster's shard records.
//!
//! Reading and parsing the configuration file is the surrounding process's
//! business; the library receives the records as plain values.

use vstd::prelude::*;

use crate::router::ShardConfig;

verus! {

/// The parsed startup configuration: every shard of the cluster.
#[derive(Debug, Clone)]
pub struct Config {
    pub shards: Vec<ShardConfig>,
}

/// Index of the first shard record carrying node id `id`, scanning from `i`.
pub open spec fn first_with_id_from(shards: Seq<ShardConfig>, id: usize, i: int) -> Option<int>
    decreases shards.len() - i,
{
    if i >= shards.len() {
        None
    } else if shards[i].id == id {
        Some(i)
    } else {
        first_with_id_from(shards, id, i + 1)
    }
}

/// Index of the first shard record carrying node id `id`.
pub open spec fn first_with_id(shards: Seq<ShardConfig>, id: usize) -> Option<int> {
    first_with_id_from(shards, id, 0)
}

impl Config {
    /// The shard record this node was started as: the first entry carrying
    /// its id, or `None` when the configuration does not mention the id.
    pub fn shard_with_id(&self, id: usize) -> (r: Option<&ShardConfig>)
        ensures
            match first_with_id(self.shards@, id) {
                Some(i) => r matches Some(s) && *s == self.shards@[i],
                None => r is None,
            },
    {
        let n: usize = self.shards.len();
        let mut i: usize = 0;
        while i < n
            invariant
                n == self.shards@.len(),
                i <= n,
                first_with_id(self.shards@, id) == first_with_id_from(self.shards@, id, i as int),
            decreases n - i,
        {
            let s = &self.shards[i];
            if s.id == id {
                return Some(s);
            }
            i = i + 1;
        }
        None
    }
}

} // verus!
