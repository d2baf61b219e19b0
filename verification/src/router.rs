//! The shard map and locality resolution.
//!
//! A shard map is an ordered list of shard records, each owning one
//! inclusive lexicographic key range. Resolution scans the list and takes
//! the first record whose range contains the key; when the ranges are
//! non-overlapping that first match is the only match (`lemma_exactly_one_owner`).

use vstd::prelude::*;

use crate::error::KvError;
use crate::lex::{lex_le, lex_lt, lemma_lex_le_trans, str_le};

verus! {

/// One shard record: the owning node's id, its network address, and the
/// inclusive key range it owns.
#[derive(Debug, Clone)]
pub struct ShardConfig {
    pub id: usize,
    pub addr: String,
    pub range_start: String,
    pub range_end: String,
}

/// Shard `s` owns key `k`: both inclusive bounds hold.
pub open spec fn shard_owns(s: ShardConfig, k: Seq<char>) -> bool {
    lex_le(s.range_start@, k) && lex_le(k, s.range_end@)
}

/// Index of the first shard whose range contains `k`, scanning from `i`.
pub open spec fn first_owner_from(shards: Seq<ShardConfig>, k: Seq<char>, i: int) -> Option<int>
    decreases shards.len() - i,
{
    if i >= shards.len() {
        None
    } else if shard_owns(shards[i], k) {
        Some(i)
    } else {
        first_owner_from(shards, k, i + 1)
    }
}

/// Index of the first shard whose range contains `k`.
pub open spec fn first_owner(shards: Seq<ShardConfig>, k: Seq<char>) -> Option<int> {
    first_owner_from(shards, k, 0)
}

/// The ranges of `a` and `b` share no key: one ends strictly before the
/// other starts.
pub open spec fn ranges_disjoint(a: ShardConfig, b: ShardConfig) -> bool {
    lex_lt(a.range_end@, b.range_start@) || lex_lt(b.range_end@, a.range_start@)
}

/// No key could belong to two configured shards.
pub open spec fn non_overlapping(shards: Seq<ShardConfig>) -> bool {
    forall|i: int, j: int|
        0 <= i < j < shards.len() ==> #[trigger] ranges_disjoint(shards[i], shards[j])
}

/// Decides `ranges_disjoint(*a, *b)`.
pub fn ranges_disjoint_exec(a: &ShardConfig, b: &ShardConfig) -> (r: bool)
    ensures
        r == ranges_disjoint(*a, *b),
{
    !str_le(b.range_start.as_str(), a.range_end.as_str()) || !str_le(
        a.range_start.as_str(),
        b.range_end.as_str(),
    )
}

/// Load-time validation: every pair of configured ranges is disjoint.
/// A map that fails this check should be rejected rather than relied on
/// for first-match scan order.
pub fn check_non_overlapping(shards: &Vec<ShardConfig>) -> (r: bool)
    ensures
        r == non_overlapping(shards@),
{
    let n: usize = shards.len();
    let mut i: usize = 0;
    while i < n
        invariant
            n == shards@.len(),
            i <= n,
            forall|p: int, q: int|
                0 <= p < q < shards@.len() && p < i ==> #[trigger] ranges_disjoint(
                    shards@[p],
                    shards@[q],
                ),
        decreases n - i,
    {
        let mut j: usize = i + 1;
        while j < n
            invariant
                n == shards@.len(),
                i < j <= n,
                i < n,
                forall|q: int|
                    i < q < j ==> #[trigger] ranges_disjoint(shards@[i as int], shards@[q]),
            decreases n - j,
        {
            if !ranges_disjoint_exec(&shards[i], &shards[j]) {
                assert(!non_overlapping(shards@));
                return false;
            }
            j = j + 1;
        }
        i = i + 1;
    }
    true
}

/// The locality resolver: this node's id and the cluster's shard map,
/// built once at startup and never mutated.
#[derive(Clone)]
pub struct ShardRouter {
    pub my_id: usize,
    pub shards: Vec<ShardConfig>,
}

impl ShardRouter {
    pub fn new(my_id: usize, shards: Vec<ShardConfig>) -> (r: ShardRouter)
        ensures
            r.my_id == my_id,
            r.shards == shards,
    {
        ShardRouter { my_id, shards }
    }

    /// The shard record owning `key`: the first entry in scan order whose
    /// inclusive range contains it. `ConfigurationError` exactly when no
    /// entry does, which means the map fails to cover the key space.
    pub fn shard_for_key(&self, key: &str) -> (r: Result<&ShardConfig, KvError>)
        ensures
            match first_owner(self.shards@, key@) {
                Some(i) => r matches Ok(s) && *s == self.shards@[i],
                None => r matches Err(e) && e matches KvError::ConfigurationError,
            },
    {
        let n: usize = self.shards.len();
        let mut i: usize = 0;
        while i < n
            invariant
                n == self.shards@.len(),
                i <= n,
                first_owner(self.shards@, key@) == first_owner_from(self.shards@, key@, i as int),
            decreases n - i,
        {
            let s = &self.shards[i];
            if str_le(s.range_start.as_str(), key) && str_le(key, s.range_end.as_str()) {
                assert(shard_owns(self.shards@[i as int], key@));
                return Ok(s);
            }
            i = i + 1;
        }
        Err(KvError::ConfigurationError)
    }

    /// Does this node own `key`?
    pub fn is_local(&self, key: &str) -> (r: Result<bool, KvError>)
        ensures
            match first_owner(self.shards@, key@) {
                Some(i) => r matches Ok(b) && b == (self.shards@[i].id == self.my_id),
                None => r matches Err(e) && e matches KvError::ConfigurationError,
            },
    {
        match self.shard_for_key(key) {
            Ok(s) => Ok(s.id == self.my_id),
            Err(e) => Err(e),
        }
    }

    /// The address of the node owning `key`.
    pub fn address_for_key(&self, key: &str) -> (r: Result<String, KvError>)
        ensures
            match first_owner(self.shards@, key@) {
                Some(i) => r matches Ok(a) && a@ == self.shards@[i].addr@,
                None => r matches Err(e) && e matches KvError::ConfigurationError,
            },
    {
        match self.shard_for_key(key) {
            Ok(s) => Ok(s.addr.clone()),
            Err(e) => Err(e),
        }
    }
}

/// Law: under non-overlapping ranges a key never belongs to two distinct
/// shards.
pub proof fn lemma_owner_unique(shards: Seq<ShardConfig>, k: Seq<char>, i: int, j: int)
    requires
        non_overlapping(shards),
        0 <= i < shards.len(),
        0 <= j < shards.len(),
        shard_owns(shards[i], k),
        shard_owns(shards[j], k),
    ensures
        i == j,
{
    if i != j {
        let p: int = if i < j { i } else { j };
        let q: int = if i < j { j } else { i };
        assert(ranges_disjoint(shards[p], shards[q]));
        if lex_lt(shards[p].range_end@, shards[q].range_start@) {
            lemma_lex_le_trans(shards[q].range_start@, k, shards[p].range_end@);
        } else {
            lemma_lex_le_trans(shards[p].range_start@, k, shards[q].range_end@);
        }
    }
}

proof fn lemma_first_owner_from_finds(shards: Seq<ShardConfig>, k: Seq<char>, i: int)
    requires
        0 <= i <= shards.len(),
    ensures
        match first_owner_from(shards, k, i) {
            Some(m) => i <= m < shards.len() && shard_owns(shards[m], k) && forall|j: int|
                i <= j < m ==> !#[trigger] shard_owns(shards[j], k),
            None => forall|j: int| i <= j < shards.len() ==> !#[trigger] shard_owns(shards[j], k),
        },
    decreases shards.len() - i,
{
    if i < shards.len() && !shard_owns(shards[i], k) {
        lemma_first_owner_from_finds(shards, k, i + 1);
    }
}

/// Law: when the configured ranges are non-overlapping and some shard's
/// range contains `k`, exactly one shard owns `k`, and resolution finds it.
pub proof fn lemma_exactly_one_owner(shards: Seq<ShardConfig>, k: Seq<char>)
    requires
        non_overlapping(shards),
        exists|i: int| 0 <= i < shards.len() && #[trigger] shard_owns(shards[i], k),
    ensures
        first_owner(shards, k) matches Some(m) && 0 <= m < shards.len() && shard_owns(shards[m], k)
            && (forall|j: int|
            0 <= j < shards.len() && #[trigger] shard_owns(shards[j], k) ==> j == m),
{
    lemma_first_owner_from_finds(shards, k, 0);
    let m = first_owner(shards, k);
    if m is None {
        let w: int = choose|i: int| 0 <= i < shards.len() && #[trigger] shard_owns(shards[i], k);
        assert(!shard_owns(shards[w], k));
    } else {
        let mi: int = m->0;
        assert forall|j: int|
            0 <= j < shards.len() && #[trigger] shard_owns(shards[j], k) implies j == mi by {
            lemma_owner_unique(shards, k, j, mi);
        }
    }
}

} // verus!
