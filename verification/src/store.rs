//! The single-node storage engine: an in-memory key/value map.
//!
//! The store keeps its pairs in a vector whose keys are pairwise distinct;
//! its abstract value is the finite map from key to value. Every operation
//! is total: the engine itself never fails.

use vstd::prelude::*;

use crate::error::KvResult;
use crate::lex::{has_prefix, str_eq, str_starts_with};

verus! {

/// The stored keys are pairwise distinct.
pub open spec fn keys_distinct(entries: Seq<(String, String)>) -> bool {
    forall|i: int, j: int|
        #![trigger entries[i], entries[j]]
        0 <= i < j < entries.len() ==> entries[i].0@ != entries[j].0@
}

/// The finite map a sequence of pairs denotes; a later pair wins, though
/// under `keys_distinct` the case never arises.
pub open spec fn map_of(entries: Seq<(String, String)>) -> Map<Seq<char>, Seq<char>>
    decreases entries.len(),
{
    if entries.len() == 0 {
        Map::empty()
    } else {
        map_of(entries.drop_last()).insert(entries.last().0@, entries.last().1@)
    }
}

/// Every pair of `v` is a pair of `m` whose key begins with `p`.
pub open spec fn prefix_sound(
    v: Seq<(String, String)>,
    m: Map<Seq<char>, Seq<char>>,
    p: Seq<char>,
) -> bool {
    forall|t: int|
        0 <= t < v.len() ==> has_prefix((#[trigger] v[t]).0@, p) && m.contains_key(v[t].0@)
            && v[t].1@ == m[v[t].0@]
}

/// Every key of `m` that begins with `p` appears in `v`.
pub open spec fn prefix_complete(
    v: Seq<(String, String)>,
    m: Map<Seq<char>, Seq<char>>,
    p: Seq<char>,
) -> bool {
    forall|k: Seq<char>|
        m.contains_key(k) && #[trigger] has_prefix(k, p) ==> exists|t: int|
            0 <= t < v.len() && (#[trigger] v[t]).0@ == k
}

/// The pairs whose key begins with `p`, in storage order.
pub open spec fn matching(entries: Seq<(String, String)>, p: Seq<char>) -> Seq<(String, String)>
    decreases entries.len(),
{
    if entries.len() == 0 {
        Seq::empty()
    } else if has_prefix(entries.last().0@, p) {
        matching(entries.drop_last(), p).push(entries.last())
    } else {
        matching(entries.drop_last(), p)
    }
}

proof fn lemma_map_of_contains(entries: Seq<(String, String)>, k: Seq<char>)
    ensures
        map_of(entries).contains_key(k) <==> exists|i: int|
            0 <= i < entries.len() && (#[trigger] entries[i]).0@ == k,
    decreases entries.len(),
{
    if entries.len() > 0 {
        lemma_map_of_contains(entries.drop_last(), k);
        if entries.last().0@ == k {
            assert(entries[entries.len() - 1].0@ == k);
        } else if map_of(entries).contains_key(k) {
            let i = choose|i: int|
                0 <= i < entries.drop_last().len() && (#[trigger] entries.drop_last()[i]).0@ == k;
            assert(entries[i].0@ == k);
        } else if exists|i: int| 0 <= i < entries.len() && (#[trigger] entries[i]).0@ == k {
            let i = choose|i: int| 0 <= i < entries.len() && (#[trigger] entries[i]).0@ == k;
            assert(entries.drop_last()[i].0@ == k);
        }
    }
}

proof fn lemma_map_of_get(entries: Seq<(String, String)>, i: int)
    requires
        keys_distinct(entries),
        0 <= i < entries.len(),
    ensures
        map_of(entries).contains_key(entries[i].0@),
        map_of(entries)[entries[i].0@] == entries[i].1@,
    decreases entries.len(),
{
    if i < entries.len() - 1 {
        assert(keys_distinct(entries.drop_last()));
        lemma_map_of_get(entries.drop_last(), i);
        assert(entries.drop_last()[i] == entries[i]);
        assert(entries.last().0@ != entries[i].0@);
    }
}

/// The single-node in-memory store.
pub struct MemStore {
    entries: Vec<(String, String)>,
}

impl View for MemStore {
    type V = Map<Seq<char>, Seq<char>>;

    closed spec fn view(&self) -> Map<Seq<char>, Seq<char>> {
        map_of(self.entries@)
    }
}

impl MemStore {
    /// Internal well-formedness: no key is stored twice.
    pub closed spec fn inv(&self) -> bool {
        keys_distinct(self.entries@)
    }

    /// An empty store.
    pub fn new() -> (r: MemStore)
        ensures
            r.inv(),
            r@ == Map::<Seq<char>, Seq<char>>::empty(),
    {
        MemStore { entries: Vec::new() }
    }

    /// Position of `key` among the stored pairs, if present.
    fn find_index(&self, key: &str) -> (r: Option<usize>)
        ensures
            match r {
                Some(i) => i < self.entries@.len() && self.entries@[i as int].0@ == key@,
                None => forall|j: int|
                    0 <= j < self.entries@.len() ==> (#[trigger] self.entries@[j]).0@ != key@,
            },
    {
        let n: usize = self.entries.len();
        let mut i: usize = 0;
        while i < n
            invariant
                n == self.entries@.len(),
                i <= n,
                forall|j: int| 0 <= j < i ==> (#[trigger] self.entries@[j]).0@ != key@,
            decreases n - i,
        {
            let pair = &self.entries[i];
            if str_eq(pair.0.as_str(), key) {
                return Some(i);
            }
            i = i + 1;
        }
        None
    }

    /// The value stored under `key`, or absence. Never fails.
    pub fn get(&self, key: &str) -> (r: KvResult<Option<String>>)
        requires
            self.inv(),
        ensures
            r matches Ok(v) && match v {
                Some(s) => self@.contains_key(key@) && s@ == self@[key@],
                None => !self@.contains_key(key@),
            },
    {
        match self.find_index(key) {
            Some(i) => {
                proof {
                    lemma_map_of_get(self.entries@, i as int);
                }
                Ok(Some(self.entries[i].1.clone()))
            },
            None => {
                proof {
                    lemma_map_of_contains(self.entries@, key@);
                }
                Ok(None)
            },
        }
    }

    /// Stores `value` under `key`, creating or replacing. Never fails.
    pub fn set(&mut self, key: String, value: String) -> (r: KvResult<()>)
        requires
            old(self).inv(),
        ensures
            final(self).inv(),
            final(self)@ == old(self)@.insert(key@, value@),
            r is Ok,
    {
        let ghost pre = self@;
        match self.delete(key.as_str()) {
            Ok(_) => {},
            Err(_) => {},
        }
        proof {
            lemma_map_of_contains(self.entries@, key@);
        }
        let ghost cleared = self.entries@;
        self.entries.push((key, value));
        proof {
            assert(self.entries@.drop_last() =~= cleared);
            assert(keys_distinct(self.entries@));
            assert(self@ =~= pre.insert(self.entries@.last().0@, self.entries@.last().1@));
        }
        Ok(())
    }

    /// Removes `key` if present; absence is not a fault. Never fails.
    pub fn delete(&mut self, key: &str) -> (r: KvResult<()>)
        requires
            old(self).inv(),
        ensures
            final(self).inv(),
            final(self)@ == old(self)@.remove(key@),
            r is Ok,
    {
        match self.find_index(key) {
            Some(i) => {
                proof {
                    lemma_map_of_remove(self.entries@, i as int);
                }
                self.entries.remove(i);
                Ok(())
            },
            None => {
                proof {
                    lemma_map_of_contains(self.entries@, key@);
                    assert(self@.remove(key@) =~= self@);
                }
                Ok(())
            },
        }
    }

    /// Every stored pair whose key begins with `prefix`, each key once,
    /// in storage order. Never fails.
    pub fn search_by_prefix(&self, prefix: &str) -> (r: KvResult<Vec<(String, String)>>)
        requires
            self.inv(),
        ensures
            r is Ok,
            r matches Ok(v) ==> prefix_sound(v@, self@, prefix@),
            r matches Ok(v) ==> prefix_complete(v@, self@, prefix@),
            r matches Ok(v) ==> keys_distinct(v@),
    {
        let n: usize = self.entries.len();
        let mut out: Vec<(String, String)> = Vec::new();
        let mut i: usize = 0;
        while i < n
            invariant
                n == self.entries@.len(),
                i <= n,
                out@ == matching(self.entries@.take(i as int), prefix@),
            decreases n - i,
        {
            let pair = &self.entries[i];
            if str_starts_with(pair.0.as_str(), prefix) {
                out.push((pair.0.clone(), pair.1.clone()));
            }
            proof {
                let taken = self.entries@.take(i + 1);
                assert(taken.drop_last() =~= self.entries@.take(i as int));
                assert(taken.last() == self.entries@[i as int]);
            }
            i = i + 1;
        }
        proof {
            assert(self.entries@.take(n as int) =~= self.entries@);
            let e = self.entries@;
            let p = prefix@;
            assert forall|t: int| 0 <= t < out@.len() implies has_prefix(
                (#[trigger] out@[t]).0@,
                p,
            ) && self@.contains_key(out@[t].0@) && out@[t].1@ == self@[out@[t].0@] by {
                lemma_matching_elem(e, p, t);
                let j = choose|j: int| 0 <= j < e.len() && matching(e, p)[t] == #[trigger] e[j];
                lemma_map_of_get(e, j);
            }
            assert forall|k: Seq<char>|
                self@.contains_key(k) && #[trigger] has_prefix(k, p) implies exists|t: int|
                0 <= t < out@.len() && (#[trigger] out@[t]).0@ == k by {
                lemma_map_of_contains(e, k);
                let j = choose|j: int| 0 <= j < e.len() && (#[trigger] e[j]).0@ == k;
                lemma_matching_covers(e, p, j);
                let t = choose|t: int|
                    0 <= t < matching(e, p).len() && #[trigger] matching(e, p)[t] == e[j];
                assert(out@[t].0@ == k);
            }
            lemma_matching_distinct(e, p);
            assert(prefix_sound(out@, self@, prefix@));
            assert(prefix_complete(out@, self@, prefix@));
        }
        Ok(out)
    }
}

proof fn lemma_map_of_remove(entries: Seq<(String, String)>, i: int)
    requires
        keys_distinct(entries),
        0 <= i < entries.len(),
    ensures
        map_of(entries.remove(i)) == map_of(entries).remove(entries[i].0@),
        keys_distinct(entries.remove(i)),
    decreases entries.len(),
{
    let k = entries[i].0@;
    assert forall|p: int, q: int|
        #![trigger entries.remove(i)[p], entries.remove(i)[q]]
        0 <= p < q < entries.remove(i).len() implies entries.remove(i)[p].0@ != entries.remove(
        i,
    )[q].0@ by {
        let p0: int = if p < i {
            p
        } else {
            p + 1
        };
        let q0: int = if q < i {
            q
        } else {
            q + 1
        };
        assert(entries.remove(i)[p] == entries[p0]);
        assert(entries.remove(i)[q] == entries[q0]);
    }
    if i == entries.len() - 1 {
        assert(entries.remove(i) =~= entries.drop_last());
        lemma_map_of_contains(entries.drop_last(), k);
        if map_of(entries.drop_last()).contains_key(k) {
            let j = choose|j: int|
                0 <= j < entries.drop_last().len() && (#[trigger] entries.drop_last()[j]).0@ == k;
            assert(entries[j].0@ == k);
        }
        assert(map_of(entries).remove(k) =~= map_of(entries.drop_last()));
    } else {
        assert(keys_distinct(entries.drop_last()));
        lemma_map_of_remove(entries.drop_last(), i);
        assert(entries.remove(i).drop_last() =~= entries.drop_last().remove(i));
        assert(entries.remove(i).last() == entries.last());
        assert(entries.drop_last()[i] == entries[i]);
        assert(entries.last().0@ != k);
        assert(map_of(entries.remove(i)) == map_of(entries.drop_last()).remove(k).insert(
            entries.last().0@,
            entries.last().1@,
        ));
        assert(map_of(entries).remove(k) =~= map_of(entries.drop_last()).remove(k).insert(
            entries.last().0@,
            entries.last().1@,
        ));
    }
}

proof fn lemma_matching_elem(entries: Seq<(String, String)>, p: Seq<char>, t: int)
    requires
        0 <= t < matching(entries, p).len(),
    ensures
        has_prefix(matching(entries, p)[t].0@, p),
        exists|j: int| 0 <= j < entries.len() && matching(entries, p)[t] == #[trigger] entries[j],
    decreases entries.len(),
{
    if entries.len() > 0 {
        let rest = matching(entries.drop_last(), p);
        if t < rest.len() {
            lemma_matching_elem(entries.drop_last(), p, t);
            let j = choose|j: int|
                0 <= j < entries.drop_last().len() && rest[t] == #[trigger] entries.drop_last()[j];
            assert(matching(entries, p)[t] == entries[j]);
        } else {
            assert(matching(entries, p)[t] == entries[entries.len() - 1]);
        }
    }
}

proof fn lemma_matching_covers(entries: Seq<(String, String)>, p: Seq<char>, j: int)
    requires
        0 <= j < entries.len(),
        has_prefix(entries[j].0@, p),
    ensures
        exists|t: int|
            0 <= t < matching(entries, p).len() && #[trigger] matching(entries, p)[t] == entries[j],
    decreases entries.len(),
{
    if j == entries.len() - 1 {
        assert(matching(entries, p)[matching(entries, p).len() - 1] == entries[j]);
    } else {
        assert(entries.drop_last()[j] == entries[j]);
        lemma_matching_covers(entries.drop_last(), p, j);
        let t = choose|t: int|
            0 <= t < matching(entries.drop_last(), p).len() && #[trigger] matching(
                entries.drop_last(),
                p,
            )[t] == entries.drop_last()[j];
        assert(matching(entries, p)[t] == entries[j]);
    }
}

proof fn lemma_matching_distinct(entries: Seq<(String, String)>, p: Seq<char>)
    requires
        keys_distinct(entries),
    ensures
        keys_distinct(matching(entries, p)),
    decreases entries.len(),
{
    if entries.len() > 0 {
        assert(keys_distinct(entries.drop_last()));
        lemma_matching_distinct(entries.drop_last(), p);
        if has_prefix(entries.last().0@, p) {
            let rest = matching(entries.drop_last(), p);
            assert forall|t: int| 0 <= t < rest.len() implies (#[trigger] rest[t]).0@
                != entries.last().0@ by {
                lemma_matching_elem(entries.drop_last(), p, t);
                let j = choose|j: int|
                    0 <= j < entries.drop_last().len() && rest[t] == #[trigger] entries.drop_last(
                    )[j];
                assert(entries[j].0@ != entries[entries.len() - 1].0@);
            }
            let whole = matching(entries, p);
            assert forall|a: int, b: int|
                #![trigger whole[a], whole[b]]
                0 <= a < b < whole.len() implies whole[a].0@ != whole[b].0@ by {
                if b < whole.len() - 1 {
                    assert(whole[a] == rest[a]);
                    assert(whole[b] == rest[b]);
                } else {
                    assert(whole[a] == rest[a]);
                    assert(whole[b] == entries.last());
                }
            }
        }
    }
}

/// Law: round trip of a write — after `set(k, v)` the store's contents map
/// `k` to `v`, so a following `get(k)` returns exactly `v`.
pub proof fn lemma_set_then_get(m: Map<Seq<char>, Seq<char>>, k: Seq<char>, v: Seq<char>)
    ensures
        m.insert(k, v).contains_key(k),
        m.insert(k, v)[k] == v,
{
}

/// Law: round trip of a removal — after `delete(k)` the contents no longer
/// contain `k`, so a following `get(k)` reports absence.
pub proof fn lemma_delete_then_get(m: Map<Seq<char>, Seq<char>>, k: Seq<char>)
    ensures
        !m.remove(k).contains_key(k),
{
}

} // verus!
