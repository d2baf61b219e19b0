//! The generic storage interface the node consumes.
//!
//! An implementation exposes a finite map as its abstract contents. A
//! failure reported here is a store fault, never mere absence of a key:
//! absence is a successful outcome.

use vstd::prelude::*;

use crate::error::{KvError, KvResult};
use crate::store::{keys_distinct, prefix_complete, prefix_sound, MemStore};

verus! {

/// A key/value store holding a finite map from key to value.
pub trait KvStore: Sized {
    /// The abstract contents: the map the store currently holds.
    spec fn contents(&self) -> Map<Seq<char>, Seq<char>>;

    /// Implementation-specific well-formedness.
    spec fn well_formed(&self) -> bool;

    /// The value under `key`, or `None` when absent.
    fn get(&self, key: &str) -> (r: KvResult<Option<String>>)
        requires
            self.well_formed(),
        ensures
            r matches Ok(Some(v)) ==> self.contents().contains_key(key@) && v@
                == self.contents()[key@],
            r matches Ok(None) ==> !self.contents().contains_key(key@),
            r matches Err(e) ==> e matches KvError::InternalStorageFailure(_),
    ;

    /// Stores `value` under `key`, creating or replacing.
    fn set(&mut self, key: String, value: String) -> (r: KvResult<()>)
        requires
            old(self).well_formed(),
        ensures
            final(self).well_formed(),
            r is Ok ==> final(self).contents() == old(self).contents().insert(key@, value@),
            r matches Err(e) ==> e matches KvError::InternalStorageFailure(_) && final(self).contents() == old(self).contents(),
    ;

    /// Removes `key`; absence is not a fault.
    fn delete(&mut self, key: &str) -> (r: KvResult<()>)
        requires
            old(self).well_formed(),
        ensures
            final(self).well_formed(),
            r is Ok ==> final(self).contents() == old(self).contents().remove(key@),
            r matches Err(e) ==> e matches KvError::InternalStorageFailure(_) && final(self).contents() == old(self).contents(),
    ;

    /// Every stored pair whose key begins with `prefix`, each key once,
    /// in unspecified order.
    fn search_by_prefix(&self, prefix: &str) -> (r: KvResult<Vec<(String, String)>>)
        requires
            self.well_formed(),
        ensures
            r matches Ok(v) ==> prefix_sound(v@, self.contents(), prefix@) && prefix_complete(
                v@,
                self.contents(),
                prefix@,
            ) && keys_distinct(v@),
            r matches Err(e) ==> e matches KvError::InternalStorageFailure(_),
    ;
}

impl KvStore for MemStore {
    open spec fn contents(&self) -> Map<Seq<char>, Seq<char>> {
        self@
    }

    open spec fn well_formed(&self) -> bool {
        self.inv()
    }

    fn get(&self, key: &str) -> (r: KvResult<Option<String>>) {
        MemStore::get(self, key)
    }

    fn set(&mut self, key: String, value: String) -> (r: KvResult<()>) {
        MemStore::set(self, key, value)
    }

    fn delete(&mut self, key: &str) -> (r: KvResult<()>) {
        MemStore::delete(self, key)
    }

    fn search_by_prefix(&self, prefix: &str) -> (r: KvResult<Vec<(String, String)>>) {
        MemStore::search_by_prefix(self, prefix)
    }
}

} // verus!
