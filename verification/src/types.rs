//! Plain value shapes carried between the service layer and the library.

use vstd::prelude::*;

verus! {

/// One key/value pair, both opaque strings.
#[derive(Debug, Clone)]
pub struct KeyValue {
    pub key: String,
    pub value: String,
}

/// Body of a set request: the value to store under the addressed key.
#[derive(Debug, Clone)]
pub struct SetRequest {
    pub value: String,
}

/// Query parameters of a prefix search. The forwarding marker travels
/// out of band and is passed to the coordinator separately.
#[derive(Debug, Clone)]
pub struct SearchParams {
    pub prefix: String,
}

} // verus!
