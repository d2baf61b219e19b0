//! The error taxonomy of the routing layer.

use vstd::prelude::*;
use vstd::string::StringExecFns;

verus! {

/// Every failure a dispatch entry point can report.
///
/// `NotFound` is only a valid outcome of a successful lookup; a transport or
/// non-success response while proxying is a `ForwardingFailure`, never
/// `NotFound`. `ConfigurationError` means no shard owns a key, a fatal
/// startup-class condition.
#[derive(Debug, Clone)]
pub enum KvError {
    /// Successful lookup, key absent.
    NotFound,
    /// Transport error or non-success response while proxying to the owning
    /// node; carries the transport's own description.
    ForwardingFailure(String),
    /// Local store fault unrelated to key absence.
    InternalStorageFailure(String),
    /// No configured shard owns the key: the shard map does not cover the
    /// key space.
    ConfigurationError,
}

pub type KvResult<T> = Result<T, KvError>;

impl KvError {
    /// A textual description of the error, for the surrounding service layer
    /// to log or send.
    pub fn message(&self) -> (r: String)
        ensures
            match self {
                KvError::NotFound => r@ == "key not found"@,
                KvError::ForwardingFailure(m) => r@ == "forwarding failed: "@ + m@,
                KvError::InternalStorageFailure(m) => r@ == "internal storage failure: "@ + m@,
                KvError::ConfigurationError => r@ == "no shard owns the key"@,
            },
    {
        match self {
            KvError::NotFound => "key not found".to_owned(),
            KvError::ForwardingFailure(m) => "forwarding failed: ".to_owned().concat(m.as_str()),
            KvError::InternalStorageFailure(m) => "internal storage failure: ".to_owned().concat(
                m.as_str(),
            ),
            KvError::ConfigurationError => "no shard owns the key".to_owned(),
        }
    }
}

} // verus!
