//! A sharded key/value routing library.
//!
//! Each node of a cluster owns one contiguous, inclusive lexicographic slice
//! of the key space. Any node may receive a request for any key: the library
//! decides whether the request is served from the local store or must be
//! forwarded to the owning peer, and it drives the scatter-gather protocol
//! for prefix search, including the one-hop forwarding marker that prevents
//! forwarding loops. All transport is left to the surrounding service layer;
//! the library works on plain values and is verified.

pub mod config;
pub mod dispatch;
pub mod error;
pub mod kv;
pub mod lex;
pub mod router;
pub mod search;
pub mod store;
pub mod types;
