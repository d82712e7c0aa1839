//! Identity-and-connection core of a client to a decentralized peer network.
//!
//! The crate establishes a cryptographic network identity for an application
//! acting on behalf of an owning account, models the bootstrap of a transport
//! connection to the network, and exposes a context (identity, contact
//! configuration, bounded block cache, request timeout) that later protocol
//! operations depend on.
//!
//! `client` holds the facade with its two construction protocols; `keys`,
//! `contacts`, `manager` and `cache` the identity material, the contact
//! resolver, the bootstrap decision machine and the block cache; `lru` and
//! `sodium` the trusted boundary around the outside container and
//! cryptographic primitives; `test_utils` legacy bulk key helpers.

pub mod cache;
pub mod client;
pub mod contacts;
pub mod errors;
pub mod keys;
pub mod lru;
pub mod manager;
pub mod sodium;
pub mod test_utils;
