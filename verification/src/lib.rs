//! Trusted core of a consensus node: transaction checks and block formation.
//!
//! The engine accepts transactions, checks each one against the rules of the
//! ledger, and assembles hash-chained blocks signed with the node's identity
//! key. Every function carries a contract that Verus proves; the few calls
//! into cryptographic crates are isolated behind small trusted wrappers.

pub mod block;
pub mod context;
pub mod digest;
pub mod enclave;
pub mod error;
pub mod handshake;
pub mod keys;
pub mod serial;
pub mod session;
pub mod tx;
pub mod validation;
pub mod wire;
