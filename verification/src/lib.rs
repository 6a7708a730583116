//! A hierarchical name-leasing registry.
//!
//! Names are leased for a bounded, renewable time span; every registered
//! name is mirrored by an ownership token that an external token ledger
//! holds.  The registry itself is a pure state machine: each operation
//! checks its inputs against the lease table, mutates the table, and
//! returns the batch of token-ledger commands (mint, burn, metadata
//! update, fund transfer) that the host must apply atomically together
//! with the state change.
//!
//! All host interaction (storage, queries against the token ledger,
//! payment collection) happens outside this crate; operations receive the
//! answers of those queries as plain values and never perform I/O.

pub mod commands;
pub mod contract;
pub mod error;
pub mod handlers;
pub mod laws;
pub mod metadata;
pub mod msg;
pub mod read_utils;
pub mod state;
