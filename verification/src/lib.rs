//! A minimal peer-to-peer ledger node library.
//!
//! Each node keeps an append-only chain of hash-linked blocks, accepts
//! locally authored blocks (mining), and reconciles its chain with chains
//! announced by peers, converging on the longest valid chain.

pub mod chain;
pub mod engine;
pub mod protocol;
