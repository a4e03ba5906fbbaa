//! Arbitration engine of a multi-chain proof-of-capacity mining proxy.
//!
//! The library keeps the per-chain state of every configured upstream, decides which
//! chain the connected miners should be mining, gates nonce submissions against target
//! and best deadlines, and frames the messages exchanged with upstream pools.  Network
//! and console work is left to the caller, which hands the library plain values.

pub mod difficulty;
pub mod best;
pub mod text;
pub mod chain;
pub mod json;
pub mod arbiter;
pub mod submission;
pub mod capacity;
pub mod hdpool;
pub mod poller;
pub mod format;
pub mod display;
