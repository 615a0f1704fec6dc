//! Governance ledger for a creator-focused decentralized autonomous
//! organization: creators register profiles, raise proposals, token-holders
//! vote with weight bounded by their staked balance, and stakers accrue
//! time-based rewards.
//!
//! Every invocation is a single atomic instruction applied to externally
//! stored records: the instruction bytes and record bytes are decoded,
//! authorization and consistency are validated, one of six deterministic
//! state transitions is applied, and the mutated records are re-serialized.
//! No partial write becomes visible on failure.

pub mod errors;
pub mod records;
pub mod codec;
pub mod auth;
pub mod engine;
pub mod store;
pub mod dispatch;
