//! Conditional-market primitives: a constant-product pool with a time-weighted
//! price oracle, and a vault that mints outcome tokens against an underlying
//! asset and settles them once a question resolves.
//!
//! Every operation works on explicit records handed in by the caller and
//! either applies all of its effects or returns an error with nothing changed.

pub mod address;
pub mod amm;
pub mod swap;
pub mod conditional_vault;
pub mod redeem_tokens;
pub mod mint_tokens;
pub mod settlement;
pub mod create_position;
pub mod initialize_conditional_vault;
pub mod refund;
pub mod metadata;

