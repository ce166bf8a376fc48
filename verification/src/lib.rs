//! Authenticated REST client core for the OKX private trading endpoints:
//! request signing, per-credential rate limiting and the decisions of the
//! request pipeline, with machine-checked contracts.

pub mod account;
pub mod client;
pub mod config;
pub mod error;
pub mod positions;
pub mod positions_history;
pub mod query;
pub mod rate_limiter;
pub mod signer;
pub mod text;
pub mod types;
