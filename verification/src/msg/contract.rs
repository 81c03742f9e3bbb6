//! Messages, queries and events, one module for each ledger.

pub mod nft;
pub mod payment;
pub mod warehouse;
