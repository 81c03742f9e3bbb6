//! The values that the three ledgers store, exchange and report.

pub mod contract;
pub mod product;
pub mod purchase;
