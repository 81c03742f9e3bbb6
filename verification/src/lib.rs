//! Settlement protocol of a marketplace that spans three ledgers: a warehouse
//! that owns the catalogue, the stock and the discount groups, a payment
//! ledger that forwards funds and pays refunds, and a receipt ledger whose
//! tokens stand for purchases. The ledgers share no state; they exchange
//! packets, and every handler either completes or leaves its ledger untouched.
//!
//! Each ledger keeps its tables in a `Store` and hands its handlers a
//! `StateContext`: the store and the response that the handler fills with
//! events and with messages for the other ledgers. What a handler does is
//! stated over the sequences that the tables hold; what holds of the
//! warehouse whatever is asked of it is proved in `warehouse::laws`.

pub mod decimal;
pub mod error;
pub mod event;
pub mod frontend;
pub mod ibc;
pub mod msg;
pub mod nft;
pub mod page;
pub mod payment;
pub mod response;
pub mod text;
pub mod warehouse;
