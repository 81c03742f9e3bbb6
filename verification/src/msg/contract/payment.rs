//! Messages of the payment ledger.

use crate::ibc::IbcChannel;
use crate::msg::product::ProductId;
use vstd::prelude::*;

verus! {

/// What a user can ask of the payment ledger.
#[derive(Clone, Debug, PartialEq, Eq)]
pub enum ExecuteMsg {
    /// Buy `quantity` items of a product with the funds attached. `owner` is
    /// the address on the receipt ledger that gets the receipt.
    Purchase { owner: String, product_id: ProductId, quantity: u32 },
}

/// What the warehouse can ask of the payment ledger by packet.
#[derive(Clone, Debug, PartialEq, Eq)]
pub enum IbcExecuteMsg {
    /// Pay each refund to its recipient.
    Refund { refunds: Vec<Refund> },
}

/// An amount owed to an address of the payment ledger.
#[derive(Clone, Debug, PartialEq, Eq)]
pub struct Refund {
    pub recipient: String,
    pub amount: u128,
}

/// The queries of the payment ledger.
#[derive(Clone, Copy, Debug, PartialEq, Eq)]
pub enum QueryMsg {
    /// General information about the ledger.
    Info {  },
}

/// The answer to `QueryMsg::Info`.
#[derive(Clone, Debug, PartialEq, Eq)]
pub struct InfoResp {
    /// The channel to the warehouse, once connected.
    pub ibc_channel: Option<IbcChannel>,
}

} // verus!
