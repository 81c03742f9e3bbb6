//! Purchases recorded by the warehouse.

use crate::msg::contract::warehouse::GroupId;
use crate::msg::product::ProductId;
use vstd::prelude::*;

verus! {

pub type PurchaseId = u64;

/// A purchase: `quantity` items of one product, reserved for `spender` and
/// pooled in the group `group_id`.
#[derive(Clone, Debug, PartialEq, Eq)]
pub struct Purchase {
    pub id: PurchaseId,
    pub product_id: ProductId,
    pub quantity: u32,
    /// The paying address, on the payment ledger.
    pub spender: String,
    pub group_id: GroupId,
}

} // verus!
