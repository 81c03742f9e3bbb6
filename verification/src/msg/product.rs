//! Products of the warehouse's catalogue.

use crate::decimal::Decimal;
use vstd::prelude::*;

verus! {

pub type ProductId = u32;

/// A product as the warehouse reports it.
#[derive(Clone, Debug, PartialEq, Eq)]
pub struct Product {
    pub id: ProductId,
    pub name: String,
    /// The highest price of one item; a group's discount lowers it.
    pub price: Decimal,
    pub stock: u32,
}

} // verus!
