//! What a merchant enters to add a product.

use crate::decimal::{decimal_from_text, Decimal};
use crate::msg::contract::warehouse::NewProduct;
use crate::text::{parse_number_u32, spec_parse_u32};
use vstd::prelude::*;

verus! {

/// The fields of the form for a new product, as far as they are filled in.
#[derive(Clone, Debug, PartialEq, Eq)]
pub struct AddProduct {
    pub name: Option<String>,
    pub price: Option<String>,
    pub stock: Option<String>,
}

impl AddProduct {
    /// Whether the form can be sent: every field is filled in, the price
    /// spells a decimal and the stock a number of 32 bits.
    pub open spec fn is_complete(self) -> bool {
        &&& self.name is Some
        &&& self.price matches Some(p) && decimal_from_text(p@) is Some
        &&& self.stock matches Some(s) && spec_parse_u32(s@) is Some
    }

    /// The product that the form describes, once it can be sent.
    pub fn get_product(&self) -> (r: Option<NewProduct>)
        ensures
            match r {
                Some(p) => {
                    &&& self.is_complete()
                    &&& Some(p.name) == self.name
                    &&& Some(p.price@) == decimal_from_text(self.price->Some_0@)
                    &&& Some(p.stock) == spec_parse_u32(self.stock->Some_0@)
                },
                None => !self.is_complete(),
            },
    {
        let name = match &self.name {
            Some(name) => Some(name.clone()),
            None => None,
        };
        let price = match &self.price {
            Some(text) => Decimal::parse(text.as_str()),
            None => None,
        };
        let stock = match &self.stock {
            Some(text) => parse_number_u32(text.as_str()),
            None => None,
        };
        product_of(name, price, stock)
    }
}

/// The product with the given name, price and stock, where all three are
/// there.
pub fn product_of(name: Option<String>, price: Option<Decimal>, stock: Option<u32>) -> (r: Option<
    NewProduct,
>)
    ensures
        r == (match (name, price, stock) {
            (Some(name), Some(price), Some(stock)) => Some(NewProduct { name, price, stock }),
            _ => None,
        }),
{
    match (name, price, stock) {
        (Some(name), Some(price), Some(stock)) => Some(NewProduct { name, price, stock }),
        _ => None,
    }
}

} // verus!
