//! Messages of the warehouse, and the discount that a group earns.

use crate::decimal::{atomics_limit, fractional, lemma_decimal_bound, Decimal};
use crate::error::Error;
use crate::ibc::IbcChannel;
use crate::msg::product::{Product, ProductId};
use crate::msg::purchase::{Purchase, PurchaseId};
use vstd::arithmetic::div_mod::{lemma_div_is_ordered, lemma_div_multiples_vanish_quotient};
use vstd::prelude::*;

verus! {

pub type GroupId = u64;

/// What a user can ask of the warehouse.
#[derive(Clone, Debug, PartialEq, Eq)]
pub enum ExecuteMsg {
    /// Add a product to the catalogue; the sender owns it.
    AddProduct { product: NewProduct },
    /// Ship a group: fix its price and refund the discount.
    ShipGroup { group_id: GroupId },
}

/// What the other ledgers can ask of the warehouse by packet.
#[derive(Clone, Debug, PartialEq, Eq)]
pub enum IbcExecuteMsg {
    /// Reserve `quantity` items of a product. `owner` is the address on the
    /// receipt ledger, `spender` the paying address on the payment ledger,
    /// `fees` the amount that was paid.
    Purchase { owner: String, spender: String, product_id: ProductId, quantity: u32, fees: u128 },
    /// Undo a purchase whose receipt was burnt.
    RemovePurchase { id: PurchaseId },
}

/// A product before the warehouse has given it an id.
#[derive(Clone, Debug, PartialEq, Eq)]
pub struct NewProduct {
    pub name: String,
    pub price: Decimal,
    pub stock: u32,
}

/// The queries of the warehouse.
#[derive(Clone, Debug, PartialEq, Eq)]
pub enum QueryMsg {
    /// The products, of one owner or of all, in ascending order of id.
    ListProducts { owner: Option<String>, limit: Option<u32>, start_after: Option<ProductId> },
    /// The groups, of one owner or of all, in ascending order of id.
    ListGroups { owner: Option<String>, limit: Option<u32>, start_after: Option<GroupId> },
    /// The purchases with the given ids.
    GetPurchases { ids: Vec<PurchaseId> },
    /// The products with the given ids.
    GetProducts { ids: Vec<ProductId> },
    /// The groups with the given ids.
    GetGroups { ids: Vec<GroupId> },
    /// General information about the ledger.
    Info {  },
}

/// The answer to `QueryMsg::Info`.
#[derive(Clone, Debug, PartialEq, Eq)]
pub struct InfoResp {
    /// The channel to the payment ledger, once connected.
    pub ibc_payment_channel: Option<IbcChannel>,
}

/// A purchase request that the warehouse refused, with the reason.
#[derive(Clone, Debug, PartialEq, Eq)]
pub struct PurchaseError {
    pub owner: String,
    pub spender: String,
    pub product_id: ProductId,
    pub quantity: u32,
    pub fees: u128,
    pub reason: Error,
}

/// A group as the warehouse reports it: its size, its product and whether it
/// has shipped.
#[derive(Clone, Debug, PartialEq, Eq)]
pub struct GroupInfo {
    pub id: GroupId,
    pub count: u32,
    pub product: Product,
    pub has_shipped: bool,
}

/// The discount that a group of `count` purchases earns, in percent and in
/// atomic units: `(1 - 1/(1 + count)) * 100`, the quotient rounded down.
pub open spec fn spec_discount_perc(count: nat) -> nat {
    (100 * (fractional() - fractional() / (1 + count))) as nat
}

/// The price of one item in a group of `count` purchases, in atomic units:
/// the price times `1 - discount/100`, which is `1/(1 + count)`, each
/// quotient rounded down.
pub open spec fn spec_cost_per_item(price: nat, count: nat) -> nat {
    (price * (fractional() / (1 + count))) / fractional()
}

/// The undiscounted share `1/(1 + count)` never exceeds one, and the
/// discount is a hundred times what remains of one after it. While `count`
/// is below `10^18` the undiscounted share is positive, so the discount
/// stays below a hundred percent.
pub proof fn lemma_discount_range(count: nat)
    ensures
        fractional() / (1 + count) <= fractional(),
        spec_discount_perc(count) + 100 * (fractional() / (1 + count)) == 100 * fractional(),
        count < fractional() ==> 1 <= fractional() / (1 + count),
        count < fractional() ==> spec_discount_perc(count) < 100 * fractional(),
{
    let f = fractional() as int;
    let d = (1 + count) as int;
    lemma_div_is_ordered(0, f, d);
    vstd::arithmetic::div_mod::lemma_div_is_ordered_by_denominator(f, 1, d);
    assert(f / 1 == f);
    if count < fractional() {
        lemma_div_is_ordered(d, f, d);
        assert(d / d == 1) by (nonlinear_arith)
            requires
                d > 0,
        ;
    }
}

/// The discounted price never exceeds the price.
pub proof fn lemma_cost_at_most_price(price: nat, count: nat)
    ensures
        spec_cost_per_item(price, count) <= price,
{
    lemma_discount_range(count);
    let f = fractional();
    let k = fractional() / (1 + count);
    assert(price * k <= price * f) by (nonlinear_arith)
        requires
            k <= f,
    ;
    lemma_div_is_ordered((price * k) as int, (price * f) as int, f as int);
    assert((price * f) / f == price) by (nonlinear_arith)
        requires
            f > 0,
    ;
}

/// A group without purchases earns no discount: an item costs its price.
/// The discount grows with the group and stays below a hundred percent,
/// however large the group.
pub proof fn law_discount_boundaries(price: nat, small: nat, large: nat)
    requires
        small <= large,
    ensures
        spec_discount_perc(0) == 0,
        spec_cost_per_item(price, 0) == price,
        spec_discount_perc(small) <= spec_discount_perc(large),
        spec_discount_perc(large) <= 100 * fractional(),
        large < fractional() ==> spec_discount_perc(large) < 100 * fractional(),
        spec_cost_per_item(price, large) <= price,
{
    let f = fractional() as int;
    assert(f / 1 == f);
    assert((price * fractional()) / fractional() == price) by (nonlinear_arith)
        requires
            fractional() > 0,
    ;
    lemma_discount_range(small);
    lemma_discount_range(large);
    vstd::arithmetic::div_mod::lemma_div_is_ordered_by_denominator(
        f,
        (1 + small) as int,
        (1 + large) as int,
    );
    lemma_cost_at_most_price(price, large);
}

impl GroupInfo {
    /// The discount that the group has earned, in percent.
    pub fn discount_perc(&self) -> (r: Decimal)
        ensures
            r@ == spec_discount_perc(self.count as nat),
    {
        let one = Decimal::one();
        let count = Decimal::from_units(self.count as u128);
        proof {
            lemma_discount_range(self.count as nat);
            assert(fractional() + self.count as nat * fractional() < atomics_limit())
                by (nonlinear_arith)
                requires
                    self.count as nat <= 0xffff_ffff,
                    fractional() == 1_000_000_000_000_000_000,
                    atomics_limit() >= 0x1_0000_0000_0000_0000_0000_0000_0000_0000,
            ;
        }
        let members = one.checked_add(count).unwrap();
        proof {
            let f = fractional() as int;
            let d = (1 + self.count) as int;
            assert(members@ == f * d) by (nonlinear_arith)
                requires
                    members@ == f + (self.count as nat) * f,
                    d == 1 + self.count,
            ;
            lemma_div_multiples_vanish_quotient(f, f, d);
            assert((one@ * fractional()) / members@ == f / d);
        }
        let share = one.checked_div(members).unwrap();
        let spared = one.checked_sub(share).unwrap();
        let hundred = Decimal::percent(10_000);
        proof {
            assert(hundred@ == 100 * fractional());
            assert((spared@ * (100 * fractional())) / fractional() == 100 * spared@)
                by (nonlinear_arith)
                requires
                    fractional() > 0,
            ;
            assert(100 * spared@ < atomics_limit()) by (nonlinear_arith)
                requires
                    spared@ <= fractional(),
                    fractional() == 1_000_000_000_000_000_000,
                    atomics_limit() >= 0x1_0000_0000_0000_0000_0000_0000_0000_0000,
            ;
        }
        spared.checked_mul(hundred).unwrap()
    }

    /// The price of one item once the group's discount is taken off: the
    /// price times `1 - discount/100`.
    pub fn cost_per_item(&self) -> (r: Decimal)
        ensures
            r@ == spec_cost_per_item(self.product.price@, self.count as nat),
            r@ <= self.product.price@,
    {
        let discount = self.discount_perc();
        let hundred = Decimal::from_units(100);
        proof {
            lemma_discount_range(self.count as nat);
            let spared = (fractional() - fractional() / (1 + self.count as nat)) as nat;
            assert(discount@ == 100 * spared);
            assert((100 * spared * fractional()) / (100 * fractional()) == spared)
                by (nonlinear_arith)
                requires
                    fractional() > 0,
            ;
            assert(discount@ * fractional() == 100 * spared * fractional()) by (nonlinear_arith)
                requires
                    discount@ == 100 * spared,
            ;
            assert(hundred@ == 100 * fractional());
            assert(spared < atomics_limit()) by (nonlinear_arith)
                requires
                    spared <= fractional(),
                    fractional() == 1_000_000_000_000_000_000,
                    atomics_limit() >= 0x1_0000_0000_0000_0000_0000_0000_0000_0000,
            ;
        }
        let share = discount.checked_div(hundred).unwrap();
        let kept = Decimal::one().checked_sub(share).unwrap();
        proof {
            lemma_cost_at_most_price(self.product.price@, self.count as nat);
            lemma_decimal_bound(self.product.price);
        }
        self.product.price.checked_mul(kept).unwrap()
    }
}

/// Report that a product was added: the product with the id it was given.
#[derive(Clone, Debug, PartialEq, Eq)]
pub struct AddProductEvent {
    pub product: Product,
}

/// Report that a purchase was made.
#[derive(Clone, Debug, PartialEq, Eq)]
pub struct PurchaseEvent {
    pub purchase: Purchase,
}

} // verus!
