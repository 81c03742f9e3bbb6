//! What holds of the warehouse whatever is asked of it.

use crate::decimal::{atomics_limit, ceil_units, fractional};
use crate::error::Error;
use crate::msg::contract::payment::Refund;
use crate::msg::contract::warehouse::{GroupId, NewProduct};
use crate::msg::product::ProductId;
use crate::msg::purchase::{Purchase, PurchaseId};
use crate::warehouse::group::{
    group_refunds, lemma_close_keeps_wf, lemma_join_members, lemma_leave_members,
    lemma_open_keeps_wf, lemma_ship_keeps_wf, refund_of, shipment_refund,
};
use crate::warehouse::product::{lemma_same_ids_keep_wf, new_record};
use crate::warehouse::{member_count, reserved, Membership, StoreView};
use vstd::prelude::*;

verus! {

/// Taking a purchase off the record lowers what is reserved of its product
/// by its quantity, and leaves what is reserved of other products.
pub proof fn lemma_reserved_remove(purchases: Seq<Purchase>, i: int, product_id: ProductId)
    requires
        0 <= i < purchases.len(),
    ensures
        reserved(purchases, product_id) == reserved(purchases.remove(i), product_id) + (if purchases[i].product_id
            == product_id {
            purchases[i].quantity as nat
        } else {
            0
        }),
    decreases purchases.len(),
{
    if i == purchases.len() - 1 {
        assert(purchases.remove(i) =~= purchases.drop_last());
    } else {
        assert(purchases.remove(i).drop_last() =~= purchases.drop_last().remove(i));
        assert(purchases.remove(i).last() == purchases.last());
        lemma_reserved_remove(purchases.drop_last(), i, product_id);
    }
}

/// Nothing is held of a product of which no purchase was made.
pub proof fn lemma_reserved_none(purchases: Seq<Purchase>, product_id: ProductId)
    requires
        forall|k: int| 0 <= k < purchases.len() ==> (#[trigger] purchases[k]).product_id != product_id,
    ensures
        reserved(purchases, product_id) == 0,
    decreases purchases.len(),
{
    if purchases.len() > 0 {
        assert(purchases.last() == purchases[purchases.len() - 1]);
        assert forall|k: int| 0 <= k < purchases.drop_last().len() implies (
        #[trigger] purchases.drop_last()[k]).product_id != product_id by {
            assert(purchases.drop_last()[k] == purchases[k]);
        }
        lemma_reserved_none(purchases.drop_last(), product_id);
    }
}

/// A product that has just been added is whole: nothing is held of it, so
/// that its stock is all there is of it. Of the other products there is as
/// much as before.
pub proof fn law_new_product_is_whole(
    s: StoreView,
    owner: String,
    product: NewProduct,
    other: ProductId,
)
    requires
        s.tables_wf(),
        s.next_product_id() <= u32::MAX,
        s.has_product(other),
    ensures
        ({
            let id = s.next_product_id() as u32;
            let after = StoreView { products: s.products.push(new_record(id, owner, product)), ..s };
            &&& after.has_product(id)
            &&& after.units(id) == product.stock
            &&& after.has_product(other)
            &&& after.units(other) == s.units(other)
        }),
{
    let id = s.next_product_id() as u32;
    let after = StoreView { products: s.products.push(new_record(id, owner, product)), ..s };
    let n = s.products.len() as int;
    assert(after.ordered());
    assert(after.is_product_at(id, n));
    after.lemma_product_place(id, n);
    let oi = s.product_index(other);
    assert(s.is_product_at(other, oi));
    assert(after.is_product_at(other, oi));
    after.lemma_product_place(other, oi);
    assert forall|k: int| 0 <= k < s.purchases.len() implies (#[trigger] s.purchases[k]).product_id
        != id by {
        let pid = s.purchases[k].product_id;
        let i = s.product_index(pid);
        assert(s.is_product_at(pid, i));
        if n > 0 && i < n - 1 {
            assert(s.products[i].id < s.products[n - 1].id);
        }
    }
    lemma_reserved_none(s.purchases, id);
}

/// A change of the catalogue in place keeps each product findable under its
/// id.
pub proof fn lemma_product_stays(before: StoreView, after: StoreView, id: ProductId)
    requires
        before.ordered(),
        after.ordered(),
        before.has_product(id),
        after.products.len() == before.products.len(),
        forall|i: int|
            0 <= i < before.products.len() ==> (#[trigger] after.products[i]).id
                == before.products[i].id,
    ensures
        after.has_product(id),
        after.product_index(id) == before.product_index(id),
{
    let i = before.product_index(id);
    assert(before.is_product_at(id, i));
    assert(after.is_product_at(id, i));
    after.lemma_product_place(id, i);
}

/// A purchase takes out of stock exactly what it holds: of every product,
/// the items in stock and the items held by purchases together are as many
/// after the purchase as before.
pub proof fn law_purchase_conserves_stock(
    s: StoreView,
    spender: String,
    product_id: ProductId,
    quantity: u32,
    fees: u128,
    other: ProductId,
)
    requires
        s.tables_wf(),
        s.purchase_error(product_id, quantity, fees).is_none(),
        s.has_product(other),
    ensures
        s.purchased(spender, product_id, quantity).has_product(other),
        s.purchased(spender, product_id, quantity).units(other) == s.units(other),
{
    let attached = s.attach(product_id);
    let pi = s.product_index(product_id);
    assert(s.is_product_at(product_id, pi));
    if s.product(product_id).pending_group.is_none() {
        lemma_open_keeps_wf(s, product_id);
    } else {
        let g = s.product(product_id).pending_group.unwrap();
        assert(s.products[pi].pending_group.is_some());
        let gi = s.group_index(g);
        assert(s.is_group_at(g, gi));
        lemma_same_ids_keep_wf(s, attached);
    }
    let joined = s.joined(s.next_purchase_id, product_id);
    assert(joined.products == attached.products);
    assert(joined.ordered());
    lemma_product_stays(s, joined, product_id);
    lemma_product_stays(s, joined, other);
    let restocked = joined.with_stock(
        product_id,
        (s.product(product_id).stock - quantity) as u32,
    );
    assert(restocked.ordered());
    lemma_product_stays(joined, restocked, other);
    let after = s.purchased(spender, product_id, quantity);
    assert(after.products == restocked.products);
    assert(after.ordered());
    lemma_product_stays(restocked, after, other);
    let oi = s.product_index(other);
    assert(s.is_product_at(other, oi));
    if oi == pi {
        assert(other == product_id);
    } else {
        assert(other != product_id);
    }
    assert(after.purchases.drop_last() =~= s.purchases);
}

/// The removal of a purchase puts back into stock exactly what the purchase
/// held: of every product, the items in stock and the items held by
/// purchases together are as many after the removal as before.
pub proof fn law_removal_conserves_stock(s: StoreView, id: PurchaseId, now: u64, other: ProductId)
    requires
        s.tables_wf(),
        s.removal_error(id, now).is_none(),
        s.has_product(other),
    ensures
        s.removed(id).has_product(other),
        s.removed(id).units(other) == s.units(other),
{
    let p = s.purchase(id);
    let i = s.purchase_index(id);
    assert(s.is_purchase_at(id, i));
    let pi = s.product_index(p.product_id);
    assert(s.is_product_at(p.product_id, pi));
    assert(s.products[pi].pending_group.is_some());
    let gi = s.group_index(p.group_id);
    assert(s.is_group_at(p.group_id, gi));
    let detached = s.detach(p.group_id, p.product_id);
    if s.group(p.group_id).count == 1 {
        lemma_close_keeps_wf(s, p.group_id, p.product_id);
    } else {
        lemma_same_ids_keep_wf(s, detached);
    }
    let left = s.left(id, p.group_id, p.product_id);
    assert(left.products == detached.products);
    assert(left.ordered());
    lemma_product_stays(s, left, p.product_id);
    lemma_product_stays(s, left, other);
    let restocked = left.with_stock(
        p.product_id,
        (s.product(p.product_id).stock + p.quantity) as u32,
    );
    assert(restocked.ordered());
    lemma_product_stays(left, restocked, other);
    let after = s.removed(id);
    assert(after.products == restocked.products);
    assert(after.ordered());
    lemma_product_stays(restocked, after, other);
    let oi = s.product_index(other);
    assert(s.is_product_at(other, oi));
    if oi == pi {
        assert(other == p.product_id);
    } else {
        assert(other != p.product_id);
    }
    lemma_reserved_remove(s.purchases, i, other);
}

/// A shipment moves no stock: of every product, the items in stock and the
/// items held by purchases are what they were.
pub proof fn law_shipment_conserves_stock(s: StoreView, group_id: GroupId, other: ProductId)
    requires
        s.tables_wf(),
        s.has_group(group_id),
        !s.group(group_id).has_shipped,
        s.has_product(other),
    ensures
        s.shipped(group_id).has_product(other),
        s.shipped(group_id).units(other) == s.units(other),
{
    lemma_ship_keeps_wf(s, group_id);
    let pid = s.group(group_id).product_id;
    let pi = s.product_index(pid);
    assert(s.is_product_at(pid, pi));
    lemma_product_stays(s, s.shipped(group_id), other);
}

/// At most one group of a product has not shipped.
pub proof fn law_one_pending_group(s: StoreView, a: int, b: int)
    requires
        s.tables_wf(),
        0 <= a < s.groups.len(),
        0 <= b < s.groups.len(),
        !s.groups[a].has_shipped,
        !s.groups[b].has_shipped,
        s.groups[a].product_id == s.groups[b].product_id,
    ensures
        a == b,
{
    assert(s.is_group_at(s.groups[a].id, a));
    assert(s.is_group_at(s.groups[a].id, b));
    s.lemma_group_place(s.groups[a].id, a);
    s.lemma_group_place(s.groups[a].id, b);
}

/// Once a group has shipped, the next purchase of its product opens a group
/// under an id that no group has had, the shipped one included.
pub proof fn law_new_group_after_shipment(s: StoreView, group_id: GroupId)
    requires
        s.tables_wf(),
        s.has_group(group_id),
        !s.group(group_id).has_shipped,
    ensures
        s.shipped(group_id).has_product(s.group(group_id).product_id),
        s.shipped(group_id).product(s.group(group_id).product_id).pending_group.is_none(),
        s.shipped(group_id).attach_group(s.group(group_id).product_id) == s.next_group_id,
        s.next_group_id != group_id,
        !s.shipped(group_id).has_group(s.next_group_id),
{
    lemma_ship_keeps_wf(s, group_id);
    let after = s.shipped(group_id);
    let pid = s.group(group_id).product_id;
    let pi = s.product_index(pid);
    assert(s.is_product_at(pid, pi));
    lemma_product_stays(s, after, pid);
    let gi = s.group_index(group_id);
    assert(s.is_group_at(group_id, gi));
    if after.has_group(s.next_group_id) {
        let k = after.group_index(s.next_group_id);
        assert(after.is_group_at(s.next_group_id, k));
        assert(s.groups[k].id < s.next_group_id);
    }
}

/// A group ships once: whoever asks again, and whenever, is refused because
/// the group has shipped.
pub proof fn law_shipment_is_final(s: StoreView, group_id: GroupId, sender: Seq<char>, now: u64)
    requires
        s.tables_wf(),
        s.has_group(group_id),
        !s.group(group_id).has_shipped,
    ensures
        s.shipped(group_id).shipment_error(sender, group_id, now) == Some(
            Error::GroupAlreadyShipped,
        ),
{
    lemma_ship_keeps_wf(s, group_id);
    let after = s.shipped(group_id);
    let gi = s.group_index(group_id);
    assert(s.is_group_at(group_id, gi));
    assert(after.is_group_at(group_id, gi));
    after.lemma_group_place(group_id, gi);
}

/// A purchase whose group has shipped cannot be removed.
pub proof fn law_no_removal_after_shipment(s: StoreView, id: PurchaseId, now: u64)
    requires
        s.tables_wf(),
        s.has_purchase(id),
        s.has_shipped(s.purchase(id).group_id),
    ensures
        s.removal_error(id, now) == Some(Error::GroupAlreadyShipped),
{
    let i = s.purchase_index(id);
    assert(s.is_purchase_at(id, i));
    assert(s.has_product(s.purchases[i].product_id));
}

/// The items that the purchases attached to a group hold.
pub open spec fn group_quantity(s: StoreView, members: Seq<Membership>, group_id: GroupId) -> nat
    decreases members.len(),
{
    if members.len() == 0 {
        0
    } else {
        group_quantity(s, members.drop_last(), group_id) + (if members.last().group_id
            == group_id {
            s.purchase(members.last().purchase_id).quantity as nat
        } else {
            0
        })
    }
}

/// The sum of the amounts of some refunds, in whole coins.
pub open spec fn total_refunded(refunds: Seq<Refund>) -> nat
    decreases refunds.len(),
{
    if refunds.len() == 0 {
        0
    } else {
        total_refunded(refunds.drop_last()) + refunds.last().amount as nat
    }
}

/// Rounding up to whole coins adds less than one coin.
pub proof fn lemma_ceil_units(atomics: nat)
    ensures
        atomics <= ceil_units(atomics) * fractional() <= atomics + (fractional() - 1),
{
    if atomics > 0 {
        let a = (atomics - 1) as int;
        let f = fractional() as int;
        vstd::arithmetic::div_mod::lemma_fundamental_div_mod(a, f);
        vstd::arithmetic::div_mod::lemma_mod_bound(a, f);
        assert((1 + a / f) * f == f + f * (a / f)) by (nonlinear_arith);
    }
}

/// No purchase is refunded more than the fees that were accepted for it:
/// neither the refund for its removal, the price of its items rounded down
/// to whole coins, nor the refund at shipment, the discount on its items
/// rounded up to whole coins. The payment ledger, which pays without asking,
/// thus never pays out more than it took in.
pub proof fn law_refund_within_fees(price: nat, cost: nat, quantity: u32, fees: u128)
    requires
        fees * fractional() >= price * quantity as nat,
        cost <= price,
    ensures
        (price * quantity as nat) / fractional() <= fees,
        ceil_units((quantity as nat * price - quantity as nat * cost) as nat) <= fees,
{
    let f = fractional() as int;
    let q = quantity as nat;
    let paid = (fees * fractional()) as int;
    assert((fees * f) / f == fees) by (nonlinear_arith)
        requires
            f > 0,
    ;
    vstd::arithmetic::div_mod::lemma_div_is_ordered((price * q) as int, paid, f);
    assert(q * cost <= q * price) by (nonlinear_arith)
        requires
            cost <= price,
    ;
    assert(q * price == price * q) by (nonlinear_arith);
    let owed = (q * price - q * cost) as nat;
    if owed > 0 {
        assert(fees >= 1) by (nonlinear_arith)
            requires
                fees * f >= owed,
                owed > 0,
                f > 0,
        ;
        vstd::arithmetic::div_mod::lemma_div_is_ordered((owed - 1) as int, paid - 1, f);
        assert((fees * f - 1) / f == fees - 1) by (nonlinear_arith)
            requires
                f > 1,
                fees >= 1,
        ;
    }
}

/// A shipment refunds, in all, what the group's purchases reserved at the
/// price less what their items cost at the discounted price; each refund is
/// rounded up to whole coins, which adds less than one coin for each
/// purchase of the group. There is one refund for each purchase attached.
pub proof fn law_shipment_refunds_the_discount(
    s: StoreView,
    members: Seq<Membership>,
    group_id: GroupId,
    price: nat,
    cost: nat,
)
    requires
        cost <= price,
        group_refunds(s, members, group_id, price, cost) is Ok,
    ensures
        ({
            let refunds = group_refunds(s, members, group_id, price, cost)->Ok_0;
            let owed = group_quantity(s, members, group_id) * price - group_quantity(
                s,
                members,
                group_id,
            ) * cost;
            &&& refunds.len() == member_count(members, group_id)
            &&& 0 <= owed <= total_refunded(refunds) * fractional()
            &&& total_refunded(refunds) * fractional() <= owed + member_count(members, group_id)
                * (fractional() - 1)
        }),
    decreases members.len(),
{
    let f = fractional();
    if members.len() == 0 {
        assert(0 * price - 0 * cost == 0) by (nonlinear_arith);
        assert(0 * f == 0 && 0 * (f - 1) == 0) by (nonlinear_arith);
    } else {
        let rest = members.drop_last();
        law_shipment_refunds_the_discount(s, rest, group_id, price, cost);
        let before = group_refunds(s, rest, group_id, price, cost)->Ok_0;
        if members.last().group_id == group_id {
            let last = s.purchase(members.last().purchase_id);
            let refund = refund_of(last, price, cost)->Ok_0;
            let refunds = before.push(refund);
            assert(group_refunds(s, members, group_id, price, cost) == Ok::<Seq<Refund>, Error>(
                refunds,
            ));
            assert(refunds.drop_last() =~= before);
            assert(refunds.last() == refund);
            let q = last.quantity as nat;
            let rq = group_quantity(s, rest, group_id);
            let n = member_count(rest, group_id);
            let t = total_refunded(before);
            let amount = refund.amount as nat;
            assert(total_refunded(refunds) == t + amount);
            assert(group_quantity(s, members, group_id) == rq + q);
            assert(member_count(members, group_id) == n + 1);
            lemma_ceil_units(shipment_refund(last, price, cost));
            assert(amount == ceil_units(shipment_refund(last, price, cost)));
            assert(q * cost <= q * price) by (nonlinear_arith)
                requires
                    cost <= price,
            ;
            assert(shipment_refund(last, price, cost) == q * price - q * cost);
            assert((rq + q) * price - (rq + q) * cost == (rq * price - rq * cost) + (q * price - q
                * cost)) by (nonlinear_arith);
            assert((t + amount) * f == t * f + amount * f) by (nonlinear_arith);
            assert((n + 1) * (f - 1) == n * (f - 1) + (f - 1)) by (nonlinear_arith);
        }
    }
}

/// A purchase that is not attached has a place at which it can be attached.
pub proof fn lemma_place_exists(s: StoreView, id: PurchaseId)
    requires
        s.members_wf(),
        !s.is_member(id),
    ensures
        s.is_member_place(id, s.member_place(id)),
    decreases s.members.len(),
{
    if s.members.len() == 0 {
        assert(s.is_member_place(id, 0));
    } else {
        let n = s.members.len() - 1;
        let last = s.members[n];
        assert(!s.is_member_at(id, n));
        if last.purchase_id < id {
            assert forall|k: int| 0 <= k < n + 1 implies (#[trigger] s.members[k]).purchase_id
                < id by {
                if k < n {
                    assert(s.members[k].purchase_id < s.members[n].purchase_id);
                }
            }
            assert(s.is_member_place(id, n + 1));
        } else {
            let rest = StoreView { members: s.members.drop_last(), groups: Seq::empty(), ..s };
            assert forall|i: int, j: int| 0 <= i < j < rest.members.len() implies rest.members[i].purchase_id
                < rest.members[j].purchase_id by {
                assert(s.members[i].purchase_id < s.members[j].purchase_id);
            }
            assert forall|i: int| 0 <= i < rest.members.len() implies (
            #[trigger] rest.members[i]).group_id < rest.next_group_id by {
                assert(rest.members[i] == s.members[i]);
            }
            if rest.is_member(id) {
                let k = rest.member_index(id);
                assert(rest.is_member_at(id, k));
                assert(s.is_member_at(id, k));
            }
            lemma_place_exists(rest, id);
            let p = rest.member_place(id);
            assert forall|k: int| 0 <= k < p implies (#[trigger] s.members[k]).purchase_id
                < id by {
                assert(rest.members[k].purchase_id < id);
            }
            assert forall|k: int| p <= k < s.members.len() implies (
            #[trigger] s.members[k]).purchase_id > id by {
                if k < n {
                    assert(rest.members[k].purchase_id > id);
                }
            }
            assert(s.is_member_place(id, p));
        }
    }
}

/// A purchase is attached, once it is made, to the group that its record
/// names, and every group still counts the purchases attached to it.
pub proof fn law_purchase_is_attached(
    s: StoreView,
    spender: String,
    product_id: ProductId,
    quantity: u32,
    fees: u128,
)
    requires
        s.tables_wf(),
        s.purchase_error(product_id, quantity, fees).is_none(),
    ensures
        s.purchased(spender, product_id, quantity).members_wf(),
        s.purchased(spender, product_id, quantity).is_member(s.next_purchase_id),
        s.purchased(spender, product_id, quantity).member_group(s.next_purchase_id)
            == s.new_purchase(spender, product_id, quantity).group_id,
{
    let id = s.next_purchase_id;
    lemma_place_exists(s, id);
    lemma_join_members(s, id, product_id);
    let joined = s.joined(id, product_id);
    let after = s.purchased(spender, product_id, quantity);
    assert(after.members == joined.members);
    assert(after.groups == joined.groups);
    let p = joined.member_index(id);
    assert(joined.is_member_at(id, p));
    assert(after.is_member_at(id, p));
    after.lemma_member_at(id, p);
    joined.lemma_member_at(id, p);
}

/// A purchase is attached no more once it is removed, and every group
/// still counts the purchases attached to it.
pub proof fn law_removal_detaches(s: StoreView, id: PurchaseId, now: u64)
    requires
        s.tables_wf(),
        s.removal_error(id, now).is_none(),
    ensures
        s.removed(id).members_wf(),
        !s.removed(id).is_member(id),
{
    let p = s.purchase(id);
    lemma_leave_members(s, id, p.group_id, p.product_id);
    let left = s.left(id, p.group_id, p.product_id);
    let after = s.removed(id);
    assert(after.members == left.members);
    assert(after.groups == left.groups);
    if after.is_member(id) {
        let k = after.member_index(id);
        assert(after.is_member_at(id, k));
        assert(left.is_member_at(id, k));
    }
}

/// After a shipment the next purchase of the product is accepted, where
/// stock and fees suffice and the counters have room, and it opens a group:
/// under the next id, which is not the shipped group's and which no group
/// has, with this one purchase, not shipped and pending for the product. The
/// shipped group stays shipped and counts what it counted.
pub proof fn law_purchase_after_shipment_opens_group(
    s: StoreView,
    group_id: GroupId,
    spender: String,
    quantity: u32,
    fees: u128,
)
    requires
        s.wf(),
        s.has_group(group_id),
        !s.group(group_id).has_shipped,
        s.product(s.group(group_id).product_id).stock >= quantity,
        fees * fractional() >= s.product(s.group(group_id).product_id).price@ * quantity,
        s.product(s.group(group_id).product_id).price@ * quantity < atomics_limit(),
        s.next_purchase_id < u64::MAX,
        s.next_group_id < u64::MAX,
    ensures
        ({
            let p = s.group(group_id).product_id;
            let t = s.shipped(group_id);
            let after = t.purchased(spender, p, quantity);
            let g2 = t.new_purchase(spender, p, quantity).group_id;
            &&& t.purchase_error(p, quantity, fees).is_none()
            &&& g2 == s.next_group_id
            &&& g2 != group_id
            &&& !s.has_group(g2)
            &&& after.has_group(g2)
            &&& !after.group(g2).has_shipped
            &&& after.group(g2).count == 1
            &&& after.has_product(p)
            &&& after.product(p).pending_group == Some(g2)
            &&& after.has_group(group_id)
            &&& after.group(group_id).has_shipped
            &&& after.group(group_id).count == s.group(group_id).count
        }),
{
    let p = s.group(group_id).product_id;
    let t = s.shipped(group_id);
    lemma_ship_keeps_wf(s, group_id);
    let gi = s.group_index(group_id);
    assert(s.is_group_at(group_id, gi));
    let pi = s.product_index(p);
    assert(s.is_product_at(p, pi));
    lemma_product_stays(s, t, p);
    assert(t.is_product_at(p, pi));
    crate::warehouse::links::lemma_next_id_is_free(s);
    if t.is_member(s.next_purchase_id) {
        let k = t.member_index(s.next_purchase_id);
        assert(t.is_member_at(s.next_purchase_id, k));
        assert(s.is_member_at(s.next_purchase_id, k));
    }
    if s.has_group(s.next_group_id) {
        let k = s.group_index(s.next_group_id);
        assert(s.is_group_at(s.next_group_id, k));
    }
    assert(t.purchase_error(p, quantity, fees).is_none());
    lemma_open_keeps_wf(t, p);
    let joined = t.joined(t.next_purchase_id, p);
    assert(joined.products == t.attach(p).products);
    assert(joined.ordered());
    lemma_product_stays(t, joined, p);
    let restocked = joined.with_stock(p, (t.product(p).stock - quantity) as u32);
    assert(restocked.ordered());
    lemma_product_stays(joined, restocked, p);
    let after = t.purchased(spender, p, quantity);
    assert(after.products == restocked.products);
    assert(after.groups == t.attach(p).groups);
    assert(after.ordered());
    lemma_product_stays(restocked, after, p);
    let n = t.groups.len() as int;
    assert(after.is_group_at(s.next_group_id, n));
    after.lemma_group_place(s.next_group_id, n);
    assert(after.is_group_at(group_id, gi));
    after.lemma_group_place(group_id, gi);
}

/// The refund for the removal of a purchase is the price of its items and
/// has nothing to do with the size of its group: it is the same after
/// another purchase has joined.
pub proof fn law_removal_refund_ignores_group(
    s: StoreView,
    spender: String,
    product_id: ProductId,
    quantity: u32,
    fees: u128,
    id: PurchaseId,
)
    requires
        s.tables_wf(),
        s.purchase_error(product_id, quantity, fees).is_none(),
        s.has_purchase(id),
    ensures
        s.purchased(spender, product_id, quantity).has_purchase(id),
        s.purchased(spender, product_id, quantity).removal_refund(id) == s.removal_refund(id),
        s.removal_refund(id) == s.product(s.purchase(id).product_id).price@ * s.purchase(
            id,
        ).quantity as nat,
{
    let i = s.purchase_index(id);
    assert(s.is_purchase_at(id, i));
    let other = s.purchases[i].product_id;
    assert(s.has_product(other));
    let attached = s.attach(product_id);
    let pi = s.product_index(product_id);
    assert(s.is_product_at(product_id, pi));
    if s.product(product_id).pending_group.is_none() {
        lemma_open_keeps_wf(s, product_id);
    } else {
        let g = s.product(product_id).pending_group.unwrap();
        assert(s.products[pi].pending_group.is_some());
        let gi = s.group_index(g);
        assert(s.is_group_at(g, gi));
        lemma_same_ids_keep_wf(s, attached);
    }
    let joined = s.joined(s.next_purchase_id, product_id);
    assert(joined.products == attached.products);
    assert(joined.ordered());
    lemma_product_stays(s, joined, product_id);
    lemma_product_stays(s, joined, other);
    let restocked = joined.with_stock(
        product_id,
        (s.product(product_id).stock - quantity) as u32,
    );
    assert(restocked.ordered());
    lemma_product_stays(joined, restocked, other);
    let after = s.purchased(spender, product_id, quantity);
    assert(after.products == restocked.products);
    assert(after.ordered());
    lemma_product_stays(restocked, after, other);
    assert(after.is_purchase_at(id, i));
    after.lemma_purchase_place(id, i);
}

/// A purchase that is not attached joins the group that is pending for the
/// product, whoever the buyer is, unless the group's count is at its limit:
/// no group is opened and no group id given out, the group counts one more,
/// and the purchase is attached to it.
pub proof fn law_purchase_joins_pending_group(
    s: StoreView,
    purchase_id: PurchaseId,
    product_id: ProductId,
    group_id: GroupId,
)
    requires
        s.tables_wf(),
        s.has_product(product_id),
        s.product(product_id).pending_group == Some(group_id),
        !s.is_member(purchase_id),
        s.group(group_id).count < u32::MAX,
    ensures
        ({
            let after = s.joined(purchase_id, product_id);
            &&& s.attach_error(purchase_id, product_id).is_none()
            &&& s.attach_group(product_id) == group_id
            &&& after.next_group_id == s.next_group_id
            &&& after.groups.len() == s.groups.len()
            &&& after.has_group(group_id)
            &&& after.group(group_id).count == s.group(group_id).count + 1
            &&& !after.group(group_id).has_shipped
            &&& after.is_member(purchase_id)
            &&& after.member_group(purchase_id) == group_id
        }),
{
    let after = s.joined(purchase_id, product_id);
    let pi = s.product_index(product_id);
    assert(s.is_product_at(product_id, pi));
    assert(s.products[pi].pending_group.is_some());
    let gi = s.group_index(group_id);
    assert(s.is_group_at(group_id, gi));
    lemma_place_exists(s, purchase_id);
    lemma_join_members(s, purchase_id, product_id);
    assert(after.groups == s.attach(product_id).groups);
    assert(after.is_group_at(group_id, gi));
    lemma_same_ids_keep_wf(s, after);
    after.lemma_group_place(group_id, gi);
}

/// The removal of a purchase on record whose group has not shipped is
/// accepted wherever the payment channel is connected and the numbers have
/// room: the stock that comes back, the refund and the packet's timeout.
/// The refund is then the one that `remove_purchase` states: the price
/// times the quantity, rounded down to whole coins, to the spender.
pub proof fn law_removal_is_owed(s: StoreView, id: PurchaseId, now: u64)
    requires
        s.wf(),
        s.has_purchase(id),
        !s.has_shipped(s.purchase(id).group_id),
        s.payment_channel.is_some(),
        s.product(s.purchase(id).product_id).stock + s.purchase(id).quantity <= u32::MAX,
        s.removal_refund(id) < atomics_limit(),
        s.removal_refund(id) / fractional() <= u128::MAX,
        crate::ibc::spec_packet_timeout(now) <= u64::MAX,
    ensures
        s.removal_error(id, now).is_none(),
{
    let k = s.purchase_index(id);
    assert(s.is_purchase_at(id, k));
    let p = s.purchases[k];
    assert(s.has_product(p.product_id));
    assert(s.is_attached(k));
    let (mi, gi) = choose|mi: int, gi: int| s.attached_at(k, mi, gi);
    assert(s.attached_at(k, mi, gi));
    assert(s.is_member_at(id, mi));
    s.lemma_member_at(id, mi);
    assert(s.is_group_at(p.group_id, gi));
    s.lemma_group_place(p.group_id, gi);
    assert(!s.groups[gi].has_shipped);
}

} // verus!
