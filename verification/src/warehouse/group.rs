//! Discount groups: the purchases of one product that are pooled until the
//! merchant ships them.

use crate::decimal::{atomics_limit, ceil_units, fractional, Decimal};
use crate::error::Error;
use crate::ibc::{packet_timeout, spec_packet_timeout};
use crate::msg::contract::payment::{IbcExecuteMsg, Refund};
use crate::msg::contract::warehouse::{spec_cost_per_item, GroupId, GroupInfo};
use crate::msg::product::ProductId;
use crate::msg::purchase::{Purchase, PurchaseId};
use crate::response::{is_refund_packet, OutMsg, Packet};
use crate::warehouse::product::lemma_same_ids_keep_wf;
use crate::warehouse::{
    member_count, GroupRecord, Membership, ProductRecord, State, StateContext, Store, StoreView,
};
use vstd::prelude::*;

verus! {

/// What a purchase is refunded when its group ships: what was reserved,
/// quantity times `price`, less what is charged, quantity times `cost`, in
/// atomic units.
pub open spec fn shipment_refund(p: Purchase, price: nat, cost: nat) -> nat {
    (p.quantity as nat * price - p.quantity as nat * cost) as nat
}

/// The refund that a purchase earns when its group ships, rounded up to
/// whole coins, or the reason for which it cannot be computed.
pub open spec fn refund_of(p: Purchase, price: nat, cost: nat) -> Result<Refund, Error> {
    if p.quantity as nat * price >= atomics_limit() {
        Err(Error::Overflow)
    } else if ceil_units(shipment_refund(p, price, cost)) > u128::MAX {
        Err(Error::AmountOutOfRange)
    } else {
        Ok(
            Refund {
                recipient: p.spender,
                amount: ceil_units(shipment_refund(p, price, cost)) as u128,
            },
        )
    }
}

/// The refunds of the purchases that are attached to a group, in ascending
/// order of purchase, or the reason for which the first one that fails
/// cannot be computed: an attached purchase that is not on record fails the
/// whole.
pub open spec fn group_refunds(
    s: StoreView,
    members: Seq<Membership>,
    group_id: GroupId,
    price: nat,
    cost: nat,
) -> Result<Seq<Refund>, Error>
    decreases members.len(),
{
    if members.len() == 0 {
        Ok(Seq::empty())
    } else {
        match group_refunds(s, members.drop_last(), group_id, price, cost) {
            Err(e) => Err(e),
            Ok(refunds) => if members.last().group_id != group_id {
                Ok(refunds)
            } else if !s.has_purchase(members.last().purchase_id) {
                Err(Error::PurchaseNotFound)
            } else {
                match refund_of(s.purchase(members.last().purchase_id), price, cost) {
                    Err(e) => Err(e),
                    Ok(refund) => Ok(refunds.push(refund)),
                }
            },
        }
    }
}

impl StoreView {
    /// The price of the product of the group `id`, in atomic units.
    pub open spec fn group_price(self, id: GroupId) -> nat {
        self.product(self.group(id).product_id).price@
    }

    /// The price of one item of the group `id` after its discount.
    pub open spec fn group_cost(self, id: GroupId) -> nat {
        spec_cost_per_item(self.group_price(id), self.group(id).count as nat)
    }

    /// The refunds that the shipment of the group `id` earns its purchases.
    pub open spec fn shipment_refunds(self, id: GroupId) -> Result<Seq<Refund>, Error> {
        group_refunds(self, self.members, id, self.group_price(id), self.group_cost(id))
    }

    /// Why `sender` cannot ship the group at time `now`, if they cannot.
    pub open spec fn shipment_error(self, sender: Seq<char>, id: GroupId, now: u64) -> Option<
        Error,
    > {
        if self.has_shipped(id) {
            Some(Error::GroupAlreadyShipped)
        } else if !self.has_group(id) {
            Some(Error::GroupNotFound)
        } else if sender != self.group(id).owner@ {
            Some(Error::NotGroupOwner)
        } else if self.shipment_refunds(id) is Err {
            Some(self.shipment_refunds(id)->Err_0)
        } else if self.payment_channel.is_none() {
            Some(Error::ChannelNotConnected)
        } else if spec_packet_timeout(now) > u64::MAX {
            Some(Error::Overflow)
        } else {
            None
        }
    }

    /// The store once the group `id` has shipped: the group is marked, and
    /// its product has no pending group any more.
    pub open spec fn shipped(self, id: GroupId) -> StoreView {
        StoreView {
            products: self.products.update(
                self.product_index(self.group(id).product_id),
                ProductRecord { pending_group: None, ..self.product(self.group(id).product_id) },
            ),
            groups: self.groups.update(
                self.group_index(id),
                GroupRecord { has_shipped: true, ..self.group(id) },
            ),
            ..self
        }
    }

    /// Whether the group `id` exists and has shipped.
    pub open spec fn has_shipped(self, id: GroupId) -> bool {
        self.has_group(id) && self.group(id).has_shipped
    }

    /// Why the purchase cannot join a group of the product, if it cannot.
    pub open spec fn attach_error(self, purchase_id: PurchaseId, product_id: ProductId) -> Option<
        Error,
    > {
        if !self.has_product(product_id) {
            Some(Error::ProductNotFound)
        } else if self.is_member(purchase_id) {
            Some(Error::AlreadyInGroup)
        } else {
            match self.product(product_id).pending_group {
                Some(g) => if self.group(g).count == u32::MAX {
                    Some(Error::Overflow)
                } else {
                    None
                },
                None => if self.next_group_id == u64::MAX {
                    Some(Error::Overflow)
                } else {
                    None
                },
            }
        }
    }

    /// The group that a purchase of the product joins: the pending group, or
    /// a new one under the next id.
    pub open spec fn attach_group(self, product_id: ProductId) -> GroupId {
        match self.product(product_id).pending_group {
            Some(g) => g,
            None => self.next_group_id,
        }
    }

    /// The group that a purchase of the product opens where none is pending.
    pub open spec fn opened_group(self, product_id: ProductId) -> GroupRecord {
        GroupRecord {
            id: self.next_group_id,
            product_id,
            owner: self.product(product_id).owner,
            count: 1,
            has_shipped: false,
        }
    }

    /// The store once the purchase has joined the group of the product: the
    /// group counts one more, or is opened, and the purchase is attached to
    /// it.
    pub open spec fn joined(self, purchase_id: PurchaseId, product_id: ProductId) -> StoreView {
        StoreView {
            members: self.members.insert(
                self.member_place(purchase_id),
                Membership { group_id: self.attach_group(product_id), purchase_id },
            ),
            ..self.attach(product_id)
        }
    }

    /// The groups and the catalogue once a purchase of the product has
    /// joined its group.
    pub open spec fn attach(self, product_id: ProductId) -> StoreView {
        match self.product(product_id).pending_group {
            Some(g) => StoreView {
                groups: self.groups.update(
                    self.group_index(g),
                    GroupRecord { count: (self.group(g).count + 1) as u32, ..self.group(g) },
                ),
                ..self
            },
            None => StoreView {
                products: self.products.update(
                    self.product_index(product_id),
                    ProductRecord {
                        pending_group: Some(self.next_group_id),
                        ..self.product(product_id)
                    },
                ),
                groups: self.groups.push(self.opened_group(product_id)),
                next_group_id: (self.next_group_id + 1) as u64,
                ..self
            },
        }
    }

    /// Why the purchase cannot leave its group, if it cannot.
    pub open spec fn detach_error(self, purchase_id: PurchaseId, product_id: ProductId) -> Option<
        Error,
    > {
        if !self.has_purchase(purchase_id) {
            Some(Error::PurchaseNotFound)
        } else if self.has_shipped(self.purchase(purchase_id).group_id) {
            Some(Error::GroupAlreadyShipped)
        } else if !self.has_product(product_id) {
            Some(Error::ProductNotFound)
        } else if self.product(product_id).pending_group != Some(
            self.purchase(purchase_id).group_id,
        ) {
            Some(Error::NotInPendingGroup)
        } else if !self.is_member(purchase_id) || self.member_group(purchase_id)
            != self.purchase(purchase_id).group_id {
            Some(Error::NotInPendingGroup)
        } else {
            None
        }
    }

    /// The store once the purchase has left the group `group_id`, which is
    /// pending for the product: the group counts one less, or is deleted,
    /// and the purchase is attached no more.
    pub open spec fn left(self, purchase_id: PurchaseId, group_id: GroupId, product_id: ProductId)
        -> StoreView {
        StoreView {
            members: self.members.remove(self.member_index(purchase_id)),
            ..self.detach(group_id, product_id)
        }
    }

    /// The groups and the catalogue once a purchase has left the group
    /// `group_id`, which is pending for the product: the group counts one
    /// less, and is deleted with its place as the pending group where it
    /// counts nothing any more.
    pub open spec fn detach(self, group_id: GroupId, product_id: ProductId) -> StoreView {
        if self.group(group_id).count == 1 {
            StoreView {
                products: self.products.update(
                    self.product_index(product_id),
                    ProductRecord { pending_group: None, ..self.product(product_id) },
                ),
                groups: self.groups.remove(self.group_index(group_id)),
                ..self
            }
        } else {
            StoreView {
                groups: self.groups.update(
                    self.group_index(group_id),
                    GroupRecord {
                        count: (self.group(group_id).count - 1) as u32,
                        ..self.group(group_id)
                    },
                ),
                ..self
            }
        }
    }

    /// What the warehouse reports of the group `id`.
    pub open spec fn group_info(self, id: GroupId) -> GroupInfo {
        GroupInfo {
            id,
            count: self.group(id).count,
            product: self.product(self.group(id).product_id).spec_product(),
            has_shipped: self.group(id).has_shipped,
        }
    }
}

/// Sets the pending group of the product at place `i`.
fn set_pending(products: &mut Vec<ProductRecord>, i: usize, pending: Option<GroupId>)
    requires
        i < old(products)@.len(),
    ensures
        final(products)@ == old(products)@.update(
            i as int,
            ProductRecord { pending_group: pending, ..old(products)@[i as int] },
        ),
{
    let record = ProductRecord {
        id: products[i].id,
        owner: products[i].owner.clone(),
        name: products[i].name.clone(),
        price: products[i].price,
        stock: products[i].stock,
        pending_group: pending,
    };
    products.set(i, record);
}

/// Sets the count of the group at place `j`.
fn set_count(groups: &mut Vec<GroupRecord>, j: usize, count: u32)
    requires
        j < old(groups)@.len(),
    ensures
        final(groups)@ == old(groups)@.update(
            j as int,
            GroupRecord { count, ..old(groups)@[j as int] },
        ),
{
    let record = GroupRecord {
        id: groups[j].id,
        product_id: groups[j].product_id,
        owner: groups[j].owner.clone(),
        count,
        has_shipped: groups[j].has_shipped,
    };
    groups.set(j, record);
}

/// Marks the group at place `j` as shipped.
fn set_shipped(groups: &mut Vec<GroupRecord>, j: usize)
    requires
        j < old(groups)@.len(),
    ensures
        final(groups)@ == old(groups)@.update(
            j as int,
            GroupRecord { has_shipped: true, ..old(groups)@[j as int] },
        ),
{
    let record = GroupRecord {
        id: groups[j].id,
        product_id: groups[j].product_id,
        owner: groups[j].owner.clone(),
        count: groups[j].count,
        has_shipped: true,
    };
    groups.set(j, record);
}

/// Opening a group for a product without a pending group keeps the tables
/// in order and naming each other.
pub proof fn lemma_open_keeps_wf(before: StoreView, product_id: ProductId)
    requires
        before.linked(),
        before.has_product(product_id),
        before.product(product_id).pending_group.is_none(),
        before.next_group_id < u64::MAX,
    ensures
        before.attach(product_id).linked(),
        before.attach(product_id).has_product(product_id),
        before.attach(product_id).product_index(product_id) == before.product_index(product_id),
        !before.has_group(before.next_group_id),
{
    let after = before.attach(product_id);
    let pi = before.product_index(product_id);
    let g = before.next_group_id;
    let n = before.groups.len() as int;
    assert(before.is_product_at(product_id, pi));
    assert(after.is_product_at(product_id, pi));
    assert(after.ordered());
    assert forall|k: int| 0 <= k < after.purchases.len() implies after.has_product(
        (#[trigger] after.purchases[k]).product_id,
    ) by {
        let pid = before.purchases[k].product_id;
        let i = before.product_index(pid);
        assert(before.is_product_at(pid, i));
        assert(after.is_product_at(pid, i));
    }
    after.lemma_product_place(product_id, pi);
    assert(after.is_group_at(g, n));
    after.lemma_group_place(g, n);
    if before.has_group(g) {
        let k = before.group_index(g);
        assert(before.is_group_at(g, k));
    }
    assert forall|i: int|
        0 <= i < after.products.len() && (
        #[trigger] after.products[i]).pending_group.is_some() implies {
        let h = after.products[i].pending_group.unwrap();
        &&& after.has_group(h)
        &&& after.group(h).product_id == after.products[i].id
        &&& !after.group(h).has_shipped
    } by {
        if i != pi {
            assert(before.products[i] == after.products[i]);
            let h = before.products[i].pending_group.unwrap();
            let k = before.group_index(h);
            assert(before.is_group_at(h, k));
            assert(after.is_group_at(h, k));
            before.lemma_group_place(h, k);
            after.lemma_group_place(h, k);
        }
    }
    assert forall|j: int| 0 <= j < after.groups.len() implies after.has_product(
        (#[trigger] after.groups[j]).product_id,
    ) && (!after.groups[j].has_shipped ==> after.product(
        after.groups[j].product_id,
    ).pending_group == Some(after.groups[j].id)) by {
        if j < n {
            assert(before.groups[j] == after.groups[j]);
            let pid = before.groups[j].product_id;
            let i = before.product_index(pid);
            assert(before.is_product_at(pid, i));
            before.lemma_product_place(pid, i);
            assert(after.is_product_at(pid, i));
            after.lemma_product_place(pid, i);
        }
    }
}

/// Deleting the pending group of a product, and its place as the pending
/// group, keeps the tables in order and naming each other.
pub proof fn lemma_close_keeps_wf(before: StoreView, group_id: GroupId, product_id: ProductId)
    requires
        before.linked(),
        before.has_product(product_id),
        before.product(product_id).pending_group == Some(group_id),
        before.group(group_id).count == 1,
    ensures
        before.detach(group_id, product_id).linked(),
{
    let after = before.detach(group_id, product_id);
    let pi = before.product_index(product_id);
    assert(before.is_product_at(product_id, pi));
    assert(before.products[pi].pending_group.is_some());
    let gi = before.group_index(group_id);
    assert(before.is_group_at(group_id, gi));
    assert(after.ordered());
    assert forall|k: int| 0 <= k < after.purchases.len() implies after.has_product(
        (#[trigger] after.purchases[k]).product_id,
    ) by {
        let pid = before.purchases[k].product_id;
        let i = before.product_index(pid);
        assert(before.is_product_at(pid, i));
        assert(after.is_product_at(pid, i));
    }
    assert forall|i: int|
        0 <= i < after.products.len() && (
        #[trigger] after.products[i]).pending_group.is_some() implies {
        let h = after.products[i].pending_group.unwrap();
        &&& after.has_group(h)
        &&& after.group(h).product_id == after.products[i].id
        &&& !after.group(h).has_shipped
    } by {
        assert(i != pi);
        assert(before.products[i] == after.products[i]);
        let h = before.products[i].pending_group.unwrap();
        let k = before.group_index(h);
        assert(before.is_group_at(h, k));
        before.lemma_group_place(h, k);
        assert(k != gi);
        let k2 = if k < gi {
            k
        } else {
            k - 1
        };
        assert(after.groups[k2] == before.groups[k]);
        assert(after.is_group_at(h, k2));
        after.lemma_group_place(h, k2);
    }
    assert forall|j: int| 0 <= j < after.groups.len() implies after.has_product(
        (#[trigger] after.groups[j]).product_id,
    ) && (!after.groups[j].has_shipped ==> after.product(
        after.groups[j].product_id,
    ).pending_group == Some(after.groups[j].id)) by {
        let k = if j < gi {
            j
        } else {
            j + 1
        };
        assert(after.groups[j] == before.groups[k]);
        let pid = before.groups[k].product_id;
        let i = before.product_index(pid);
        assert(before.is_product_at(pid, i));
        before.lemma_product_place(pid, i);
        if i == pi && !before.groups[k].has_shipped {
            assert(before.is_group_at(group_id, k));
            before.lemma_group_place(group_id, k);
        }
        assert(after.is_product_at(pid, i));
        after.lemma_product_place(pid, i);
    }
}

/// Attaching a purchase raises the size of its group by one and leaves the
/// sizes of the other groups.
pub proof fn lemma_count_insert(members: Seq<Membership>, p: int, m: Membership, group_id: GroupId)
    requires
        0 <= p <= members.len(),
    ensures
        member_count(members.insert(p, m), group_id) == member_count(members, group_id) + (if m.group_id
            == group_id {
            1nat
        } else {
            0
        }),
    decreases members.len(),
{
    if p == members.len() {
        assert(members.insert(p, m).drop_last() =~= members);
    } else {
        assert(members.insert(p, m).drop_last() =~= members.drop_last().insert(p, m));
        assert(members.insert(p, m).last() == members.last());
        lemma_count_insert(members.drop_last(), p, m, group_id);
    }
}

/// Taking a purchase out lowers the size of its group by one and leaves the
/// sizes of the other groups.
pub proof fn lemma_count_remove(members: Seq<Membership>, i: int, group_id: GroupId)
    requires
        0 <= i < members.len(),
    ensures
        member_count(members, group_id) == member_count(members.remove(i), group_id) + (if members[i].group_id
            == group_id {
            1nat
        } else {
            0
        }),
    decreases members.len(),
{
    if i == members.len() - 1 {
        assert(members.remove(i) =~= members.drop_last());
    } else {
        assert(members.remove(i).drop_last() =~= members.drop_last().remove(i));
        assert(members.remove(i).last() == members.last());
        lemma_count_remove(members.drop_last(), i, group_id);
    }
}

/// A group to which no purchase is attached has the size zero.
pub proof fn lemma_count_none(members: Seq<Membership>, group_id: GroupId)
    requires
        forall|k: int| 0 <= k < members.len() ==> (#[trigger] members[k]).group_id != group_id,
    ensures
        member_count(members, group_id) == 0,
    decreases members.len(),
{
    if members.len() > 0 {
        assert(members.last() == members[members.len() - 1]);
        assert forall|k: int| 0 <= k < members.drop_last().len() implies (
        #[trigger] members.drop_last()[k]).group_id != group_id by {
            assert(members.drop_last()[k] == members[k]);
        }
        lemma_count_none(members.drop_last(), group_id);
    }
}

/// Once a purchase has joined, it is attached to the group it joined, no
/// purchase is attached twice, and every group counts the purchases
/// attached to it.
pub proof fn lemma_join_members(before: StoreView, purchase_id: PurchaseId, product_id: ProductId)
    requires
        before.tables_wf(),
        before.attach_error(purchase_id, product_id).is_none(),
        before.is_member_place(purchase_id, before.member_place(purchase_id)),
    ensures
        before.joined(purchase_id, product_id).members_wf(),
        before.joined(purchase_id, product_id).is_member(purchase_id),
        before.joined(purchase_id, product_id).member_group(purchase_id) == before.attach_group(
            product_id,
        ),
{
    let after = before.joined(purchase_id, product_id);
    let p = before.member_place(purchase_id);
    let g = before.attach_group(product_id);
    let m = Membership { group_id: g, purchase_id };
    let pi = before.product_index(product_id);
    assert(before.is_product_at(product_id, pi));
    let n = before.groups.len() as int;
    assert forall|i: int, j: int| 0 <= i < j < after.members.len() implies after.members[i].purchase_id
        < after.members[j].purchase_id by {
        let i0 = if i < p {
            i
        } else {
            i - 1
        };
        let j0 = if j < p {
            j
        } else {
            j - 1
        };
        if i != p && j != p {
            assert(before.members[i0].purchase_id < before.members[j0].purchase_id);
        } else if i == p {
            assert(before.members[j0].purchase_id > purchase_id);
        } else {
            assert(before.members[i0].purchase_id < purchase_id);
        }
    }
    match before.product(product_id).pending_group {
        Some(h) => {
            assert(before.products[pi].pending_group.is_some());
            let gi = before.group_index(h);
            assert(before.is_group_at(h, gi));
            assert forall|j: int| 0 <= j < after.groups.len() implies (
            #[trigger] after.groups[j]).count == member_count(
                after.members,
                after.groups[j].id,
            ) by {
                lemma_count_insert(before.members, p, m, after.groups[j].id);
                if j != gi {
                    assert(after.groups[j] == before.groups[j]);
                    if j < gi {
                        assert(before.groups[j].id < before.groups[gi].id);
                    } else {
                        assert(before.groups[gi].id < before.groups[j].id);
                    }
                }
            }
        },
        None => {
            assert forall|j: int| 0 <= j < after.groups.len() implies (
            #[trigger] after.groups[j]).count == member_count(
                after.members,
                after.groups[j].id,
            ) by {
                lemma_count_insert(before.members, p, m, after.groups[j].id);
                if j < n {
                    assert(after.groups[j] == before.groups[j]);
                    assert(before.groups[j].id < before.next_group_id);
                } else {
                    lemma_count_none(before.members, before.next_group_id);
                }
            }
        },
    }
    assert forall|i: int| 0 <= i < after.members.len() implies (
    #[trigger] after.members[i]).group_id < after.next_group_id by {
        if i < p {
            assert(after.members[i] == before.members[i]);
        } else if i > p {
            assert(after.members[i] == before.members[i - 1]);
        }
    }
    assert(after.is_member_at(purchase_id, p));
    after.lemma_member_at(purchase_id, p);
}

/// Once a purchase has left its group, it is attached no more, and every
/// group counts the purchases attached to it.
pub proof fn lemma_leave_members(
    before: StoreView,
    purchase_id: PurchaseId,
    group_id: GroupId,
    product_id: ProductId,
)
    requires
        before.tables_wf(),
        before.has_product(product_id),
        before.product(product_id).pending_group == Some(group_id),
        before.is_member(purchase_id),
        before.member_group(purchase_id) == group_id,
    ensures
        before.group(group_id).count >= 1,
        before.left(purchase_id, group_id, product_id).members_wf(),
        !before.left(purchase_id, group_id, product_id).is_member(purchase_id),
{
    let after = before.left(purchase_id, group_id, product_id);
    let i = before.member_index(purchase_id);
    assert(before.is_member_at(purchase_id, i));
    let pi = before.product_index(product_id);
    assert(before.is_product_at(product_id, pi));
    assert(before.products[pi].pending_group.is_some());
    let gi = before.group_index(group_id);
    assert(before.is_group_at(group_id, gi));
    lemma_count_remove(before.members, i, group_id);
    assert forall|a: int, b: int| 0 <= a < b < after.members.len() implies after.members[a].purchase_id
        < after.members[b].purchase_id by {
        let a0 = if a < i {
            a
        } else {
            a + 1
        };
        let b0 = if b < i {
            b
        } else {
            b + 1
        };
        assert(before.members[a0].purchase_id < before.members[b0].purchase_id);
    }
    assert forall|k: int| 0 <= k < after.members.len() implies (
    #[trigger] after.members[k]).group_id < after.next_group_id by {
        let k0 = if k < i {
            k
        } else {
            k + 1
        };
        assert(after.members[k] == before.members[k0]);
    }
    assert forall|j: int| 0 <= j < after.groups.len() implies (#[trigger] after.groups[j]).count
        == member_count(after.members, after.groups[j].id) by {
        let j0 = if before.group(group_id).count == 1 && j >= gi {
            j + 1
        } else {
            j
        };
        assert(after.groups[j].id == before.groups[j0].id);
        lemma_count_remove(before.members, i, before.groups[j0].id);
        if j0 < gi {
            assert(before.groups[j0].id < before.groups[gi].id);
        } else if j0 > gi {
            assert(before.groups[gi].id < before.groups[j0].id);
        }
    }
    if after.is_member(purchase_id) {
        let k = after.member_index(purchase_id);
        assert(after.is_member_at(purchase_id, k));
        let k0 = if k < i {
            k
        } else {
            k + 1
        };
        assert(before.is_member_at(purchase_id, k0));
        before.lemma_member_at(purchase_id, k0);
    }
}

/// Shipping a group that has not shipped keeps the store's invariant.
pub proof fn lemma_ship_keeps_wf(before: StoreView, group_id: GroupId)
    requires
        before.tables_wf(),
        before.has_group(group_id),
        !before.group(group_id).has_shipped,
    ensures
        before.shipped(group_id).tables_wf(),
        before.has_product(before.group(group_id).product_id),
        before.product(before.group(group_id).product_id).pending_group == Some(group_id),
{
    let after = before.shipped(group_id);
    let gi = before.group_index(group_id);
    assert(before.is_group_at(group_id, gi));
    assert(!before.groups[gi].has_shipped);
    let product_id = before.groups[gi].product_id;
    let pi = before.product_index(product_id);
    assert(before.is_product_at(product_id, pi));
    assert(after.ordered());
    assert forall|k: int| 0 <= k < after.purchases.len() implies after.has_product(
        (#[trigger] after.purchases[k]).product_id,
    ) by {
        let pid = before.purchases[k].product_id;
        let i = before.product_index(pid);
        assert(before.is_product_at(pid, i));
        assert(after.is_product_at(pid, i));
    }
    assert forall|i: int|
        0 <= i < after.products.len() && (
        #[trigger] after.products[i]).pending_group.is_some() implies {
        let h = after.products[i].pending_group.unwrap();
        &&& after.has_group(h)
        &&& after.group(h).product_id == after.products[i].id
        &&& !after.group(h).has_shipped
    } by {
        assert(i != pi);
        assert(before.products[i] == after.products[i]);
        let h = before.products[i].pending_group.unwrap();
        let k = before.group_index(h);
        assert(before.is_group_at(h, k));
        before.lemma_group_place(h, k);
        assert(k != gi);
        assert(after.is_group_at(h, k));
        after.lemma_group_place(h, k);
    }
    assert forall|j: int| 0 <= j < after.groups.len() implies after.has_product(
        (#[trigger] after.groups[j]).product_id,
    ) && (!after.groups[j].has_shipped ==> after.product(
        after.groups[j].product_id,
    ).pending_group == Some(after.groups[j].id)) by {
        let pid = before.groups[j].product_id;
        let i = before.product_index(pid);
        assert(before.is_product_at(pid, i));
        before.lemma_product_place(pid, i);
        assert(after.is_product_at(pid, i));
        after.lemma_product_place(pid, i);
        if j != gi {
            assert(after.groups[j] == before.groups[j]);
        }
    }
    assert forall|j: int| 0 <= j < after.groups.len() implies (#[trigger] after.groups[j]).count
        == member_count(after.members, after.groups[j].id) by {
        assert(after.groups[j].count == before.groups[j].count);
        assert(after.groups[j].id == before.groups[j].id);
    }
}

/// The refund that a purchase earns when its group ships at the given price
/// and discounted cost.
pub fn compute_refund(purchase: &Purchase, price: Decimal, cost: Decimal) -> (r: Result<
    Refund,
    Error,
>)
    requires
        cost@ <= price@,
    ensures
        r == refund_of(*purchase, price@, cost@),
{
    let quantity = Decimal::from_units(purchase.quantity as u128);
    proof {
        let q = purchase.quantity as nat;
        assert((q * fractional() * price@) / fractional() == q * price@) by (nonlinear_arith)
            requires
                fractional() > 0,
        ;
        assert((q * fractional() * cost@) / fractional() == q * cost@) by (nonlinear_arith)
            requires
                fractional() > 0,
        ;
        assert(q * cost@ <= q * price@) by (nonlinear_arith)
            requires
                cost@ <= price@,
        ;
    }
    let amount_spent = match quantity.checked_mul(price) {
        Some(spent) => spent,
        None => {
            return Err(Error::Overflow);
        },
    };
    let amount_shipped = quantity.checked_mul(cost).unwrap();
    let refund = amount_spent.checked_sub(amount_shipped).unwrap();
    match refund.to_uint_ceil() {
        Some(amount) => Ok(Refund { recipient: purchase.spender.clone(), amount }),
        None => Err(Error::AmountOutOfRange),
    }
}

impl State {
    /// Ships a group, once and for all. Only the group's owner may do so.
    /// Every purchase of the group is refunded what it reserved less what
    /// the items cost at the group's final size; the refunds go to the
    /// payment ledger in one packet. The product has no pending group
    /// afterwards.
    pub fn ship_group(&self, ctx: &mut StateContext, msg_sender: String, group_id: GroupId) -> (r:
        Result<(), Error>)
        requires
            old(ctx).store@.wf(),
        ensures
            final(ctx).store@.wf(),
            final(ctx).response.events == old(ctx).response.events,
            match r {
                Ok(()) => {
                    &&& old(ctx).store@.shipment_error(msg_sender@, group_id, self.block_time_nanos)
                        .is_none()
                    &&& final(ctx).store@ == old(ctx).store@.shipped(group_id)
                    &&& final(ctx).response.messages@.len() == old(ctx).response.messages@.len()
                        + 1
                    &&& final(ctx).response.messages@.drop_last() == old(ctx).response.messages@
                    &&& is_refund_packet(
                        final(ctx).response.messages@.last(),
                        old(ctx).store@.payment_channel.unwrap().endpoint.channel_id@,
                        old(ctx).store@.shipment_refunds(group_id)->Ok_0,
                        spec_packet_timeout(self.block_time_nanos),
                    )
                },
                Err(e) => {
                    &&& old(ctx).store@.shipment_error(msg_sender@, group_id, self.block_time_nanos)
                        == Some(e)
                    &&& *final(ctx) == *old(ctx)
                },
            },
    {
        let ghost before = ctx.store@;
        self.assert_group_not_shipped(&ctx.store, group_id)?;
        let gi = match ctx.store.find_group(group_id) {
            Some(gi) => gi,
            None => {
                return Err(Error::GroupNotFound);
            },
        };
        if !(msg_sender == ctx.store.groups[gi].owner) {
            return Err(Error::NotGroupOwner);
        }
        proof {
            lemma_ship_keeps_wf(before, group_id);
        }
        let group_info = match self.get_group_info(&ctx.store, group_id) {
            Ok(info) => info,
            Err(_) => vstd::pervasive::unreached(),
        };
        let price = group_info.product.price;
        let cost = group_info.cost_per_item();
        let mut refunds: Vec<Refund> = Vec::new();
        let mut k: usize = 0;
        while k < ctx.store.members.len()
            invariant
                *ctx == *old(ctx),
                ctx.store@ == before,
                before.wf(),
                !before.has_shipped(group_id),
                before.has_group(group_id),
                msg_sender@ == before.group(group_id).owner@,
                price@ == before.group_price(group_id),
                cost@ == before.group_cost(group_id),
                k <= before.members.len(),
                cost@ <= price@,
                group_refunds(before, before.members.take(k as int), group_id, price@, cost@)
                    == Ok::<Seq<Refund>, Error>(refunds@),
            decreases before.members.len() - k,
        {
            proof {
                assert(before.members.take(k + 1).drop_last() =~= before.members.take(k as int));
            }
            if ctx.store.members[k].group_id == group_id {
                let i = match ctx.store.find_purchase(ctx.store.members[k].purchase_id) {
                    Some(i) => i,
                    None => {
                        proof {
                            lemma_refunds_fail_for_good(
                                before,
                                before.members,
                                k + 1,
                                group_id,
                                price@,
                                cost@,
                            );
                        }
                        return Err(Error::PurchaseNotFound);
                    },
                };
                match compute_refund(&ctx.store.purchases[i], price, cost) {
                    Ok(refund) => refunds.push(refund),
                    Err(e) => {
                        proof {
                            lemma_refunds_fail_for_good(
                                before,
                                before.members,
                                k + 1,
                                group_id,
                                price@,
                                cost@,
                            );
                        }
                        return Err(e);
                    },
                }
            }
            k += 1;
        }
        proof {
            assert(before.members.take(k as int) =~= before.members);
        }
        let channel_id = match &ctx.store.payment_channel {
            Some(channel) => channel.endpoint.channel_id.clone(),
            None => {
                return Err(Error::ChannelNotConnected);
            },
        };
        let timeout_nanos = packet_timeout(self.block_time_nanos)?;
        let pi = ctx.store.find_product(ctx.store.groups[gi].product_id).unwrap();
        set_pending(&mut ctx.store.products, pi, None);
        set_shipped(&mut ctx.store.groups, gi);
        proof {
            assert(ctx.store@ =~= before.shipped(group_id));
            crate::warehouse::links::lemma_links_kept(before, ctx.store@);
        }
        ctx.response.add_message(
            OutMsg::SendPacket {
                channel_id,
                data: Packet::Payment(IbcExecuteMsg::Refund { refunds }),
                timeout_nanos,
            },
        );
        proof {
            assert(ctx.response.messages@.drop_last() =~= old(ctx).response.messages@);
        }
        Ok(())
    }

    /// Refuses a group that has shipped. A group that does not exist has not
    /// shipped.
    pub fn assert_group_not_shipped(&self, store: &Store, group_id: GroupId) -> (r: Result<
        (),
        Error,
    >)
        requires
            store@.tables_wf(),
        ensures
            r == (if store@.has_shipped(group_id) {
                Err::<(), Error>(Error::GroupAlreadyShipped)
            } else {
                Ok(())
            }),
    {
        match store.find_group(group_id) {
            Some(j) => if store.groups[j].has_shipped {
                Err(Error::GroupAlreadyShipped)
            } else {
                Ok(())
            },
            None => Ok(()),
        }
    }

    /// Lets the purchase join the group that is pending for the product, and
    /// opens a group under the next id where none is pending. The purchase
    /// is attached to the group, which counts one more. Returns the group's
    /// id. A purchase that is attached already is refused.
    ///
    /// This is a step of `make_purchase`, which puts the purchase on record
    /// afterwards: it asks for the tables to be in order and leaves them so,
    /// and it keeps the store's invariant where the purchase's id has been
    /// given out.
    pub fn add_purchase_to_group(
        &self,
        ctx: &mut StateContext,
        purchase_id: PurchaseId,
        product_id: ProductId,
    ) -> (r: Result<GroupId, Error>)
        requires
            old(ctx).store@.tables_wf(),
        ensures
            final(ctx).store@.tables_wf(),
            old(ctx).store@.wf() && purchase_id < old(ctx).store@.next_purchase_id
                ==> final(ctx).store@.wf(),
            final(ctx).response == old(ctx).response,
            match r {
                Ok(g) => {
                    &&& old(ctx).store@.attach_error(purchase_id, product_id).is_none()
                    &&& g == old(ctx).store@.attach_group(product_id)
                    &&& final(ctx).store@ == old(ctx).store@.joined(purchase_id, product_id)
                    &&& final(ctx).store@.is_member(purchase_id)
                    &&& final(ctx).store@.member_group(purchase_id) == g
                    &&& old(ctx).store@.product(product_id).pending_group.is_none()
                        ==> !old(ctx).store@.has_group(g)
                },
                Err(e) => {
                    &&& old(ctx).store@.attach_error(purchase_id, product_id) == Some(e)
                    &&& *final(ctx) == *old(ctx)
                },
            },
    {
        let ghost before = ctx.store@;
        let pi = match ctx.store.find_product(product_id) {
            Some(i) => i,
            None => {
                return Err(Error::ProductNotFound);
            },
        };
        let place = match ctx.store.find_member(purchase_id) {
            Ok(_) => {
                return Err(Error::AlreadyInGroup);
            },
            Err(place) => place,
        };
        match ctx.store.products[pi].pending_group {
            Some(g) => {
                assert(before.products[pi as int].pending_group.is_some());
                let gi = ctx.store.find_group(g).unwrap();
                let count = ctx.store.groups[gi].count;
                if count == u32::MAX {
                    return Err(Error::Overflow);
                }
                set_count(&mut ctx.store.groups, gi, count + 1);
                ctx.store.members.insert(place, Membership { group_id: g, purchase_id });
                proof {
                    lemma_join_members(before, purchase_id, product_id);
                    lemma_same_ids_keep_wf(before, ctx.store@);
                    assert(ctx.store@ =~= before.joined(purchase_id, product_id));
                    if before.wf() && purchase_id < before.next_purchase_id {
                        crate::warehouse::links::lemma_join_links(before, purchase_id, product_id);
                    }
                }
                Ok(g)
            },
            None => {
                let g = ctx.store.next_group_id;
                if g == u64::MAX {
                    return Err(Error::Overflow);
                }
                let opened = GroupRecord {
                    id: g,
                    product_id,
                    owner: ctx.store.products[pi].owner.clone(),
                    count: 1,
                    has_shipped: false,
                };
                ctx.store.groups.push(opened);
                ctx.store.next_group_id = g + 1;
                set_pending(&mut ctx.store.products, pi, Some(g));
                ctx.store.members.insert(place, Membership { group_id: g, purchase_id });
                proof {
                    lemma_join_members(before, purchase_id, product_id);
                    lemma_open_keeps_wf(before, product_id);
                    assert(ctx.store@ =~= before.joined(purchase_id, product_id));
                    lemma_same_ids_keep_wf(before.attach(product_id), ctx.store@);
                    if before.wf() && purchase_id < before.next_purchase_id {
                        crate::warehouse::links::lemma_join_links(before, purchase_id, product_id);
                    }
                }
                Ok(g)
            },
        }
    }

    /// Lets a purchase leave its group, which must be the one pending for
    /// the product and the one it is attached to. The purchase is attached
    /// no more and the group counts one less; a group that counts nothing
    /// any more is deleted, so that the next purchase of the product opens a
    /// new one.
    ///
    /// This is a step of `remove_purchase`, which takes the purchase off the
    /// record afterwards: it asks for the tables to be in order and leaves
    /// them so, with the purchase still on record and attached no more.
    pub fn remove_purchase_from_group(
        &self,
        ctx: &mut StateContext,
        purchase_id: PurchaseId,
        product_id: ProductId,
    ) -> (r: Result<(), Error>)
        requires
            old(ctx).store@.tables_wf(),
        ensures
            final(ctx).store@.tables_wf(),
            final(ctx).response == old(ctx).response,
            match r {
                Ok(()) => {
                    &&& old(ctx).store@.detach_error(purchase_id, product_id).is_none()
                    &&& final(ctx).store@ == old(ctx).store@.left(
                        purchase_id,
                        old(ctx).store@.purchase(purchase_id).group_id,
                        product_id,
                    )
                    &&& !final(ctx).store@.is_member(purchase_id)
                },
                Err(e) => {
                    &&& old(ctx).store@.detach_error(purchase_id, product_id) == Some(e)
                    &&& *final(ctx) == *old(ctx)
                },
            },
    {
        let (pi, gi, mi) = self.check_detach(&ctx.store, purchase_id, product_id)?;
        let ghost group_id = ctx.store@.purchase(purchase_id).group_id;
        commit_detach(
            &mut ctx.store,
            pi,
            gi,
            mi,
            Ghost(purchase_id),
            Ghost(group_id),
            Ghost(product_id),
        );
        Ok(())
    }

    /// Whether the purchase can join a group of the product.
    pub fn check_attach(&self, store: &Store, purchase_id: PurchaseId, product_id: ProductId) -> (r:
        Result<(), Error>)
        requires
            store@.tables_wf(),
        ensures
            r == (match store@.attach_error(purchase_id, product_id) {
                Some(e) => Err::<(), Error>(e),
                None => Ok(()),
            }),
    {
        let pi = match store.find_product(product_id) {
            Some(pi) => pi,
            None => {
                return Err(Error::ProductNotFound);
            },
        };
        if store.find_member(purchase_id).is_ok() {
            return Err(Error::AlreadyInGroup);
        }
        match store.products[pi].pending_group {
            Some(g) => {
                assert(store@.products[pi as int].pending_group.is_some());
                let gi = store.find_group(g).unwrap();
                if store.groups[gi].count == u32::MAX {
                    return Err(Error::Overflow);
                }
            },
            None => {
                if store.next_group_id == u64::MAX {
                    return Err(Error::Overflow);
                }
            },
        }
        Ok(())
    }

    /// Whether the purchase can leave its group, and if so the places of the
    /// product, of the group and of the purchase among the attached ones.
    pub fn check_detach(&self, store: &Store, purchase_id: PurchaseId, product_id: ProductId) -> (r:
        Result<(usize, usize, usize), Error>)
        requires
            store@.tables_wf(),
        ensures
            match r {
                Ok((pi, gi, mi)) => {
                    &&& store@.detach_error(purchase_id, product_id).is_none()
                    &&& store@.is_product_at(product_id, pi as int)
                    &&& store@.is_group_at(store@.purchase(purchase_id).group_id, gi as int)
                    &&& store@.is_member_at(purchase_id, mi as int)
                },
                Err(e) => store@.detach_error(purchase_id, product_id) == Some(e),
            },
    {
        let i = match store.find_purchase(purchase_id) {
            Some(i) => i,
            None => {
                return Err(Error::PurchaseNotFound);
            },
        };
        let group_id = store.purchases[i].group_id;
        self.assert_group_not_shipped(store, group_id)?;
        let pi = match store.find_product(product_id) {
            Some(pi) => pi,
            None => {
                return Err(Error::ProductNotFound);
            },
        };
        match store.products[pi].pending_group {
            Some(g) => {
                if g != group_id {
                    return Err(Error::NotInPendingGroup);
                }
            },
            None => {
                return Err(Error::NotInPendingGroup);
            },
        }
        assert(store@.products[pi as int].pending_group.is_some());
        let gi = store.find_group(group_id).unwrap();
        let mi = match store.find_member(purchase_id) {
            Ok(mi) => mi,
            Err(_) => {
                return Err(Error::NotInPendingGroup);
            },
        };
        if store.members[mi].group_id != group_id {
            return Err(Error::NotInPendingGroup);
        }
        Ok((pi, gi, mi))
    }

    /// What the warehouse reports of a group.
    pub fn get_group_info(&self, store: &Store, group_id: GroupId) -> (r: Result<GroupInfo, Error>)
        requires
            store@.tables_wf(),
        ensures
            r == (if store@.has_group(group_id) {
                Ok::<GroupInfo, Error>(store@.group_info(group_id))
            } else {
                Err(Error::GroupNotFound)
            }),
    {
        let gi = match store.find_group(group_id) {
            Some(gi) => gi,
            None => {
                return Err(Error::GroupNotFound);
            },
        };
        let pi = store.find_product(store.groups[gi].product_id).unwrap();
        Ok(
            GroupInfo {
                id: group_id,
                count: store.groups[gi].count,
                product: store.products[pi].product(),
                has_shipped: store.groups[gi].has_shipped,
            },
        )
    }

    /// The number of purchases in a group; zero where there is no such group.
    pub fn get_group_count(&self, store: &Store, group_id: GroupId) -> (r: Result<u32, Error>)
        requires
            store@.tables_wf(),
        ensures
            r == Ok::<u32, Error>(
                if store@.has_group(group_id) {
                    store@.group(group_id).count
                } else {
                    0
                },
            ),
    {
        match store.find_group(group_id) {
            Some(gi) => Ok(store.groups[gi].count),
            None => Ok(0),
        }
    }
}

/// Once the refunds of the first `n` attached purchases cannot be computed,
/// those of all of them cannot, for the same reason.
pub proof fn lemma_refunds_fail_for_good(
    s: StoreView,
    members: Seq<Membership>,
    n: int,
    group_id: GroupId,
    price: nat,
    cost: nat,
)
    requires
        0 <= n <= members.len(),
        group_refunds(s, members.take(n), group_id, price, cost) is Err,
    ensures
        group_refunds(s, members, group_id, price, cost) == group_refunds(
            s,
            members.take(n),
            group_id,
            price,
            cost,
        ),
    decreases members.len() - n,
{
    if n < members.len() {
        assert(members.take(n + 1).drop_last() =~= members.take(n));
        lemma_refunds_fail_for_good(s, members, n + 1, group_id, price, cost);
    } else {
        assert(members.take(n) =~= members);
    }
}

/// Takes the purchase at place `mi` of the attached ones out of the group at
/// place `gi`, which is pending for the product at place `pi`.
pub(crate) fn commit_detach(
    store: &mut Store,
    pi: usize,
    gi: usize,
    mi: usize,
    Ghost(purchase_id): Ghost<PurchaseId>,
    Ghost(group_id): Ghost<GroupId>,
    Ghost(product_id): Ghost<ProductId>,
)
    requires
        old(store)@.tables_wf(),
        old(store)@.is_product_at(product_id, pi as int),
        old(store)@.is_group_at(group_id, gi as int),
        old(store)@.is_member_at(purchase_id, mi as int),
        old(store)@.members[mi as int].group_id == group_id,
        old(store)@.products[pi as int].pending_group == Some(group_id),
    ensures
        final(store)@.tables_wf(),
        final(store)@ == old(store)@.left(purchase_id, group_id, product_id),
        !final(store)@.is_member(purchase_id),
{
    let ghost before = store@;
    proof {
        before.lemma_product_place(product_id, pi as int);
        before.lemma_group_place(group_id, gi as int);
        before.lemma_member_at(purchase_id, mi as int);
        lemma_leave_members(before, purchase_id, group_id, product_id);
    }
    let count = store.groups[gi].count - 1;
    store.members.remove(mi);
    if count == 0 {
        store.groups.remove(gi);
        set_pending(&mut store.products, pi, None);
        proof {
            lemma_close_keeps_wf(before, group_id, product_id);
            assert(store@ =~= before.left(purchase_id, group_id, product_id));
            lemma_same_ids_keep_wf(before.detach(group_id, product_id), store@);
        }
    } else {
        set_count(&mut store.groups, gi, count);
        proof {
            lemma_same_ids_keep_wf(before, store@);
            assert(store@ =~= before.left(purchase_id, group_id, product_id));
        }
    }
}

} // verus!
