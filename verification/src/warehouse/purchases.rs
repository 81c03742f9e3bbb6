//! Purchases: reserving stock against fees, and undoing a purchase whose
//! receipt was burnt.

use crate::decimal::{atomics_limit, fractional, Decimal};
use crate::error::Error;
use crate::ibc::{packet_timeout, spec_packet_timeout};
use crate::msg::contract::payment::{IbcExecuteMsg, Refund};
use crate::msg::contract::warehouse::PurchaseEvent;
use crate::msg::product::ProductId;
use crate::msg::purchase::{Purchase, PurchaseId};
use crate::response::{is_refund_packet, Event, OutMsg, Packet};
use crate::warehouse::group::commit_detach;
use crate::warehouse::product::lemma_same_ids_keep_wf;
use crate::warehouse::{State, StateContext, Store, StoreView};
use vstd::prelude::*;

verus! {

impl StoreView {
    /// Why the purchase is refused, if it is.
    pub open spec fn purchase_error(self, product_id: ProductId, quantity: u32, fees: u128)
        -> Option<Error> {
        if !self.has_product(product_id) {
            Some(Error::ProductNotFound)
        } else if self.product(product_id).price@ * quantity >= atomics_limit() {
            Some(Error::Overflow)
        } else if fees * fractional() < self.product(product_id).price@ * quantity {
            Some(Error::InsufficientFees)
        } else if self.product(product_id).stock < quantity {
            Some(Error::InsufficientStock)
        } else if self.next_purchase_id == u64::MAX {
            Some(Error::Overflow)
        } else {
            self.attach_error(self.next_purchase_id, product_id)
        }
    }

    /// The purchase that `make_purchase` puts on record.
    pub open spec fn new_purchase(self, spender: String, product_id: ProductId, quantity: u32)
        -> Purchase {
        Purchase {
            id: self.next_purchase_id,
            product_id,
            quantity,
            spender,
            group_id: self.attach_group(product_id),
        }
    }

    /// The store after the purchase: the group joined, the stock lowered and
    /// the purchase on record under the next id.
    pub open spec fn purchased(self, spender: String, product_id: ProductId, quantity: u32)
        -> StoreView {
        let restocked = self.joined(self.next_purchase_id, product_id).with_stock(
            product_id,
            (self.product(product_id).stock - quantity) as u32,
        );
        StoreView {
            purchases: self.purchases.push(self.new_purchase(spender, product_id, quantity)),
            next_purchase_id: (self.next_purchase_id + 1) as u64,
            ..restocked
        }
    }

    /// What is refunded for a purchase that is removed: the product's price
    /// times the quantity, in atomic units.
    pub open spec fn removal_refund(self, id: PurchaseId) -> nat {
        self.product(self.purchase(id).product_id).price@ * self.purchase(id).quantity as nat
    }

    /// Why the removal of a purchase at time `now` is refused, if it is.
    pub open spec fn removal_error(self, id: PurchaseId, now: u64) -> Option<Error> {
        if !self.has_purchase(id) {
            Some(Error::PurchaseNotFound)
        } else if !self.has_product(self.purchase(id).product_id) {
            Some(Error::ProductNotFound)
        } else if self.detach_error(id, self.purchase(id).product_id).is_some() {
            self.detach_error(id, self.purchase(id).product_id)
        } else if self.product(self.purchase(id).product_id).stock + self.purchase(id).quantity
            > u32::MAX {
            Some(Error::Overflow)
        } else if self.removal_refund(id) >= atomics_limit() {
            Some(Error::Overflow)
        } else if self.removal_refund(id) / fractional() > u128::MAX {
            Some(Error::AmountOutOfRange)
        } else if self.payment_channel.is_none() {
            Some(Error::ChannelNotConnected)
        } else if spec_packet_timeout(now) > u64::MAX {
            Some(Error::Overflow)
        } else {
            None
        }
    }

    /// The store after the removal of a purchase: the group left, the stock
    /// raised again and the purchase off the record.
    pub open spec fn removed(self, id: PurchaseId) -> StoreView {
        let p = self.purchase(id);
        let restocked = self.left(id, p.group_id, p.product_id).with_stock(
            p.product_id,
            (self.product(p.product_id).stock + p.quantity) as u32,
        );
        StoreView { purchases: self.purchases.remove(self.purchase_index(id)), ..restocked }
    }
}

/// Joining a group leaves the product in the catalogue, with its stock.
pub proof fn lemma_attach_keeps_product(
    before: StoreView,
    purchase_id: PurchaseId,
    product_id: ProductId,
)
    requires
        before.tables_wf(),
        before.attach_error(purchase_id, product_id).is_none(),
        before.joined(purchase_id, product_id).ordered(),
    ensures
        before.joined(purchase_id, product_id).has_product(product_id),
        before.joined(purchase_id, product_id).product(product_id).stock == before.product(
            product_id,
        ).stock,
{
    let after = before.joined(purchase_id, product_id);
    let pi = before.product_index(product_id);
    assert(before.is_product_at(product_id, pi));
    assert(after.is_product_at(product_id, pi));
    after.lemma_product_place(product_id, pi);
}

impl State {
    /// What a purchase does: see `make_purchase`.
    pub open spec fn purchase_post(
        self,
        old_ctx: StateContext,
        new_ctx: StateContext,
        spender: String,
        product_id: ProductId,
        quantity: u32,
        fees: u128,
        r: Result<PurchaseId, Error>,
    ) -> bool {
        match r {
            Ok(id) => {
                let before = old_ctx.store@;
                &&& before.purchase_error(product_id, quantity, fees).is_none()
                &&& id == before.next_purchase_id
                &&& new_ctx.store@ == before.purchased(spender, product_id, quantity)
                &&& new_ctx.response.messages == old_ctx.response.messages
                &&& new_ctx.response.events@ == old_ctx.response.events@.push(
                    Event::Purchase(
                        PurchaseEvent {
                            purchase: before.new_purchase(spender, product_id, quantity),
                        },
                    ),
                )
            },
            Err(e) => {
                &&& old_ctx.store@.purchase_error(product_id, quantity, fees) == Some(e)
                &&& new_ctx == old_ctx
            },
        }
    }

    /// What the removal of a purchase does: see `remove_purchase`.
    pub open spec fn removal_post(
        self,
        old_ctx: StateContext,
        new_ctx: StateContext,
        id: PurchaseId,
        r: Result<(), Error>,
    ) -> bool {
        match r {
            Ok(()) => {
                let before = old_ctx.store@;
                &&& before.removal_error(id, self.block_time_nanos).is_none()
                &&& new_ctx.store@ == before.removed(id)
                &&& new_ctx.response.events == old_ctx.response.events
                &&& new_ctx.response.messages@.len() == old_ctx.response.messages@.len() + 1
                &&& new_ctx.response.messages@.drop_last() == old_ctx.response.messages@
                &&& is_refund_packet(
                    new_ctx.response.messages@.last(),
                    before.payment_channel.unwrap().endpoint.channel_id@,
                    seq![
                        Refund {
                            recipient: before.purchase(id).spender,
                            amount: (before.removal_refund(id) / fractional()) as u128,
                        },
                    ],
                    spec_packet_timeout(self.block_time_nanos),
                )
            },
            Err(e) => {
                &&& old_ctx.store@.removal_error(id, self.block_time_nanos) == Some(e)
                &&& new_ctx == old_ctx
            },
        }
    }

    /// The purchases with the given ids, in the order of the ids. Fails where
    /// one of them is not on record.
    pub fn get_purchases(&self, store: &Store, purchase_ids: Vec<PurchaseId>) -> (r: Result<
        Vec<Purchase>,
        Error,
    >)
        requires
            store@.tables_wf(),
        ensures
            match r {
                Ok(ps) => {
                    &&& ps@.len() == purchase_ids@.len()
                    &&& forall|k: int|
                        0 <= k < ps@.len() ==> store@.has_purchase(#[trigger] purchase_ids@[k])
                            && ps@[k] == store@.purchase(purchase_ids@[k])
                },
                Err(e) => e == Error::PurchaseNotFound && exists|k: int|
                    0 <= k < purchase_ids@.len() && !store@.has_purchase(
                        #[trigger] purchase_ids@[k],
                    ),
            },
    {
        let mut out: Vec<Purchase> = Vec::new();
        let mut k: usize = 0;
        while k < purchase_ids.len()
            invariant
                store@.tables_wf(),
                k <= purchase_ids@.len(),
                out@.len() == k,
                forall|m: int|
                    0 <= m < k ==> store@.has_purchase(#[trigger] purchase_ids@[m]) && out@[m]
                        == store@.purchase(purchase_ids@[m]),
            decreases purchase_ids@.len() - k,
        {
            match self.try_get_purchase(store, purchase_ids[k]) {
                Ok(Some(p)) => out.push(p),
                _ => {
                    return Err(Error::PurchaseNotFound);
                },
            }
            k += 1;
        }
        Ok(out)
    }

    /// Whether a purchase would be accepted.
    pub fn check_purchase(&self, store: &Store, product_id: ProductId, quantity: u32, fees: u128)
        -> (r: Result<(), Error>)
        requires
            store@.tables_wf(),
        ensures
            r == (match store@.purchase_error(product_id, quantity, fees) {
                Some(e) => Err::<(), Error>(e),
                None => Ok(()),
            }),
    {
        let pi = match store.find_product(product_id) {
            Some(pi) => pi,
            None => {
                return Err(Error::ProductNotFound);
            },
        };
        let price = store.products[pi].price;
        let paid = Decimal::from_units(fees as u128);
        let wanted = Decimal::from_units(quantity as u128);
        proof {
            assert((price@ * (quantity as nat * fractional())) / fractional() == price@
                * quantity as nat) by (nonlinear_arith)
                requires
                    fractional() > 0,
            ;
        }
        let cost = match price.checked_mul(wanted) {
            Some(cost) => cost,
            None => {
                return Err(Error::Overflow);
            },
        };
        if paid.lt(cost) {
            return Err(Error::InsufficientFees);
        }
        if store.products[pi].stock < quantity {
            return Err(Error::InsufficientStock);
        }
        if store.next_purchase_id == u64::MAX {
            return Err(Error::Overflow);
        }
        self.check_attach(store, store.next_purchase_id, product_id)
    }

    /// Reserves `quantity` items of a product for `spender`, who paid `fees`:
    /// lowers the stock, lets the purchase join the product's group, puts it
    /// on record under the next id and reports it. The fees must cover price
    /// times quantity.
    pub fn make_purchase(
        &self,
        ctx: &mut StateContext,
        spender: String,
        product_id: ProductId,
        quantity: u32,
        fees: u128,
    ) -> (r: Result<PurchaseId, Error>)
        requires
            old(ctx).store@.wf(),
        ensures
            final(ctx).store@.wf(),
            self.purchase_post(*old(ctx), *final(ctx), spender, product_id, quantity, fees, r),
    {
        let ghost before = ctx.store@;
        self.check_purchase(&ctx.store, product_id, quantity, fees)?;
        let id = ctx.store.next_purchase_id;
        let group_id = self.add_purchase_to_group(ctx, id, product_id)?;
        proof {
            lemma_attach_keeps_product(before, id, product_id);
        }
        match self.remove_product_stock(ctx, product_id, quantity) {
            Ok(()) => {},
            Err(_) => vstd::pervasive::unreached(),
        }
        let ghost restocked = ctx.store@;
        let purchase = Purchase { id, product_id, quantity, spender: spender.clone(), group_id };
        let reported = Purchase { id, product_id, quantity, spender, group_id };
        ctx.store.purchases.push(purchase);
        ctx.store.next_purchase_id = id + 1;
        proof {
            let attached = before.joined(id, product_id);
            let pi = attached.product_index(product_id);
            assert(attached.is_product_at(product_id, pi));
            assert(restocked.is_product_at(product_id, pi));
            assert forall|k: int| 0 <= k < ctx.store@.purchases.len() implies restocked.has_product(
                (#[trigger] ctx.store@.purchases[k]).product_id,
            ) by {
                if k < restocked.purchases.len() {
                    assert(ctx.store@.purchases[k] == restocked.purchases[k]);
                }
            }
            lemma_same_ids_keep_wf(restocked, ctx.store@);
            assert(ctx.store@ =~= before.purchased(spender, product_id, quantity));
            crate::warehouse::links::lemma_purchase_links(before, spender, product_id, quantity);
        }
        ctx.response.add_event(Event::Purchase(PurchaseEvent { purchase: reported }));
        Ok(id)
    }

    /// The purchase `id`, if it is on record.
    pub fn try_get_purchase(&self, store: &Store, id: PurchaseId) -> (r: Result<
        Option<Purchase>,
        Error,
    >)
        requires
            store@.tables_wf(),
        ensures
            r == Ok::<Option<Purchase>, Error>(
                if store@.has_purchase(id) {
                    Some(store@.purchase(id))
                } else {
                    None
                },
            ),
    {
        match store.find_purchase(id) {
            Some(i) => Ok(
                Some(
                    Purchase {
                        id: store.purchases[i].id,
                        product_id: store.purchases[i].product_id,
                        quantity: store.purchases[i].quantity,
                        spender: store.purchases[i].spender.clone(),
                        group_id: store.purchases[i].group_id,
                    },
                ),
            ),
            None => Ok(None),
        }
    }

    /// Undoes a purchase whose group has not shipped: the purchase leaves its
    /// group and the record, its items go back into stock, and the payment
    /// ledger is asked to refund the spender the product's price times the
    /// quantity, rounded down to whole coins. The group's discount plays no
    /// part in the refund.
    pub fn remove_purchase(&self, ctx: &mut StateContext, id: PurchaseId) -> (r: Result<(), Error>)
        requires
            old(ctx).store@.wf(),
        ensures
            final(ctx).store@.wf(),
            self.removal_post(*old(ctx), *final(ctx), id, r),
    {
        let ghost before = ctx.store@;
        let i = match ctx.store.find_purchase(id) {
            Some(i) => i,
            None => {
                return Err(Error::PurchaseNotFound);
            },
        };
        let product_id = ctx.store.purchases[i].product_id;
        let quantity = ctx.store.purchases[i].quantity;
        let ghost group_id = before.purchases[i as int].group_id;
        match ctx.store.find_product(product_id) {
            Some(_) => {},
            None => {
                return Err(Error::ProductNotFound);
            },
        }
        let (pi, gi, mi) = self.check_detach(&ctx.store, id, product_id)?;
        let stock = match ctx.store.products[pi].stock.checked_add(quantity) {
            Some(stock) => stock,
            None => {
                return Err(Error::Overflow);
            },
        };
        let price = ctx.store.products[pi].price;
        proof {
            before.lemma_product_place(product_id, pi as int);
            assert((price@ * (quantity as nat * fractional())) / fractional() == price@
                * quantity as nat) by (nonlinear_arith)
                requires
                    fractional() > 0,
            ;
        }
        let refund = match price.checked_mul(Decimal::from_units(quantity as u128)) {
            Some(refund) => refund,
            None => {
                return Err(Error::Overflow);
            },
        };
        let amount = match refund.to_uint_floor() {
            Some(amount) => amount,
            None => {
                return Err(Error::AmountOutOfRange);
            },
        };
        let channel_id = match &ctx.store.payment_channel {
            Some(channel) => channel.endpoint.channel_id.clone(),
            None => {
                return Err(Error::ChannelNotConnected);
            },
        };
        let timeout_nanos = packet_timeout(self.block_time_nanos)?;
        let recipient = ctx.store.purchases[i].spender.clone();

        commit_detach(
            &mut ctx.store,
            pi,
            gi,
            mi,
            Ghost(id),
            Ghost(group_id),
            Ghost(product_id),
        );
        let ghost detached = ctx.store@;
        proof {
            assert(detached.is_product_at(product_id, pi as int));
            detached.lemma_product_place(product_id, pi as int);
        }
        crate::warehouse::product::set_stock(&mut ctx.store, pi, stock);
        let ghost restocked = ctx.store@;
        ctx.store.purchases.remove(i);
        proof {
            assert forall|k: int| 0 <= k < ctx.store@.purchases.len() implies restocked.has_product(
                (#[trigger] ctx.store@.purchases[k]).product_id,
            ) by {
                let k0 = if k < i {
                    k
                } else {
                    k + 1
                };
                assert(ctx.store@.purchases[k] == restocked.purchases[k0]);
            }
            lemma_same_ids_keep_wf(restocked, ctx.store@);
            assert(ctx.store@ =~= before.removed(id));
            crate::warehouse::links::lemma_removal_links(before, id);
        }
        let mut refunds: Vec<Refund> = Vec::new();
        refunds.push(Refund { recipient, amount });
        ctx.response.add_message(
            OutMsg::SendPacket {
                channel_id,
                data: Packet::Payment(IbcExecuteMsg::Refund { refunds }),
                timeout_nanos,
            },
        );
        proof {
            assert(ctx.response.messages@.drop_last() =~= old(ctx).response.messages@);
        }
        Ok(())
    }
}

} // verus!
