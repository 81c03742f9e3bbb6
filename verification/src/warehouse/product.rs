//! The catalogue and its stock.

use crate::error::Error;
use crate::msg::contract::warehouse::{AddProductEvent, NewProduct};
use crate::msg::product::{Product, ProductId};
use crate::response::Event;
use crate::warehouse::{ProductRecord, State, StateContext, Store, StoreView};
use vstd::prelude::*;

verus! {

impl StoreView {
    /// The id that the next product gets: one more than the largest id, or
    /// zero in an empty catalogue.
    pub open spec fn next_product_id(self) -> int {
        if self.products.len() == 0 {
            0
        } else {
            self.products.last().id + 1
        }
    }

    /// The store with the stock of the product `id` set to `stock`.
    pub open spec fn with_stock(self, id: ProductId, stock: u32) -> StoreView {
        StoreView {
            products: self.products.update(
                self.product_index(id),
                ProductRecord { stock, ..self.product(id) },
            ),
            ..self
        }
    }
}

/// The record that `add_product` stores.
pub open spec fn new_record(id: ProductId, owner: String, product: NewProduct) -> ProductRecord {
    ProductRecord {
        id,
        owner,
        name: product.name,
        price: product.price,
        stock: product.stock,
        pending_group: None,
    }
}

impl State {
    /// Adds a product to the catalogue, under the next id, and reports it.
    /// Fails only where the ids are used up.
    pub fn add_product(&self, ctx: &mut StateContext, owner: String, product: NewProduct) -> (r:
        Result<Product, Error>)
        requires
            old(ctx).store@.wf(),
        ensures
            final(ctx).store@.wf(),
            match r {
                Ok(p) => {
                    &&& old(ctx).store@.next_product_id() <= u32::MAX
                    &&& p == new_record(p.id, owner, product).spec_product()
                    &&& p.id == old(ctx).store@.next_product_id()
                    &&& final(ctx).store@ == (StoreView {
                        products: old(ctx).store@.products.push(new_record(p.id, owner, product)),
                        ..old(ctx).store@
                    })
                    &&& final(ctx).response.events@ == old(ctx).response.events@.push(
                        Event::AddProduct(AddProductEvent { product: p }),
                    )
                    &&& final(ctx).response.messages == old(ctx).response.messages
                },
                Err(e) => {
                    &&& e == Error::Overflow
                    &&& old(ctx).store@.next_product_id() > u32::MAX
                    &&& *final(ctx) == *old(ctx)
                },
            },
    {
        let n = ctx.store.products.len();
        let id: ProductId = if n == 0 {
            0
        } else {
            let last = ctx.store.products[n - 1].id;
            if last == u32::MAX {
                return Err(Error::Overflow);
            }
            last + 1
        };
        let record = ProductRecord {
            id,
            owner,
            name: product.name,
            price: product.price,
            stock: product.stock,
            pending_group: None,
        };
        let reported = record.product();
        let announced = record.product();
        let ghost before = ctx.store@;
        ctx.store.products.push(record);
        proof {
            let after = ctx.store@;
            assert forall|j: int| 0 <= j < after.groups.len() implies after.has_product(
                (#[trigger] after.groups[j]).product_id,
            ) && (!after.groups[j].has_shipped ==> after.product(
                after.groups[j].product_id,
            ).pending_group == Some(after.groups[j].id)) by {
                let pid = before.groups[j].product_id;
                let i = before.product_index(pid);
                assert(before.is_product_at(pid, i));
                assert(after.is_product_at(pid, i));
                after.lemma_product_place(pid, i);
            }
            assert forall|i: int|
                0 <= i < after.products.len() && (
                #[trigger] after.products[i]).pending_group.is_some() implies {
                let g = after.products[i].pending_group.unwrap();
                &&& after.has_group(g)
                &&& after.group(g).product_id == after.products[i].id
                &&& !after.group(g).has_shipped
            } by {
                if i < before.products.len() {
                    assert(before.products[i] == after.products[i]);
                    let g = before.products[i].pending_group.unwrap();
                    let k = before.group_index(g);
                    assert(before.is_group_at(g, k));
                    assert(after.is_group_at(g, k));
                    before.lemma_group_place(g, k);
                    after.lemma_group_place(g, k);
                }
            }
            assert forall|k: int| 0 <= k < after.purchases.len() implies after.has_product(
                (#[trigger] after.purchases[k]).product_id,
            ) by {
                let pid = before.purchases[k].product_id;
                let i = before.product_index(pid);
                assert(before.is_product_at(pid, i));
                assert(after.is_product_at(pid, i));
            }
            assert(after =~= (StoreView {
                products: before.products.push(new_record(id, owner, product)),
                ..before
            }));
            crate::warehouse::links::lemma_links_kept(before, after);
        }
        ctx.response.add_event(Event::AddProduct(AddProductEvent { product: announced }));
        Ok(reported)
    }

    /// Puts `quantity` items of a product back into stock.
    pub fn add_product_stock(&self, ctx: &mut StateContext, id: ProductId, quantity: u32) -> (r:
        Result<(), Error>)
        requires
            old(ctx).store@.tables_wf(),
        ensures
            final(ctx).store@.tables_wf(),
            final(ctx).response == old(ctx).response,
            match r {
                Ok(()) => {
                    &&& old(ctx).store@.has_product(id)
                    &&& old(ctx).store@.product(id).stock + quantity <= u32::MAX
                    &&& final(ctx).store@ == old(ctx).store@.with_stock(
                        id,
                        (old(ctx).store@.product(id).stock + quantity) as u32,
                    )
                },
                Err(e) => {
                    &&& *final(ctx) == *old(ctx)
                    &&& e == (if !old(ctx).store@.has_product(id) {
                        Error::ProductNotFound
                    } else {
                        Error::Overflow
                    })
                    &&& !old(ctx).store@.has_product(id) || old(ctx).store@.product(id).stock
                        + quantity > u32::MAX
                },
            },
    {
        let i = match ctx.store.find_product(id) {
            Some(i) => i,
            None => {
                return Err(Error::ProductNotFound);
            },
        };
        let stock = match ctx.store.products[i].stock.checked_add(quantity) {
            Some(s) => s,
            None => {
                return Err(Error::Overflow);
            },
        };
        set_stock(&mut ctx.store, i, stock);
        Ok(())
    }

    /// Takes `quantity` items of a product out of stock.
    pub fn remove_product_stock(
        &self,
        ctx: &mut StateContext,
        id: ProductId,
        quantity: u32,
    ) -> (r: Result<(), Error>)
        requires
            old(ctx).store@.tables_wf(),
        ensures
            final(ctx).store@.tables_wf(),
            final(ctx).response == old(ctx).response,
            match r {
                Ok(()) => {
                    &&& old(ctx).store@.has_product(id)
                    &&& old(ctx).store@.product(id).stock >= quantity
                    &&& final(ctx).store@ == old(ctx).store@.with_stock(
                        id,
                        (old(ctx).store@.product(id).stock - quantity) as u32,
                    )
                },
                Err(e) => {
                    &&& *final(ctx) == *old(ctx)
                    &&& e == (if !old(ctx).store@.has_product(id) {
                        Error::ProductNotFound
                    } else {
                        Error::InsufficientStock
                    })
                    &&& !old(ctx).store@.has_product(id) || old(ctx).store@.product(id).stock
                        < quantity
                },
            },
    {
        let i = match ctx.store.find_product(id) {
            Some(i) => i,
            None => {
                return Err(Error::ProductNotFound);
            },
        };
        let stock = ctx.store.products[i].stock;
        if stock < quantity {
            return Err(Error::InsufficientStock);
        }
        set_stock(&mut ctx.store, i, stock - quantity);
        Ok(())
    }
}

/// Sets the stock of the product at place `i`.
pub(crate) fn set_stock(store: &mut Store, i: usize, stock: u32)
    requires
        old(store)@.tables_wf(),
        i < old(store)@.products.len(),
    ensures
        final(store)@.tables_wf(),
        final(store)@ == old(store)@.with_stock(old(store)@.products[i as int].id, stock),
{
    let ghost before = store@;
    let ghost id = before.products[i as int].id;
    proof {
        before.lemma_product_place(id, i as int);
    }
    let record = ProductRecord {
        id: store.products[i].id,
        owner: store.products[i].owner.clone(),
        name: store.products[i].name.clone(),
        price: store.products[i].price,
        stock,
        pending_group: store.products[i].pending_group,
    };
    store.products.set(i, record);
    proof {
        let after = store@;
        assert(after.products =~= before.products.update(
            i as int,
            ProductRecord { stock, ..before.product(id) },
        ));
        lemma_same_ids_keep_wf(before, after);
    }
}

/// A change that keeps the order of the tables, the length of the catalogue
/// and of the table of groups, every product's id and pending group, and
/// every group's id, product and shipment, and after which every purchase
/// is of a product of the catalogue, keeps the tables in order and naming
/// each other.
pub proof fn lemma_same_ids_keep_wf(before: StoreView, after: StoreView)
    requires
        before.linked(),
        after.products.len() == before.products.len(),
        forall|i: int|
            0 <= i < before.products.len() ==> (#[trigger] after.products[i]).id
                == before.products[i].id && after.products[i].pending_group
                == before.products[i].pending_group,
        after.groups.len() == before.groups.len(),
        forall|j: int|
            0 <= j < before.groups.len() ==> (#[trigger] after.groups[j]).id
                == before.groups[j].id && after.groups[j].product_id
                == before.groups[j].product_id && after.groups[j].has_shipped
                == before.groups[j].has_shipped,
        after.ordered(),
        forall|k: int|
            0 <= k < after.purchases.len() ==> before.has_product(
                (#[trigger] after.purchases[k]).product_id,
            ),
    ensures
        after.linked(),
{
    assert forall|k: int| 0 <= k < after.purchases.len() implies after.has_product(
        (#[trigger] after.purchases[k]).product_id,
    ) by {
        let pid = after.purchases[k].product_id;
        let i = before.product_index(pid);
        assert(before.is_product_at(pid, i));
        assert(after.is_product_at(pid, i));
    }
    assert forall|i: int|
        0 <= i < after.products.len() && (
        #[trigger] after.products[i]).pending_group.is_some() implies {
        let g = after.products[i].pending_group.unwrap();
        &&& after.has_group(g)
        &&& after.group(g).product_id == after.products[i].id
        &&& !after.group(g).has_shipped
    } by {
        assert(before.products[i].pending_group.is_some());
        let g = before.products[i].pending_group.unwrap();
        let k = before.group_index(g);
        assert(before.is_group_at(g, k));
        assert(after.is_group_at(g, k));
        after.lemma_group_place(g, k);
    }
    assert forall|j: int| 0 <= j < after.groups.len() implies after.has_product(
        (#[trigger] after.groups[j]).product_id,
    ) && (!after.groups[j].has_shipped ==> after.product(
        after.groups[j].product_id,
    ).pending_group == Some(after.groups[j].id)) by {
        let pid = before.groups[j].product_id;
        let i = before.product_index(pid);
        assert(before.is_product_at(pid, i));
        assert(after.is_product_at(pid, i));
        after.lemma_product_place(pid, i);
    }
}

} // verus!
