//! The warehouse's entry points: what a transaction or a query is handed to.

use crate::error::Error;
use crate::ibc::{copy_channel, spec_packet_timeout};
use crate::msg::contract::warehouse::{
    AddProductEvent, ExecuteMsg, GroupInfo, InfoResp, QueryMsg,
};
use crate::msg::product::Product;
use crate::msg::purchase::Purchase;
use crate::response::{is_refund_packet, Event};
use crate::warehouse::product::new_record;
use crate::page::spec_page_limit;
use crate::warehouse::query::{listed_groups, listed_products};
use crate::warehouse::{State, StateContext, Store, StoreView};
use vstd::prelude::*;

verus! {

/// The answer to a query, by the kind of what was asked for.
#[derive(Clone, Debug, PartialEq, Eq)]
pub enum QueryResponse {
    Products(Vec<Product>),
    Groups(Vec<GroupInfo>),
    Purchases(Vec<Purchase>),
    Info(InfoResp),
}

/// Carries out a transaction of `sender`: adds a product that the sender
/// then owns, or ships a group of theirs.
pub fn execute(state: &State, ctx: &mut StateContext, sender: String, msg: ExecuteMsg) -> (r:
    Result<(), Error>)
    requires
        old(ctx).store@.wf(),
    ensures
        final(ctx).store@.wf(),
        r is Err ==> *final(ctx) == *old(ctx),
        match msg {
            ExecuteMsg::AddProduct { product } => {
                let id = old(ctx).store@.next_product_id();
                if id > u32::MAX {
                    r == Err::<(), Error>(Error::Overflow)
                } else {
                    &&& r is Ok
                    &&& final(ctx).store@ == (StoreView {
                        products: old(ctx).store@.products.push(
                            new_record(id as u32, sender, product),
                        ),
                        ..old(ctx).store@
                    })
                    &&& final(ctx).response.events@ == old(ctx).response.events@.push(
                        Event::AddProduct(
                            AddProductEvent {
                                product: new_record(id as u32, sender, product).spec_product(),
                            },
                        ),
                    )
                    &&& final(ctx).response.messages == old(ctx).response.messages
                }
            },
            ExecuteMsg::ShipGroup { group_id } => {
                let before = old(ctx).store@;
                match before.shipment_error(sender@, group_id, state.block_time_nanos) {
                    Some(e) => r == Err::<(), Error>(e),
                    None => {
                        &&& r is Ok
                        &&& final(ctx).store@ == before.shipped(group_id)
                        &&& final(ctx).response.events == old(ctx).response.events
                        &&& final(ctx).response.messages@.len() == old(
                            ctx,
                        ).response.messages@.len() + 1
                        &&& final(ctx).response.messages@.drop_last() == old(
                            ctx,
                        ).response.messages@
                        &&& is_refund_packet(
                            final(ctx).response.messages@.last(),
                            before.payment_channel.unwrap().endpoint.channel_id@,
                            before.shipment_refunds(group_id)->Ok_0,
                            spec_packet_timeout(state.block_time_nanos),
                        )
                    },
                }
            },
        },
{
    match msg {
        ExecuteMsg::AddProduct { product } => {
            match state.add_product(ctx, sender, product) {
                Ok(_) => Ok(()),
                Err(e) => Err(e),
            }
        },
        ExecuteMsg::ShipGroup { group_id } => state.ship_group(ctx, sender, group_id),
    }
}

/// Answers a query.
pub fn query(state: &State, store: &Store, msg: QueryMsg) -> (r: Result<QueryResponse, Error>)
    requires
        store@.wf(),
    ensures
        match msg {
            QueryMsg::ListProducts { owner, limit, start_after } => r matches Ok(
                QueryResponse::Products(page),
            ) && page@ == listed_products(
                store@.products,
                owner,
                start_after,
                spec_page_limit(limit),
            ),
            QueryMsg::ListGroups { owner, limit, start_after } => r matches Ok(
                QueryResponse::Groups(page),
            ) && page@ == listed_groups(
                store@,
                store@.groups.len(),
                owner,
                start_after,
                spec_page_limit(limit),
            ),
            QueryMsg::GetPurchases { ids } => match r {
                Ok(QueryResponse::Purchases(ps)) => {
                    &&& ps@.len() == ids@.len()
                    &&& forall|k: int|
                        0 <= k < ps@.len() ==> store@.has_purchase(#[trigger] ids@[k]) && ps@[k]
                            == store@.purchase(ids@[k])
                },
                Ok(_) => false,
                Err(e) => e == Error::PurchaseNotFound && exists|k: int|
                    0 <= k < ids@.len() && !store@.has_purchase(#[trigger] ids@[k]),
            },
            QueryMsg::GetProducts { ids } => match r {
                Ok(QueryResponse::Products(ps)) => {
                    &&& ps@.len() == ids@.len()
                    &&& forall|k: int|
                        0 <= k < ps@.len() ==> store@.has_product(#[trigger] ids@[k]) && ps@[k]
                            == store@.product(ids@[k]).spec_product()
                },
                Ok(_) => false,
                Err(e) => e == Error::ProductNotFound && exists|k: int|
                    0 <= k < ids@.len() && !store@.has_product(#[trigger] ids@[k]),
            },
            QueryMsg::GetGroups { ids } => match r {
                Ok(QueryResponse::Groups(gs)) => {
                    &&& gs@.len() == ids@.len()
                    &&& forall|k: int|
                        0 <= k < gs@.len() ==> store@.has_group(#[trigger] ids@[k]) && gs@[k]
                            == store@.group_info(ids@[k])
                },
                Ok(_) => false,
                Err(e) => e == Error::GroupNotFound && exists|k: int|
                    0 <= k < ids@.len() && !store@.has_group(#[trigger] ids@[k]),
            },
            QueryMsg::Info {  } => r matches Ok(QueryResponse::Info(info))
                && info.ibc_payment_channel == store@.payment_channel,
        },
{
    match msg {
        QueryMsg::ListProducts { owner, limit, start_after } => {
            match state.list_products(store, owner, limit, start_after) {
                Ok(page) => Ok(QueryResponse::Products(page)),
                Err(e) => Err(e),
            }
        },
        QueryMsg::ListGroups { owner, limit, start_after } => {
            match state.list_groups(store, owner, limit, start_after) {
                Ok(page) => Ok(QueryResponse::Groups(page)),
                Err(e) => Err(e),
            }
        },
        QueryMsg::GetPurchases { ids } => {
            match state.get_purchases(store, ids) {
                Ok(ps) => Ok(QueryResponse::Purchases(ps)),
                Err(e) => Err(e),
            }
        },
        QueryMsg::GetProducts { ids } => {
            match state.get_products(store, ids) {
                Ok(ps) => Ok(QueryResponse::Products(ps)),
                Err(e) => Err(e),
            }
        },
        QueryMsg::GetGroups { ids } => {
            match state.get_groups(store, ids) {
                Ok(gs) => Ok(QueryResponse::Groups(gs)),
                Err(e) => Err(e),
            }
        },
        QueryMsg::Info {  } => {
            let ibc_payment_channel = match &store.payment_channel {
                Some(c) => Some(copy_channel(c)),
                None => None,
            };
            Ok(QueryResponse::Info(InfoResp { ibc_payment_channel }))
        },
    }
}

} // verus!
