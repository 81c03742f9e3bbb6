use w3bay::decimal::Decimal;
use w3bay::error::Error;
use w3bay::ibc::{IbcChannel, IbcEndpoint, IbcOrder};
use w3bay::msg::contract::payment::{IbcExecuteMsg as PaymentIbcExecuteMsg, Refund};
use w3bay::msg::contract::warehouse::{
    ExecuteMsg, GroupInfo, IbcExecuteMsg, NewProduct, QueryMsg,
};
use w3bay::msg::product::Product;
use w3bay::response::{Event, OutMsg, Packet};
use w3bay::warehouse::entry::{execute, query, QueryResponse};
use w3bay::warehouse::ibc::{IbcChannelKind, PacketError};
use w3bay::msg::purchase::Purchase;
use w3bay::warehouse::{GroupRecord, Membership, ProductRecord, State, StateContext, Store};

fn channel(version: &str, id: &str) -> IbcChannel {
    IbcChannel {
        endpoint: IbcEndpoint { port_id: "wasm.warehouse".to_string(), channel_id: id.to_string() },
        counterparty_endpoint: IbcEndpoint {
            port_id: "wasm.other".to_string(),
            channel_id: "channel-9".to_string(),
        },
        order: IbcOrder::Ordered,
        version: version.to_string(),
        connection_id: "connection-0".to_string(),
    }
}

fn connected() -> (State, StateContext) {
    let state = State { block_time_nanos: 1_000 };
    let mut ctx = StateContext::new(Store::new());
    state
        .handle_ibc_channel_connect(&mut ctx, channel("warehouse-payment-001", "channel-1"), &None)
        .unwrap();
    state
        .handle_ibc_channel_connect(&mut ctx, channel("warehouse-nft-001", "channel-2"), &None)
        .unwrap();
    (state, StateContext::new(ctx.store))
}

fn product(name: &str, price: u128, stock: u32) -> NewProduct {
    NewProduct { name: name.to_string(), price: Decimal::from_units(price), stock }
}

fn refunds_of(msg: &OutMsg) -> (String, Vec<Refund>, u64) {
    match msg {
        OutMsg::SendPacket {
            channel_id,
            data: Packet::Payment(PaymentIbcExecuteMsg::Refund { refunds }),
            timeout_nanos,
        } => (channel_id.clone(), refunds.clone(), *timeout_nanos),
        other => panic!("not a refund packet: {:?}", other),
    }
}

#[test]
fn add_product_assigns_sequential_ids() {
    let (state, mut ctx) = connected();
    let a = state.add_product(&mut ctx, "merchant".to_string(), product("a", 5, 1)).unwrap();
    let b = state.add_product(&mut ctx, "merchant".to_string(), product("b", 6, 2)).unwrap();
    assert_eq!(a.id, 0);
    assert_eq!(b.id, 1);
    assert_eq!(
        b,
        Product { id: 1, name: "b".to_string(), price: Decimal::from_units(6), stock: 2 }
    );
    assert_eq!(ctx.response.events.len(), 2);
    match &ctx.response.events[1] {
        Event::AddProduct(e) => assert_eq!(e.product, b),
        other => panic!("unexpected event {:?}", other),
    }
    assert_eq!(state.get_product_owner(&ctx.store, 1), Ok("merchant".to_string()));
    assert_eq!(state.get_product(&ctx.store, 2), Err(Error::ProductNotFound));
}

#[test]
fn two_purchases_pool_into_one_group_and_ship() {
    let (state, mut ctx) = connected();
    state.add_product(&mut ctx, "merchant".to_string(), product("lamp", 100, 5)).unwrap();
    let first = state.make_purchase(&mut ctx, "alice".to_string(), 0, 1, 100).unwrap();
    let second = state.make_purchase(&mut ctx, "bob".to_string(), 0, 1, 100).unwrap();
    assert_eq!((first, second), (0, 1));
    let purchases = state.get_purchases(&ctx.store, vec![0, 1]).unwrap();
    assert_eq!(purchases[0].group_id, purchases[1].group_id);
    let info = state.get_group_info(&ctx.store, 0).unwrap();
    assert_eq!(info.count, 2);
    assert!(!info.has_shipped);
    let one = Decimal::one();
    let third = Decimal::from_ratio(1, 3);
    let share = one.checked_sub(third).unwrap();
    assert_eq!(info.discount_perc(), share.checked_mul(Decimal::from_units(100)).unwrap());
    assert_eq!(info.discount_perc().to_string(), "66.6666666666666667");
    assert_eq!(info.cost_per_item(), Decimal::from_units(100).checked_mul(third).unwrap());
    assert_eq!(info.cost_per_item().to_uint_floor(), Some(33));

    let mut ctx = StateContext::new(ctx.store);
    state.ship_group(&mut ctx, "merchant".to_string(), 0).unwrap();
    assert_eq!(ctx.response.messages.len(), 1);
    let (channel_id, refunds, timeout) = refunds_of(&ctx.response.messages[0]);
    assert_eq!(channel_id, "channel-1");
    assert_eq!(timeout, 1_000 + 120 * 1_000_000_000);
    assert_eq!(
        refunds,
        vec![
            Refund { recipient: "alice".to_string(), amount: 67 },
            Refund { recipient: "bob".to_string(), amount: 67 },
        ]
    );
    assert!(state.get_group_info(&ctx.store, 0).unwrap().has_shipped);
    assert_eq!(state.get_product(&ctx.store, 0).unwrap().stock, 3);
}

#[test]
fn single_purchase_then_burn_refunds_full_price() {
    let (state, mut ctx) = connected();
    state.add_product(&mut ctx, "merchant".to_string(), product("pen", 10, 7)).unwrap();
    let id = state.make_purchase(&mut ctx, "carol".to_string(), 0, 3, 35).unwrap();
    assert_eq!(state.get_product(&ctx.store, 0).unwrap().stock, 4);
    assert_eq!(state.get_group_count(&ctx.store, 0), Ok(1));
    let mut ctx = StateContext::new(ctx.store);
    state.remove_purchase(&mut ctx, id).unwrap();
    let (channel_id, refunds, _) = refunds_of(&ctx.response.messages[0]);
    assert_eq!(channel_id, "channel-1");
    assert_eq!(refunds, vec![Refund { recipient: "carol".to_string(), amount: 30 }]);
    assert_eq!(state.get_product(&ctx.store, 0).unwrap().stock, 7);
    assert_eq!(state.get_group_info(&ctx.store, 0), Err(Error::GroupNotFound));
    assert_eq!(state.get_group_count(&ctx.store, 0), Ok(0));
    assert_eq!(state.try_get_purchase(&ctx.store, id), Ok(None));
    assert!(ctx.store.groups.is_empty());
}

#[test]
fn purchase_is_refused_without_change() {
    let (state, mut ctx) = connected();
    state.add_product(&mut ctx, "merchant".to_string(), product("pen", 10, 2)).unwrap();
    let before = ctx.clone();
    assert_eq!(
        state.make_purchase(&mut ctx, "dave".to_string(), 0, 2, 19),
        Err(Error::InsufficientFees)
    );
    assert_eq!(
        state.make_purchase(&mut ctx, "dave".to_string(), 0, 3, 30),
        Err(Error::InsufficientStock)
    );
    assert_eq!(
        state.make_purchase(&mut ctx, "dave".to_string(), 4, 1, 30),
        Err(Error::ProductNotFound)
    );
    assert_eq!(ctx, before);
    assert_eq!(state.make_purchase(&mut ctx, "dave".to_string(), 0, 2, 20), Ok(0));
}

#[test]
fn fees_are_compared_with_fractional_prices() {
    let (state, mut ctx) = connected();
    let price = Decimal::from_ratio(21, 2);
    state
        .add_product(
            &mut ctx,
            "merchant".to_string(),
            NewProduct { name: "ink".to_string(), price, stock: 9 },
        )
        .unwrap();
    assert_eq!(
        state.make_purchase(&mut ctx, "erin".to_string(), 0, 3, 31),
        Err(Error::InsufficientFees)
    );
    assert_eq!(state.make_purchase(&mut ctx, "erin".to_string(), 0, 3, 32), Ok(0));
    let mut ctx = StateContext::new(ctx.store);
    state.remove_purchase(&mut ctx, 0).unwrap();
    let (_, refunds, _) = refunds_of(&ctx.response.messages[0]);
    assert_eq!(refunds[0].amount, 31);
}

#[test]
fn shipping_twice_fails_and_sends_nothing() {
    let (state, mut ctx) = connected();
    state.add_product(&mut ctx, "merchant".to_string(), product("lamp", 100, 5)).unwrap();
    state.make_purchase(&mut ctx, "alice".to_string(), 0, 1, 100).unwrap();
    assert_eq!(
        state.ship_group(&mut ctx, "mallory".to_string(), 0),
        Err(Error::NotGroupOwner)
    );
    assert_eq!(state.ship_group(&mut ctx, "merchant".to_string(), 7), Err(Error::GroupNotFound));
    state.ship_group(&mut ctx, "merchant".to_string(), 0).unwrap();
    let after = ctx.clone();
    assert_eq!(
        state.ship_group(&mut ctx, "merchant".to_string(), 0),
        Err(Error::GroupAlreadyShipped)
    );
    assert_eq!(
        state.ship_group(&mut ctx, "mallory".to_string(), 0),
        Err(Error::GroupAlreadyShipped)
    );
    assert_eq!(ctx, after);
    assert_eq!(state.assert_group_not_shipped(&ctx.store, 0), Err(Error::GroupAlreadyShipped));
    assert_eq!(state.assert_group_not_shipped(&ctx.store, 1), Ok(()));
}

#[test]
fn single_member_group_ships_at_half_price() {
    let (state, mut ctx) = connected();
    state.add_product(&mut ctx, "merchant".to_string(), product("lamp", 100, 5)).unwrap();
    state.make_purchase(&mut ctx, "alice".to_string(), 0, 2, 200).unwrap();
    let info = state.get_group_info(&ctx.store, 0).unwrap();
    assert_eq!(info.discount_perc(), Decimal::from_units(50));
    assert_eq!(info.cost_per_item(), Decimal::from_units(50));
    let mut ctx = StateContext::new(ctx.store);
    state.ship_group(&mut ctx, "merchant".to_string(), 0).unwrap();
    let (_, refunds, _) = refunds_of(&ctx.response.messages[0]);
    assert_eq!(refunds, vec![Refund { recipient: "alice".to_string(), amount: 100 }]);
}

#[test]
fn empty_group_has_no_discount() {
    let info = GroupInfo {
        id: 0,
        count: 0,
        product: Product {
            id: 0,
            name: "lamp".to_string(),
            price: Decimal::from_units(100),
            stock: 1,
        },
        has_shipped: false,
    };
    assert_eq!(info.discount_perc(), Decimal::from_units(0));
    assert_eq!(info.cost_per_item(), Decimal::from_units(100));
}

#[test]
fn purchase_after_shipment_opens_new_group() {
    let (state, mut ctx) = connected();
    state.add_product(&mut ctx, "merchant".to_string(), product("lamp", 100, 5)).unwrap();
    state.make_purchase(&mut ctx, "alice".to_string(), 0, 1, 100).unwrap();
    state.ship_group(&mut ctx, "merchant".to_string(), 0).unwrap();
    let id = state.make_purchase(&mut ctx, "bob".to_string(), 0, 1, 100).unwrap();
    let purchase = state.try_get_purchase(&ctx.store, id).unwrap().unwrap();
    assert_eq!(purchase.group_id, 1);
    assert_eq!(state.get_group_count(&ctx.store, 1), Ok(1));
    assert!(!state.get_group_info(&ctx.store, 1).unwrap().has_shipped);
}

#[test]
fn removal_after_shipment_is_rejected() {
    let (state, mut ctx) = connected();
    state.add_product(&mut ctx, "merchant".to_string(), product("lamp", 100, 5)).unwrap();
    let id = state.make_purchase(&mut ctx, "alice".to_string(), 0, 1, 100).unwrap();
    state.ship_group(&mut ctx, "merchant".to_string(), 0).unwrap();
    let before = ctx.clone();
    assert_eq!(state.remove_purchase(&mut ctx, id), Err(Error::GroupAlreadyShipped));
    assert_eq!(state.remove_purchase(&mut ctx, 9), Err(Error::PurchaseNotFound));
    assert_eq!(ctx, before);
}

#[test]
fn removal_twice_is_a_hard_failure() {
    let (state, mut ctx) = connected();
    state.add_product(&mut ctx, "merchant".to_string(), product("lamp", 100, 5)).unwrap();
    state.make_purchase(&mut ctx, "alice".to_string(), 0, 1, 100).unwrap();
    state.make_purchase(&mut ctx, "bob".to_string(), 0, 2, 200).unwrap();
    state.remove_purchase(&mut ctx, 0).unwrap();
    assert_eq!(state.get_group_count(&ctx.store, 0), Ok(1));
    assert_eq!(state.get_product(&ctx.store, 0).unwrap().stock, 3);
    assert_eq!(state.remove_purchase(&mut ctx, 0), Err(Error::PurchaseNotFound));
}

#[test]
fn stock_moves_only_through_its_handlers() {
    let (state, mut ctx) = connected();
    state.add_product(&mut ctx, "merchant".to_string(), product("lamp", 100, 5)).unwrap();
    assert_eq!(state.remove_product_stock(&mut ctx, 0, 6), Err(Error::InsufficientStock));
    assert_eq!(state.remove_product_stock(&mut ctx, 0, 5), Ok(()));
    assert_eq!(state.get_product(&ctx.store, 0).unwrap().stock, 0);
    assert_eq!(state.add_product_stock(&mut ctx, 0, u32::MAX), Ok(()));
    assert_eq!(state.add_product_stock(&mut ctx, 0, 1), Err(Error::Overflow));
    assert_eq!(state.add_product_stock(&mut ctx, 3, 1), Err(Error::ProductNotFound));
    assert_eq!(state.remove_product_stock(&mut ctx, 3, 1), Err(Error::ProductNotFound));
}

#[test]
fn groups_are_joined_and_left_directly() {
    let (state, mut ctx) = connected();
    state.add_product(&mut ctx, "merchant".to_string(), product("lamp", 100, 5)).unwrap();
    assert_eq!(state.add_purchase_to_group(&mut ctx, 0, 0), Ok(0));
    assert_eq!(state.add_purchase_to_group(&mut ctx, 1, 0), Ok(0));
    assert_eq!(state.add_purchase_to_group(&mut ctx, 2, 5), Err(Error::ProductNotFound));
    let before = ctx.clone();
    assert_eq!(state.add_purchase_to_group(&mut ctx, 1, 0), Err(Error::AlreadyInGroup));
    assert_eq!(ctx, before);
    assert_eq!(state.get_group_count(&ctx.store, 0), Ok(2));
    assert_eq!(
        ctx.store.members,
        vec![
            Membership { group_id: 0, purchase_id: 0 },
            Membership { group_id: 0, purchase_id: 1 },
        ]
    );
    assert!(ctx.store.is_in_order());
    assert!(!ctx.store.is_well_formed());
    assert_eq!(
        state.remove_purchase_from_group(&mut ctx, 0, 0),
        Err(Error::PurchaseNotFound)
    );
}

#[test]
fn purchase_packet_asks_for_a_receipt() {
    let (state, mut ctx) = connected();
    state.add_product(&mut ctx, "merchant".to_string(), product("pen", 10, 7)).unwrap();
    let mut ctx = StateContext::new(ctx.store);
    let msg = IbcExecuteMsg::Purchase {
        owner: "nft-owner".to_string(),
        spender: "carol".to_string(),
        product_id: 0,
        quantity: 3,
        fees: 35,
    };
    assert_eq!(state.handle_ibc_packet_receive(&mut ctx, msg), Ok(()));
    assert_eq!(ctx.response.events.len(), 1);
    match &ctx.response.messages[0] {
        OutMsg::SendPacket {
            channel_id,
            data: Packet::Nft(w3bay::msg::contract::nft::IbcExecuteMsg::Mint { owner, metadata }),
            timeout_nanos,
        } => {
            assert_eq!(channel_id, "channel-2");
            assert_eq!(owner, "nft-owner");
            assert_eq!(*timeout_nanos, 1_000 + 120_000_000_000);
            assert_eq!(metadata.name, Some("Purchase #0".to_string()));
            assert_eq!(metadata.description, Some("Product #0".to_string()));
            let attributes = metadata.attributes.clone().unwrap();
            assert_eq!(attributes.len(), 3);
            assert_eq!(attributes[0].trait_type, "product-id");
            assert_eq!(attributes[0].value, "0");
            assert_eq!(attributes[1].trait_type, "purchase-id");
            assert_eq!(attributes[1].value, "0");
            assert_eq!(attributes[2].trait_type, "quantity");
            assert_eq!(attributes[2].value, "3");
        },
        other => panic!("unexpected message {:?}", other),
    }
}

#[test]
fn refused_purchase_packet_carries_the_request() {
    let (state, mut ctx) = connected();
    state.add_product(&mut ctx, "merchant".to_string(), product("pen", 10, 7)).unwrap();
    let before = ctx.clone();
    let msg = IbcExecuteMsg::Purchase {
        owner: "nft-owner".to_string(),
        spender: "carol".to_string(),
        product_id: 0,
        quantity: 3,
        fees: 29,
    };
    match state.handle_ibc_packet_receive(&mut ctx, msg) {
        Err(PacketError::Purchase(e)) => {
            assert_eq!(e.owner, "nft-owner");
            assert_eq!(e.spender, "carol");
            assert_eq!((e.product_id, e.quantity, e.fees), (0, 3, 29));
            assert_eq!(e.reason, Error::InsufficientFees);
        },
        other => panic!("unexpected result {:?}", other),
    }
    assert_eq!(ctx, before);
    assert_eq!(
        state.handle_ibc_packet_receive(&mut ctx, IbcExecuteMsg::RemovePurchase { id: 4 }),
        Err(PacketError::Failed(Error::PurchaseNotFound))
    );
}

#[test]
fn packets_need_their_channels() {
    let state = State { block_time_nanos: 5 };
    let mut ctx = StateContext::new(Store::new());
    state.add_product(&mut ctx, "merchant".to_string(), product("pen", 10, 7)).unwrap();
    let msg = IbcExecuteMsg::Purchase {
        owner: "o".to_string(),
        spender: "s".to_string(),
        product_id: 0,
        quantity: 1,
        fees: 10,
    };
    let before = ctx.clone();
    assert_eq!(
        state.handle_ibc_packet_receive(&mut ctx, msg),
        Err(PacketError::Failed(Error::ChannelNotConnected))
    );
    assert_eq!(ctx, before);
    state.make_purchase(&mut ctx, "s".to_string(), 0, 1, 10).unwrap();
    assert_eq!(state.remove_purchase(&mut ctx, 0), Err(Error::ChannelNotConnected));
    assert_eq!(state.ship_group(&mut ctx, "merchant".to_string(), 0), Err(Error::ChannelNotConnected));
    assert_eq!(
        state.get_ibc_channel(&ctx.store, IbcChannelKind::Payment),
        Err(Error::ChannelNotConnected)
    );
}

#[test]
fn handshake_fills_the_slot_that_the_version_names() {
    let (state, ctx) = connected();
    let payment = state.get_ibc_channel(&ctx.store, IbcChannelKind::Payment).unwrap();
    let nft = state.get_ibc_channel(&ctx.store, IbcChannelKind::Nft).unwrap();
    assert_eq!(payment.endpoint.channel_id, "channel-1");
    assert_eq!(nft.endpoint.channel_id, "channel-2");
    let mut ctx = ctx;
    assert_eq!(
        state.handle_ibc_channel_connect(&mut ctx, channel("warehouse-other-001", "channel-3"), &None),
        Err(Error::InvalidChannelVersion)
    );
    assert_eq!(
        state.handle_ibc_channel_open(
            &channel("warehouse-nft-001", "channel-3"),
            &Some("warehouse-payment-001".to_string())
        ),
        Err(Error::InvalidCounterpartyVersion)
    );
    assert_eq!(
        state.handle_ibc_channel_open(
            &channel("warehouse-nft-001", "channel-3"),
            &Some("warehouse-nft-001".to_string())
        ),
        Ok(())
    );
    let mut unordered = channel("warehouse-nft-001", "channel-3");
    unordered.order = IbcOrder::Unordered;
    assert_eq!(state.handle_ibc_channel_open(&unordered, &None), Err(Error::InvalidChannelOrder));
    let closed = channel("warehouse-nft-001", "channel-2");
    assert_eq!(state.handle_ibc_channel_close(&mut ctx, closed.clone()), Ok(()));
    assert_eq!(ctx.response.events.last(), Some(&Event::IbcChannelClose(closed)));
}

#[test]
fn listings_are_paged() {
    let (state, mut ctx) = connected();
    for i in 0..12u32 {
        let owner = if i % 2 == 0 { "even" } else { "odd" };
        state.add_product(&mut ctx, owner.to_string(), product("p", 1, 10)).unwrap();
    }
    let all = state.list_products(&ctx.store, None, None, None).unwrap();
    assert_eq!(all.len(), 10);
    assert_eq!(all[9].id, 9);
    let odd = state.list_products(&ctx.store, Some("odd".to_string()), Some(2), Some(3)).unwrap();
    assert_eq!(odd.iter().map(|p| p.id).collect::<Vec<u32>>(), vec![5, 7]);
    let capped = state.list_products(&ctx.store, None, Some(1000), None).unwrap();
    assert_eq!(capped.len(), 12);
    state.make_purchase(&mut ctx, "a".to_string(), 1, 1, 1).unwrap();
    state.make_purchase(&mut ctx, "a".to_string(), 2, 1, 1).unwrap();
    let groups = state.list_groups(&ctx.store, Some("even".to_string()), None, None).unwrap();
    assert_eq!(groups.len(), 1);
    assert_eq!(groups[0].id, 1);
    assert_eq!(groups[0].product.id, 2);
    assert_eq!(state.get_products(&ctx.store, vec![3, 1]).unwrap()[0].id, 3);
    assert_eq!(state.get_products(&ctx.store, vec![3, 40]), Err(Error::ProductNotFound));
    assert_eq!(state.get_groups(&ctx.store, vec![0, 9]), Err(Error::GroupNotFound));
}

#[test]
fn entry_points_dispatch() {
    let (state, mut ctx) = connected();
    let add = ExecuteMsg::AddProduct { product: product("lamp", 100, 5) };
    assert_eq!(execute(&state, &mut ctx, "merchant".to_string(), add), Ok(()));
    state.make_purchase(&mut ctx, "alice".to_string(), 0, 1, 100).unwrap();
    let ship = ExecuteMsg::ShipGroup { group_id: 0 };
    assert_eq!(execute(&state, &mut ctx, "nobody".to_string(), ship.clone()), Err(Error::NotGroupOwner));
    assert_eq!(execute(&state, &mut ctx, "merchant".to_string(), ship), Ok(()));
    match query(&state, &ctx.store, QueryMsg::GetGroups { ids: vec![0] }) {
        Ok(QueryResponse::Groups(groups)) => assert!(groups[0].has_shipped),
        other => panic!("unexpected answer {:?}", other),
    }
    match query(&state, &ctx.store, QueryMsg::Info {}) {
        Ok(QueryResponse::Info(info)) => {
            assert_eq!(info.ibc_payment_channel.unwrap().endpoint.channel_id, "channel-1")
        },
        other => panic!("unexpected answer {:?}", other),
    }
    match query(&state, &ctx.store, QueryMsg::GetPurchases { ids: vec![0] }) {
        Ok(QueryResponse::Purchases(ps)) => assert_eq!(ps[0].spender, "alice"),
        other => panic!("unexpected answer {:?}", other),
    }
}

#[test]
fn stores_are_audited() {
    let (state, mut ctx) = connected();
    assert!(ctx.store.is_well_formed());
    state.add_product(&mut ctx, "merchant".to_string(), product("lamp", 100, 5)).unwrap();
    state.add_product(&mut ctx, "merchant".to_string(), product("pen", 10, 5)).unwrap();
    state.make_purchase(&mut ctx, "alice".to_string(), 0, 1, 100).unwrap();
    state.make_purchase(&mut ctx, "bob".to_string(), 1, 1, 10).unwrap();
    state.ship_group(&mut ctx, "merchant".to_string(), 0).unwrap();
    assert!(ctx.store.is_well_formed());

    let good = ctx.store.clone();
    let mut bad = good.clone();
    bad.products.swap(0, 1);
    assert!(!bad.is_well_formed());
    let mut bad = good.clone();
    bad.next_purchase_id = 1;
    assert!(!bad.is_well_formed());
    let mut bad = good.clone();
    bad.next_group_id = 1;
    assert!(!bad.is_well_formed());
    let mut bad = good.clone();
    bad.products[0].pending_group = Some(0);
    assert!(!bad.is_well_formed());
    let mut bad = good.clone();
    bad.products[1].pending_group = None;
    assert!(!bad.is_well_formed());
    let mut bad = good.clone();
    bad.groups[1].product_id = 9;
    assert!(!bad.is_well_formed());
    let mut bad = good.clone();
    bad.purchases[0].product_id = 9;
    assert!(!bad.is_well_formed());
    let mut bad = good.clone();
    bad.purchases.push(Purchase {
        id: 1,
        product_id: 0,
        quantity: 1,
        spender: "x".to_string(),
        group_id: 0,
    });
    assert!(!bad.is_well_formed());
    let mut bad = good;
    bad.groups.insert(
        0,
        GroupRecord { id: 0, product_id: 0, owner: "m".to_string(), count: 1, has_shipped: true },
    );
    bad.products.push(ProductRecord {
        id: 2,
        owner: "m".to_string(),
        name: "n".to_string(),
        price: Decimal::one(),
        stock: 0,
        pending_group: None,
    });
    assert!(!bad.is_well_formed());
}

#[test]
fn refunds_must_fit_in_128_bits() {
    let (state, mut ctx) = connected();
    state
        .add_product(&mut ctx, "merchant".to_string(), product("gem", u128::MAX, 9))
        .unwrap();
    assert_eq!(
        state.make_purchase(&mut ctx, "alice".to_string(), 0, 2, u128::MAX),
        Err(Error::InsufficientFees)
    );
    state.make_purchase(&mut ctx, "alice".to_string(), 0, 1, u128::MAX).unwrap();
    ctx.store.purchases[0] = Purchase {
        id: 0,
        product_id: 0,
        quantity: 4,
        spender: "alice".to_string(),
        group_id: 0,
    };
    assert!(ctx.store.is_well_formed());
    let before = ctx.clone();
    assert_eq!(
        state.ship_group(&mut ctx, "merchant".to_string(), 0),
        Err(Error::AmountOutOfRange)
    );
    assert_eq!(state.remove_purchase(&mut ctx, 0), Err(Error::AmountOutOfRange));
    assert_eq!(ctx, before);
}

#[test]
fn purchases_leave_only_the_pending_group() {
    let (state, mut ctx) = connected();
    state.add_product(&mut ctx, "merchant".to_string(), product("lamp", 100, 5)).unwrap();
    state.add_product(&mut ctx, "merchant".to_string(), product("pen", 10, 5)).unwrap();
    state.make_purchase(&mut ctx, "alice".to_string(), 0, 1, 100).unwrap();
    state.make_purchase(&mut ctx, "bob".to_string(), 1, 1, 10).unwrap();
    let before = ctx.clone();
    assert_eq!(
        state.remove_purchase_from_group(&mut ctx, 0, 1),
        Err(Error::NotInPendingGroup)
    );
    assert_eq!(
        state.remove_purchase_from_group(&mut ctx, 0, 7),
        Err(Error::ProductNotFound)
    );
    assert_eq!(ctx, before);
    assert_eq!(state.remove_purchase_from_group(&mut ctx, 0, 0), Ok(()));
    assert_eq!(state.get_group_info(&ctx.store, 0), Err(Error::GroupNotFound));
    assert_eq!(state.get_product(&ctx.store, 0).unwrap().stock, 4);
}

#[test]
fn counters_and_clocks_run_out() {
    let (state, mut ctx) = connected();
    state.add_product(&mut ctx, "merchant".to_string(), product("lamp", 100, 5)).unwrap();
    ctx.store.next_purchase_id = u64::MAX;
    assert_eq!(
        state.make_purchase(&mut ctx, "alice".to_string(), 0, 1, 100),
        Err(Error::Overflow)
    );
    ctx.store.next_purchase_id = 0;
    ctx.store.next_group_id = u64::MAX;
    assert_eq!(
        state.make_purchase(&mut ctx, "alice".to_string(), 0, 1, 100),
        Err(Error::Overflow)
    );
    ctx.store.next_group_id = 0;
    state.make_purchase(&mut ctx, "alice".to_string(), 0, 1, 100).unwrap();
    let late = State { block_time_nanos: u64::MAX };
    let before = ctx.clone();
    assert_eq!(late.ship_group(&mut ctx, "merchant".to_string(), 0), Err(Error::Overflow));
    assert_eq!(late.remove_purchase(&mut ctx, 0), Err(Error::Overflow));
    assert_eq!(ctx, before);
}

#[test]
fn stock_and_purchases_add_up_to_what_was_added() {
    let (state, mut ctx) = connected();
    state.add_product(&mut ctx, "merchant".to_string(), product("lamp", 100, 20)).unwrap();
    state.add_product(&mut ctx, "merchant".to_string(), product("pen", 10, 30)).unwrap();
    let held = |ctx: &StateContext, product_id: u32| -> u32 {
        ctx.store.purchases.iter().filter(|p| p.product_id == product_id).map(|p| p.quantity).sum()
    };
    let whole = |ctx: &StateContext| {
        let lamp = state.get_product(&ctx.store, 0).unwrap().stock + held(ctx, 0);
        let pen = state.get_product(&ctx.store, 1).unwrap().stock + held(ctx, 1);
        (lamp, pen)
    };
    assert_eq!(whole(&ctx), (20, 30));
    state.make_purchase(&mut ctx, "a".to_string(), 0, 3, 300).unwrap();
    state.make_purchase(&mut ctx, "b".to_string(), 1, 7, 70).unwrap();
    state.make_purchase(&mut ctx, "c".to_string(), 0, 5, 500).unwrap();
    assert_eq!(whole(&ctx), (20, 30));
    assert_eq!(state.get_product(&ctx.store, 0).unwrap().stock, 12);
    state.remove_purchase(&mut ctx, 0).unwrap();
    assert_eq!(whole(&ctx), (20, 30));
    state.ship_group(&mut ctx, "merchant".to_string(), 0).unwrap();
    assert_eq!(whole(&ctx), (20, 30));
    state.make_purchase(&mut ctx, "d".to_string(), 0, 2, 200).unwrap();
    state.remove_purchase(&mut ctx, 3).unwrap();
    assert_eq!(whole(&ctx), (20, 30));
    assert_eq!(state.get_product(&ctx.store, 0).unwrap().stock, 15);
    for group in &ctx.store.groups {
        let attached = ctx.store.purchases.iter().filter(|p| p.group_id == group.id).count();
        assert_eq!(group.count as usize, attached);
    }
    let unshipped: Vec<u32> =
        ctx.store.groups.iter().filter(|g| !g.has_shipped).map(|g| g.product_id).collect();
    assert_eq!(unshipped, vec![1]);
}

#[test]
fn shipment_aborts_where_a_member_is_not_on_record() {
    let (state, mut ctx) = connected();
    state.add_product(&mut ctx, "merchant".to_string(), product("lamp", 100, 5)).unwrap();
    state.make_purchase(&mut ctx, "alice".to_string(), 0, 1, 100).unwrap();
    state.remove_purchase(&mut ctx, 0).unwrap();
    assert_eq!(state.add_purchase_to_group(&mut ctx, 0, 0), Ok(1));
    assert_eq!(ctx.store.members, vec![Membership { group_id: 1, purchase_id: 0 }]);
    assert!(ctx.store.is_well_formed());
    let before = ctx.clone();
    assert_eq!(
        state.ship_group(&mut ctx, "merchant".to_string(), 1),
        Err(Error::PurchaseNotFound)
    );
    assert_eq!(ctx, before);
    state.make_purchase(&mut ctx, "bob".to_string(), 0, 1, 100).unwrap();
    assert_eq!(state.get_group_count(&ctx.store, 1), Ok(2));
    assert_eq!(
        state.ship_group(&mut ctx, "merchant".to_string(), 1),
        Err(Error::PurchaseNotFound)
    );
    assert!(!state.get_group_info(&ctx.store, 1).unwrap().has_shipped);
}

#[test]
fn members_are_kept_in_order_and_counted() {
    let (state, mut ctx) = connected();
    state.add_product(&mut ctx, "merchant".to_string(), product("lamp", 100, 9)).unwrap();
    state.add_product(&mut ctx, "merchant".to_string(), product("pen", 10, 9)).unwrap();
    assert_eq!(state.add_purchase_to_group(&mut ctx, 7, 0), Ok(0));
    assert_eq!(state.add_purchase_to_group(&mut ctx, 3, 1), Ok(1));
    assert_eq!(state.add_purchase_to_group(&mut ctx, 5, 0), Ok(0));
    assert_eq!(
        ctx.store.members,
        vec![
            Membership { group_id: 1, purchase_id: 3 },
            Membership { group_id: 0, purchase_id: 5 },
            Membership { group_id: 0, purchase_id: 7 },
        ]
    );
    assert_eq!(ctx.store.count_members(0), 2);
    assert_eq!(ctx.store.count_members(1), 1);
    assert_eq!(ctx.store.count_members(2), 0);
    assert!(ctx.store.is_in_order());

    let (state, mut ctx) = connected();
    state.add_product(&mut ctx, "merchant".to_string(), product("lamp", 100, 9)).unwrap();
    state.make_purchase(&mut ctx, "alice".to_string(), 0, 1, 100).unwrap();
    state.make_purchase(&mut ctx, "bob".to_string(), 0, 1, 100).unwrap();
    assert_eq!(state.get_group_count(&ctx.store, 0), Ok(2));
    state.remove_purchase(&mut ctx, 0).unwrap();
    assert_eq!(state.get_group_count(&ctx.store, 0), Ok(1));
    assert_eq!(ctx.store.members, vec![Membership { group_id: 0, purchase_id: 1 }]);
    assert_eq!(state.make_purchase(&mut ctx, "carol".to_string(), 0, 1, 100), Ok(2));
    assert!(ctx.store.is_well_formed());

    let mut bad = ctx.store.clone();
    bad.members.swap(0, 1);
    assert!(!bad.is_in_order());
    let mut bad = ctx.store.clone();
    bad.members.pop();
    assert!(!bad.is_in_order());
    let mut bad = ctx.store.clone();
    bad.groups[0].count += 1;
    assert!(!bad.is_in_order());
    let mut bad = ctx.store.clone();
    bad.members[0].group_id = 9;
    assert!(!bad.is_well_formed());
    let mut bad = ctx.store.clone();
    bad.purchases[0].group_id = 7;
    assert!(bad.is_in_order());
    assert!(!bad.is_well_formed());
    let mut bad = ctx.store.clone();
    bad.next_purchase_id = 3;
    bad.purchases.pop();
    assert!(bad.is_in_order());
    assert!(bad.is_well_formed());
    bad.next_purchase_id = 2;
    assert!(bad.is_in_order());
    assert!(!bad.is_well_formed());
}

#[test]
fn a_purchase_leaves_only_the_group_it_is_attached_to() {
    let (state, mut ctx) = connected();
    state.add_product(&mut ctx, "merchant".to_string(), product("lamp", 100, 9)).unwrap();
    state.make_purchase(&mut ctx, "alice".to_string(), 0, 1, 100).unwrap();
    state.make_purchase(&mut ctx, "bob".to_string(), 0, 1, 100).unwrap();
    assert_eq!(state.remove_purchase_from_group(&mut ctx, 0, 0), Ok(()));
    assert_eq!(ctx.store.members, vec![Membership { group_id: 0, purchase_id: 1 }]);
    assert_eq!(state.get_group_count(&ctx.store, 0), Ok(1));
    assert!(ctx.store.is_in_order());
    assert!(!ctx.store.is_well_formed());
    let before = ctx.clone();
    assert_eq!(
        state.remove_purchase_from_group(&mut ctx, 0, 0),
        Err(Error::NotInPendingGroup)
    );
    assert_eq!(ctx, before);
}
