use w3bay::decimal::Decimal;
use w3bay::error::Error;
use w3bay::event::{channel_event, Attribute, RawEvent};
use w3bay::ibc::{IbcChannel, IbcEndpoint, IbcOrder};
use w3bay::msg::contract::nft::{
    ApprovalEvent, ApproveAllEvent, BurnEvent, Expiration, MintEvent, RevokeAllEvent, RevokeEvent,
    TransferEvent,
};
use w3bay::msg::contract::warehouse::{AddProductEvent, PurchaseEvent};
use w3bay::msg::product::Product;
use w3bay::msg::purchase::Purchase;

fn pair(key: &str, value: &str) -> Attribute {
    Attribute { key: key.to_string(), value: value.to_string() }
}

fn on_chain(mut evt: RawEvent) -> RawEvent {
    evt.ty = format!("wasm-{}", evt.ty);
    evt
}

#[test]
fn decimals_are_written_and_read_as_text() {
    assert_eq!(Decimal::from_units(100).to_string(), "100");
    assert_eq!(Decimal::from_ratio(1, 3).to_string(), "0.333333333333333333");
    assert_eq!(Decimal::from_ratio(21, 2).to_string(), "10.5");
    assert_eq!(Decimal::from_ratio(105, 100).to_string(), "1.05");
    assert_eq!(Decimal::from_units(0).to_string(), "0");
    assert_eq!(Decimal::from_ratio(1, 1_000_000_000_000_000_000).to_string(), "0.000000000000000001");
    assert_eq!(Decimal::from_units(u128::MAX).to_string(), "340282366920938463463374607431768211455");
    assert_eq!(Decimal::parse("10.5"), Some(Decimal::from_ratio(21, 2)));
    assert_eq!(Decimal::parse("000012"), Some(Decimal::from_units(12)));
    assert_eq!(Decimal::parse("1.123000000"), Some(Decimal::from_ratio(1123, 1000)));
    assert_eq!(Decimal::parse(""), None);
    assert_eq!(Decimal::parse(".23"), None);
    assert_eq!(Decimal::parse("1.2.3"), None);
    assert_eq!(Decimal::parse("1.0000000000000000001"), None);
}

#[test]
fn purchase_events_read_back() {
    let event = PurchaseEvent {
        purchase: Purchase {
            id: 12,
            product_id: 3,
            quantity: 40,
            spender: "alice".to_string(),
            group_id: 7,
        },
    };
    let raw = event.to_event();
    assert_eq!(raw.ty, "purchase");
    assert_eq!(
        raw.attributes,
        vec![
            pair("id", "12"),
            pair("product-id", "3"),
            pair("group-id", "7"),
            pair("quantity", "40"),
            pair("spender", "alice"),
        ]
    );
    assert_eq!(PurchaseEvent::try_from(&raw), Err(Error::UnexpectedEventType));
    assert_eq!(PurchaseEvent::try_from(&on_chain(raw)), Ok(event));
}

#[test]
fn purchase_events_must_be_whole() {
    let whole = RawEvent {
        ty: "wasm-purchase".to_string(),
        attributes: vec![
            pair("spender", "bob"),
            pair("quantity", "4294967295"),
            pair("id", "1"),
            pair("id", "2"),
            pair("group-id", "0"),
            pair("product-id", "9"),
        ],
    };
    let read = PurchaseEvent::try_from(&whole).unwrap().purchase;
    assert_eq!((read.id, read.product_id, read.group_id, read.quantity), (1, 9, 0, u32::MAX));
    let mut bad = whole.clone();
    bad.attributes[1] = pair("quantity", "4294967296");
    assert_eq!(PurchaseEvent::try_from(&bad), Err(Error::MalformedAttribute));
    let mut bad = whole.clone();
    bad.attributes.remove(4);
    assert_eq!(PurchaseEvent::try_from(&bad), Err(Error::MissingAttribute));
    let mut bad = whole.clone();
    bad.attributes[2] = pair("id", "x");
    assert_eq!(PurchaseEvent::try_from(&bad), Err(Error::MalformedAttribute));
    assert_eq!(whole.string_attr("spender"), Ok("bob".to_string()));
    assert_eq!(whole.string_attr("owner"), Err(Error::MissingAttribute));
    assert_eq!(whole.u64_attr("id"), Ok(1));
    assert_eq!(whole.u32_attr("product-id"), Ok(9));
}

#[test]
fn product_events_read_back() {
    let event = AddProductEvent {
        product: Product {
            id: 5,
            name: "lamp".to_string(),
            price: Decimal::from_ratio(199, 100),
            stock: 8,
        },
    };
    let raw = event.to_event();
    assert_eq!(raw.ty, "add-product");
    assert_eq!(
        raw.attributes,
        vec![pair("id", "5"), pair("name", "lamp"), pair("price", "1.99"), pair("stock", "8")]
    );
    assert_eq!(AddProductEvent::try_from(&raw), Err(Error::UnexpectedEventType));
    let raw = on_chain(raw);
    assert_eq!(AddProductEvent::try_from(&raw), Ok(event));
    let mut bad = raw.clone();
    bad.attributes[2] = pair("price", "cheap");
    assert_eq!(AddProductEvent::try_from(&bad), Err(Error::MalformedAttribute));
    let mut bad = raw.clone();
    bad.attributes.pop();
    assert_eq!(AddProductEvent::try_from(&bad), Err(Error::MissingAttribute));
    let price = Decimal::from_units(3);
    assert_eq!(AddProductEvent::with_price(&raw, Ok(Some(price))).unwrap().product.price, price);
    assert_eq!(AddProductEvent::with_price(&raw, Ok(None)), Err(Error::MalformedAttribute));
    assert_eq!(
        AddProductEvent::with_price(&raw, Err(Error::MissingAttribute)),
        Err(Error::MissingAttribute)
    );
    assert_eq!(
        AddProductEvent::with_price(&bad, Ok(Some(price))),
        Err(Error::MissingAttribute)
    );
}

#[test]
fn token_events_read_back() {
    let mint = MintEvent { token_id: "4".to_string(), owner: "alice".to_string() };
    let raw = mint.to_event();
    assert_eq!(raw.ty, "mint");
    assert_eq!(raw.attributes, vec![pair("token_id", "4"), pair("owner", "alice")]);
    assert_eq!(MintEvent::try_from(&raw), Ok(mint));
    let burn = BurnEvent { token_id: "4".to_string() };
    let raw = burn.to_event();
    assert_eq!(raw.ty, "burn");
    assert_eq!(BurnEvent::try_from(&raw), Ok(burn));
    assert_eq!(MintEvent::try_from(&raw), Err(Error::MissingAttribute));
    let empty = RawEvent { ty: "wasm-burn".to_string(), attributes: vec![] };
    assert_eq!(BurnEvent::try_from(&empty), Err(Error::MissingAttribute));
}

#[test]
fn approval_and_transfer_events_are_written() {
    let revoke = RevokeEvent { token_id: "4".to_string(), spender: "bob".to_string() }.to_event();
    assert_eq!(revoke.ty, "revoke");
    assert_eq!(revoke.attributes, vec![pair("token_id", "4"), pair("spender", "bob")]);
    let revoke_all = RevokeAllEvent { operator: "op".to_string() }.to_event();
    assert_eq!(revoke_all.ty, "revoke-all");
    assert_eq!(revoke_all.attributes, vec![pair("operator", "op")]);
    let transfer =
        TransferEvent { recipient: "carol".to_string(), token_id: "4".to_string() }.to_event();
    assert_eq!(transfer.ty, "transfer");
    assert_eq!(transfer.attributes, vec![pair("recipient", "carol"), pair("token_id", "4")]);
    let approval = ApprovalEvent {
        token_id: "4".to_string(),
        spender: "bob".to_string(),
        expires: Expiration::AtHeight(9),
    }
    .to_event("expiration height: 9".to_string());
    assert_eq!(approval.ty, "approval");
    assert_eq!(
        approval.attributes,
        vec![pair("token_id", "4"), pair("spender", "bob"), pair("expires", "expiration height: 9")]
    );
    let all = ApproveAllEvent { operator: "op".to_string(), expires: Expiration::Never {} }
        .to_event("expiration: never".to_string());
    assert_eq!(all.ty, "approve-all");
    assert_eq!(all.attributes, vec![pair("operator", "op"), pair("expires", "expiration: never")]);
}

#[test]
fn channel_events_name_the_channel() {
    let channel = IbcChannel {
        endpoint: IbcEndpoint { port_id: "wasm.a".to_string(), channel_id: "channel-1".to_string() },
        counterparty_endpoint: IbcEndpoint {
            port_id: "wasm.b".to_string(),
            channel_id: "channel-2".to_string(),
        },
        order: IbcOrder::Ordered,
        version: "warehouse-nft-001".to_string(),
        connection_id: "connection-0".to_string(),
    };
    let raw = channel_event("ibc-channel-connect", &channel);
    assert_eq!(raw.ty, "ibc-channel-connect");
    assert_eq!(
        raw.attributes,
        vec![
            pair("endpoint_id", "channel-1"),
            pair("endpoint_port_id", "wasm.a"),
            pair("counterparty_endpoint_id", "channel-2"),
            pair("counterparty_endpoint_port_id", "wasm.b"),
            pair("version", "warehouse-nft-001"),
            pair("connection_id", "connection-0"),
        ]
    );
}
