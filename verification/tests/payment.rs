use w3bay::error::Error;
use w3bay::ibc::{IbcChannel, IbcEndpoint, IbcOrder};
use w3bay::msg::contract::payment::{ExecuteMsg, IbcExecuteMsg, QueryMsg, Refund};
use w3bay::msg::contract::warehouse::IbcExecuteMsg as WarehouseIbcExecuteMsg;
use w3bay::payment::{Coin, MessageInfo, State, StateContext, Store};
use w3bay::response::{Event, OutMsg, Packet};

fn payment_channel() -> IbcChannel {
    IbcChannel {
        endpoint: IbcEndpoint { port_id: "wasm.payment".to_string(), channel_id: "channel-7".to_string() },
        counterparty_endpoint: IbcEndpoint {
            port_id: "wasm.warehouse".to_string(),
            channel_id: "channel-1".to_string(),
        },
        order: IbcOrder::Ordered,
        version: "warehouse-payment-001".to_string(),
        connection_id: "connection-0".to_string(),
    }
}

fn connected_payment() -> (State, StateContext) {
    let state = State { block_time_nanos: 42 };
    let mut ctx = StateContext::new(Store { ibc_channel: None });
    state.handle_ibc_channel_connect(&mut ctx, payment_channel(), &None).unwrap();
    (state, StateContext::new(ctx.store))
}

fn coin(denom: &str, amount: u128) -> Coin {
    Coin { denom: denom.to_string(), amount }
}

#[test]
fn purchase_forwards_the_attached_funds() {
    let (state, mut ctx) = connected_payment();
    let info = MessageInfo {
        sender: "buyer".to_string(),
        funds: vec![coin("uatom", 3), coin("ukuji", 35), coin("ukuji", 99)],
    };
    state.purchase_send(&mut ctx, "nft-owner".to_string(), info, 4, 3).unwrap();
    assert_eq!(
        ctx.response.messages,
        vec![OutMsg::SendPacket {
            channel_id: "channel-7".to_string(),
            data: Packet::Warehouse(WarehouseIbcExecuteMsg::Purchase {
                owner: "nft-owner".to_string(),
                spender: "buyer".to_string(),
                product_id: 4,
                quantity: 3,
                fees: 35,
            }),
            timeout_nanos: 42 + 120_000_000_000,
        }]
    );
    assert!(ctx.response.events.is_empty());
}

#[test]
fn purchase_needs_the_payment_denomination() {
    let (state, mut ctx) = connected_payment();
    let before = ctx.clone();
    let info = MessageInfo { sender: "buyer".to_string(), funds: vec![coin("uatom", 3)] };
    assert_eq!(
        state.purchase_send(&mut ctx, "o".to_string(), info, 4, 3),
        Err(Error::MissingPayment)
    );
    let info = MessageInfo { sender: "buyer".to_string(), funds: vec![] };
    let msg = ExecuteMsg::Purchase { owner: "o".to_string(), product_id: 1, quantity: 1 };
    assert_eq!(state.execute(&mut ctx, info, msg), Err(Error::MissingPayment));
    assert_eq!(ctx, before);
}

#[test]
fn purchase_needs_a_channel_and_a_clock_with_room() {
    let state = State { block_time_nanos: 42 };
    let mut ctx = StateContext::new(Store { ibc_channel: None });
    let info = MessageInfo { sender: "buyer".to_string(), funds: vec![coin("ukuji", 3)] };
    assert_eq!(
        state.purchase_send(&mut ctx, "o".to_string(), info.clone(), 4, 3),
        Err(Error::ChannelNotConnected)
    );
    assert_eq!(state.get_ibc_channel(&ctx.store), Err(Error::ChannelNotConnected));
    let (_, mut ctx) = connected_payment();
    let late = State { block_time_nanos: u64::MAX - 5 };
    assert_eq!(late.purchase_send(&mut ctx, "o".to_string(), info, 4, 3), Err(Error::Overflow));
}

#[test]
fn refunds_become_transfers_in_order() {
    let (state, mut ctx) = connected_payment();
    let msg = IbcExecuteMsg::Refund {
        refunds: vec![
            Refund { recipient: "alice".to_string(), amount: 67 },
            Refund { recipient: "bob".to_string(), amount: 0 },
        ],
    };
    assert_eq!(state.handle_ibc_packet_receive(&mut ctx, msg), Ok(()));
    assert_eq!(
        ctx.response.messages,
        vec![
            OutMsg::BankSend { to_address: "alice".to_string(), amount: 67, denom: "ukuji".to_string() },
            OutMsg::BankSend { to_address: "bob".to_string(), amount: 0, denom: "ukuji".to_string() },
        ]
    );
    assert_eq!(state.handle_ibc_packet_ack(), Ok(()));
    assert_eq!(state.handle_ibc_packet_timeout(), Ok(()));
}

#[test]
fn payment_handshake() {
    let state = State { block_time_nanos: 42 };
    let mut ctx = StateContext::new(Store { ibc_channel: None });
    let mut wrong = payment_channel();
    wrong.version = "ics20-1".to_string();
    assert_eq!(
        state.handle_ibc_channel_connect(&mut ctx, wrong.clone(), &None),
        Err(Error::InvalidChannelVersion)
    );
    assert_eq!(state.handle_ibc_channel_open(&wrong, &None), Err(Error::InvalidChannelVersion));
    let mut other = payment_channel();
    other.version = "warehouse-nft-001".to_string();
    assert_eq!(state.handle_ibc_channel_open(&other, &None), Err(Error::InvalidChannelVersion));
    let mut unordered = payment_channel();
    unordered.order = IbcOrder::Unordered;
    assert_eq!(
        state.handle_ibc_channel_open(&unordered, &None),
        Err(Error::InvalidChannelOrder)
    );
    assert_eq!(
        state.handle_ibc_channel_open(&payment_channel(), &Some("warehouse-nft-001".to_string())),
        Err(Error::InvalidCounterpartyVersion)
    );
    assert_eq!(ctx.store.ibc_channel, None);
    assert_eq!(
        state.handle_ibc_channel_connect(
            &mut ctx,
            payment_channel(),
            &Some("warehouse-payment-001".to_string())
        ),
        Ok(())
    );
    assert_eq!(ctx.response.events, vec![Event::IbcChannelConnect(payment_channel())]);
    assert_eq!(state.get_ibc_channel(&ctx.store), Ok(payment_channel()));
    assert_eq!(state.query(&ctx.store, QueryMsg::Info {}).unwrap().ibc_channel, Some(payment_channel()));
    assert_eq!(state.handle_ibc_channel_close(&mut ctx, payment_channel()), Ok(()));
    assert_eq!(ctx.response.events.len(), 2);
}
