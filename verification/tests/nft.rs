use w3bay::error::Error;
use w3bay::ibc::{IbcChannel, IbcEndpoint, IbcOrder};
use w3bay::msg::contract::nft::{
    Approval, BlockInfo, BurnEvent, ExecuteMsg, Expiration, IbcExecuteMsg, Metadata, QueryMsg,
    Trait,
};
use w3bay::msg::contract::warehouse::IbcExecuteMsg as WarehouseIbcExecuteMsg;
use w3bay::nft::cw721::read_purchase_id;
use w3bay::nft::query::QueryResponse;
use w3bay::nft::{State, StateContext, Store};
use w3bay::response::{Event, OutMsg, Packet};
use w3bay::warehouse::ibc::receipt_metadata;

fn nft_channel() -> IbcChannel {
    IbcChannel {
        endpoint: IbcEndpoint { port_id: "wasm.nft".to_string(), channel_id: "channel-5".to_string() },
        counterparty_endpoint: IbcEndpoint {
            port_id: "wasm.warehouse".to_string(),
            channel_id: "channel-2".to_string(),
        },
        order: IbcOrder::Ordered,
        version: "warehouse-nft-001".to_string(),
        connection_id: "connection-0".to_string(),
    }
}

fn state_at(height: u64, time_nanos: u64) -> State {
    State { block: BlockInfo { height, time_nanos, chain_id: "stargaze".to_string() } }
}

fn minted(owner: &str, purchases: &[u64]) -> (State, StateContext) {
    let state = state_at(10, 1_000);
    let mut ctx = StateContext::new(Store::new());
    state.handle_ibc_channel_connect(&mut ctx, nft_channel(), &None).unwrap();
    for id in purchases {
        let msg = IbcExecuteMsg::Mint {
            owner: owner.to_string(),
            metadata: receipt_metadata(3, *id, 2),
        };
        state.handle_ibc_packet_receive(&mut ctx, msg).unwrap();
    }
    (state, StateContext::new(ctx.store))
}

fn s(text: &str) -> String {
    text.to_string()
}

#[test]
fn mint_numbers_the_tokens() {
    let (state, ctx) = minted("alice", &[40, 41]);
    assert_eq!(ctx.store.token_count, 2);
    assert_eq!(ctx.store.token_id_cursor, 2);
    assert_eq!(ctx.store.tokens[1].token_id, "1");
    assert_eq!(ctx.store.tokens[1].owner, "alice");
    assert!(ctx.store.tokens[1].approvals.is_empty());
    assert_eq!(state.nft_num_tokens(&ctx.store).unwrap().count, 2);
    let info = state.nft_info(&ctx.store, "1").unwrap();
    assert_eq!(info.extension, receipt_metadata(3, 41, 2));
    assert_eq!(state.nft_info(&ctx.store, "2"), Err(Error::TokenNotFound));
    let contract = state.nft_contract_info(&ctx.store).unwrap();
    assert_eq!((contract.name.as_str(), contract.symbol.as_str()), ("demo", "demo"));
}

#[test]
fn mint_reports_the_token() {
    let state = state_at(10, 1_000);
    let mut ctx = StateContext::new(Store::new());
    state.nft_mint(&mut ctx, s("alice"), Metadata::default()).unwrap();
    match &ctx.response.events[0] {
        Event::Mint(e) => {
            assert_eq!(e.token_id, "0");
            assert_eq!(e.owner, "alice");
        },
        other => panic!("unexpected event {:?}", other),
    }
    ctx.store.token_id_cursor = u64::MAX;
    let before = ctx.clone();
    assert_eq!(state.nft_mint(&mut ctx, s("alice"), Metadata::default()), Err(Error::Overflow));
    assert_eq!(ctx, before);
}

#[test]
fn burn_asks_the_warehouse_to_remove_the_purchase() {
    let (state, mut ctx) = minted("alice", &[40, 41]);
    state.nft_burn(&mut ctx, s("alice"), s("1")).unwrap();
    assert_eq!(ctx.store.token_count, 1);
    assert_eq!(ctx.store.tokens.len(), 1);
    assert_eq!(ctx.store.tokens[0].token_id, "0");
    assert_eq!(ctx.response.events, vec![Event::Burn(BurnEvent { token_id: s("1") })]);
    assert_eq!(
        ctx.response.messages,
        vec![OutMsg::SendPacket {
            channel_id: s("channel-5"),
            data: Packet::Warehouse(WarehouseIbcExecuteMsg::RemovePurchase { id: 41 }),
            timeout_nanos: 1_000 + 120_000_000_000,
        }]
    );
    let before = ctx.clone();
    assert_eq!(state.nft_burn(&mut ctx, s("alice"), s("1")), Err(Error::TokenNotFound));
    assert_eq!(ctx, before);
}

#[test]
fn burn_needs_authority() {
    let (state, mut ctx) = minted("alice", &[40]);
    let before = ctx.clone();
    assert_eq!(state.nft_burn(&mut ctx, s("mallory"), s("0")), Err(Error::Unauthorized));
    assert_eq!(ctx, before);
    state.nft_approve(&mut ctx, &s("alice"), &s("bob"), "0", Some(Expiration::AtHeight(11))).unwrap();
    let later = state_at(11, 1_000);
    assert_eq!(later.nft_burn(&mut ctx, s("bob"), s("0")), Err(Error::Unauthorized));
    assert_eq!(state.nft_burn(&mut ctx, s("bob"), s("0")), Ok(()));
}

#[test]
fn burn_needs_a_purchase_id() {
    let state = state_at(10, 1_000);
    let mut ctx = StateContext::new(Store::new());
    state.handle_ibc_channel_connect(&mut ctx, nft_channel(), &None).unwrap();
    let mut metadata = Metadata::default();
    metadata.attributes = Some(vec![Trait {
        display_type: None,
        trait_type: s("purchase-id"),
        value: s("seven"),
    }]);
    state.nft_mint(&mut ctx, s("alice"), metadata).unwrap();
    state.nft_mint(&mut ctx, s("alice"), Metadata::default()).unwrap();
    let before = ctx.clone();
    assert_eq!(state.nft_burn(&mut ctx, s("alice"), s("0")), Err(Error::MissingPurchaseId));
    assert_eq!(state.nft_burn(&mut ctx, s("alice"), s("1")), Err(Error::MissingPurchaseId));
    assert_eq!(ctx, before);
}

#[test]
fn burn_needs_a_channel() {
    let state = state_at(10, 1_000);
    let mut ctx = StateContext::new(Store::new());
    state.nft_mint(&mut ctx, s("alice"), receipt_metadata(1, 2, 3)).unwrap();
    assert_eq!(state.nft_burn(&mut ctx, s("alice"), s("0")), Err(Error::ChannelNotConnected));
    assert_eq!(state.get_ibc_channel(&ctx.store), Err(Error::ChannelNotConnected));
}

#[test]
fn purchase_id_is_the_first_number_under_its_name() {
    let attribute = |name: &str, value: &str| Trait {
        display_type: None,
        trait_type: s(name),
        value: s(value),
    };
    let mut metadata = Metadata::default();
    assert_eq!(read_purchase_id(&metadata), None);
    metadata.attributes = Some(vec![
        attribute("product-id", "5"),
        attribute("purchase-id", "x"),
        attribute("purchase-id", "+12"),
        attribute("purchase-id", "13"),
    ]);
    assert_eq!(read_purchase_id(&metadata), Some(12));
    metadata.attributes = Some(vec![attribute("purchase-id", "18446744073709551616")]);
    assert_eq!(read_purchase_id(&metadata), None);
    metadata.attributes = Some(vec![attribute("purchase-id", "18446744073709551615")]);
    assert_eq!(read_purchase_id(&metadata), Some(u64::MAX));
    assert_eq!(read_purchase_id(&receipt_metadata(9, 77, 1)), Some(77));
}

#[test]
fn transfer_moves_the_token_and_ends_approvals() {
    let (state, mut ctx) = minted("alice", &[40]);
    state.nft_approve(&mut ctx, &s("alice"), &s("bob"), "0", None).unwrap();
    assert_eq!(
        state.nft_transfer(&mut ctx, &s("mallory"), &s("mallory"), "0"),
        Err(Error::Unauthorized)
    );
    let mut ctx = StateContext::new(ctx.store);
    state.nft_transfer(&mut ctx, &s("bob"), &s("carol"), "0").unwrap();
    assert_eq!(ctx.store.tokens[0].owner, "carol");
    assert!(ctx.store.tokens[0].approvals.is_empty());
    assert_eq!(ctx.store.tokens[0].metadata, receipt_metadata(3, 40, 2));
    match &ctx.response.events[0] {
        Event::Transfer(e) => assert_eq!((e.recipient.as_str(), e.token_id.as_str()), ("carol", "0")),
        other => panic!("unexpected event {:?}", other),
    }
    assert_eq!(state.nft_check_can_send(&ctx.store, &s("bob"), "0"), Err(Error::Unauthorized));
    assert_eq!(state.nft_check_can_send(&ctx.store, &s("carol"), "0"), Ok(()));
    assert_eq!(state.nft_check_can_send(&ctx.store, &s("carol"), "9"), Err(Error::TokenNotFound));
}

#[test]
fn send_hands_the_token_to_a_contract() {
    let (state, mut ctx) = minted("alice", &[40]);
    state.nft_send(&mut ctx, &s("alice"), &s("market"), "0", vec![1, 2, 3]).unwrap();
    assert_eq!(ctx.store.tokens[0].owner, "market");
    match &ctx.response.messages[0] {
        OutMsg::Receive { contract, msg } => {
            assert_eq!(contract, "market");
            assert_eq!(msg.sender, "alice");
            assert_eq!(msg.token_id, "0");
            assert_eq!(msg.msg, vec![1, 2, 3]);
        },
        other => panic!("unexpected message {:?}", other),
    }
}

#[test]
fn approvals_replace_and_revoke() {
    let (state, mut ctx) = minted("alice", &[40]);
    let bob = |expires| Approval { spender: s("bob"), expires };
    let got = state
        .nft_update_approvals(&mut ctx, &s("alice"), &s("bob"), "0", true, Some(Expiration::AtHeight(50)))
        .unwrap();
    assert_eq!(got, vec![bob(Expiration::AtHeight(50))]);
    state.nft_approve(&mut ctx, &s("alice"), &s("dan"), "0", Some(Expiration::AtTime(2_000))).unwrap();
    state.nft_approve(&mut ctx, &s("alice"), &s("bob"), "0", None).unwrap();
    assert_eq!(
        ctx.store.tokens[0].approvals,
        vec![
            Approval { spender: s("dan"), expires: Expiration::AtTime(2_000) },
            bob(Expiration::Never {}),
        ]
    );
    assert_eq!(
        state.nft_approve(&mut ctx, &s("alice"), &s("eve"), "0", Some(Expiration::AtHeight(10))),
        Err(Error::Expired)
    );
    assert_eq!(
        state.nft_approve(&mut ctx, &s("bob"), &s("eve"), "0", None),
        Err(Error::Unauthorized)
    );
    state.nft_revoke(&mut ctx, &s("alice"), &s("dan"), "0").unwrap();
    assert_eq!(ctx.store.tokens[0].approvals, vec![bob(Expiration::Never {})]);
    let later = state_at(10, 2_000);
    assert_eq!(later.nft_approvals(&ctx.store, "0", false).unwrap().approvals.len(), 1);
}

#[test]
fn queries_hide_expired_approvals() {
    let (state, mut ctx) = minted("alice", &[40]);
    state.nft_approve(&mut ctx, &s("alice"), &s("dan"), "0", Some(Expiration::AtTime(2_000))).unwrap();
    state.nft_approve(&mut ctx, &s("alice"), &s("bob"), "0", Some(Expiration::AtHeight(50))).unwrap();
    let later = state_at(10, 2_000);
    let shown = later.nft_owner_of(&ctx.store, "0", false).unwrap();
    assert_eq!(shown.owner, "alice");
    assert_eq!(shown.approvals, vec![Approval { spender: s("bob"), expires: Expiration::AtHeight(50) }]);
    assert_eq!(later.nft_owner_of(&ctx.store, "0", true).unwrap().approvals.len(), 2);
    assert_eq!(later.nft_all_info(&ctx.store, "0", true).unwrap().info.extension, receipt_metadata(3, 40, 2));
    assert_eq!(later.nft_approval(&ctx.store, "0", s("dan"), false), Err(Error::ApprovalNotFound));
    assert_eq!(
        later.nft_approval(&ctx.store, "0", s("dan"), true).unwrap().approval.expires,
        Expiration::AtTime(2_000)
    );
    assert_eq!(
        later.nft_approval(&ctx.store, "0", s("alice"), false).unwrap().approval,
        Approval { spender: s("alice"), expires: Expiration::Never {} }
    );
    assert_eq!(later.nft_token_approvals(&ctx.store, "0").unwrap().len(), 2);
    assert_eq!(later.nft_token_full(&ctx.store, "0").unwrap().owner, "alice");
}

#[test]
fn operators_act_for_the_owner_until_they_expire() {
    let (state, mut ctx) = minted("alice", &[40, 41]);
    assert_eq!(
        state.nft_approve_all(&mut ctx, &s("alice"), &s("op"), Some(Expiration::AtHeight(5))),
        Err(Error::Expired)
    );
    state.nft_approve_all(&mut ctx, &s("alice"), &s("op"), Some(Expiration::AtHeight(20))).unwrap();
    state.nft_approve_all(&mut ctx, &s("alice"), &s("op"), Some(Expiration::AtHeight(30))).unwrap();
    assert_eq!(ctx.store.operators.len(), 1);
    assert_eq!(ctx.store.operators[0].expires, Expiration::AtHeight(30));
    assert_eq!(state.nft_check_can_send(&ctx.store, &s("op"), "1"), Ok(()));
    assert_eq!(state.nft_check_can_approve(&ctx.store, &s("op"), "1"), Ok(()));
    let later = state_at(30, 1_000);
    assert_eq!(later.nft_check_can_send(&ctx.store, &s("op"), "1"), Err(Error::Expired));
    assert_eq!(later.nft_check_can_approve(&ctx.store, &s("op"), "1"), Err(Error::Expired));
    assert_eq!(later.nft_check_can_approve(&ctx.store, &s("alice"), "1"), Ok(()));
    state.nft_revoke_all(&mut ctx, &s("alice"), &s("op")).unwrap();
    state.nft_revoke_all(&mut ctx, &s("alice"), &s("op")).unwrap();
    assert!(ctx.store.operators.is_empty());
    assert_eq!(state.nft_check_can_send(&ctx.store, &s("op"), "1"), Err(Error::Unauthorized));
}

#[test]
fn token_counter_moves_by_one() {
    let (state, mut ctx) = minted("alice", &[40]);
    assert_eq!(state.nft_increment_tokens(&mut ctx), Ok(2));
    assert_eq!(state._nft_decrement_tokens(&mut ctx), Ok(1));
    assert_eq!(state._nft_decrement_tokens(&mut ctx), Ok(0));
    assert_eq!(state._nft_decrement_tokens(&mut ctx), Err(Error::Overflow));
    ctx.store.token_count = u64::MAX;
    assert_eq!(state.nft_increment_tokens(&mut ctx), Err(Error::Overflow));
}

#[test]
fn transactions_and_queries_dispatch() {
    let (state, mut ctx) = minted("alice", &[40, 41]);
    let transfer = ExecuteMsg::TransferNft { recipient: s("bob"), token_id: s("0") };
    assert_eq!(state.nft_handle_exec(&mut ctx, s("alice"), transfer), Ok(()));
    let approve = ExecuteMsg::Approve { spender: s("dan"), token_id: s("0"), expires: None };
    assert_eq!(state.nft_handle_exec(&mut ctx, s("alice"), approve.clone()), Err(Error::Unauthorized));
    assert_eq!(state.nft_handle_exec(&mut ctx, s("bob"), approve), Ok(()));
    let all = ExecuteMsg::ApproveAll { operator: s("op"), expires: None };
    assert_eq!(state.nft_handle_exec(&mut ctx, s("bob"), all), Ok(()));
    let revoke = ExecuteMsg::Revoke { spender: s("dan"), token_id: s("0") };
    assert_eq!(state.nft_handle_exec(&mut ctx, s("op"), revoke), Ok(()));
    let none = ExecuteMsg::RevokeAll { operator: s("op") };
    assert_eq!(state.nft_handle_exec(&mut ctx, s("bob"), none), Ok(()));
    let send = ExecuteMsg::SendNft { contract: s("market"), token_id: s("0"), msg: vec![9] };
    assert_eq!(state.nft_handle_exec(&mut ctx, s("bob"), send), Ok(()));
    let burn = ExecuteMsg::Burn { token_id: s("1") };
    assert_eq!(state.nft_handle_exec(&mut ctx, s("alice"), burn), Ok(()));

    match state.nft_handle_query(&ctx.store, QueryMsg::NumTokens {}) {
        Ok(QueryResponse::NumTokens(n)) => assert_eq!(n.count, 1),
        other => panic!("unexpected answer {:?}", other),
    }
    match state.nft_handle_query(
        &ctx.store,
        QueryMsg::OwnerOf { token_id: s("0"), include_expired: None },
    ) {
        Ok(QueryResponse::OwnerOf(resp)) => assert_eq!(resp.owner, "market"),
        other => panic!("unexpected answer {:?}", other),
    }
    match state.nft_handle_query(&ctx.store, QueryMsg::NftInfos { token_ids: vec![s("0")] }) {
        Ok(QueryResponse::NftInfos(infos)) => {
            assert_eq!(infos[0].token_id, "0");
            assert_eq!(infos[0].extension, receipt_metadata(3, 40, 2));
        },
        other => panic!("unexpected answer {:?}", other),
    }
    assert_eq!(
        state.nft_handle_query(&ctx.store, QueryMsg::NftInfos { token_ids: vec![s("0"), s("1")] }),
        Err(Error::TokenNotFound)
    );
    match state.nft_handle_query(&ctx.store, QueryMsg::Info {}) {
        Ok(QueryResponse::Info(info)) => assert_eq!(info.ibc_channel, Some(nft_channel())),
        other => panic!("unexpected answer {:?}", other),
    }
}

#[test]
fn expiration_follows_height_and_time() {
    let block = BlockInfo { height: 10, time_nanos: 500, chain_id: s("c") };
    assert!(Expiration::AtHeight(10).is_expired(&block));
    assert!(!Expiration::AtHeight(11).is_expired(&block));
    assert!(Expiration::AtTime(500).is_expired(&block));
    assert!(!Expiration::AtTime(501).is_expired(&block));
    assert!(!Expiration::Never {}.is_expired(&block));
    assert!(Approval { spender: s("a"), expires: Expiration::AtTime(1) }.is_expired(&block));
}

#[test]
fn tokens_are_listed_in_the_order_of_their_ids() {
    let purchases: Vec<u64> = (0..12).collect();
    let (state, mut ctx) = minted("alice", &purchases);
    state.nft_transfer(&mut ctx, &s("alice"), &s("bob"), "10").unwrap();
    state.nft_transfer(&mut ctx, &s("alice"), &s("bob"), "3").unwrap();
    let all = state.nft_map_token_ids(&ctx.store, None, None, None).unwrap();
    assert_eq!(all, vec!["0", "1", "10", "11", "2", "3", "4", "5", "6", "7"]);
    let next = state.nft_map_token_ids(&ctx.store, None, Some(s("7")), Some(500)).unwrap();
    assert_eq!(next, vec!["8", "9"]);
    let of_bob = state.nft_map_token_ids(&ctx.store, Some(s("bob")), None, None).unwrap();
    assert_eq!(of_bob, vec!["10", "3"]);
    let after = state.nft_map_token_ids(&ctx.store, Some(s("alice")), Some(s("1")), Some(3)).unwrap();
    assert_eq!(after, vec!["11", "2", "4"]);
    assert!(state.nft_map_token_ids(&ctx.store, Some(s("carol")), None, None).unwrap().is_empty());
    assert!(state.nft_map_token_ids(&ctx.store, None, None, Some(0)).unwrap().is_empty());
    match state.nft_handle_query(
        &ctx.store,
        QueryMsg::Tokens { owner: s("bob"), start_after: Some(s("10")), limit: None },
    ) {
        Ok(QueryResponse::Tokens(resp)) => assert_eq!(resp.tokens, vec!["3"]),
        other => panic!("unexpected answer {:?}", other),
    }
    match state.nft_handle_query(&ctx.store, QueryMsg::AllTokens { start_after: None, limit: Some(2) }) {
        Ok(QueryResponse::Tokens(resp)) => assert_eq!(resp.tokens, vec!["0", "1"]),
        other => panic!("unexpected answer {:?}", other),
    }
}

#[test]
fn operators_are_listed_in_the_order_of_their_addresses() {
    let (state, mut ctx) = minted("alice", &[1]);
    state.nft_approve_all(&mut ctx, &s("alice"), &s("zed"), None).unwrap();
    state.nft_approve_all(&mut ctx, &s("alice"), &s("amy"), Some(Expiration::AtHeight(20))).unwrap();
    state.nft_approve_all(&mut ctx, &s("bob"), &s("ann"), None).unwrap();
    state.nft_approve_all(&mut ctx, &s("alice"), &s("am"), None).unwrap();
    let names = |resp: w3bay::msg::contract::nft::OperatorsResponse| {
        resp.operators.into_iter().map(|a| a.spender).collect::<Vec<String>>()
    };
    let all = state.nft_operators(&ctx.store, s("alice"), false, None, None).unwrap();
    assert_eq!(names(all), vec!["am", "amy", "zed"]);
    let later = state_at(20, 1_000);
    let live = later.nft_operators(&ctx.store, s("alice"), false, None, None).unwrap();
    assert_eq!(names(live), vec!["am", "zed"]);
    let with_expired = later.nft_operators(&ctx.store, s("alice"), true, Some(s("am")), Some(1)).unwrap();
    assert_eq!(with_expired.operators, vec![Approval { spender: s("amy"), expires: Expiration::AtHeight(20) }]);
    match state.nft_handle_query(
        &ctx.store,
        QueryMsg::AllOperators { owner: s("bob"), include_expired: None, start_after: None, limit: None },
    ) {
        Ok(QueryResponse::Operators(resp)) => assert_eq!(names(resp), vec!["ann"]),
        other => panic!("unexpected answer {:?}", other),
    }
}

#[test]
fn nft_stores_are_audited() {
    let (state, mut ctx) = minted("alice", &[1, 2]);
    state.nft_approve_all(&mut ctx, &s("alice"), &s("op"), None).unwrap();
    state.nft_approve_all(&mut ctx, &s("bob"), &s("op"), None).unwrap();
    assert!(ctx.store.is_well_formed());
    let mut bad = ctx.store.clone();
    bad.tokens[1].token_id = s("0");
    assert!(!bad.is_well_formed());
    let mut bad = ctx.store.clone();
    bad.operators[1].owner = s("alice");
    assert!(!bad.is_well_formed());
    let mut bad = ctx.store.clone();
    bad.token_count = 3;
    assert!(!bad.is_well_formed());
}

#[test]
fn the_count_is_the_number_of_tokens() {
    let (state, mut ctx) = minted("alice", &[1, 2, 3]);
    assert_eq!(ctx.store.token_count, 3);
    state.nft_burn(&mut ctx, s("alice"), s("1")).unwrap();
    assert_eq!((ctx.store.token_count, ctx.store.tokens.len()), (2, 2));
    state.nft_mint_inner(&mut ctx, s("bob"), s("0"), Metadata::default()).unwrap();
    assert_eq!((ctx.store.token_count, ctx.store.tokens.len()), (2, 2));
    assert_eq!(ctx.store.tokens[0].owner, "bob");
    state.nft_mint_inner(&mut ctx, s("bob"), s("x"), Metadata::default()).unwrap();
    assert_eq!((ctx.store.token_count, ctx.store.tokens.len()), (3, 3));
    assert!(ctx.store.is_well_formed());
}

#[test]
fn nft_handshake() {
    let state = state_at(1, 1);
    let mut ctx = StateContext::new(Store::new());
    let mut other = nft_channel();
    other.version = s("warehouse-payment-001");
    assert_eq!(state.handle_ibc_channel_open(&other, &None), Err(Error::InvalidChannelVersion));
    assert_eq!(
        state.handle_ibc_channel_connect(&mut ctx, other, &None),
        Err(Error::InvalidChannelVersion)
    );
    assert_eq!(ctx.store.ibc_channel, None);
    assert_eq!(
        state.handle_ibc_channel_open(&nft_channel(), &Some(s("warehouse-nft-001"))),
        Ok(())
    );
    assert_eq!(state.handle_ibc_channel_connect(&mut ctx, nft_channel(), &None), Ok(()));
    assert_eq!(state.get_ibc_channel(&ctx.store), Ok(nft_channel()));
    assert_eq!(ctx.response.events, vec![Event::IbcChannelConnect(nft_channel())]);
    assert_eq!(state.handle_ibc_channel_close(&mut ctx, nft_channel()), Ok(()));
    assert_eq!(state.handle_ibc_packet_ack(), Ok(()));
    assert_eq!(state.handle_ibc_packet_timeout(), Ok(()));
}
