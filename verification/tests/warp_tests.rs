use interchain_core::addr::{bech32_decode, bech32_encode, bech32_to_h256};
use interchain_core::error::ContractError;
use interchain_core::message::TokenMessage;
use interchain_core::router::RouteTable;
use interchain_core::warp::{
    ExecuteMsg, QueryMsg, QueryResponse, TokenBridge, TokenInit, TokenMode, TokenMsg,
    REPLY_ID_CREATE_DENOM,
};

#[test]
fn route_table_get_after_set() {
    let mut rt = RouteTable::new();
    assert_eq!(rt.get_route(5), Err(ContractError::RouteNotFound));
    rt.set_route(5, vec![0xaa; 32]);
    assert_eq!(rt.get_route(5), Ok(vec![0xaa; 32]));
    // overwrite is unconditional
    rt.set_route(5, vec![0xbb; 32]);
    assert_eq!(rt.get_route(5), Ok(vec![0xbb; 32]));
    assert_eq!(rt.get_route(6), Err(ContractError::RouteNotFound));
}

#[test]
fn bech32_round_trip() {
    let data = vec![0x42u8; 20];
    let s = bech32_encode(&"osmo".to_string(), &data).unwrap();
    assert!(s.starts_with("osmo1"));
    assert_eq!(bech32_decode(&s), Ok(data));
}

#[test]
fn bech32_rejects_bad_inputs() {
    // an empty prefix is refused by the codec
    assert_eq!(
        bech32_encode(&String::new(), &vec![1u8, 2, 3]),
        Err(ContractError::CodecError)
    );
    // not a bech32 string at all
    assert_eq!(
        bech32_decode(&"definitely not bech32".to_string()),
        Err(ContractError::CodecError)
    );
}

#[test]
fn bech32_to_h256_pads_left() {
    let data = vec![0x42u8; 20];
    let s = bech32_encode(&"osmo".to_string(), &data).unwrap();
    let wide = bech32_to_h256(&s).unwrap();
    assert_eq!(wide.len(), 32);
    assert_eq!(&wide[..12], &[0u8; 12][..]);
    assert_eq!(&wide[12..], &data[..]);
}

/// Protobuf payload of a sub-instantiation response: field 1
/// (length-delimited) carries the contract address.
fn init_reply_payload(addr: &str) -> Vec<u8> {
    let mut out = vec![0x0au8, addr.len() as u8];
    out.extend_from_slice(addr.as_bytes());
    out
}

#[test]
fn bridged_instantiate_emits_one_tagged_subinstantiation() {
    let (bridge, msgs) = TokenBridge::instantiate(
        TokenInit::Bridged { code_id: 99 },
        "osmo".to_string(),
        "owner".to_string(),
        "mailbox".to_string(),
    );
    assert_eq!(msgs.len(), 1);
    match &msgs[0] {
        TokenMsg::SubInstantiate { code_id, reply_id } => {
            assert_eq!(*code_id, 99);
            assert_eq!(*reply_id, REPLY_ID_CREATE_DENOM);
        }
        _ => panic!("expected a sub-instantiation request"),
    }
    // before the reply arrives, token lookups fail
    assert_eq!(bridge.token, None);
    assert_eq!(bridge.get_token_type(), Err(ContractError::TokenNotSet));
}

#[test]
fn bridged_reply_stores_token_address() {
    let (mut bridge, _) = TokenBridge::instantiate(
        TokenInit::Bridged { code_id: 1 },
        "osmo".to_string(),
        "owner".to_string(),
        "mailbox".to_string(),
    );
    bridge
        .reply(REPLY_ID_CREATE_DENOM, &init_reply_payload("osmo1token"))
        .unwrap();
    assert_eq!(bridge.token, Some("osmo1token".to_string()));
    assert_eq!(bridge.get_token_type(), Ok("osmo1token".to_string()));
}

#[test]
fn reply_with_unknown_tag_fails() {
    let (mut bridge, _) = TokenBridge::instantiate(
        TokenInit::Bridged { code_id: 1 },
        "osmo".to_string(),
        "owner".to_string(),
        "mailbox".to_string(),
    );
    let r = bridge.reply(REPLY_ID_CREATE_DENOM + 1, &init_reply_payload("osmo1token"));
    assert_eq!(r, Err(ContractError::InvalidReplyId));
    assert_eq!(bridge.token, None);
}

#[test]
fn collateral_instantiate_sets_token_synchronously() {
    let (bridge, msgs) = TokenBridge::instantiate(
        TokenInit::Collateral { address: "osmo1existing".to_string() },
        "osmo".to_string(),
        "owner".to_string(),
        "mailbox".to_string(),
    );
    assert!(msgs.is_empty());
    assert_eq!(bridge.token, Some("osmo1existing".to_string()));
    assert_eq!(bridge.get_token_mode(), TokenMode::Collateral);
}

fn bridged_bridge_with_route(domain: u32, router: Vec<u8>) -> TokenBridge {
    let (mut bridge, _) = TokenBridge::instantiate(
        TokenInit::Bridged { code_id: 1 },
        "osmo".to_string(),
        "owner".to_string(),
        "mailbox".to_string(),
    );
    bridge
        .reply(REPLY_ID_CREATE_DENOM, &init_reply_payload("osmo1token"))
        .unwrap();
    bridge
        .execute(&"owner".to_string(), ExecuteMsg::SetRoute { domain, router })
        .unwrap();
    bridge
}

#[test]
fn set_route_is_owner_gated() {
    let (mut bridge, _) = TokenBridge::instantiate(
        TokenInit::Collateral { address: "osmo1existing".to_string() },
        "osmo".to_string(),
        "owner".to_string(),
        "mailbox".to_string(),
    );
    let r = bridge.execute(
        &"intruder".to_string(),
        ExecuteMsg::SetRoute { domain: 5, router: vec![1; 32] },
    );
    assert_eq!(r, Err(ContractError::Unauthorized));
    match bridge.query(QueryMsg::Route { domain: 5 }) {
        Err(ContractError::RouteNotFound) => {}
        _ => panic!("route must stay unset"),
    }
}

#[test]
fn receive_local_bridged_burns_then_dispatches() {
    let router5 = vec![0x55u8; 32];
    let mut bridge = bridged_bridge_with_route(5, router5.clone());
    let recipient = vec![0xa0u8; 32];
    let msgs = bridge
        .execute(
            &"osmo1token".to_string(),
            ExecuteMsg::Receive { amount: 100, dest_domain: 5, recipient: recipient.clone() },
        )
        .unwrap();
    assert_eq!(msgs.len(), 2);
    match &msgs[0] {
        TokenMsg::Burn { token, amount } => {
            assert_eq!(token, "osmo1token");
            assert_eq!(*amount, 100);
        }
        _ => panic!("first message must be the burn"),
    }
    match &msgs[1] {
        TokenMsg::Dispatch { mailbox, dest_domain, recipient_router, body } => {
            assert_eq!(mailbox, "mailbox");
            assert_eq!(*dest_domain, 5);
            assert_eq!(recipient_router, &router5);
            let tm = TokenMessage::decode(body).unwrap();
            assert_eq!(tm.recipient, recipient);
            assert_eq!(tm.amount, 100);
            assert!(tm.metadata.is_empty());
        }
        _ => panic!("second message must be the dispatch"),
    }
}

#[test]
fn receive_local_from_non_token_fails() {
    let mut bridge = bridged_bridge_with_route(5, vec![0x55; 32]);
    let r = bridge.execute(
        &"osmo1intruder".to_string(),
        ExecuteMsg::Receive { amount: 100, dest_domain: 5, recipient: vec![0; 32] },
    );
    assert_eq!(r, Err(ContractError::Unauthorized));
}

#[test]
fn receive_local_unrouted_domain_fails() {
    let mut bridge = bridged_bridge_with_route(5, vec![0x55; 32]);
    let r = bridge.execute(
        &"osmo1token".to_string(),
        ExecuteMsg::Receive { amount: 100, dest_domain: 6, recipient: vec![0; 32] },
    );
    assert_eq!(r, Err(ContractError::RouteNotFound));
}

#[test]
fn handle_remote_with_matching_router_mints() {
    let origin_router = vec![0x33u8; 32];
    let bridge = bridged_bridge_with_route(3, origin_router.clone());
    let recipient_raw = vec![0x42u8; 32];
    let body = TokenMessage { recipient: recipient_raw.clone(), amount: 250, metadata: vec![] }
        .encode();
    let msgs = bridge
        .mailbox_handle(&"mailbox".to_string(), 3, &origin_router, &body)
        .unwrap();
    assert_eq!(msgs.len(), 1);
    let expected_recipient = bech32_encode(&"osmo".to_string(), &recipient_raw).unwrap();
    match &msgs[0] {
        TokenMsg::Mint { token, recipient, amount } => {
            assert_eq!(token, "osmo1token");
            assert_eq!(recipient, &expected_recipient);
            assert_eq!(*amount, 250);
        }
        _ => panic!("bridged mode must mint"),
    }
}

#[test]
fn handle_remote_with_wrong_router_fails() {
    let bridge = bridged_bridge_with_route(3, vec![0x33; 32]);
    let body =
        TokenMessage { recipient: vec![0x42; 32], amount: 250, metadata: vec![] }.encode();
    let spoofed = vec![0x44u8; 32];
    let r = bridge.mailbox_handle(&"mailbox".to_string(), 3, &spoofed, &body);
    assert_eq!(r, Err(ContractError::Unauthorized));
}

#[test]
fn handle_remote_from_non_mailbox_fails() {
    let bridge = bridged_bridge_with_route(3, vec![0x33; 32]);
    let body =
        TokenMessage { recipient: vec![0x42; 32], amount: 250, metadata: vec![] }.encode();
    let r = bridge.mailbox_handle(&"someone".to_string(), 3, &vec![0x33; 32], &body);
    assert_eq!(r, Err(ContractError::Unauthorized));
}

#[test]
fn handle_remote_collateral_transfers() {
    let (mut bridge, _) = TokenBridge::instantiate(
        TokenInit::Collateral { address: "osmo1escrow".to_string() },
        "osmo".to_string(),
        "owner".to_string(),
        "mailbox".to_string(),
    );
    let origin_router = vec![0x33u8; 32];
    bridge
        .execute(
            &"owner".to_string(),
            ExecuteMsg::SetRoute { domain: 3, router: origin_router.clone() },
        )
        .unwrap();
    let body = TokenMessage { recipient: vec![0x42; 32], amount: 7, metadata: vec![] }.encode();
    let msgs = bridge
        .mailbox_handle(&"mailbox".to_string(), 3, &origin_router, &body)
        .unwrap();
    match &msgs[0] {
        TokenMsg::Transfer { token, amount, .. } => {
            assert_eq!(token, "osmo1escrow");
            assert_eq!(*amount, 7);
        }
        _ => panic!("collateral mode must transfer"),
    }
}

#[test]
fn handle_remote_bad_body_fails() {
    let bridge = bridged_bridge_with_route(3, vec![0x33; 32]);
    let r = bridge.mailbox_handle(&"mailbox".to_string(), 3, &vec![0x33; 32], &vec![0u8; 10]);
    assert_eq!(r, Err(ContractError::DecodeError));
}

#[test]
fn query_reports_mode_and_route() {
    let bridge = bridged_bridge_with_route(3, vec![0x33; 32]);
    match bridge.query(QueryMsg::TokenMode) {
        Ok(QueryResponse::TokenMode(m)) => assert_eq!(m, TokenMode::Bridged),
        _ => panic!("wrong response"),
    }
    match bridge.query(QueryMsg::Route { domain: 3 }) {
        Ok(QueryResponse::Route(v)) => assert_eq!(v, vec![0x33; 32]),
        _ => panic!("wrong response"),
    }
}

#[test]
fn receive_before_reply_fails_closed() {
    let (mut bridge, _) = TokenBridge::instantiate(
        TokenInit::Bridged { code_id: 1 },
        "osmo".to_string(),
        "owner".to_string(),
        "mailbox".to_string(),
    );
    let r = bridge.execute(
        &"anyone".to_string(),
        ExecuteMsg::Receive { amount: 1, dest_domain: 5, recipient: vec![0; 32] },
    );
    assert_eq!(r, Err(ContractError::TokenNotSet));
}

#[test]
fn handle_remote_with_invalid_prefix_fails() {
    // an empty HRP is refused when the recipient is re-encoded locally
    let (mut bridge, _) = TokenBridge::instantiate(
        TokenInit::Collateral { address: "token".to_string() },
        String::new(),
        "owner".to_string(),
        "mailbox".to_string(),
    );
    let origin_router = vec![0x33u8; 32];
    bridge
        .execute(
            &"owner".to_string(),
            ExecuteMsg::SetRoute { domain: 3, router: origin_router.clone() },
        )
        .unwrap();
    let body = TokenMessage { recipient: vec![0x42; 32], amount: 9, metadata: vec![] }.encode();
    let r = bridge.mailbox_handle(&"mailbox".to_string(), 3, &origin_router, &body);
    assert_eq!(r, Err(ContractError::CodecError));
}
