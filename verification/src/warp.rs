//! Token bridge: converts a local value transfer into an outbound
//! interchain message and an inbound message into a local mint or transfer.
//! Two-phase instantiation in bridged mode: the token address arrives
//! asynchronously through a tagged sub-instantiation callback.

use vstd::prelude::*;
use crate::addr::{bech32_encode, bech32_of};
use crate::codec::copy_range;
use crate::error::ContractError;
use crate::message::{decode_token_message, encode_token_message, TokenMessage, TokenMessageView};
use crate::router::RouteTable;

verus! {

/// Tag of the one asynchronous reply channel: the sub-instantiation of the
/// bridged token.
pub const REPLY_ID_CREATE_DENOM: u64 = 1;

/// Whether the token supply is minted/burned locally (`Bridged`) or
/// escrowed locally (`Collateral`).
#[derive(Clone, Copy, Debug, PartialEq, Eq, Structural)]
pub enum TokenMode {
    Bridged,
    Collateral,
}

/// How the bridge is instantiated: create a fresh bridged token through a
/// sub-instantiation, or bind to an existing collateral token address.
pub enum TokenInit {
    Bridged { code_id: u64 },
    Collateral { address: String },
}

/// Side-effect messages the bridge asks the host to execute, in order.
#[derive(Clone, Debug, PartialEq, Eq)]
pub enum TokenMsg {
    /// Ask the host to instantiate the bridged token contract and route its
    /// reply back under `reply_id`.
    SubInstantiate { code_id: u64, reply_id: u64 },
    /// Burn `amount` of the bridged token held by the sender.
    Burn { token: String, amount: u128 },
    /// Mint `amount` of the bridged token to `recipient`.
    Mint { token: String, recipient: String, amount: u128 },
    /// Transfer `amount` of the collateral token to `recipient`.
    Transfer { token: String, recipient: String, amount: u128 },
    /// Hand `body` to the mailbox for dispatch to the router of
    /// `dest_domain`.
    Dispatch { mailbox: String, dest_domain: u32, recipient_router: Vec<u8>, body: Vec<u8> },
}

/// Operations on the bridge.
pub enum ExecuteMsg {
    /// Configure the router for a domain; owner only.
    SetRoute { domain: u32, router: Vec<u8> },
    /// An inbound interchain message handed over by the mailbox.
    Handle { origin_domain: u32, origin_sender: Vec<u8>, body: Vec<u8> },
    /// A local token receipt asking for a remote transfer.
    Receive { amount: u128, dest_domain: u32, recipient: Vec<u8> },
}

/// Read-only questions about the bridge.
pub enum QueryMsg {
    Route { domain: u32 },
    TokenType,
    TokenMode,
}

/// Answers to `QueryMsg`, one variant per question.
pub enum QueryResponse {
    Route(Vec<u8>),
    TokenType(String),
    TokenMode(TokenMode),
}

/// The bridge's whole persistent state. In bridged mode `token` stays
/// `None` until the sub-instantiation callback arrives; every operation
/// that needs the token fails closed until then.
pub struct TokenBridge {
    pub mode: TokenMode,
    pub hrp: String,
    pub owner: String,
    pub mailbox: String,
    pub token: Option<String>,
    pub routes: RouteTable,
}

/// The cw-utils reply parser's error type, carried only between the raw
/// call and its mapping to `ContractError`.
#[verifier::external_type_specification]
#[verifier::external_body]
pub struct ExParseReplyError(cw_utils::ParseReplyError);

/// The contract address that the sub-instantiation callback payload
/// carries, or `None` where the payload does not parse. A function of the
/// payload bytes alone.
pub uninterp spec fn parsed_init_addr(data: Seq<u8>) -> Option<Seq<char>>;

/// Relies on `cw_utils::parse_instantiate_response_data`: a deterministic
/// protobuf parse of the callback payload, returning the created
/// contract's address.
#[verifier::external_body]
fn parse_init_reply(data: &Vec<u8>) -> (r: Result<String, cw_utils::ParseReplyError>)
    ensures
        r is Ok <==> parsed_init_addr(data@) is Some,
        r matches Ok(a) ==> parsed_init_addr(data@) == Some(a@),
{
    match cw_utils::parse_instantiate_response_data(data.as_slice()) {
        Ok(resp) => Ok(resp.contract_address),
        Err(e) => Err(e),
    }
}

impl TokenBridge {
    /// Collateral mode binds an existing token address synchronously.
    pub open spec fn wf(&self) -> bool {
        self.mode is Collateral ==> self.token is Some
    }

    /// Creates the bridge. Collateral mode stores the token address
    /// synchronously and emits nothing; bridged mode leaves the token
    /// absent and emits exactly one sub-instantiation request tagged with
    /// the reply id.
    pub fn instantiate(init: TokenInit, hrp: String, owner: String, mailbox: String) -> (r: (
        TokenBridge,
        Vec<TokenMsg>,
    ))
        ensures
            r.0.wf(),
            r.0.hrp == hrp,
            r.0.owner == owner,
            r.0.mailbox == mailbox,
            r.0.routes@ == Map::<u32, Seq<u8>>::empty(),
            init matches TokenInit::Collateral { address } ==> (r.0.mode is Collateral && r.0.token
                == Some(address) && r.1@.len() == 0),
            init matches TokenInit::Bridged { code_id } ==> (r.0.mode is Bridged && r.0.token
                is None && r.1@.len() == 1 && r.1@[0] == (TokenMsg::SubInstantiate {
                code_id,
                reply_id: REPLY_ID_CREATE_DENOM,
            })),
    {
        match init {
            TokenInit::Collateral { address } => {
                let bridge = TokenBridge {
                    mode: TokenMode::Collateral,
                    hrp,
                    owner,
                    mailbox,
                    token: Some(address),
                    routes: RouteTable::new(),
                };
                (bridge, Vec::new())
            },
            TokenInit::Bridged { code_id } => {
                let bridge = TokenBridge {
                    mode: TokenMode::Bridged,
                    hrp,
                    owner,
                    mailbox,
                    token: None,
                    routes: RouteTable::new(),
                };
                let mut msgs: Vec<TokenMsg> = Vec::new();
                msgs.push(TokenMsg::SubInstantiate { code_id, reply_id: REPLY_ID_CREATE_DENOM });
                (bridge, msgs)
            },
        }
    }

    /// Applies the asynchronous sub-instantiation callback: parses the
    /// created contract's address out of the payload and stores it as the
    /// token. Any other reply tag is a protocol violation
    /// (`InvalidReplyId`); an unparseable payload fails with `DecodeError`.
    /// On failure the state is unchanged.
    pub fn reply(&mut self, reply_id: u64, data: &Vec<u8>) -> (r: Result<(), ContractError>)
        ensures
            reply_id != REPLY_ID_CREATE_DENOM ==> (r == Err::<(), ContractError>(
                ContractError::InvalidReplyId,
            ) && *final(self) == *old(self)),
            reply_id == REPLY_ID_CREATE_DENOM && parsed_init_addr(data@) is None ==> (r == Err::<
                (),
                ContractError,
            >(ContractError::DecodeError) && *final(self) == *old(self)),
            reply_id == REPLY_ID_CREATE_DENOM ==> (parsed_init_addr(data@) matches Some(a) ==> (
            final(self).token matches Some(t) && t@ == a && r is Ok && final(self).mode == old(
                self,
            ).mode && final(self).hrp == old(self).hrp && final(self).owner == old(self).owner
                && final(self).mailbox == old(self).mailbox && final(self).routes == old(
                self,
            ).routes)),
    {
        if reply_id != REPLY_ID_CREATE_DENOM {
            return Err(ContractError::InvalidReplyId);
        }
        match parse_init_reply(data) {
            Ok(addr) => {
                self.token = Some(addr);
                Ok(())
            },
            Err(_) => Err(ContractError::DecodeError),
        }
    }

    /// Converts a local token receipt into a remote transfer: resolves the
    /// destination router, burns the received amount first in bridged mode,
    /// and emits the outbound dispatch carrying `{recipient, amount}` with
    /// empty metadata. Caller authorization (the sender must be the token)
    /// is enforced in `execute`.
    pub fn transfer_remote(&self, amount: u128, dest_domain: u32, recipient: &Vec<u8>) -> (r:
        Result<Vec<TokenMsg>, ContractError>)
        requires
            recipient@.len() == 32,
        ensures
            self.token is None ==> r == Err::<Vec<TokenMsg>, ContractError>(
                ContractError::TokenNotSet,
            ),
            self.token is Some && !self.routes@.contains_key(dest_domain) ==> r == Err::<
                Vec<TokenMsg>,
                ContractError,
            >(ContractError::RouteNotFound),
            self.token matches Some(t) ==> (self.routes@.contains_key(dest_domain) ==> (r
                matches Ok(msgs) && transfer_msgs_ok(msgs@, self, t, amount, dest_domain,
            recipient@))),
    {
        let token = match &self.token {
            Some(t) => t,
            None => {
                return Err(ContractError::TokenNotSet);
            },
        };
        let dest_router = match self.routes.get_route(dest_domain) {
            Ok(v) => v,
            Err(e) => {
                return Err(e);
            },
        };
        let body = TokenMessage {
            recipient: copy_range(recipient, 0, recipient.len()),
            amount,
            metadata: Vec::new(),
        };
        proof {
            assert(body@.recipient =~= recipient@);
            assert(body@.metadata =~= Seq::<u8>::empty());
        }
        let body_bytes = body.encode();
        let mut msgs: Vec<TokenMsg> = Vec::new();
        if self.is_bridged() {
            msgs.push(TokenMsg::Burn { token: token.clone(), amount });
        }
        msgs.push(
            TokenMsg::Dispatch {
                mailbox: self.mailbox.clone(),
                dest_domain,
                recipient_router: dest_router,
                body: body_bytes,
            },
        );
        Ok(msgs)
    }

    /// Handles an inbound interchain message: only the mailbox may hand it
    /// over, and its reported origin sender must be the router configured
    /// for the origin domain (else `Unauthorized`). The body is decoded as
    /// a token payload, the recipient re-encoded under the local prefix,
    /// and the amount minted (bridged) or transferred (collateral).
    pub fn mailbox_handle(
        &self,
        caller: &String,
        origin_domain: u32,
        origin_sender: &Vec<u8>,
        body: &Vec<u8>,
    ) -> (r: Result<Vec<TokenMsg>, ContractError>)
        ensures
            caller@ != self.mailbox@ ==> r == Err::<Vec<TokenMsg>, ContractError>(
                ContractError::Unauthorized,
            ),
            caller@ == self.mailbox@ && !self.routes@.contains_key(origin_domain) ==> r == Err::<
                Vec<TokenMsg>,
                ContractError,
            >(ContractError::RouteNotFound),
            caller@ == self.mailbox@ && self.routes@.contains_key(origin_domain) && origin_sender@
                != self.routes@[origin_domain] ==> r == Err::<Vec<TokenMsg>, ContractError>(
                ContractError::Unauthorized,
            ),
            handle_checks_pass(self, caller@, origin_domain, origin_sender@) ==> handle_result_ok(
                self,
                body@,
                r,
            ),
    {
        if !caller.eq(&self.mailbox) {
            return Err(ContractError::Unauthorized);
        }
        let route = match self.routes.get_route(origin_domain) {
            Ok(v) => v,
            Err(e) => {
                return Err(e);
            },
        };
        if !crate::codec::bytes_eq(origin_sender, &route) {
            return Err(ContractError::Unauthorized);
        }
        let token_msg = match TokenMessage::decode(body) {
            Ok(m) => m,
            Err(e) => {
                return Err(e);
            },
        };
        let recipient = match bech32_encode(&self.hrp, &token_msg.recipient) {
            Ok(s) => s,
            Err(e) => {
                return Err(e);
            },
        };
        let token = match &self.token {
            Some(t) => t,
            None => {
                return Err(ContractError::TokenNotSet);
            },
        };
        let mut msgs: Vec<TokenMsg> = Vec::new();
        if self.is_bridged() {
            msgs.push(
                TokenMsg::Mint { token: token.clone(), recipient, amount: token_msg.amount },
            );
        } else {
            msgs.push(
                TokenMsg::Transfer { token: token.clone(), recipient, amount: token_msg.amount },
            );
        }
        Ok(msgs)
    }

    /// Dispatches an operation: `SetRoute` is owner-gated, `Handle` is
    /// mailbox-gated inside `mailbox_handle`, `Receive` is token-gated.
    pub fn execute(&mut self, caller: &String, msg: ExecuteMsg) -> (r: Result<
        Vec<TokenMsg>,
        ContractError,
    >)
        requires
            msg matches ExecuteMsg::Receive { recipient, .. } ==> recipient@.len() == 32,
        ensures
            msg matches ExecuteMsg::SetRoute { domain, router } ==> ((caller@ == old(self).owner@
                ==> (r matches Ok(msgs) && msgs@.len() == 0 && final(self).routes@ == old(self).routes@.insert(domain, router@) && final(self).mode == old(self).mode && final(self).token == old(self).token && final(self).hrp == old(self).hrp && final(self).owner
                == old(self).owner && final(self).mailbox == old(self).mailbox)) && (caller@
                != old(self).owner@ ==> (r == Err::<Vec<TokenMsg>, ContractError>(
                ContractError::Unauthorized,
            ) && *final(self) == *old(self)))),
            msg matches ExecuteMsg::Handle { origin_domain, origin_sender, body } ==> (*final(self)
                == *old(self) && ((caller@ != old(self).mailbox@ ==> r == Err::<
                Vec<TokenMsg>,
                ContractError,
            >(ContractError::Unauthorized)) && (caller@ == old(self).mailbox@ && !old(self).routes@.contains_key(origin_domain) ==> r == Err::<Vec<TokenMsg>, ContractError>(
                ContractError::RouteNotFound,
            )) && (caller@ == old(self).mailbox@ && old(self).routes@.contains_key(origin_domain)
                && origin_sender@ != old(self).routes@[origin_domain] ==> r == Err::<
                Vec<TokenMsg>,
                ContractError,
            >(ContractError::Unauthorized)) && (handle_checks_pass(
                old(self),
                caller@,
                origin_domain,
                origin_sender@,
            ) ==> handle_result_ok(old(self), body@, r)))),
            msg matches ExecuteMsg::Receive { amount, dest_domain, recipient } ==> (*final(self)
                == *old(self) && (old(self).token is None ==> r == Err::<
                Vec<TokenMsg>,
                ContractError,
            >(ContractError::TokenNotSet)) && (old(self).token matches Some(t) ==> ((caller@ != t@
                ==> r == Err::<Vec<TokenMsg>, ContractError>(ContractError::Unauthorized)) && (
            caller@ == t@ && !old(self).routes@.contains_key(dest_domain) ==> r == Err::<
                Vec<TokenMsg>,
                ContractError,
            >(ContractError::RouteNotFound)) && (caller@ == t@ && old(self).routes@.contains_key(
                dest_domain,
            ) ==> (r matches Ok(msgs) && transfer_msgs_ok(
                msgs@,
                old(self),
                t,
                amount,
                dest_domain,
                recipient@,
            )))))),
    {
        match msg {
            ExecuteMsg::SetRoute { domain, router } => {
                if !caller.eq(&self.owner) {
                    return Err(ContractError::Unauthorized);
                }
                self.routes.set_route(domain, router);
                Ok(Vec::new())
            },
            ExecuteMsg::Handle { origin_domain, origin_sender, body } => self.mailbox_handle(
                caller,
                origin_domain,
                &origin_sender,
                &body,
            ),
            ExecuteMsg::Receive { amount, dest_domain, recipient } => {
                let token = match &self.token {
                    Some(t) => t,
                    None => {
                        return Err(ContractError::TokenNotSet);
                    },
                };
                if !caller.eq(token) {
                    return Err(ContractError::Unauthorized);
                }
                self.transfer_remote(amount, dest_domain, &recipient)
            },
        }
    }

    /// Answers a query; `TokenType` fails while the token is absent.
    pub fn query(&self, msg: QueryMsg) -> (r: Result<QueryResponse, ContractError>)
        ensures
            msg matches QueryMsg::Route { domain } ==> ((self.routes@.contains_key(domain) ==> (r
                matches Ok(QueryResponse::Route(v)) && v@ == self.routes@[domain])) && (!self
                .routes@.contains_key(domain) ==> r == Err::<QueryResponse, ContractError>(
                ContractError::RouteNotFound,
            ))),
            msg is TokenType ==> ((self.token matches Some(t) ==> (r matches Ok(
                QueryResponse::TokenType(a),
            ) && a@ == t@)) && (self.token is None ==> r == Err::<QueryResponse, ContractError>(
                ContractError::TokenNotSet,
            ))),
            msg is TokenMode ==> r == Ok::<QueryResponse, ContractError>(
                QueryResponse::TokenMode(self.mode),
            ),
    {
        match msg {
            QueryMsg::Route { domain } => {
                match self.routes.get_route(domain) {
                    Ok(v) => Ok(QueryResponse::Route(v)),
                    Err(e) => Err(e),
                }
            },
            QueryMsg::TokenType => {
                match self.get_token_type() {
                    Ok(t) => Ok(QueryResponse::TokenType(t)),
                    Err(e) => Err(e),
                }
            },
            QueryMsg::TokenMode => Ok(QueryResponse::TokenMode(self.get_token_mode())),
        }
    }

    /// The configured token's address; fails with `TokenNotSet` while the
    /// bridged-mode sub-instantiation has not completed.
    pub fn get_token_type(&self) -> (r: Result<String, ContractError>)
        ensures
            self.token matches Some(t) ==> (r matches Ok(a) && a@ == t@),
            self.token is None ==> r == Err::<String, ContractError>(ContractError::TokenNotSet),
    {
        match &self.token {
            Some(t) => Ok(t.clone()),
            None => Err(ContractError::TokenNotSet),
        }
    }

    /// The configured token mode.
    pub fn get_token_mode(&self) -> (r: TokenMode)
        ensures
            r == self.mode,
    {
        self.mode
    }

    /// Whether the bridge runs in bridged mode.
    fn is_bridged(&self) -> (r: bool)
        ensures
            r == (self.mode is Bridged),
    {
        match self.mode {
            TokenMode::Bridged => true,
            TokenMode::Collateral => false,
        }
    }
}

/// The messages a successful `transfer_remote` emits: in bridged mode a
/// burn of the received amount, then (in either mode) the outbound
/// dispatch to the destination router, carrying the recipient and amount
/// with empty metadata.
pub open spec fn transfer_msgs_ok(
    msgs: Seq<TokenMsg>,
    bridge: &TokenBridge,
    token: String,
    amount: u128,
    dest_domain: u32,
    recipient: Seq<u8>,
) -> bool {
    let body = encode_token_message(
        TokenMessageView { recipient, amount, metadata: Seq::empty() },
    );
    let n = if bridge.mode is Bridged {
        2int
    } else {
        1int
    };
    &&& msgs.len() == n
    &&& (bridge.mode is Bridged ==> msgs[0] == (TokenMsg::Burn { token, amount }))
    &&& (msgs.last() matches TokenMsg::Dispatch {
        mailbox,
        dest_domain: d,
        recipient_router,
        body: b,
    } && mailbox@ == bridge.mailbox@ && d == dest_domain && recipient_router@
        == bridge.routes@[dest_domain] && b@ == body)
}

/// All of `mailbox_handle`'s authorization checks pass: the caller is the
/// mailbox, a route exists for the origin domain, and the reported origin
/// sender is exactly that route.
pub open spec fn handle_checks_pass(
    bridge: &TokenBridge,
    caller: Seq<char>,
    origin_domain: u32,
    origin_sender: Seq<u8>,
) -> bool {
    &&& caller == bridge.mailbox@
    &&& bridge.routes@.contains_key(origin_domain)
    &&& origin_sender == bridge.routes@[origin_domain]
}

/// What an authorized `mailbox_handle` returns for a body: `DecodeError`
/// for an invalid payload, `CodecError` where the local prefix is refused,
/// `TokenNotSet` while the token is absent, else one mint (bridged) or one
/// transfer (collateral) of the decoded amount to the re-encoded recipient.
pub open spec fn handle_result_ok(
    bridge: &TokenBridge,
    body: Seq<u8>,
    r: Result<Vec<TokenMsg>, ContractError>,
) -> bool {
    &&& (decode_token_message(body) is None ==> r == Err::<Vec<TokenMsg>, ContractError>(
        ContractError::DecodeError,
    ))
    &&& (decode_token_message(body) matches Some(tm) ==> ((bech32_of(bridge.hrp@, tm.recipient)
        is None ==> r == Err::<Vec<TokenMsg>, ContractError>(ContractError::CodecError)) && (
    bech32_of(bridge.hrp@, tm.recipient) matches Some(rec) ==> ((bridge.token is None ==> r
        == Err::<Vec<TokenMsg>, ContractError>(ContractError::TokenNotSet)) && (bridge.token
        matches Some(t) ==> (r matches Ok(msgs) && msgs.len() == 1 && handle_out_msg_ok(
        msgs[0],
        bridge.mode,
        t,
        rec,
        tm.amount,
    )))))))
}

/// The one outbound message of a successful `mailbox_handle`: a mint in
/// bridged mode, a transfer in collateral mode.
pub open spec fn handle_out_msg_ok(
    m: TokenMsg,
    mode: TokenMode,
    token: String,
    recipient: Seq<char>,
    amount: u128,
) -> bool {
    if mode is Bridged {
        m matches TokenMsg::Mint { token: t, recipient: rec, amount: a } && t@ == token@ && rec@
            == recipient && a == amount
    } else {
        m matches TokenMsg::Transfer { token: t, recipient: rec, amount: a } && t@ == token@ && rec@
            == recipient && a == amount
    }
}

} // verus!
