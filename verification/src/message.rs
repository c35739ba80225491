//! Canonical fixed-layout encoding of an interchain message and its
//! content-addressed identifier, and the token-transfer payload carried in a
//! message body.

use vstd::prelude::*;
use crate::codec::{
    copy_range, spec_u128_from_be_bytes, spec_u128_to_be_bytes, spec_u32_from_be_bytes,
    spec_u32_to_be_bytes, lemma_u128_be_bytes, lemma_u32_be_bytes, u128_read_be, u128_write_be,
    u32_read_be, u32_write_be, write_bytes,
};
use crate::crypto::{keccak256_hash, keccak256_of};
use crate::error::ContractError;

verus! {

/// Byte length of the fixed-width prefix of an encoded message:
/// version (1), nonce (4), origin domain (4), sender (32),
/// destination domain (4), recipient (32).
pub const MESSAGE_PREFIX_LEN: usize = 77;

/// Mathematical image of a `Message`.
#[verifier::ext_equal]
pub ghost struct MessageView {
    pub version: u8,
    pub nonce: u32,
    pub origin_domain: u32,
    pub sender: Seq<u8>,
    pub dest_domain: u32,
    pub recipient: Seq<u8>,
    pub body: Seq<u8>,
}

/// A message is well formed when its two address fields are 32 bytes wide.
pub open spec fn message_wf(v: MessageView) -> bool {
    v.sender.len() == 32 && v.recipient.len() == 32
}

/// The canonical byte image: fixed field order, big-endian integers,
/// fixed-width addresses, variable-length body.
pub open spec fn encode_message(v: MessageView) -> Seq<u8> {
    seq![v.version] + spec_u32_to_be_bytes(v.nonce) + spec_u32_to_be_bytes(v.origin_domain)
        + v.sender + spec_u32_to_be_bytes(v.dest_domain) + v.recipient + v.body
}

/// The exact inverse of `encode_message`; `None` on insufficient length.
pub open spec fn decode_message(b: Seq<u8>) -> Option<MessageView> {
    if b.len() < MESSAGE_PREFIX_LEN {
        None
    } else {
        Some(
            MessageView {
                version: b[0],
                nonce: spec_u32_from_be_bytes(b.subrange(1, 5)),
                origin_domain: spec_u32_from_be_bytes(b.subrange(5, 9)),
                sender: b.subrange(9, 41),
                dest_domain: spec_u32_from_be_bytes(b.subrange(41, 45)),
                recipient: b.subrange(45, 77),
                body: b.subrange(77, b.len() as int),
            },
        )
    }
}

/// A message's identity: the 256-bit digest of its canonical byte image.
pub open spec fn message_id(v: MessageView) -> Seq<u8> {
    keccak256_of(encode_message(v))
}

/// Decoding is the exact inverse of encoding.
pub proof fn lemma_message_round_trip(v: MessageView)
    requires
        message_wf(v),
    ensures
        decode_message(encode_message(v)) == Some(v),
{
    lemma_u32_be_bytes();
    let e = encode_message(v);
    assert(e.len() == 77 + v.body.len());
    assert(e.subrange(1, 5) =~= spec_u32_to_be_bytes(v.nonce));
    assert(e.subrange(5, 9) =~= spec_u32_to_be_bytes(v.origin_domain));
    assert(e.subrange(9, 41) =~= v.sender);
    assert(e.subrange(41, 45) =~= spec_u32_to_be_bytes(v.dest_domain));
    assert(e.subrange(45, 77) =~= v.recipient);
    assert(e.subrange(77, e.len() as int) =~= v.body);
    assert(decode_message(e).unwrap() =~= v);
}

/// Encoding is canonical: two well-formed messages with the same byte image
/// are the same message.
pub proof fn lemma_encode_injective(v1: MessageView, v2: MessageView)
    requires
        message_wf(v1),
        message_wf(v2),
        encode_message(v1) == encode_message(v2),
    ensures
        v1 == v2,
{
    lemma_message_round_trip(v1);
    lemma_message_round_trip(v2);
}

/// Distinct well-formed messages have distinct byte images, hence their ids
/// can only collide where the underlying digest does.
pub proof fn lemma_distinct_messages_encode_differently(v1: MessageView, v2: MessageView)
    requires
        message_wf(v1),
        message_wf(v2),
        v1 != v2,
    ensures
        encode_message(v1) != encode_message(v2),
{
    if encode_message(v1) == encode_message(v2) {
        lemma_encode_injective(v1, v2);
    }
}

/// An interchain message: immutable value identified by the digest of its
/// canonical encoding.
#[derive(Clone, Debug, PartialEq, Eq)]
pub struct Message {
    pub version: u8,
    pub nonce: u32,
    pub origin_domain: u32,
    pub sender: Vec<u8>,
    pub dest_domain: u32,
    pub recipient: Vec<u8>,
    pub body: Vec<u8>,
}

impl View for Message {
    type V = MessageView;

    open spec fn view(&self) -> MessageView {
        MessageView {
            version: self.version,
            nonce: self.nonce,
            origin_domain: self.origin_domain,
            sender: self.sender@,
            dest_domain: self.dest_domain,
            recipient: self.recipient@,
            body: self.body@,
        }
    }
}

impl Message {
    /// Both address fields are 32 bytes wide.
    pub open spec fn wf(&self) -> bool {
        message_wf(self@)
    }

    /// Produces the canonical byte image.
    pub fn encode(&self) -> (r: Vec<u8>)
        requires
            self.wf(),
        ensures
            r@ == encode_message(self@),
    {
        let mut out: Vec<u8> = Vec::new();
        out.push(self.version);
        u32_write_be(&mut out, self.nonce);
        u32_write_be(&mut out, self.origin_domain);
        write_bytes(&mut out, self.sender.as_slice());
        u32_write_be(&mut out, self.dest_domain);
        write_bytes(&mut out, self.recipient.as_slice());
        write_bytes(&mut out, self.body.as_slice());
        proof {
            assert(out@ =~= encode_message(self@));
        }
        out
    }

    /// Parses the canonical layout; fails with `DecodeError` exactly when
    /// fewer bytes than the fixed-width prefix are given.
    pub fn decode(b: &Vec<u8>) -> (r: Result<Message, ContractError>)
        ensures
            b@.len() >= MESSAGE_PREFIX_LEN ==> (r matches Ok(m) && Some(m@) == decode_message(b@)
                && m.wf()),
            b@.len() < MESSAGE_PREFIX_LEN ==> r == Err::<Message, ContractError>(
                ContractError::DecodeError,
            ),
    {
        let n: usize = b.len();
        if n < MESSAGE_PREFIX_LEN {
            return Err(ContractError::DecodeError);
        }
        let m = Message {
            version: b[0],
            nonce: u32_read_be(b, 1),
            origin_domain: u32_read_be(b, 5),
            sender: copy_range(b, 9, 32),
            dest_domain: u32_read_be(b, 41),
            recipient: copy_range(b, 45, 32),
            body: copy_range(b, 77, n - 77),
        };
        proof {
            assert(m@ =~= decode_message(b@).unwrap());
        }
        Ok(m)
    }

    /// The message identifier: digest of the canonical encoding. Used both as
    /// the protocol-level id and as the Merkle accumulator leaf.
    pub fn id(&self) -> (r: Vec<u8>)
        requires
            self.wf(),
        ensures
            r@ == message_id(self@),
            r@.len() == 32,
    {
        let e = self.encode();
        keccak256_hash(&e)
    }
}

/// Byte length of the fixed-width prefix of a token transfer payload:
/// recipient (32) and amount (32).
pub const TOKEN_MESSAGE_PREFIX_LEN: usize = 64;

/// Mathematical image of a `TokenMessage`.
#[verifier::ext_equal]
pub ghost struct TokenMessageView {
    pub recipient: Seq<u8>,
    pub amount: u128,
    pub metadata: Seq<u8>,
}

/// A token payload is well formed when its recipient is 32 bytes wide.
pub open spec fn token_message_wf(v: TokenMessageView) -> bool {
    v.recipient.len() == 32
}

/// Byte image of a token transfer payload: 32-byte recipient, 32-byte
/// big-endian amount (the upper half zero), then free-form metadata.
pub open spec fn encode_token_message(v: TokenMessageView) -> Seq<u8> {
    v.recipient + Seq::new(16, |i: int| 0u8) + spec_u128_to_be_bytes(v.amount) + v.metadata
}

/// The exact inverse of `encode_token_message`; `None` on insufficient
/// length or on an amount above the supported range.
pub open spec fn decode_token_message(b: Seq<u8>) -> Option<TokenMessageView> {
    if b.len() < TOKEN_MESSAGE_PREFIX_LEN {
        None
    } else if exists|i: int| 32 <= i < 48 && b[i] != 0 {
        None
    } else {
        Some(
            TokenMessageView {
                recipient: b.subrange(0, 32),
                amount: spec_u128_from_be_bytes(b.subrange(48, 64)),
                metadata: b.subrange(64, b.len() as int),
            },
        )
    }
}

/// Decoding is the exact inverse of encoding for token payloads.
pub proof fn lemma_token_message_round_trip(v: TokenMessageView)
    requires
        token_message_wf(v),
    ensures
        decode_token_message(encode_token_message(v)) == Some(v),
{
    lemma_u128_be_bytes();
    let e = encode_token_message(v);
    assert(e.len() == 64 + v.metadata.len());
    assert(forall|i: int| 32 <= i < 48 ==> e[i] == 0);
    assert(e.subrange(0, 32) =~= v.recipient);
    assert(e.subrange(48, 64) =~= spec_u128_to_be_bytes(v.amount));
    assert(e.subrange(64, e.len() as int) =~= v.metadata);
    assert(decode_token_message(e).unwrap() =~= v);
}

/// A value-transfer payload carried in a message body: destination-side
/// recipient, amount, free-form metadata.
#[derive(Clone, Debug, PartialEq, Eq)]
pub struct TokenMessage {
    pub recipient: Vec<u8>,
    pub amount: u128,
    pub metadata: Vec<u8>,
}

impl View for TokenMessage {
    type V = TokenMessageView;

    open spec fn view(&self) -> TokenMessageView {
        TokenMessageView { recipient: self.recipient@, amount: self.amount, metadata: self.metadata@ }
    }
}

impl TokenMessage {
    /// The recipient is 32 bytes wide.
    pub open spec fn wf(&self) -> bool {
        token_message_wf(self@)
    }

    /// Produces the byte image of the payload.
    pub fn encode(&self) -> (r: Vec<u8>)
        requires
            self.wf(),
        ensures
            r@ == encode_token_message(self@),
    {
        let mut out: Vec<u8> = Vec::new();
        write_bytes(&mut out, self.recipient.as_slice());
        let mut i: usize = 0;
        while i < 16
            invariant
                i <= 16,
                out@ == self.recipient@ + Seq::new(i as nat, |j: int| 0u8),
            decreases 16 - i,
        {
            out.push(0u8);
            i = i + 1;
            assert(out@ =~= self.recipient@ + Seq::new(i as nat, |j: int| 0u8));
        }
        u128_write_be(&mut out, self.amount);
        write_bytes(&mut out, self.metadata.as_slice());
        proof {
            assert(out@ =~= encode_token_message(self@));
        }
        out
    }

    /// Parses a payload; fails with `DecodeError` exactly when the bytes are
    /// shorter than the fixed-width prefix or the amount field exceeds the
    /// supported range.
    pub fn decode(b: &Vec<u8>) -> (r: Result<TokenMessage, ContractError>)
        ensures
            decode_token_message(b@) matches Some(v) ==> (r matches Ok(m) && m@ == v && m.wf()),
            decode_token_message(b@) is None ==> r == Err::<TokenMessage, ContractError>(
                ContractError::DecodeError,
            ),
    {
        let n: usize = b.len();
        if n < TOKEN_MESSAGE_PREFIX_LEN {
            return Err(ContractError::DecodeError);
        }
        let mut i: usize = 32;
        while i < 48
            invariant
                32 <= i <= 48,
                48 <= b@.len(),
                forall|j: int| 32 <= j < i ==> b@[j] == 0,
            decreases 48 - i,
        {
            if b[i] != 0 {
                return Err(ContractError::DecodeError);
            }
            i = i + 1;
        }
        let m = TokenMessage {
            recipient: copy_range(b, 0, 32),
            amount: u128_read_be(b, 48),
            metadata: copy_range(b, 64, n - 64),
        };
        proof {
            assert(m@ =~= decode_token_message(b@).unwrap());
        }
        Ok(m)
    }
}

} // verus!
