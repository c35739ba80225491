use interchain_core::error::ContractError;
use interchain_core::message::{Message, TokenMessage};

fn sample_message() -> Message {
    Message {
        version: 3,
        nonce: 7,
        origin_domain: 1000,
        sender: vec![0x11u8; 32],
        dest_domain: 2000,
        recipient: vec![0x22u8; 32],
        body: b"hello".to_vec(),
    }
}

#[test]
fn message_round_trip() {
    let m = sample_message();
    let e = m.encode();
    let d = Message::decode(&e).unwrap();
    assert_eq!(d.version, m.version);
    assert_eq!(d.nonce, m.nonce);
    assert_eq!(d.origin_domain, m.origin_domain);
    assert_eq!(d.sender, m.sender);
    assert_eq!(d.dest_domain, m.dest_domain);
    assert_eq!(d.recipient, m.recipient);
    assert_eq!(d.body, m.body);
}

#[test]
fn message_layout_is_canonical() {
    let m = sample_message();
    let e = m.encode();
    assert_eq!(e.len(), 77 + 5);
    assert_eq!(e[0], 3);
    assert_eq!(&e[1..5], &[0, 0, 0, 7]);
    assert_eq!(&e[5..9], &[0, 0, 0x03, 0xe8]);
    assert_eq!(&e[9..41], &[0x11u8; 32][..]);
    assert_eq!(&e[41..45], &[0, 0, 0x07, 0xd0]);
    assert_eq!(&e[45..77], &[0x22u8; 32][..]);
    assert_eq!(&e[77..], b"hello");
}

#[test]
fn message_decode_short_fails() {
    let short = vec![0u8; 76];
    assert_eq!(Message::decode(&short), Err(ContractError::DecodeError));
    let exact = vec![0u8; 77];
    assert!(Message::decode(&exact).is_ok());
}

#[test]
fn message_id_stable_and_field_sensitive() {
    let m = sample_message();
    // the digest is 32 bytes, never the encoding itself
    assert_eq!(m.id().len(), 32);
    // stable for the same bytes
    assert_eq!(m.id(), sample_message().id());
    // changes when any field changes
    let mut m2 = sample_message();
    m2.nonce = 8;
    assert_ne!(m.id(), m2.id());
    let mut m3 = sample_message();
    m3.body = b"hellp".to_vec();
    assert_ne!(m.id(), m3.id());
}

#[test]
fn token_message_round_trip() {
    let t = TokenMessage { recipient: vec![0xabu8; 32], amount: 1u128 << 100, metadata: vec![1, 2, 3] };
    let e = t.encode();
    assert_eq!(e.len(), 64 + 3);
    let d = TokenMessage::decode(&e).unwrap();
    assert_eq!(d.recipient, t.recipient);
    assert_eq!(d.amount, t.amount);
    assert_eq!(d.metadata, t.metadata);
}

#[test]
fn token_message_decode_short_fails() {
    assert_eq!(TokenMessage::decode(&vec![0u8; 63]), Err(ContractError::DecodeError));
}

#[test]
fn token_message_amount_out_of_range_fails() {
    let mut e = TokenMessage { recipient: vec![0u8; 32], amount: 5, metadata: vec![] }.encode();
    // a bit in the upper half of the 32-byte amount field
    e[33] = 1;
    assert_eq!(TokenMessage::decode(&e), Err(ContractError::DecodeError));
}
