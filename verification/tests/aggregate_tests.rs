use interchain_core::aggregate::{ExecuteMsg, HookAggregator, QueryMsg, QueryResponse};
use interchain_core::error::ContractError;
use interchain_core::metadata::decode_metadata;

/// Packs slices in the documented layout: 4-byte big-endian count, then one
/// 4-byte big-endian end offset per slice, then the concatenated payload.
fn pack(slices: &[&[u8]]) -> Vec<u8> {
    let mut out = Vec::new();
    out.extend_from_slice(&(slices.len() as u32).to_be_bytes());
    let mut end: u32 = 0;
    for s in slices {
        end += s.len() as u32;
        out.extend_from_slice(&end.to_be_bytes());
    }
    for s in slices {
        out.extend_from_slice(s);
    }
    out
}

#[test]
fn metadata_decodes_slices_in_order() {
    let blob = pack(&[b"aa", b"", b"bbb"]);
    let slices = decode_metadata(&blob, 3).unwrap();
    assert_eq!(slices.len(), 3);
    assert_eq!(slices[0], b"aa".to_vec());
    assert_eq!(slices[1], Vec::<u8>::new());
    assert_eq!(slices[2], b"bbb".to_vec());
}

#[test]
fn metadata_count_mismatch_rejected() {
    let blob = pack(&[b"aa", b"bb"]);
    assert_eq!(decode_metadata(&blob, 3), Err(ContractError::MalformedMetadata));
}

#[test]
fn metadata_non_monotonic_offsets_rejected() {
    // count 2, offsets 3 then 1, payload "xyz"
    let mut blob = Vec::new();
    blob.extend_from_slice(&2u32.to_be_bytes());
    blob.extend_from_slice(&3u32.to_be_bytes());
    blob.extend_from_slice(&1u32.to_be_bytes());
    blob.extend_from_slice(b"xyz");
    assert_eq!(decode_metadata(&blob, 2), Err(ContractError::MalformedMetadata));
}

#[test]
fn metadata_out_of_range_offset_rejected() {
    let mut blob = Vec::new();
    blob.extend_from_slice(&1u32.to_be_bytes());
    blob.extend_from_slice(&4u32.to_be_bytes());
    blob.extend_from_slice(b"xyz");
    assert_eq!(decode_metadata(&blob, 1), Err(ContractError::MalformedMetadata));
}

#[test]
fn metadata_truncated_table_rejected() {
    let blob = vec![0u8, 0, 0, 2, 0, 0];
    assert_eq!(decode_metadata(&blob, 2), Err(ContractError::MalformedMetadata));
}

fn aggregator() -> HookAggregator {
    HookAggregator::instantiate(
        "owner".to_string(),
        vec!["hook_a".to_string(), "hook_b".to_string(), "hook_c".to_string()],
    )
}

#[test]
fn post_dispatch_forwards_each_slice_in_list_order() {
    let agg = aggregator();
    let message = b"some message bytes".to_vec();
    let metadata = pack(&[b"m0", b"", b"m2m2"]);
    let calls = agg.post_dispatch(&message, &metadata).unwrap();
    assert_eq!(calls.len(), 3);
    assert_eq!(calls[0].hook, "hook_a");
    assert_eq!(calls[1].hook, "hook_b");
    assert_eq!(calls[2].hook, "hook_c");
    for c in &calls {
        assert_eq!(c.message, message);
    }
    assert_eq!(calls[0].metadata, b"m0".to_vec());
    assert_eq!(calls[1].metadata, Vec::<u8>::new());
    assert_eq!(calls[2].metadata, b"m2m2".to_vec());
}

#[test]
fn post_dispatch_rejects_wrong_slot_count() {
    let agg = aggregator();
    let metadata = pack(&[b"m0", b"m1"]);
    assert_eq!(
        agg.post_dispatch(&b"m".to_vec(), &metadata),
        Err(ContractError::MalformedMetadata)
    );
}

#[test]
fn set_hooks_by_owner_replaces_list() {
    let mut agg = aggregator();
    agg.set_hooks(&"owner".to_string(), vec!["only".to_string()]).unwrap();
    assert_eq!(agg.get_hooks(), &vec!["only".to_string()]);
}

#[test]
fn set_hooks_by_non_owner_fails_and_list_unchanged() {
    let mut agg = aggregator();
    let before = agg.get_hooks().clone();
    let r = agg.set_hooks(&"intruder".to_string(), vec!["evil".to_string()]);
    assert_eq!(r, Err(ContractError::Unauthorized));
    assert_eq!(agg.get_hooks(), &before);
}

#[test]
fn execute_dispatches_by_variant() {
    let mut agg = aggregator();
    let metadata = pack(&[b"x", b"y", b"z"]);
    let calls = agg
        .execute(
            &"anyone".to_string(),
            ExecuteMsg::PostDispatch { message: b"m".to_vec(), metadata },
        )
        .unwrap();
    assert_eq!(calls.len(), 3);
    let r = agg.execute(
        &"intruder".to_string(),
        ExecuteMsg::SetHooks { hooks: vec![] },
    );
    assert!(r.is_err());
}

#[test]
fn quote_dispatch_reports_no_fee() {
    let agg = aggregator();
    match agg.query(QueryMsg::QuoteDispatch) {
        QueryResponse::QuoteDispatch(q) => assert_eq!(q, None),
        _ => panic!("wrong response variant"),
    }
}

#[test]
fn get_mailbox_reports_unrestricted() {
    let agg = aggregator();
    match agg.query(QueryMsg::Mailbox) {
        QueryResponse::Mailbox(m) => assert_eq!(m, "unrestricted"),
        _ => panic!("wrong response variant"),
    }
}

#[test]
fn query_hooks_returns_list() {
    let agg = aggregator();
    match agg.query(QueryMsg::Hooks) {
        QueryResponse::Hooks(h) => assert_eq!(&h, agg.get_hooks()),
        _ => panic!("wrong response variant"),
    }
}
