//! Packed per-hook metadata: one blob carries one slice per configured hook.
//!
//! Layout: a 4-byte big-endian slot count `k`, then `k` 4-byte big-endian
//! end offsets (non-decreasing, relative to the payload that follows the
//! table), then the payload. Slice `j` is `payload[end[j-1] .. end[j]]`
//! with an implicit `end[-1] = 0`; a hook whose slice is empty simply has
//! equal neighbouring offsets.

use vstd::prelude::*;
use crate::codec::{copy_range, spec_u32_from_be_bytes, u32_read_be};
use crate::error::ContractError;

verus! {

/// End offset of slice `j - 1` (so `meta_offset(b, 0) == 0` is the implicit
/// start of the first slice), read from the offset table.
pub open spec fn meta_offset(b: Seq<u8>, j: nat) -> nat {
    if j == 0 {
        0
    } else {
        spec_u32_from_be_bytes(b.subrange(4 * j as int, 4 * j as int + 4)) as nat
    }
}

/// Offset `j` does not fall below its predecessor.
pub open spec fn meta_mono_at(b: Seq<u8>, j: nat) -> bool {
    meta_offset(b, (j - 1) as nat) <= meta_offset(b, j)
}

/// The blob is a valid packing for exactly `k` hooks: the slot count equals
/// `k`, the table fits, offsets are non-decreasing, and the last offset
/// stays inside the payload.
pub open spec fn meta_wf(b: Seq<u8>, k: nat) -> bool {
    &&& b.len() >= 4
    &&& spec_u32_from_be_bytes(b.subrange(0, 4)) as nat == k
    &&& b.len() >= 4 + 4 * k
    &&& (forall|j: nat| 1 <= j <= k ==> #[trigger] meta_mono_at(b, j))
    &&& meta_offset(b, k) <= b.len() - (4 + 4 * k)
}

/// Slice assigned to hook `j` (of `k`).
pub open spec fn meta_slice(b: Seq<u8>, j: nat, k: nat) -> Seq<u8> {
    b.subrange(
        4 + 4 * k as int + meta_offset(b, j) as int,
        4 + 4 * k as int + meta_offset(b, (j + 1) as nat) as int,
    )
}

/// Offsets are non-decreasing transitively; in particular every offset is
/// bounded by the last one.
proof fn lemma_offsets_bounded(b: Seq<u8>, k: nat, j: nat)
    requires
        meta_wf(b, k),
        j <= k,
    ensures
        meta_offset(b, j) <= meta_offset(b, k),
    decreases k - j,
{
    if j < k {
        assert(meta_mono_at(b, (j + 1) as nat));
        lemma_offsets_bounded(b, k, (j + 1) as nat);
    }
}

/// Checks that the offset table is non-decreasing; returns the last offset.
#[verifier::rlimit(100)]
fn check_offsets(b: &Vec<u8>, k: usize) -> (r: Result<u32, ContractError>)
    requires
        4 + 4 * (k as int) <= b@.len(),
    ensures
        r matches Ok(last) ==> (last == meta_offset(b@, k as nat) && (forall|j: nat|
            1 <= j <= k ==> #[trigger] meta_mono_at(b@, j))),
        r is Err ==> (r == Err::<u32, ContractError>(ContractError::MalformedMetadata) && (exists|
            j: nat,
        | 1 <= j <= k && !(#[trigger] meta_mono_at(b@, j)))),
{
    let n: usize = b.len();
    let mut prev: u32 = 0;
    let mut j: usize = 1;
    while j <= k
        invariant
            1 <= j <= k + 1,
            4 + 4 * (k as int) <= n,
            n == b@.len(),
            prev == meta_offset(b@, (j - 1) as nat),
            forall|m: nat| 1 <= m < j ==> #[trigger] meta_mono_at(b@, m),
        decreases k + 1 - j,
    {
        let e = u32_read_be(b, 4 * j);
        proof {
            assert(b@.subrange(4 * (j as int), 4 * (j as int) + 4) =~= b@.subrange(
                4 * (j as nat) as int,
                (4 * (j as nat) as int) + 4,
            ));
            assert(e == meta_offset(b@, j as nat));
        }
        if e < prev {
            proof {
                assert(!meta_mono_at(b@, j as nat));
            }
            return Err(ContractError::MalformedMetadata);
        }
        proof {
            assert(meta_mono_at(b@, j as nat));
        }
        prev = e;
        j = j + 1;
    }
    Ok(prev)
}

/// Cuts the payload of a well-formed blob into its `k` slices.
fn cut_slices(b: &Vec<u8>, k: usize) -> (slices: Vec<Vec<u8>>)
    requires
        meta_wf(b@, k as nat),
    ensures
        slices@.len() == k,
        forall|j: int| 0 <= j < k ==> (#[trigger] slices@[j])@ == meta_slice(b@, j as nat, k as nat),
{
    let n: usize = b.len();
    let table_end: usize = 4 + 4 * k;
    let mut slices: Vec<Vec<u8>> = Vec::new();
    let mut start: u32 = 0;
    let mut i: usize = 0;
    while i < k
        invariant
            i <= k,
            meta_wf(b@, k as nat),
            n == b@.len(),
            table_end == 4 + 4 * (k as int),
            table_end <= n,
            start == meta_offset(b@, i as nat),
            start <= meta_offset(b@, k as nat),
            slices@.len() == i,
            forall|j2: int|
                0 <= j2 < i ==> (#[trigger] slices@[j2])@ == meta_slice(b@, j2 as nat, k as nat),
        decreases k - i,
    {
        let e = u32_read_be(b, 4 * (i + 1));
        proof {
            assert(b@.subrange(4 * ((i + 1) as int), 4 * ((i + 1) as int) + 4) =~= b@.subrange(
                4 * (((i + 1) as nat)) as int,
                (4 * (((i + 1) as nat)) as int) + 4,
            ));
            assert(e == meta_offset(b@, (i + 1) as nat));
            assert(meta_mono_at(b@, (i + 1) as nat));
            assert(meta_offset(b@, i as nat) <= meta_offset(b@, (i + 1) as nat));
            lemma_offsets_bounded(b@, k as nat, (i + 1) as nat);
            assert(meta_offset(b@, k as nat) <= b@.len() - (4 + 4 * (k as nat)));
        }
        let s = copy_range(b, table_end + start as usize, (e - start) as usize);
        proof {
            assert(s@ =~= meta_slice(b@, i as nat, k as nat));
        }
        slices.push(s);
        start = e;
        i = i + 1;
    }
    slices
}

/// Splits a packed metadata blob into one slice per hook, in hook order.
/// Fails with `MalformedMetadata` exactly when the blob is not a valid
/// packing for `k` hooks.
pub fn decode_metadata(b: &Vec<u8>, k: usize) -> (r: Result<Vec<Vec<u8>>, ContractError>)
    ensures
        meta_wf(b@, k as nat) ==> (r matches Ok(slices) && slices@.len() == k && (forall|j: int|
            0 <= j < k ==> (#[trigger] slices@[j])@ == meta_slice(b@, j as nat, k as nat))),
        !meta_wf(b@, k as nat) ==> r == Err::<Vec<Vec<u8>>, ContractError>(
            ContractError::MalformedMetadata,
        ),
{
    let n: usize = b.len();
    if n < 4 {
        return Err(ContractError::MalformedMetadata);
    }
    let cnt = u32_read_be(b, 0);
    if cnt as usize != k {
        return Err(ContractError::MalformedMetadata);
    }
    if (n as u128) < 4 + 4 * (k as u128) {
        return Err(ContractError::MalformedMetadata);
    }
    let last = match check_offsets(b, k) {
        Ok(last) => last,
        Err(e) => {
            return Err(e);
        },
    };
    let table_end: usize = 4 + 4 * k;
    if (last as usize) > n - table_end {
        return Err(ContractError::MalformedMetadata);
    }
    proof {
        assert(meta_wf(b@, k as nat));
    }
    Ok(cut_slices(b, k))
}

} // verus!
