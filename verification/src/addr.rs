//! Chain-native address codec: bech32 encoding with a human-readable
//! prefix (HRP). Pure functions of their inputs, no state.

use vstd::prelude::*;
use bech32::{FromBase32, ToBase32};
use crate::codec::write_bytes;
use crate::error::ContractError;

verus! {

/// The outside codec's error type, carried only between the raw call and
/// its mapping to `ContractError`.
#[verifier::external_type_specification]
#[verifier::external_body]
pub struct ExBech32Error(bech32::Error);

/// The bech32 string that the outside codec produces for a prefix and a
/// data part, or `None` where it refuses the prefix. A function of the two
/// arguments alone.
pub uninterp spec fn bech32_of(hrp: Seq<char>, data: Seq<u8>) -> Option<Seq<char>>;

/// The data part that the outside codec reads back from a bech32 string,
/// or `None` where the string is no valid encoding. A function of the
/// string alone.
pub uninterp spec fn bech32_data_of(s: Seq<char>) -> Option<Seq<u8>>;

/// Relies on `bech32::encode` with the `Bech32` variant (`to_base32`
/// regrouping the bytes): deterministic in `(hrp, data)`, `Err` exactly on
/// a prefix the codec refuses.
#[verifier::external_body]
fn bech32_encode_raw(hrp: &str, data: &[u8]) -> (r: Result<String, bech32::Error>)
    ensures
        r is Ok <==> bech32_of(hrp@, data@) is Some,
        r matches Ok(s) ==> bech32_of(hrp@, data@) == Some(s@),
{
    bech32::encode(hrp, data.to_base32(), bech32::Variant::Bech32)
}

/// Relies on `bech32::decode` (with `from_base32` regrouping the data
/// part): deterministic in the string, `Err` exactly on a string that is no
/// valid encoding.
#[verifier::external_body]
fn bech32_decode_raw(s: &str) -> (r: Result<Vec<u8>, bech32::Error>)
    ensures
        r is Ok <==> bech32_data_of(s@) is Some,
        r matches Ok(d) ==> bech32_data_of(s@) == Some(d@),
{
    let (_, data, _) = bech32::decode(s)?;
    Ok(FromBase32::from_base32(&data)?)
}

/// Encodes raw address bytes under the given prefix; fails with
/// `CodecError` exactly where the codec refuses the prefix.
pub fn bech32_encode(hrp: &String, data: &Vec<u8>) -> (r: Result<String, ContractError>)
    ensures
        bech32_of(hrp@, data@) matches Some(s) ==> (r matches Ok(a) && a@ == s),
        bech32_of(hrp@, data@) is None ==> r == Err::<String, ContractError>(
            ContractError::CodecError,
        ),
{
    match bech32_encode_raw(hrp.as_str(), data.as_slice()) {
        Ok(s) => Ok(s),
        Err(_) => Err(ContractError::CodecError),
    }
}

/// Reads the raw address bytes back out of a bech32 string; fails with
/// `CodecError` exactly where the string is no valid encoding.
pub fn bech32_decode(addr: &String) -> (r: Result<Vec<u8>, ContractError>)
    ensures
        bech32_data_of(addr@) matches Some(d) ==> (r matches Ok(v) && v@ == d),
        bech32_data_of(addr@) is None ==> r == Err::<Vec<u8>, ContractError>(
            ContractError::CodecError,
        ),
{
    match bech32_decode_raw(addr.as_str()) {
        Ok(v) => Ok(v),
        Err(_) => Err(ContractError::CodecError),
    }
}

/// Widens a decoded address to the fixed 32-byte form used on the wire,
/// zero-padded on the left.
pub fn bech32_to_h256(addr: &String) -> (r: Result<Vec<u8>, ContractError>)
    ensures
        bech32_data_of(addr@) matches Some(d) ==> ((d.len() <= 32 ==> (r matches Ok(v) && v@
            == Seq::new((32 - d.len()) as nat, |i: int| 0u8) + d)) && (d.len() > 32 ==> r
            == Err::<Vec<u8>, ContractError>(ContractError::CodecError))),
        bech32_data_of(addr@) is None ==> r == Err::<Vec<u8>, ContractError>(
            ContractError::CodecError,
        ),
{
    let d = match bech32_decode(addr) {
        Ok(d) => d,
        Err(e) => {
            return Err(e);
        },
    };
    if d.len() > 32 {
        return Err(ContractError::CodecError);
    }
    let pad: usize = 32 - d.len();
    let mut out: Vec<u8> = Vec::new();
    let mut i: usize = 0;
    while i < pad
        invariant
            i <= pad,
            out@ =~= Seq::new(i as nat, |j: int| 0u8),
        decreases pad - i,
    {
        out.push(0u8);
        i = i + 1;
        assert(out@ =~= Seq::new(i as nat, |j: int| 0u8));
    }
    write_bytes(&mut out, d.as_slice());
    Ok(out)
}

} // verus!
