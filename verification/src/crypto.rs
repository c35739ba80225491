//! The fixed 256-bit cryptographic hash used for message identity and the
//! Merkle accumulator, together with the node-pairing hash.

use vstd::prelude::*;
use sha3::Digest;

verus! {

/// The digest that the hash function assigns to a byte string. It depends on
/// the input bytes alone; nothing further is assumed of it.
pub uninterp spec fn keccak256_of(data: Seq<u8>) -> Seq<u8>;

/// Relies on `sha3::Keccak256` (the original Keccak-256): `digest` returns a
/// 32-byte value that is a function of the input bytes alone.
#[verifier::external_body]
pub fn keccak256_hash(data: &Vec<u8>) -> (r: Vec<u8>)
    ensures
        r@ == keccak256_of(data@),
        r@.len() == 32,
{
    sha3::Keccak256::digest(data.as_slice()).to_vec()
}

/// Hash of two tree nodes: the digest of their concatenation.
pub open spec fn hash2(a: Seq<u8>, b: Seq<u8>) -> Seq<u8> {
    keccak256_of(a + b)
}

/// Computes `hash2` of two byte strings.
pub fn hash_pair(a: &Vec<u8>, b: &Vec<u8>) -> (r: Vec<u8>)
    ensures
        r@ == hash2(a@, b@),
        r@.len() == 32,
{
    let mut buf: Vec<u8> = Vec::new();
    crate::codec::write_bytes(&mut buf, a.as_slice());
    crate::codec::write_bytes(&mut buf, b.as_slice());
    proof {
        assert(buf@ =~= a@ + b@);
    }
    keccak256_hash(&buf)
}

} // verus!
