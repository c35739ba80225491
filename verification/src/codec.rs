//! Byte-level helpers shared by the wire codecs: big-endian integer
//! conversions and verified `Vec<u8>` utilities.

use vstd::prelude::*;

verus! {

/// Big-endian byte image of a `u32`.
pub open spec fn spec_u32_to_be_bytes(x: u32) -> Seq<u8> {
    seq![
        ((x >> 24) & 0xff) as u8,
        ((x >> 16) & 0xff) as u8,
        ((x >> 8) & 0xff) as u8,
        (x & 0xff) as u8,
    ]
}

/// The `u32` read big-endian from four bytes.
pub open spec fn spec_u32_from_be_bytes(s: Seq<u8>) -> u32
    recommends
        s.len() == 4,
{
    ((s[0] as u32) << 24) | ((s[1] as u32) << 16) | ((s[2] as u32) << 8) | (s[3] as u32)
}

/// The two `u32` conversions invert each other.
pub proof fn lemma_u32_be_bytes()
    ensures
        forall|x: u32|
            {
                &&& (#[trigger] spec_u32_to_be_bytes(x)).len() == 4
                &&& spec_u32_from_be_bytes(spec_u32_to_be_bytes(x)) == x
            },
        forall|s: Seq<u8>|
            s.len() == 4 ==> #[trigger] spec_u32_to_be_bytes(spec_u32_from_be_bytes(s)) == s,
{
    assert forall|x: u32|
        {
            &&& (#[trigger] spec_u32_to_be_bytes(x)).len() == 4
            &&& spec_u32_from_be_bytes(spec_u32_to_be_bytes(x)) == x
        } by {
        assert(((((x >> 24) & 0xff) as u8) as u32) << 24 | ((((x >> 16) & 0xff) as u8) as u32)
            << 16 | ((((x >> 8) & 0xff) as u8) as u32) << 8 | (((x & 0xff) as u8) as u32)
            == x) by (bit_vector);
    }
    assert forall|s: Seq<u8>| s.len() == 4 implies #[trigger] spec_u32_to_be_bytes(
        spec_u32_from_be_bytes(s),
    ) == s by {
        let x = spec_u32_from_be_bytes(s);
        let s0 = s[0] as u32;
        let s1 = s[1] as u32;
        let s2 = s[2] as u32;
        let s3 = s[3] as u32;
        assert((x == s0 << 24 | s1 << 16 | s2 << 8 | s3 && s0 < 256 && s1 < 256 && s2 < 256 && s3
            < 256) ==> s0 == ((x >> 24) & 0xff) && s1 == ((x >> 16) & 0xff) && s2 == ((x >> 8)
            & 0xff) && s3 == (x & 0xff)) by (bit_vector);
        assert(spec_u32_to_be_bytes(x) =~= s);
    }
}

/// Big-endian byte image of a `u64`.
pub open spec fn spec_u64_to_be_bytes(x: u64) -> Seq<u8> {
    seq![
        ((x >> 56) & 0xff) as u8,
        ((x >> 48) & 0xff) as u8,
        ((x >> 40) & 0xff) as u8,
        ((x >> 32) & 0xff) as u8,
        ((x >> 24) & 0xff) as u8,
        ((x >> 16) & 0xff) as u8,
        ((x >> 8) & 0xff) as u8,
        (x & 0xff) as u8,
    ]
}

/// The `u64` read big-endian from eight bytes.
pub open spec fn spec_u64_from_be_bytes(s: Seq<u8>) -> u64
    recommends
        s.len() == 8,
{
    ((s[0] as u64) << 56) | ((s[1] as u64) << 48) | ((s[2] as u64) << 40) | ((s[3] as u64) << 32)
        | ((s[4] as u64) << 24) | ((s[5] as u64) << 16) | ((s[6] as u64) << 8) | (s[7] as u64)
}

/// The two `u64` conversions invert each other.
pub proof fn lemma_u64_be_bytes()
    ensures
        forall|x: u64|
            {
                &&& (#[trigger] spec_u64_to_be_bytes(x)).len() == 8
                &&& spec_u64_from_be_bytes(spec_u64_to_be_bytes(x)) == x
            },
        forall|s: Seq<u8>|
            s.len() == 8 ==> #[trigger] spec_u64_to_be_bytes(spec_u64_from_be_bytes(s)) == s,
{
    assert forall|x: u64|
        {
            &&& (#[trigger] spec_u64_to_be_bytes(x)).len() == 8
            &&& spec_u64_from_be_bytes(spec_u64_to_be_bytes(x)) == x
        } by {
        assert(((((x >> 56) & 0xff) as u8) as u64) << 56 | ((((x >> 48) & 0xff) as u8) as u64)
            << 48 | ((((x >> 40) & 0xff) as u8) as u64) << 40 | ((((x >> 32) & 0xff) as u8) as u64)
            << 32 | ((((x >> 24) & 0xff) as u8) as u64) << 24 | ((((x >> 16) & 0xff) as u8) as u64)
            << 16 | ((((x >> 8) & 0xff) as u8) as u64) << 8 | (((x & 0xff) as u8) as u64)
            == x) by (bit_vector);
    }
    assert forall|s: Seq<u8>| s.len() == 8 implies #[trigger] spec_u64_to_be_bytes(
        spec_u64_from_be_bytes(s),
    ) == s by {
        let x = spec_u64_from_be_bytes(s);
        let s0 = s[0] as u64;
        let s1 = s[1] as u64;
        let s2 = s[2] as u64;
        let s3 = s[3] as u64;
        let s4 = s[4] as u64;
        let s5 = s[5] as u64;
        let s6 = s[6] as u64;
        let s7 = s[7] as u64;
        assert((x == s0 << 56 | s1 << 48 | s2 << 40 | s3 << 32 | s4 << 24 | s5 << 16 | s6 << 8 | s7
            && s0 < 256 && s1 < 256 && s2 < 256 && s3 < 256 && s4 < 256 && s5 < 256 && s6 < 256
            && s7 < 256) ==> s0 == ((x >> 56) & 0xff) && s1 == ((x >> 48) & 0xff) && s2 == ((x
            >> 40) & 0xff) && s3 == ((x >> 32) & 0xff) && s4 == ((x >> 24) & 0xff) && s5 == ((x
            >> 16) & 0xff) && s6 == ((x >> 8) & 0xff) && s7 == (x & 0xff)) by (bit_vector);
        assert(spec_u64_to_be_bytes(x) =~= s);
    }
}

/// Big-endian byte image of a `u128`: high eight bytes, then low eight.
pub open spec fn spec_u128_to_be_bytes(x: u128) -> Seq<u8> {
    spec_u64_to_be_bytes(((x >> 64) & 0xffff_ffff_ffff_ffff) as u64) + spec_u64_to_be_bytes(
        (x & 0xffff_ffff_ffff_ffff) as u64,
    )
}

/// The `u128` read big-endian from sixteen bytes.
pub open spec fn spec_u128_from_be_bytes(s: Seq<u8>) -> u128
    recommends
        s.len() == 16,
{
    ((spec_u64_from_be_bytes(s.subrange(0, 8)) as u128) << 64) | (spec_u64_from_be_bytes(
        s.subrange(8, 16),
    ) as u128)
}

/// The two `u128` conversions invert each other.
pub proof fn lemma_u128_be_bytes()
    ensures
        forall|x: u128|
            {
                &&& (#[trigger] spec_u128_to_be_bytes(x)).len() == 16
                &&& spec_u128_from_be_bytes(spec_u128_to_be_bytes(x)) == x
            },
        forall|s: Seq<u8>|
            s.len() == 16 ==> #[trigger] spec_u128_to_be_bytes(spec_u128_from_be_bytes(s)) == s,
{
    lemma_u64_be_bytes();
    assert forall|x: u128|
        {
            &&& (#[trigger] spec_u128_to_be_bytes(x)).len() == 16
            &&& spec_u128_from_be_bytes(spec_u128_to_be_bytes(x)) == x
        } by {
        let hi = ((x >> 64) & 0xffff_ffff_ffff_ffff) as u64;
        let lo = (x & 0xffff_ffff_ffff_ffff) as u64;
        let e = spec_u128_to_be_bytes(x);
        assert(e.subrange(0, 8) =~= spec_u64_to_be_bytes(hi));
        assert(e.subrange(8, 16) =~= spec_u64_to_be_bytes(lo));
        assert((((hi as u128) << 64) | (lo as u128)) == x) by {
            assert(((((x >> 64) & 0xffff_ffff_ffff_ffff) as u64) as u128) << 64 | (((x
                & 0xffff_ffff_ffff_ffff) as u64) as u128) == x) by (bit_vector);
        }
    }
    assert forall|s: Seq<u8>| s.len() == 16 implies #[trigger] spec_u128_to_be_bytes(
        spec_u128_from_be_bytes(s),
    ) == s by {
        let hi = spec_u64_from_be_bytes(s.subrange(0, 8));
        let lo = spec_u64_from_be_bytes(s.subrange(8, 16));
        let x = spec_u128_from_be_bytes(s);
        assert(x == ((hi as u128) << 64) | (lo as u128));
        assert(((x >> 64) & 0xffff_ffff_ffff_ffff) == hi && (x & 0xffff_ffff_ffff_ffff) == lo) by {
            let h64 = hi as u128;
            let l64 = lo as u128;
            assert((h64 < 0x1_0000_0000_0000_0000 && l64 < 0x1_0000_0000_0000_0000) ==> (((h64
                << 64 | l64) >> 64) & 0xffff_ffff_ffff_ffff == h64 && (h64 << 64 | l64)
                & 0xffff_ffff_ffff_ffff == l64)) by (bit_vector);
        }
        assert(spec_u128_to_be_bytes(x) =~= s);
    }
}

/// Appends the big-endian bytes of `x` to `out`.
pub fn u128_write_be(out: &mut Vec<u8>, x: u128)
    ensures
        final(out)@ == old(out)@ + spec_u128_to_be_bytes(x),
{
    assert((x >> 64) & 0xffff_ffff_ffff_ffff < 0x1_0000_0000_0000_0000 && x
        & 0xffff_ffff_ffff_ffff < 0x1_0000_0000_0000_0000) by (bit_vector);
    let hi: u64 = ((x >> 64) & 0xffff_ffff_ffff_ffff) as u64;
    let lo: u64 = (x & 0xffff_ffff_ffff_ffff) as u64;
    u64_write_be(out, hi);
    u64_write_be(out, lo);
    assert(final(out)@ =~= old(out)@ + spec_u128_to_be_bytes(x));
}

/// Reads a big-endian `u128` from `b[at..at + 16]`.
pub fn u128_read_be(b: &Vec<u8>, at: usize) -> (x: u128)
    requires
        at + 16 <= b@.len(),
    ensures
        x == spec_u128_from_be_bytes(b@.subrange(at as int, at + 16)),
{
    let n: usize = b.len();
    assert(at + 16 <= n);
    let hi: u64 = u64_read_be(b, at);
    let lo: u64 = u64_read_be(b, at + 8);
    let x: u128 = ((hi as u128) << 64) | (lo as u128);
    proof {
        let s = b@.subrange(at as int, at + 16);
        assert(s.subrange(0, 8) =~= b@.subrange(at as int, at + 8));
        assert(s.subrange(8, 16) =~= b@.subrange(at + 8, at + 16));
    }
    x
}

/// Appends the big-endian bytes of `x` to `out`.
pub fn u64_write_be(out: &mut Vec<u8>, x: u64)
    ensures
        final(out)@ == old(out)@ + spec_u64_to_be_bytes(x),
{
    assert((x >> 56) & 0xff < 256 && (x >> 48) & 0xff < 256 && (x >> 40) & 0xff < 256 && (x >> 32)
        & 0xff < 256 && (x >> 24) & 0xff < 256 && (x >> 16) & 0xff < 256 && (x >> 8) & 0xff < 256
        && x & 0xff < 256) by (bit_vector);
    out.push(((x >> 56) & 0xff) as u8);
    out.push(((x >> 48) & 0xff) as u8);
    out.push(((x >> 40) & 0xff) as u8);
    out.push(((x >> 32) & 0xff) as u8);
    out.push(((x >> 24) & 0xff) as u8);
    out.push(((x >> 16) & 0xff) as u8);
    out.push(((x >> 8) & 0xff) as u8);
    out.push((x & 0xff) as u8);
    assert(final(out)@ =~= old(out)@ + spec_u64_to_be_bytes(x));
}

/// Reads a big-endian `u64` from `b[at..at + 8]`.
pub fn u64_read_be(b: &Vec<u8>, at: usize) -> (x: u64)
    requires
        at + 8 <= b@.len(),
    ensures
        x == spec_u64_from_be_bytes(b@.subrange(at as int, at + 8)),
{
    let n: usize = b.len();
    assert(at + 8 <= n);
    let x = ((b[at] as u64) << 56) | ((b[at + 1] as u64) << 48) | ((b[at + 2] as u64) << 40) | ((b[
        at + 3] as u64) << 32) | ((b[at + 4] as u64) << 24) | ((b[at + 5] as u64) << 16) | ((b[at
        + 6] as u64) << 8) | (b[at + 7] as u64);
    proof {
        let s = b@.subrange(at as int, at + 8);
        assert(s[0] == b@[at as int] && s[1] == b@[at + 1] && s[2] == b@[at + 2] && s[3] == b@[at
            + 3] && s[4] == b@[at + 4] && s[5] == b@[at + 5] && s[6] == b@[at + 6] && s[7] == b@[at
            + 7]);
    }
    x
}

/// Appends the big-endian bytes of `x` to `out`.
pub fn u32_write_be(out: &mut Vec<u8>, x: u32)
    ensures
        final(out)@ == old(out)@ + spec_u32_to_be_bytes(x),
{
    assert((x >> 24) & 0xff < 256 && (x >> 16) & 0xff < 256 && (x >> 8) & 0xff < 256 && x & 0xff
        < 256) by (bit_vector);
    out.push(((x >> 24) & 0xff) as u8);
    out.push(((x >> 16) & 0xff) as u8);
    out.push(((x >> 8) & 0xff) as u8);
    out.push((x & 0xff) as u8);
    assert(out@ =~= old(out)@ + spec_u32_to_be_bytes(x));
}

/// Reads a big-endian `u32` from `b[at..at + 4]`.
pub fn u32_read_be(b: &Vec<u8>, at: usize) -> (x: u32)
    requires
        at + 4 <= b@.len(),
    ensures
        x == spec_u32_from_be_bytes(b@.subrange(at as int, at + 4)),
{
    let n: usize = b.len();
    assert(at + 4 <= n);
    let x = ((b[at] as u32) << 24) | ((b[at + 1] as u32) << 16) | ((b[at + 2] as u32) << 8) | (b[at
        + 3] as u32);
    proof {
        let s = b@.subrange(at as int, at + 4);
        assert(s[0] == b@[at as int] && s[1] == b@[at + 1] && s[2] == b@[at + 2] && s[3] == b@[at
            + 3]);
    }
    x
}

/// Appends every byte of `src` to `out`.
pub fn write_bytes(out: &mut Vec<u8>, src: &[u8])
    ensures
        final(out)@ == old(out)@ + src@,
{
    let mut i: usize = 0;
    while i < src.len()
        invariant
            i <= src@.len(),
            out@ == old(out)@ + src@.subrange(0, i as int),
        decreases src@.len() - i,
    {
        out.push(src[i]);
        i = i + 1;
        assert(out@ =~= old(out)@ + src@.subrange(0, i as int));
    }
    assert(out@ =~= old(out)@ + src@);
}

/// Copies `b[start..start + len]` into a fresh vector.
pub fn copy_range(b: &Vec<u8>, start: usize, len: usize) -> (r: Vec<u8>)
    requires
        start + len <= b@.len(),
    ensures
        r@ == b@.subrange(start as int, start + len),
{
    let mut out: Vec<u8> = Vec::new();
    let n: usize = b.len();
    let mut i: usize = 0;
    while i < len
        invariant
            i <= len,
            start + len <= n,
            n == b@.len(),
            out@ == b@.subrange(start as int, start + i),
        decreases len - i,
    {
        out.push(b[start + i]);
        i = i + 1;
        assert(out@ =~= b@.subrange(start as int, start + i));
    }
    out
}

/// Byte-wise equality of two vectors.
pub fn bytes_eq(a: &Vec<u8>, b: &Vec<u8>) -> (r: bool)
    ensures
        r <==> a@ == b@,
{
    if a.len() != b.len() {
        proof {
            assert(a@.len() != b@.len());
        }
        return false;
    }
    let mut i: usize = 0;
    while i < a.len()
        invariant
            i <= a@.len(),
            a@.len() == b@.len(),
            forall|j: int| 0 <= j < i ==> a@[j] == b@[j],
        decreases a@.len() - i,
    {
        if a[i] != b[i] {
            return false;
        }
        i = i + 1;
    }
    proof {
        assert(a@ =~= b@);
    }
    true
}

} // verus!
