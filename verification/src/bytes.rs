//! Big-endian encodings of the fixed-width scalars used in record headers
//! and footers.

use vstd::prelude::*;

verus! {

/// The eight big-endian bytes of `x`.
pub open spec fn spec_u64_be(x: u64) -> Seq<u8> {
    seq![
        (x >> 56) as u8,
        (x >> 48) as u8,
        (x >> 40) as u8,
        (x >> 32) as u8,
        (x >> 24) as u8,
        (x >> 16) as u8,
        (x >> 8) as u8,
        x as u8,
    ]
}

/// The value of eight big-endian bytes.
pub open spec fn spec_be_u64(b: Seq<u8>) -> u64
    recommends
        b.len() == 8,
{
    (((b[0] as u64) << 56) | ((b[1] as u64) << 48) | ((b[2] as u64) << 40)
        | ((b[3] as u64) << 32) | ((b[4] as u64) << 24) | ((b[5] as u64) << 16)
        | ((b[6] as u64) << 8) | (b[7] as u64))
}

/// The four big-endian bytes of `x`.
pub open spec fn spec_u32_be(x: u32) -> Seq<u8> {
    seq![(x >> 24) as u8, (x >> 16) as u8, (x >> 8) as u8, x as u8]
}

/// The value of four big-endian bytes.
pub open spec fn spec_be_u32(b: Seq<u8>) -> u32
    recommends
        b.len() == 4,
{
    (((b[0] as u32) << 24) | ((b[1] as u32) << 16) | ((b[2] as u32) << 8) | (b[3] as u32))
}

/// Reading back the eight bytes of `x` yields `x`.
pub proof fn lemma_u64_be_round_trip(x: u64)
    ensures
        spec_be_u64(spec_u64_be(x)) == x,
{
    assert((((((x >> 56) as u8) as u64) << 56) | ((((x >> 48) as u8) as u64) << 48)
        | ((((x >> 40) as u8) as u64) << 40) | ((((x >> 32) as u8) as u64) << 32)
        | ((((x >> 24) as u8) as u64) << 24) | ((((x >> 16) as u8) as u64) << 16)
        | ((((x >> 8) as u8) as u64) << 8) | ((x as u8) as u64)) == x) by (bit_vector);
}

/// Re-encoding the value of eight bytes yields the same bytes.
pub proof fn lemma_be_u64_round_trip(b: Seq<u8>)
    requires
        b.len() == 8,
    ensures
        spec_u64_be(spec_be_u64(b)) == b,
{
    let b0 = b[0];
    let b1 = b[1];
    let b2 = b[2];
    let b3 = b[3];
    let b4 = b[4];
    let b5 = b[5];
    let b6 = b[6];
    let b7 = b[7];
    let v = spec_be_u64(b);
    assert(v == (((b0 as u64) << 56) | ((b1 as u64) << 48) | ((b2 as u64) << 40)
        | ((b3 as u64) << 32) | ((b4 as u64) << 24) | ((b5 as u64) << 16)
        | ((b6 as u64) << 8) | (b7 as u64)));
    assert({
        let w = (((b0 as u64) << 56) | ((b1 as u64) << 48) | ((b2 as u64) << 40)
            | ((b3 as u64) << 32) | ((b4 as u64) << 24) | ((b5 as u64) << 16)
            | ((b6 as u64) << 8) | (b7 as u64));
        (w >> 56) as u8 == b0 && (w >> 48) as u8 == b1 && (w >> 40) as u8 == b2
            && (w >> 32) as u8 == b3 && (w >> 24) as u8 == b4 && (w >> 16) as u8 == b5
            && (w >> 8) as u8 == b6 && w as u8 == b7
    }) by (bit_vector);
    assert(spec_u64_be(v) =~= b);
}

/// Reading back the four bytes of `x` yields `x`.
pub proof fn lemma_u32_be_round_trip(x: u32)
    ensures
        spec_be_u32(spec_u32_be(x)) == x,
{
    assert((((((x >> 24) as u8) as u32) << 24) | ((((x >> 16) as u8) as u32) << 16)
        | ((((x >> 8) as u8) as u32) << 8) | ((x as u8) as u32)) == x) by (bit_vector);
}

/// Re-encoding the value of four bytes yields the same bytes.
pub proof fn lemma_be_u32_round_trip(b: Seq<u8>)
    requires
        b.len() == 4,
    ensures
        spec_u32_be(spec_be_u32(b)) == b,
{
    let b0 = b[0];
    let b1 = b[1];
    let b2 = b[2];
    let b3 = b[3];
    let v = spec_be_u32(b);
    assert(v == (((b0 as u32) << 24) | ((b1 as u32) << 16) | ((b2 as u32) << 8) | (b3 as u32)));
    assert({
        let w = (((b0 as u32) << 24) | ((b1 as u32) << 16) | ((b2 as u32) << 8) | (b3 as u32));
        (w >> 24) as u8 == b0 && (w >> 16) as u8 == b1 && (w >> 8) as u8 == b2 && w as u8 == b3
    }) by (bit_vector);
    assert(spec_u32_be(v) =~= b);
}

/// Appends the eight big-endian bytes of `x` to `dst`.
pub fn put_u64_be(dst: &mut Vec<u8>, x: u64)
    ensures
        final(dst)@ == old(dst)@ + spec_u64_be(x),
{
    dst.push(#[verifier::truncate] ((x >> 56) as u8));
    dst.push(#[verifier::truncate] ((x >> 48) as u8));
    dst.push(#[verifier::truncate] ((x >> 40) as u8));
    dst.push(#[verifier::truncate] ((x >> 32) as u8));
    dst.push(#[verifier::truncate] ((x >> 24) as u8));
    dst.push(#[verifier::truncate] ((x >> 16) as u8));
    dst.push(#[verifier::truncate] ((x >> 8) as u8));
    dst.push(#[verifier::truncate] (x as u8));
    assert(dst@ =~= old(dst)@ + spec_u64_be(x));
}

/// Appends the four big-endian bytes of `x` to `dst`.
pub fn put_u32_be(dst: &mut Vec<u8>, x: u32)
    ensures
        final(dst)@ == old(dst)@ + spec_u32_be(x),
{
    dst.push(#[verifier::truncate] ((x >> 24) as u8));
    dst.push(#[verifier::truncate] ((x >> 16) as u8));
    dst.push(#[verifier::truncate] ((x >> 8) as u8));
    dst.push(#[verifier::truncate] (x as u8));
    assert(dst@ =~= old(dst)@ + spec_u32_be(x));
}

/// Reads the eight big-endian bytes at `off` in `b`.
pub fn get_u64_be(b: &[u8], off: usize) -> (r: u64)
    requires
        off + 8 <= b@.len(),
    ensures
        r == spec_be_u64(b@.subrange(off as int, off + 8)),
{
    let r = (((b[off] as u64) << 56) | ((b[off + 1] as u64) << 48) | ((b[off + 2] as u64) << 40)
        | ((b[off + 3] as u64) << 32) | ((b[off + 4] as u64) << 24)
        | ((b[off + 5] as u64) << 16) | ((b[off + 6] as u64) << 8) | (b[off + 7] as u64));
    proof {
        let s = b@.subrange(off as int, off + 8);
        assert(s[0] == b@[off as int] && s[1] == b@[off + 1] && s[2] == b@[off + 2]
            && s[3] == b@[off + 3] && s[4] == b@[off + 4] && s[5] == b@[off + 5]
            && s[6] == b@[off + 6] && s[7] == b@[off + 7]);
    }
    r
}

/// Reads the four big-endian bytes at `off` in `b`.
pub fn get_u32_be(b: &[u8], off: usize) -> (r: u32)
    requires
        off + 4 <= b@.len(),
    ensures
        r == spec_be_u32(b@.subrange(off as int, off + 4)),
{
    let r = (((b[off] as u32) << 24) | ((b[off + 1] as u32) << 16) | ((b[off + 2] as u32) << 8)
        | (b[off + 3] as u32));
    proof {
        let s = b@.subrange(off as int, off + 4);
        assert(s[0] == b@[off as int] && s[1] == b@[off + 1] && s[2] == b@[off + 2]
            && s[3] == b@[off + 3]);
    }
    r
}

} // verus!
