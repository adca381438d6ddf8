//! Little-endian fixed-width integers as they sit in record and
//! instruction bytes.
use vstd::prelude::*;

verus! {

/// The `u32` whose little-endian bytes are `s[0..4]`.
pub open spec fn le_u32(s: Seq<u8>) -> u32 {
    (s[0] as u32) | (s[1] as u32) << 8u32 | (s[2] as u32) << 16u32 | (s[3] as u32) << 24u32
}

/// The four little-endian bytes of `v`.
pub open spec fn u32_le(v: u32) -> Seq<u8> {
    seq![
        (v & 0xff) as u8,
        ((v >> 8u32) & 0xff) as u8,
        ((v >> 16u32) & 0xff) as u8,
        ((v >> 24u32) & 0xff) as u8,
    ]
}

/// The `u64` whose little-endian bytes are `s[0..8]`.
pub open spec fn le_u64(s: Seq<u8>) -> u64 {
    (s[0] as u64) | (s[1] as u64) << 8u64 | (s[2] as u64) << 16u64 | (s[3] as u64) << 24u64
        | (s[4] as u64) << 32u64 | (s[5] as u64) << 40u64 | (s[6] as u64) << 48u64
        | (s[7] as u64) << 56u64
}

/// The eight little-endian bytes of `v`.
pub open spec fn u64_le(v: u64) -> Seq<u8> {
    seq![
        (v & 0xff) as u8,
        ((v >> 8u64) & 0xff) as u8,
        ((v >> 16u64) & 0xff) as u8,
        ((v >> 24u64) & 0xff) as u8,
        ((v >> 32u64) & 0xff) as u8,
        ((v >> 40u64) & 0xff) as u8,
        ((v >> 48u64) & 0xff) as u8,
        ((v >> 56u64) & 0xff) as u8,
    ]
}

pub proof fn lemma_u32_value_round_trip(v: u32)
    ensures
        u32_le(v).len() == 4,
        le_u32(u32_le(v)) == v,
{
    let b0 = (v & 0xff) as u8;
    let b1 = ((v >> 8u32) & 0xff) as u8;
    let b2 = ((v >> 16u32) & 0xff) as u8;
    let b3 = ((v >> 24u32) & 0xff) as u8;
    assert((b0 as u32) | (b1 as u32) << 8u32 | (b2 as u32) << 16u32 | (b3 as u32) << 24u32 == v)
        by (bit_vector)
        requires
            b0 == (v & 0xff) as u8,
            b1 == ((v >> 8u32) & 0xff) as u8,
            b2 == ((v >> 16u32) & 0xff) as u8,
            b3 == ((v >> 24u32) & 0xff) as u8,
    ;
}

pub proof fn lemma_u32_bytes_round_trip(s: Seq<u8>)
    requires
        s.len() == 4,
    ensures
        u32_le(le_u32(s)) == s,
{
    let (b0, b1, b2, b3) = (s[0], s[1], s[2], s[3]);
    let x = le_u32(s);
    assert((x & 0xff) as u8 == b0 && ((x >> 8u32) & 0xff) as u8 == b1 && ((x >> 16u32) & 0xff) as u8
        == b2 && ((x >> 24u32) & 0xff) as u8 == b3) by (bit_vector)
        requires
            x == (b0 as u32) | (b1 as u32) << 8u32 | (b2 as u32) << 16u32 | (b3 as u32) << 24u32,
    ;
    assert(u32_le(x) =~= s);
}

pub proof fn lemma_u64_value_round_trip(v: u64)
    ensures
        u64_le(v).len() == 8,
        le_u64(u64_le(v)) == v,
{
    let b0 = (v & 0xff) as u8;
    let b1 = ((v >> 8u64) & 0xff) as u8;
    let b2 = ((v >> 16u64) & 0xff) as u8;
    let b3 = ((v >> 24u64) & 0xff) as u8;
    let b4 = ((v >> 32u64) & 0xff) as u8;
    let b5 = ((v >> 40u64) & 0xff) as u8;
    let b6 = ((v >> 48u64) & 0xff) as u8;
    let b7 = ((v >> 56u64) & 0xff) as u8;
    assert((b0 as u64) | (b1 as u64) << 8u64 | (b2 as u64) << 16u64 | (b3 as u64) << 24u64 | (
    b4 as u64) << 32u64 | (b5 as u64) << 40u64 | (b6 as u64) << 48u64 | (b7 as u64) << 56u64 == v)
        by (bit_vector)
        requires
            b0 == (v & 0xff) as u8,
            b1 == ((v >> 8u64) & 0xff) as u8,
            b2 == ((v >> 16u64) & 0xff) as u8,
            b3 == ((v >> 24u64) & 0xff) as u8,
            b4 == ((v >> 32u64) & 0xff) as u8,
            b5 == ((v >> 40u64) & 0xff) as u8,
            b6 == ((v >> 48u64) & 0xff) as u8,
            b7 == ((v >> 56u64) & 0xff) as u8,
    ;
}

pub proof fn lemma_u64_bytes_round_trip(s: Seq<u8>)
    requires
        s.len() == 8,
    ensures
        u64_le(le_u64(s)) == s,
{
    let (b0, b1, b2, b3, b4, b5, b6, b7) = (s[0], s[1], s[2], s[3], s[4], s[5], s[6], s[7]);
    let x = le_u64(s);
    assert((x & 0xff) as u8 == b0 && ((x >> 8u64) & 0xff) as u8 == b1 && ((x >> 16u64) & 0xff) as u8
        == b2 && ((x >> 24u64) & 0xff) as u8 == b3 && ((x >> 32u64) & 0xff) as u8 == b4 && ((x
        >> 40u64) & 0xff) as u8 == b5 && ((x >> 48u64) & 0xff) as u8 == b6 && ((x >> 56u64) & 0xff)
        as u8 == b7) by (bit_vector)
        requires
            x == (b0 as u64) | (b1 as u64) << 8u64 | (b2 as u64) << 16u64 | (b3 as u64) << 24u64 | (
            b4 as u64) << 32u64 | (b5 as u64) << 40u64 | (b6 as u64) << 48u64 | (b7 as u64)
                << 56u64,
    ;
    assert(u64_le(x) =~= s);
}

/// Reads the little-endian `u32` at `input[start..start + 4]`.
pub fn read_u32_le(input: &[u8], start: usize) -> (r: u32)
    requires
        start + 4 <= input.len(),
    ensures
        r == le_u32(input@.subrange(start as int, start + 4)),
{
    let s = Ghost(input@.subrange(start as int, start + 4));
    assert(s@[0] == input@[start as int] && s@[1] == input@[start + 1] && s@[2] == input@[start + 2]
        && s@[3] == input@[start + 3]);
    (input[start] as u32) | (input[start + 1] as u32) << 8u32 | (input[start + 2] as u32) << 16u32
        | (input[start + 3] as u32) << 24u32
}

/// Reads the little-endian `u64` at `input[start..start + 8]`.
pub fn read_u64_le(input: &[u8], start: usize) -> (r: u64)
    requires
        start + 8 <= input.len(),
    ensures
        r == le_u64(input@.subrange(start as int, start + 8)),
{
    let s = Ghost(input@.subrange(start as int, start + 8));
    assert(s@[0] == input@[start as int] && s@[1] == input@[start + 1] && s@[2] == input@[start + 2]
        && s@[3] == input@[start + 3] && s@[4] == input@[start + 4] && s@[5] == input@[start + 5]
        && s@[6] == input@[start + 6] && s@[7] == input@[start + 7]);
    (input[start] as u64) | (input[start + 1] as u64) << 8u64 | (input[start + 2] as u64) << 16u64
        | (input[start + 3] as u64) << 24u64 | (input[start + 4] as u64) << 32u64 | (input[start
        + 5] as u64) << 40u64 | (input[start + 6] as u64) << 48u64 | (input[start + 7] as u64)
        << 56u64
}

/// Appends the four little-endian bytes of `v`.
pub fn write_u32_le(out: &mut Vec<u8>, v: u32)
    ensures
        final(out)@ == old(out)@ + u32_le(v),
{
    out.push(#[verifier::truncate] ((v & 0xff) as u8));
    out.push(#[verifier::truncate] (((v >> 8u32) & 0xff) as u8));
    out.push(#[verifier::truncate] (((v >> 16u32) & 0xff) as u8));
    out.push(#[verifier::truncate] (((v >> 24u32) & 0xff) as u8));
    assert(out@ =~= old(out)@ + u32_le(v));
}

/// Appends the eight little-endian bytes of `v`.
pub fn write_u64_le(out: &mut Vec<u8>, v: u64)
    ensures
        final(out)@ == old(out)@ + u64_le(v),
{
    out.push(#[verifier::truncate] ((v & 0xff) as u8));
    out.push(#[verifier::truncate] (((v >> 8u64) & 0xff) as u8));
    out.push(#[verifier::truncate] (((v >> 16u64) & 0xff) as u8));
    out.push(#[verifier::truncate] (((v >> 24u64) & 0xff) as u8));
    out.push(#[verifier::truncate] (((v >> 32u64) & 0xff) as u8));
    out.push(#[verifier::truncate] (((v >> 40u64) & 0xff) as u8));
    out.push(#[verifier::truncate] (((v >> 48u64) & 0xff) as u8));
    out.push(#[verifier::truncate] (((v >> 56u64) & 0xff) as u8));
    assert(out@ =~= old(out)@ + u64_le(v));
}

} // verus!
