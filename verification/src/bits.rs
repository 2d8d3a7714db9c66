//! Bit patterns and little-endian byte codecs for the primitive widths.
//!
//! Signed values travel as their two's-complement bit patterns inside an
//! unsigned value of the same width; vectors of a primitive travel as the
//! concatenation of their elements' little-endian encodings.

use vstd::prelude::*;
use vstd::bytes::*;

verus! {

/// Two's-complement bit pattern of an `i8`.
pub open spec fn spec_i8_bits(v: i8) -> u8 {
    if v >= 0 {
        v as u8
    } else {
        (v + 0x100) as u8
    }
}

/// The `i8` whose two's-complement bit pattern is `b`.
pub open spec fn spec_i8_of_bits(b: u8) -> i8 {
    if b < 0x80 {
        b as i8
    } else {
        (b - 0x100) as i8
    }
}

/// Two's-complement bit pattern of an `i16`.
pub open spec fn spec_i16_bits(v: i16) -> u16 {
    if v >= 0 {
        v as u16
    } else {
        (v + 0x1_0000) as u16
    }
}

/// The `i16` whose two's-complement bit pattern is `b`.
pub open spec fn spec_i16_of_bits(b: u16) -> i16 {
    if b < 0x8000 {
        b as i16
    } else {
        (b - 0x1_0000) as i16
    }
}

/// Two's-complement bit pattern of an `i32`.
pub open spec fn spec_i32_bits(v: i32) -> u32 {
    if v >= 0 {
        v as u32
    } else {
        (v + 0x1_0000_0000) as u32
    }
}

/// The `i32` whose two's-complement bit pattern is `b`.
pub open spec fn spec_i32_of_bits(b: u32) -> i32 {
    if b < 0x8000_0000 {
        b as i32
    } else {
        (b - 0x1_0000_0000) as i32
    }
}

/// Two's-complement bit pattern of an `i64`.
pub open spec fn spec_i64_bits(v: i64) -> u64 {
    if v >= 0 {
        v as u64
    } else {
        (v + 0x1_0000_0000_0000_0000) as u64
    }
}

/// The `i64` whose two's-complement bit pattern is `b`.
pub open spec fn spec_i64_of_bits(b: u64) -> i64 {
    if b < 0x8000_0000_0000_0000 {
        b as i64
    } else {
        (b - 0x1_0000_0000_0000_0000) as i64
    }
}

/// Two's-complement bit pattern of an `i8`.
pub fn i8_bits(v: i8) -> (b: u8)
    ensures
        b == spec_i8_bits(v),
        spec_i8_of_bits(b) == v,
{
    if v >= 0 {
        v as u8
    } else {
        ((v as i16) + 0x100) as u8
    }
}

/// The `i8` whose two's-complement bit pattern is `b`.
pub fn i8_of_bits(b: u8) -> (v: i8)
    ensures
        v == spec_i8_of_bits(b),
{
    if b < 0x80 {
        b as i8
    } else {
        ((b as i16) - 0x100) as i8
    }
}

/// Two's-complement bit pattern of an `i16`.
pub fn i16_bits(v: i16) -> (b: u16)
    ensures
        b == spec_i16_bits(v),
        spec_i16_of_bits(b) == v,
{
    if v >= 0 {
        v as u16
    } else {
        ((v as i32) + 0x1_0000) as u16
    }
}

/// The `i16` whose two's-complement bit pattern is `b`.
pub fn i16_of_bits(b: u16) -> (v: i16)
    ensures
        v == spec_i16_of_bits(b),
{
    if b < 0x8000 {
        b as i16
    } else {
        ((b as i32) - 0x1_0000) as i16
    }
}

/// Two's-complement bit pattern of an `i32`.
pub fn i32_bits(v: i32) -> (b: u32)
    ensures
        b == spec_i32_bits(v),
        spec_i32_of_bits(b) == v,
{
    if v >= 0 {
        v as u32
    } else {
        ((v as i64) + 0x1_0000_0000) as u32
    }
}

/// The `i32` whose two's-complement bit pattern is `b`.
pub fn i32_of_bits(b: u32) -> (v: i32)
    ensures
        v == spec_i32_of_bits(b),
{
    if b < 0x8000_0000 {
        b as i32
    } else {
        ((b as i64) - 0x1_0000_0000) as i32
    }
}

/// Two's-complement bit pattern of an `i64`.
pub fn i64_bits(v: i64) -> (b: u64)
    ensures
        b == spec_i64_bits(v),
        spec_i64_of_bits(b) == v,
{
    if v >= 0 {
        v as u64
    } else {
        ((v as i128) + 0x1_0000_0000_0000_0000) as u64
    }
}

/// The `i64` whose two's-complement bit pattern is `b`.
pub fn i64_of_bits(b: u64) -> (v: i64)
    ensures
        v == spec_i64_of_bits(b),
{
    if b < 0x8000_0000_0000_0000 {
        b as i64
    } else {
        ((b as i128) - 0x1_0000_0000_0000_0000) as i64
    }
}

/// Little-endian bytes of a sequence of 16-bit words, element encodings
/// laid end to end.
pub open spec fn spec_u16s_bytes(s: Seq<u16>) -> Seq<u8>
    decreases s.len(),
{
    if s.len() == 0 {
        Seq::<u8>::empty()
    } else {
        spec_u16s_bytes(s.drop_last()) + spec_u16_to_le_bytes(s.last())
    }
}

/// Little-endian bytes of a sequence of 32-bit words.
pub open spec fn spec_u32s_bytes(s: Seq<u32>) -> Seq<u8>
    decreases s.len(),
{
    if s.len() == 0 {
        Seq::<u8>::empty()
    } else {
        spec_u32s_bytes(s.drop_last()) + spec_u32_to_le_bytes(s.last())
    }
}

/// Little-endian bytes of a sequence of 64-bit words.
pub open spec fn spec_u64s_bytes(s: Seq<u64>) -> Seq<u8>
    decreases s.len(),
{
    if s.len() == 0 {
        Seq::<u8>::empty()
    } else {
        spec_u64s_bytes(s.drop_last()) + spec_u64_to_le_bytes(s.last())
    }
}

pub proof fn lemma_u16s_bytes_len(s: Seq<u16>)
    ensures
        spec_u16s_bytes(s).len() == 2 * s.len(),
    decreases s.len(),
{
    lemma_auto_spec_u16_to_from_le_bytes();
    if s.len() > 0 {
        lemma_u16s_bytes_len(s.drop_last());
    }
}

pub proof fn lemma_u32s_bytes_len(s: Seq<u32>)
    ensures
        spec_u32s_bytes(s).len() == 4 * s.len(),
    decreases s.len(),
{
    lemma_auto_spec_u32_to_from_le_bytes();
    if s.len() > 0 {
        lemma_u32s_bytes_len(s.drop_last());
    }
}

pub proof fn lemma_u64s_bytes_len(s: Seq<u64>)
    ensures
        spec_u64s_bytes(s).len() == 8 * s.len(),
    decreases s.len(),
{
    lemma_auto_spec_u64_to_from_le_bytes();
    if s.len() > 0 {
        lemma_u64s_bytes_len(s.drop_last());
    }
}

/// The 16-bit words read back from a byte sequence of even length,
/// two bytes per word.
pub open spec fn spec_u16s_of_bytes(b: Seq<u8>) -> Seq<u16>
    decreases b.len(),
{
    if b.len() < 2 {
        Seq::<u16>::empty()
    } else {
        spec_u16s_of_bytes(b.subrange(0, b.len() - 2)).push(
            spec_u16_from_le_bytes(b.subrange(b.len() - 2, b.len() as int)),
        )
    }
}

/// The 32-bit words read back from a byte sequence, four bytes per word.
pub open spec fn spec_u32s_of_bytes(b: Seq<u8>) -> Seq<u32>
    decreases b.len(),
{
    if b.len() < 4 {
        Seq::<u32>::empty()
    } else {
        spec_u32s_of_bytes(b.subrange(0, b.len() - 4)).push(
            spec_u32_from_le_bytes(b.subrange(b.len() - 4, b.len() as int)),
        )
    }
}

/// The 64-bit words read back from a byte sequence, eight bytes per word.
pub open spec fn spec_u64s_of_bytes(b: Seq<u8>) -> Seq<u64>
    decreases b.len(),
{
    if b.len() < 8 {
        Seq::<u64>::empty()
    } else {
        spec_u64s_of_bytes(b.subrange(0, b.len() - 8)).push(
            spec_u64_from_le_bytes(b.subrange(b.len() - 8, b.len() as int)),
        )
    }
}

/// Encoding a sequence of 16-bit words and reading the bytes back yields
/// the original words.
pub proof fn lemma_u16s_roundtrip(s: Seq<u16>)
    ensures
        spec_u16s_of_bytes(spec_u16s_bytes(s)) == s,
    decreases s.len(),
{
    lemma_auto_spec_u16_to_from_le_bytes();
    lemma_u16s_bytes_len(s);
    if s.len() == 0 {
        assert(spec_u16s_of_bytes(spec_u16s_bytes(s)) =~= s);
    } else {
        let pre = spec_u16s_bytes(s.drop_last());
        let b = spec_u16s_bytes(s);
        lemma_u16s_bytes_len(s.drop_last());
        assert(b.subrange(0, b.len() - 2) =~= pre);
        assert(b.subrange(b.len() - 2, b.len() as int) =~= spec_u16_to_le_bytes(s.last()));
        lemma_u16s_roundtrip(s.drop_last());
        assert(spec_u16s_of_bytes(b) =~= s);
    }
}

/// Encoding a sequence of 32-bit words and reading the bytes back yields
/// the original words.
pub proof fn lemma_u32s_roundtrip(s: Seq<u32>)
    ensures
        spec_u32s_of_bytes(spec_u32s_bytes(s)) == s,
    decreases s.len(),
{
    lemma_auto_spec_u32_to_from_le_bytes();
    lemma_u32s_bytes_len(s);
    if s.len() == 0 {
        assert(spec_u32s_of_bytes(spec_u32s_bytes(s)) =~= s);
    } else {
        let pre = spec_u32s_bytes(s.drop_last());
        let b = spec_u32s_bytes(s);
        lemma_u32s_bytes_len(s.drop_last());
        assert(b.subrange(0, b.len() - 4) =~= pre);
        assert(b.subrange(b.len() - 4, b.len() as int) =~= spec_u32_to_le_bytes(s.last()));
        lemma_u32s_roundtrip(s.drop_last());
        assert(spec_u32s_of_bytes(b) =~= s);
    }
}

/// Encoding a sequence of 64-bit words and reading the bytes back yields
/// the original words.
pub proof fn lemma_u64s_roundtrip(s: Seq<u64>)
    ensures
        spec_u64s_of_bytes(spec_u64s_bytes(s)) == s,
    decreases s.len(),
{
    lemma_auto_spec_u64_to_from_le_bytes();
    lemma_u64s_bytes_len(s);
    if s.len() == 0 {
        assert(spec_u64s_of_bytes(spec_u64s_bytes(s)) =~= s);
    } else {
        let pre = spec_u64s_bytes(s.drop_last());
        let b = spec_u64s_bytes(s);
        lemma_u64s_bytes_len(s.drop_last());
        assert(b.subrange(0, b.len() - 8) =~= pre);
        assert(b.subrange(b.len() - 8, b.len() as int) =~= spec_u64_to_le_bytes(s.last()));
        lemma_u64s_roundtrip(s.drop_last());
        assert(spec_u64s_of_bytes(b) =~= s);
    }
}

/// Appends the little-endian bytes of each 16-bit word of `v` to `out`.
pub fn push_u16s_bytes(out: &mut Vec<u8>, v: &Vec<u16>)
    ensures
        final(out)@ == old(out)@ + spec_u16s_bytes(v@),
{
    let mut k: usize = 0;
    proof {
        assert(v@.subrange(0, 0) =~= Seq::<u16>::empty());
        assert(out@ =~= out@ + spec_u16s_bytes(v@.subrange(0, 0)));
    }
    while k < v.len()
        invariant
            k <= v@.len(),
            out@ == old(out)@ + spec_u16s_bytes(v@.subrange(0, k as int)),
        decreases v@.len() - k,
    {
        let bs = u16_to_le_bytes(v[k]);
        proof {
            lemma_auto_spec_u16_to_from_le_bytes();
        }
        out.push(bs[0]);
        out.push(bs[1]);
        proof {
            let pre = v@.subrange(0, k as int);
            let cur = v@.subrange(0, k + 1);
            assert(cur.drop_last() =~= pre);
            assert(bs@ =~= seq![bs@[0], bs@[1]]);
            assert(out@ =~= old(out)@ + spec_u16s_bytes(cur));
        }
        k = k + 1;
    }
    proof {
        assert(v@.subrange(0, v@.len() as int) =~= v@);
    }
}

/// Appends the little-endian bytes of each 32-bit word of `v` to `out`.
pub fn push_u32s_bytes(out: &mut Vec<u8>, v: &Vec<u32>)
    ensures
        final(out)@ == old(out)@ + spec_u32s_bytes(v@),
{
    let mut k: usize = 0;
    proof {
        assert(v@.subrange(0, 0) =~= Seq::<u32>::empty());
        assert(out@ =~= out@ + spec_u32s_bytes(v@.subrange(0, 0)));
    }
    while k < v.len()
        invariant
            k <= v@.len(),
            out@ == old(out)@ + spec_u32s_bytes(v@.subrange(0, k as int)),
        decreases v@.len() - k,
    {
        let bs = u32_to_le_bytes(v[k]);
        proof {
            lemma_auto_spec_u32_to_from_le_bytes();
        }
        out.push(bs[0]);
        out.push(bs[1]);
        out.push(bs[2]);
        out.push(bs[3]);
        proof {
            let pre = v@.subrange(0, k as int);
            let cur = v@.subrange(0, k + 1);
            assert(cur.drop_last() =~= pre);
            assert(bs@ =~= seq![bs@[0], bs@[1], bs@[2], bs@[3]]);
            assert(out@ =~= old(out)@ + spec_u32s_bytes(cur));
        }
        k = k + 1;
    }
    proof {
        assert(v@.subrange(0, v@.len() as int) =~= v@);
    }
}

/// Appends the little-endian bytes of each 64-bit word of `v` to `out`.
pub fn push_u64s_bytes(out: &mut Vec<u8>, v: &Vec<u64>)
    ensures
        final(out)@ == old(out)@ + spec_u64s_bytes(v@),
{
    let mut k: usize = 0;
    proof {
        assert(v@.subrange(0, 0) =~= Seq::<u64>::empty());
        assert(out@ =~= out@ + spec_u64s_bytes(v@.subrange(0, 0)));
    }
    while k < v.len()
        invariant
            k <= v@.len(),
            out@ == old(out)@ + spec_u64s_bytes(v@.subrange(0, k as int)),
        decreases v@.len() - k,
    {
        let bs = u64_to_le_bytes(v[k]);
        proof {
            lemma_auto_spec_u64_to_from_le_bytes();
        }
        out.push(bs[0]);
        out.push(bs[1]);
        out.push(bs[2]);
        out.push(bs[3]);
        out.push(bs[4]);
        out.push(bs[5]);
        out.push(bs[6]);
        out.push(bs[7]);
        proof {
            let pre = v@.subrange(0, k as int);
            let cur = v@.subrange(0, k + 1);
            assert(cur.drop_last() =~= pre);
            assert(bs@ =~= seq![
                bs@[0],
                bs@[1],
                bs@[2],
                bs@[3],
                bs@[4],
                bs@[5],
                bs@[6],
                bs@[7],
            ]);
            assert(out@ =~= old(out)@ + spec_u64s_bytes(cur));
        }
        k = k + 1;
    }
    proof {
        assert(v@.subrange(0, v@.len() as int) =~= v@);
    }
}

/// Reads 16-bit words back from a byte slice of even length.
pub fn u16s_from_bytes(b: &[u8]) -> (r: Vec<u16>)
    requires
        b@.len() % 2 == 0,
    ensures
        r@ == spec_u16s_of_bytes(b@),
        2 * r@.len() == b@.len(),
{
    let mut r: Vec<u16> = Vec::new();
    let mut k: usize = 0;
    proof {
        assert(b@.subrange(0, 0) =~= Seq::<u8>::empty());
    }
    while k < b.len()
        invariant
            k <= b@.len(),
            k % 2 == 0,
            b@.len() % 2 == 0,
            r@ == spec_u16s_of_bytes(b@.subrange(0, k as int)),
            2 * r@.len() == k,
        decreases b@.len() - k,
    {
        let chunk = vstd::slice::slice_subrange(b, k, k + 2);
        let w = u16_from_le_bytes(chunk);
        r.push(w);
        proof {
            let cur = b@.subrange(0, k + 2);
            assert(cur.subrange(0, k as int) =~= b@.subrange(0, k as int));
            assert(cur.subrange(k as int, k + 2) =~= b@.subrange(k as int, k + 2));
        }
        k = k + 2;
    }
    proof {
        assert(b@.subrange(0, b@.len() as int) =~= b@);
    }
    r
}

/// Reads 32-bit words back from a byte slice whose length is a multiple
/// of four.
pub fn u32s_from_bytes(b: &[u8]) -> (r: Vec<u32>)
    requires
        b@.len() % 4 == 0,
    ensures
        r@ == spec_u32s_of_bytes(b@),
        4 * r@.len() == b@.len(),
{
    let mut r: Vec<u32> = Vec::new();
    let mut k: usize = 0;
    proof {
        assert(b@.subrange(0, 0) =~= Seq::<u8>::empty());
    }
    while k < b.len()
        invariant
            k <= b@.len(),
            k % 4 == 0,
            b@.len() % 4 == 0,
            r@ == spec_u32s_of_bytes(b@.subrange(0, k as int)),
            4 * r@.len() == k,
        decreases b@.len() - k,
    {
        let chunk = vstd::slice::slice_subrange(b, k, k + 4);
        let w = u32_from_le_bytes(chunk);
        r.push(w);
        proof {
            let cur = b@.subrange(0, k + 4);
            assert(cur.subrange(0, k as int) =~= b@.subrange(0, k as int));
            assert(cur.subrange(k as int, k + 4) =~= b@.subrange(k as int, k + 4));
        }
        k = k + 4;
    }
    proof {
        assert(b@.subrange(0, b@.len() as int) =~= b@);
    }
    r
}

/// Reads 64-bit words back from a byte slice whose length is a multiple
/// of eight.
pub fn u64s_from_bytes(b: &[u8]) -> (r: Vec<u64>)
    requires
        b@.len() % 8 == 0,
    ensures
        r@ == spec_u64s_of_bytes(b@),
        8 * r@.len() == b@.len(),
{
    let mut r: Vec<u64> = Vec::new();
    let mut k: usize = 0;
    proof {
        assert(b@.subrange(0, 0) =~= Seq::<u8>::empty());
    }
    while k < b.len()
        invariant
            k <= b@.len(),
            k % 8 == 0,
            b@.len() % 8 == 0,
            r@ == spec_u64s_of_bytes(b@.subrange(0, k as int)),
            8 * r@.len() == k,
        decreases b@.len() - k,
    {
        let chunk = vstd::slice::slice_subrange(b, k, k + 8);
        let w = u64_from_le_bytes(chunk);
        r.push(w);
        proof {
            let cur = b@.subrange(0, k + 8);
            assert(cur.subrange(0, k as int) =~= b@.subrange(0, k as int));
            assert(cur.subrange(k as int, k + 8) =~= b@.subrange(k as int, k + 8));
        }
        k = k + 8;
    }
    proof {
        assert(b@.subrange(0, b@.len() as int) =~= b@);
    }
    r
}

} // verus!
