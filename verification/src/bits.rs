//! Bit masks and little-endian words.

use vstd::prelude::*;

verus! {

/// The word whose low byte is `lo` and whose high byte is `hi`.
pub open spec fn le16(lo: u8, hi: u8) -> u16 {
    (lo as int + 256 * hi as int) as u16
}

/// The double word made of four bytes, lowest first.
pub open spec fn le32(a: u8, b: u8, c: u8, d: u8) -> u32 {
    (a as int + 0x100 * b as int + 0x10000 * c as int + 0x1000000 * d as int) as u32
}

/// The two bytes of a word, low byte first.
pub open spec fn le_bytes(w: u16) -> Seq<u8> {
    seq![(w % 256) as u8, (w / 256) as u8]
}

/// What masking a byte leaves.
pub proof fn lemma_byte_masks(b: u8)
    ensures
        b & 0x01 == b % 2,
        b & 0x03 == b % 4,
        b & 0x0F == b % 16,
        b & 0x7F == b % 128,
        b & 0x80 == (if b >= 128 { 128u8 } else { 0u8 }),
        b | 0x80 == (if b >= 128 { b } else { (b + 128) as u8 }),
        b & 0x04 == (if b / 4 % 2 == 1 { 4u8 } else { 0u8 }),
{
    assert(b & 0x01 == b % 2) by (bit_vector);
    assert(b & 0x03 == b % 4) by (bit_vector);
    assert(b & 0x0F == b % 16) by (bit_vector);
    assert(b & 0x7F == b % 128) by (bit_vector);
    assert(b & 0x80 == (if b >= 128 { 128u8 } else { 0u8 })) by (bit_vector);
    assert(b | 0x80 == (if b >= 128 { b } else { (b + 128) as u8 })) by (bit_vector);
    assert(b & 0x04 == (if b / 4 % 2 == 1 { 4u8 } else { 0u8 })) by (bit_vector);
}

/// What masking a word leaves.
pub proof fn lemma_word_masks(w: u16)
    ensures
        w & 0xFF == w % 256,
        w & 0x0F == w % 16,
        w >> 8 == w / 256,
        w >> 4 == w / 16,
        w & 0x02 == (if w / 2 % 2 == 1 { 2u16 } else { 0u16 }),
        w & 0x40 == (if w / 64 % 2 == 1 { 64u16 } else { 0u16 }),
{
    assert(w & 0xFF == w % 256) by (bit_vector);
    assert(w & 0x0F == w % 16) by (bit_vector);
    assert(w >> 8 == w / 256) by (bit_vector);
    assert(w >> 4 == w / 16) by (bit_vector);
    assert(w & 0x02 == (if w / 2 % 2 == 1 { 2u16 } else { 0u16 })) by (bit_vector);
    assert(w & 0x40 == (if w / 64 % 2 == 1 { 64u16 } else { 0u16 })) by (bit_vector);
}

/// The word whose low byte is `lo` and whose high byte is `hi`.
pub fn word(lo: u8, hi: u8) -> (r: u16)
    ensures
        r == le16(lo, hi),
{
    lo as u16 + 256 * (hi as u16)
}

/// The double word made of four bytes, lowest first.
pub fn double_word(a: u8, b: u8, c: u8, d: u8) -> (r: u32)
    ensures
        r == le32(a, b, c, d),
{
    a as u32 + 0x100 * (b as u32) + 0x10000 * (c as u32) + 0x1000000 * (d as u32)
}

/// The low byte of a word.
pub fn low_byte(w: u16) -> (r: u8)
    ensures
        r == le_bytes(w)[0],
{
    (w % 256) as u8
}

/// The high byte of a word.
pub fn high_byte(w: u16) -> (r: u8)
    ensures
        r == le_bytes(w)[1],
{
    (w / 256) as u8
}

/// Splitting a word into bytes and joining them again gives the word.
pub proof fn le_bytes_round_trip(w: u16)
    ensures
        le16(le_bytes(w)[0], le_bytes(w)[1]) == w,
{
}

/// Joining two bytes and splitting the word again gives the bytes.
pub proof fn le16_round_trip(lo: u8, hi: u8)
    ensures
        le_bytes(le16(lo, hi)) == seq![lo, hi],
{
    let w = (lo as int + 256 * hi as int);
    assert(w % 256 == lo && w / 256 == hi);
    assert(le_bytes(le16(lo, hi)) =~= seq![lo, hi]);
}

/// The elements `start .. end` of a byte string.
pub fn sub_bytes(v: &[u8], start: usize, end: usize) -> (r: Vec<u8>)
    requires
        start <= end <= v@.len(),
    ensures
        r@ == v@.subrange(start as int, end as int),
{
    let mut out: Vec<u8> = Vec::new();
    let mut i: usize = start;
    while i < end
        invariant
            start <= i <= end <= v@.len(),
            out@ == v@.subrange(start as int, i as int),
        decreases end - i,
    {
        out.push(v[i]);
        assert(v@.subrange(start as int, i as int).push(v@[i as int]) =~= v@.subrange(
            start as int,
            i + 1,
        ));
        i += 1;
    }
    out
}

/// A copy of a byte string.
pub fn copy_bytes(v: &[u8]) -> (r: Vec<u8>)
    ensures
        r@ == v@,
{
    let r: Vec<u8> = sub_bytes(v, 0, v.len());
    assert(v@.subrange(0, v@.len() as int) =~= v@);
    r
}

/// `b` with its bits moved four places up, the upper four lost.
pub fn upper_nibble(b: u8) -> (r: u8)
    ensures
        r == (b % 16) * 16,
{
    (b % 16) * 16
}

} // verus!
