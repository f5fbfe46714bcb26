//! Bit-level model of an 8-byte CAN payload.
//!
//! A payload `[u8; 8]` is read as the little-endian 64-bit word `le_word`,
//! and a signal is the run of `len` bits that starts at bit `lo` of that word
//! (bit 0 is the least significant bit of byte 0).  Reading and writing a
//! signal go through `bitvec`, whose `Lsb0` bit order and little-endian
//! element order give exactly this layout.
use bitvec::array::BitArray;
use bitvec::field::BitField;
use bitvec::order::LocalBits;
use bitvec::order::Lsb0;
use bitvec::view::BitView;
use core::ops::BitOr;
use vstd::prelude::*;

verus! {

/// The payload bytes read as one little-endian 64-bit word.
pub open spec fn le_word(b: Seq<u8>) -> u64 {
    word_of_bytes(b[0], b[1], b[2], b[3], b[4], b[5], b[6], b[7])
}

/// The little-endian word made of eight bytes, `b0` the least significant.
pub open spec fn word_of_bytes(b0: u8, b1: u8, b2: u8, b3: u8, b4: u8, b5: u8, b6: u8, b7: u8) -> u64 {
    (b0 as u64) | ((b1 as u64) << 8u64) | ((b2 as u64) << 16u64) | ((b3 as u64) << 24u64) | ((
    b4 as u64) << 32u64) | ((b5 as u64) << 40u64) | ((b6 as u64) << 48u64) | ((b7 as u64)
        << 56u64)
}

/// The `len` lowest bits set.
pub open spec fn low_mask(len: u64) -> u64 {
    if len >= 64 {
        0xffff_ffff_ffff_ffffu64
    } else {
        ((1u64 << len) - 1) as u64
    }
}

/// The signal of `len` bits starting at bit `lo` of `w`.
pub open spec fn field_of(w: u64, lo: u64, len: u64) -> u64 {
    (w >> lo) & low_mask(len)
}

/// `w` with the signal of `len` bits at `lo` replaced by the low `len` bits of `v`;
/// every other bit of `w` is kept.
pub open spec fn with_field(w: u64, lo: u64, len: u64, v: u64) -> u64 {
    (w & !(low_mask(len) << lo)) | ((v & low_mask(len)) << lo)
}

/// Byte `i` (0 = least significant) of a word.
pub open spec fn byte_of(w: u64, i: u64) -> u8 {
    ((w >> (8 * i)) & 0xff) as u8
}

/// The eight bytes of a word, least significant first.
pub open spec fn le_bytes(w: u64) -> Seq<u8> {
    Seq::new(8, |i: int| byte_of(w, i as u64))
}

/// The little-endian bytes of a 64-bit value.
pub fn u64_le_bytes(v: u64) -> (r: [u8; 8])
    ensures
        r@ == le_bytes(v),
{
    let r: [u8; 8] = [
        v as u8,
        (v >> 8u64) as u8,
        (v >> 16u64) as u8,
        (v >> 24u64) as u8,
        (v >> 32u64) as u8,
        (v >> 40u64) as u8,
        (v >> 48u64) as u8,
        (v >> 56u64) as u8,
    ];
    proof {
        assert(v as u8 == byte_of(v, 0) && (v >> 8u64) as u8 == byte_of(v, 1) && (v >> 16u64) as u8
            == byte_of(v, 2) && (v >> 24u64) as u8 == byte_of(v, 3) && (v >> 32u64) as u8 == byte_of(
            v,
            4,
        ) && (v >> 40u64) as u8 == byte_of(v, 5) && (v >> 48u64) as u8 == byte_of(v, 6) && (v
            >> 56u64) as u8 == byte_of(v, 7)) by (bit_vector);
        assert(r@ =~= le_bytes(v));
    }
    r
}

/// The little-endian bytes of a 32-bit value.
pub fn u32_le_bytes(v: u32) -> (r: [u8; 4])
    ensures
        r@ == le_bytes(v as u64).take(4),
{
    let r: [u8; 4] = [v as u8, (v >> 8u32) as u8, (v >> 16u32) as u8, (v >> 24u32) as u8];
    proof {
        let w = v as u64;
        assert(v as u8 == byte_of(w, 0) && (v >> 8u32) as u8 == byte_of(w, 1) && (v >> 16u32) as u8
            == byte_of(w, 2) && (v >> 24u32) as u8 == byte_of(w, 3)) by (bit_vector)
            requires
                w == v as u64,
        ;
        assert(r@ =~= le_bytes(w).take(4));
    }
    r
}

/// Law: the word of the little-endian bytes of a word is that word.
pub proof fn lemma_le_bytes_word(w: u64)
    ensures
        le_bytes(w).len() == 8,
        le_word(le_bytes(w)) == w,
{
    let b = le_bytes(w);
    assert(b[0] == byte_of(w, 0) && b[1] == byte_of(w, 1) && b[2] == byte_of(w, 2) && b[3]
        == byte_of(w, 3));
    assert(b[4] == byte_of(w, 4) && b[5] == byte_of(w, 5) && b[6] == byte_of(w, 6) && b[7]
        == byte_of(w, 7));
    assert(word_of_bytes(
        byte_of(w, 0),
        byte_of(w, 1),
        byte_of(w, 2),
        byte_of(w, 3),
        byte_of(w, 4),
        byte_of(w, 5),
        byte_of(w, 6),
        byte_of(w, 7),
    ) == w) by (bit_vector);
}

/// Calls std's `u64::to_ne_bytes`.
///
/// Its documentation gives the memory representation of the value in the
/// target's native byte order.  The contract claims only that the result is
/// the little-endian or the big-endian byte sequence of `v`; which of the two
/// depends on the machine and is left open.
#[verifier::external_body]
pub(crate) fn u64_ne_bytes(v: u64) -> (r: [u8; 8])
    ensures
        r@ == le_bytes(v) || r@ == le_bytes(v).reverse(),
{
    v.to_ne_bytes()
}

/// The ranges of the signals of the message set, and the word of an
/// all-zero payload with mode 0.
pub proof fn lemma_signal_bounds(w: u64)
    ensures
        field_of(w, 0, 4) < 16,
        field_of(w, 4, 4) < 16,
        field_of(w, 8, 4) < 16,
        field_of(w, 12, 2) < 4,
        field_of(w, 14, 2) < 4,
        field_of(w, 4, 1) <= 1,
        field_of(w, 16, 32) <= 0xffff_ffff,
        with_field(0, 0, 4, 0) == 0,
{
    assert(field_of(w, 0, 4) < 16 && field_of(w, 4, 4) < 16 && field_of(w, 8, 4) < 16 && field_of(
        w,
        12,
        2,
    ) < 4 && field_of(w, 14, 2) < 4 && field_of(w, 4, 1) <= 1 && field_of(w, 16, 32) <= 0xffff_ffff
        && with_field(0, 0, 4, 0) == 0) by (bit_vector);
}

/// Reads the signal `lo..hi` of a payload.
///
/// Calls bitvec's `BitView::view_bits::<Lsb0>` on the array, indexes the
/// bit-slice by `lo..hi` and calls `BitField::load_le::<u64>` on it.  The
/// contract claims that this yields the bits `lo..hi` of the little-endian
/// word of the payload, the bit `lo` as the least significant bit.  The
/// indexing panics when `hi > 64` or `lo > hi`, and `load_le` panics on an
/// empty or a longer than 64-bit slice: `requires` rules these out.
#[verifier::external_body]
pub(crate) fn load_bits(raw: &[u8; 8], lo: usize, hi: usize) -> (r: u64)
    requires
        lo < hi <= 64,
    ensures
        r == field_of(le_word(raw@), lo as u64, (hi - lo) as u64),
{
    raw.view_bits::<Lsb0>()[lo..hi].load_le::<u64>()
}

/// Writes the signal `lo..hi` of a payload.
///
/// Calls bitvec's `BitView::view_bits_mut::<Lsb0>` on the array, indexes the
/// bit-slice by `lo..hi` and calls `BitField::store_le::<u64>` with `value`.
/// The contract claims that this replaces exactly the bits `lo..hi` of the
/// little-endian word of the payload by the low `hi - lo` bits of `value`
/// and leaves every other bit as it was.  Out-of-range or empty ranges
/// panic in bitvec: `requires` rules them out.
#[verifier::external_body]
pub(crate) fn store_bits(raw: &mut [u8; 8], lo: usize, hi: usize, value: u64)
    requires
        lo < hi <= 64,
    ensures
        le_word(final(raw)@) == with_field(le_word(old(raw)@), lo as u64, (hi - lo) as u64, value),
{
    raw.view_bits_mut::<Lsb0>()[lo..hi].store_le::<u64>(value);
}

/// Merges two payloads bit by bit.
///
/// Wraps both arrays in bitvec's `BitArray::<_, LocalBits>::new`, combines
/// them with `BitOr::bitor` and unwraps the result with `into_inner`.  The
/// contract claims that each byte of the result is the bitwise or of the
/// bytes at the same index.
#[verifier::external_body]
pub(crate) fn or_payloads(a: [u8; 8], b: [u8; 8]) -> (r: [u8; 8])
    ensures
        forall|i: int| 0 <= i < 8 ==> r@[i] == a@[i] | b@[i],
{
    let b0 = BitArray::<_, LocalBits>::new(a);
    let b1 = BitArray::<_, LocalBits>::new(b);
    b0.bitor(b1).into_inner()
}

/// The word of the merged payload is the bitwise or of the two words.
pub proof fn lemma_or_word(a: Seq<u8>, b: Seq<u8>, r: Seq<u8>)
    requires
        a.len() == 8,
        b.len() == 8,
        r.len() == 8,
        forall|i: int| 0 <= i < 8 ==> r[i] == a[i] | b[i],
    ensures
        le_word(r) == le_word(a) | le_word(b),
{
    let (a0, a1, a2, a3, a4, a5, a6, a7) = (a[0], a[1], a[2], a[3], a[4], a[5], a[6], a[7]);
    let (b0, b1, b2, b3, b4, b5, b6, b7) = (b[0], b[1], b[2], b[3], b[4], b[5], b[6], b[7]);
    let (r0, r1, r2, r3, r4, r5, r6, r7) = (r[0], r[1], r[2], r[3], r[4], r[5], r[6], r[7]);
    assert(r[0] == a[0] | b[0]);
    assert(r[1] == a[1] | b[1]);
    assert(r[2] == a[2] | b[2]);
    assert(r[3] == a[3] | b[3]);
    assert(r[4] == a[4] | b[4]);
    assert(r[5] == a[5] | b[5]);
    assert(r[6] == a[6] | b[6]);
    assert(r[7] == a[7] | b[7]);
    assert(word_of_bytes(r0, r1, r2, r3, r4, r5, r6, r7) == word_of_bytes(a0, a1, a2, a3, a4, a5, a6, a7)
        | word_of_bytes(b0, b1, b2, b3, b4, b5, b6, b7)) by (bit_vector)
        requires
            r0 == a0 | b0,
            r1 == a1 | b1,
            r2 == a2 | b2,
            r3 == a3 | b3,
            r4 == a4 | b4,
            r5 == a5 | b5,
            r6 == a6 | b6,
            r7 == a7 | b7,
    ;
}

/// The word of eight zero bytes is 0.
pub proof fn lemma_zero_word(b: Seq<u8>)
    requires
        b.len() == 8,
        forall|i: int| 0 <= i < 8 ==> b[i] == 0,
    ensures
        le_word(b) == 0,
{
    assert(b[0] == 0 && b[1] == 0 && b[2] == 0 && b[3] == 0);
    assert(b[4] == 0 && b[5] == 0 && b[6] == 0 && b[7] == 0);
    assert(word_of_bytes(0, 0, 0, 0, 0, 0, 0, 0) == 0) by (bit_vector);
}

/// Law: reading a signal right after writing it gives back the written
/// value, cut to the signal's width.
pub proof fn lemma_read_after_write(w: u64, lo: u64, len: u64, v: u64)
    requires
        0 < len,
        lo + len <= 64,
    ensures
        field_of(with_field(w, lo, len, v), lo, len) == v & low_mask(len),
{
    assert(field_of(with_field(w, lo, len, v), lo, len) == v & low_mask(len)) by (bit_vector)
        requires
            0 < len,
            lo + len <= 64,
    ;
}

/// Law: writing a signal leaves every signal that does not overlap it
/// unchanged.
pub proof fn lemma_write_keeps_other_fields(w: u64, lo: u64, len: u64, v: u64, lo2: u64, len2: u64)
    requires
        0 < len,
        lo + len <= 64,
        0 < len2,
        lo2 + len2 <= 64,
        lo + len <= lo2 || lo2 + len2 <= lo,
    ensures
        field_of(with_field(w, lo, len, v), lo2, len2) == field_of(w, lo2, len2),
{
    assert(field_of(with_field(w, lo, len, v), lo2, len2) == field_of(w, lo2, len2))
        by (bit_vector)
        requires
            0 < len,
            lo + len <= 64,
            0 < len2,
            lo2 + len2 <= 64,
            lo + len <= lo2 || lo2 + len2 <= lo,
    ;
}

} // verus!
