//! Bit-field extraction, sign extension, little-endian word packing and the
//! lane-mask reductions used by branch conditions.
use vstd::prelude::*;

verus! {

use vstd::arithmetic::power2::pow2;


/// The bits of `value` in the inclusive range `[from, to]`, shifted down to bit 0.
pub open spec fn spec_get_bits(value: u64, to: usize, from: usize) -> u64
    recommends
        from <= to < 64,
        to - from < 63,
{
    (value >> (from as u64)) & (((1u64 << ((to - from + 1) as u64)) - 1) as u64)
}

/// The bits of `value` in the inclusive range `[from, to]`, shifted down to bit 0.
pub open spec fn spec_get_bits_u32(value: u32, to: usize, from: usize) -> u32
    recommends
        from <= to < 32,
        to - from < 31,
{
    (value >> (from as u32)) & (((1u32 << ((to - from + 1) as u32)) - 1) as u32)
}

proof fn lemma_shl1_pos64(n: u64)
    by (bit_vector)
    requires
        n < 64,
    ensures
        1u64 << n >= 1,
{
}

proof fn lemma_shl1_pos32(n: u32)
    by (bit_vector)
    requires
        n < 32,
    ensures
        1u32 << n >= 1,
{
}

proof fn lemma_mask64_bound(x: u64, n: u64)
    by (bit_vector)
    requires
        n < 64,
    ensures
        x & (((1u64 << n) - 1) as u64) < (1u64 << n),
{
}

proof fn lemma_mask32_bound(x: u32, n: u32)
    by (bit_vector)
    requires
        n < 32,
    ensures
        x & (((1u32 << n) - 1) as u32) < (1u32 << n),
{
}

/// Extract the inclusive bit range `[from, to]` of a 64-bit word.
pub fn get_bits(value: u64, to: usize, from: usize) -> (r: u64)
    requires
        from <= to < 64,
        to - from < 63,
    ensures
        r == spec_get_bits(value, to, from),
        r < pow2((to - from + 1) as nat),
{
    let num = to + 1 - from;
    proof {
        lemma_shl1_pos64(num as u64);
        lemma_mask64_bound(value >> (from as u64), num as u64);
        vstd::bits::lemma_u64_pow2_no_overflow(num as nat);
        vstd::bits::lemma_u64_shl_is_mul(1u64, num as u64);
    }
    (value >> (from as u64)) & ((1u64 << (num as u64)) - 1)
}

/// Extract the inclusive bit range `[from, to]` of a 32-bit word.
pub fn get_bits_u32(value: u32, to: usize, from: usize) -> (r: u32)
    requires
        from <= to < 32,
        to - from < 31,
    ensures
        r == spec_get_bits_u32(value, to, from),
        r < pow2((to - from + 1) as nat),
{
    let num = to + 1 - from;
    proof {
        lemma_shl1_pos32(num as u32);
        lemma_mask32_bound(value >> (from as u32), num as u32);
        vstd::bits::lemma_u32_pow2_no_overflow(num as nat);
        vstd::bits::lemma_u32_shl_is_mul(1u32, num as u32);
    }
    (value >> (from as u32)) & ((1u32 << (num as u32)) - 1)
}

/// Sign-extend the low `bits` bits of `value` to a full 32-bit word: the low
/// field is kept and every bit above it is set to the field's top bit.
pub open spec fn spec_sign_extend(value: u32, bits: u32) -> u32
    recommends
        1 <= bits <= 32,
{
    let sign_bit = 1u32 << ((bits - 1) as u32);
    let low = (value & ((sign_bit - 1) as u32)) as u32;
    if value & sign_bit == 0 {
        low
    } else {
        low | (!((sign_bit - 1) as u32))
    }
}

/// Sign-extend the low `bits` bits of `value` to 32 bits.
pub fn sign_extend(value: u32, bits: u32) -> (r: u32)
    requires
        1 <= bits <= 32,
    ensures
        r == spec_sign_extend(value, bits),
{
    proof {
        lemma_shl1_pos32((bits - 1) as u32);
    }
    let sign_bit = 1u32 << (bits - 1);
    let low = value & (sign_bit - 1);
    if value & sign_bit == 0 {
        low
    } else {
        low | !(sign_bit - 1)
    }
}

/// The four little-endian bytes of a 32-bit word, low byte first.
pub open spec fn spec_u32_le_bytes(v: u32) -> Seq<u8> {
    seq![
        (v & 0xFF) as u8,
        ((v >> 8u32) & 0xFF) as u8,
        ((v >> 16u32) & 0xFF) as u8,
        ((v >> 24u32) & 0xFF) as u8,
    ]
}

/// The 32-bit word assembled from four little-endian bytes, low byte first.
pub open spec fn spec_u32_from_le_bytes(b0: u8, b1: u8, b2: u8, b3: u8) -> u32 {
    ((b3 as u32) << 24u32) | ((b2 as u32) << 16u32) | ((b1 as u32) << 8u32) | (b0 as u32)
}

proof fn lemma_le_byte_parts(v: u32)
    by (bit_vector)
    ensures
        v & 0xFF < 256,
        (v >> 8u32) & 0xFF < 256,
        (v >> 16u32) & 0xFF < 256,
        (v >> 24u32) & 0xFF < 256,
{
}

/// Split a 32-bit word into its four little-endian bytes.
pub fn u32_to_u8x4(val: u32) -> (r: [u8; 4])
    ensures
        r@ == spec_u32_le_bytes(val),
{
    proof {
        lemma_le_byte_parts(val);
    }
    [
        (val & 0xFF) as u8,
        ((val >> 8u32) & 0xFF) as u8,
        ((val >> 16u32) & 0xFF) as u8,
        ((val >> 24u32) & 0xFF) as u8,
    ]
}

/// Assemble a 32-bit word from four little-endian bytes.
pub fn u8x4_to_u32(val: [u8; 4]) -> (r: u32)
    ensures
        r == spec_u32_from_le_bytes(val@[0], val@[1], val@[2], val@[3]),
{
    let b0 = val[0];
    let b1 = val[1];
    let b2 = val[2];
    let b3 = val[3];
    ((b3 as u32) << 24u32) | ((b2 as u32) << 16u32) | ((b1 as u32) << 8u32) | (b0 as u32)
}

/// Splitting a word into little-endian bytes and reassembling them gives the
/// word back, for every 32-bit value.
pub proof fn lemma_u32_le_bytes_round_trip(v: u32)
    ensures
        spec_u32_from_le_bytes(
            spec_u32_le_bytes(v)[0],
            spec_u32_le_bytes(v)[1],
            spec_u32_le_bytes(v)[2],
            spec_u32_le_bytes(v)[3],
        ) == v,
{
    assert((((((v >> 24u32) & 0xFF) as u8) as u32) << 24u32) | (((((v >> 16u32) & 0xFF) as u8)
        as u32) << 16u32) | (((((v >> 8u32) & 0xFF) as u8) as u32) << 8u32) | (((v & 0xFF) as u8)
        as u32) == v) by (bit_vector);
}

/// Reassembling four bytes into a word and splitting the word again gives the
/// same four bytes back.
pub proof fn lemma_le_bytes_u32_round_trip(b0: u8, b1: u8, b2: u8, b3: u8)
    ensures
        spec_u32_le_bytes(spec_u32_from_le_bytes(b0, b1, b2, b3)) =~= seq![b0, b1, b2, b3],
{
    let v = spec_u32_from_le_bytes(b0, b1, b2, b3);
    assert(((((b3 as u32) << 24u32) | ((b2 as u32) << 16u32) | ((b1 as u32) << 8u32) | (b0 as u32))
        & 0xFF) as u8 == b0) by (bit_vector);
    assert((((((b3 as u32) << 24u32) | ((b2 as u32) << 16u32) | ((b1 as u32) << 8u32) | (b0
        as u32)) >> 8u32) & 0xFF) as u8 == b1) by (bit_vector);
    assert((((((b3 as u32) << 24u32) | ((b2 as u32) << 16u32) | ((b1 as u32) << 8u32) | (b0
        as u32)) >> 16u32) & 0xFF) as u8 == b2) by (bit_vector);
    assert((((((b3 as u32) << 24u32) | ((b2 as u32) << 16u32) | ((b1 as u32) << 8u32) | (b0
        as u32)) >> 24u32) & 0xFF) as u8 == b3) by (bit_vector);
}

/// Replace each lane's optional value by its contents; every lane must hold one.
pub fn unwrap_u32x16(values: &[Option<u32>; 16]) -> (r: [u32; 16])
    requires
        forall|i: int| 0 <= i < 16 ==> values@[i] is Some,
    ensures
        r@.len() == 16,
        forall|i: int| 0 <= i < 16 ==> r@[i] == values@[i]->Some_0,
{
    [
        values[0].unwrap(),
        values[1].unwrap(),
        values[2].unwrap(),
        values[3].unwrap(),
        values[4].unwrap(),
        values[5].unwrap(),
        values[6].unwrap(),
        values[7].unwrap(),
        values[8].unwrap(),
        values[9].unwrap(),
        values[10].unwrap(),
        values[11].unwrap(),
        values[12].unwrap(),
        values[13].unwrap(),
        values[14].unwrap(),
        values[15].unwrap(),
    ]
}

/// Whether `inv ^ v` holds of every element of the mask.
pub open spec fn spec_reduction_and(s: Seq<bool>, inv: bool) -> bool {
    forall|i: int| 0 <= i < s.len() ==> (s[i] != inv)
}

/// Whether `inv ^ v` holds of some element of the mask.
pub open spec fn spec_reduction_or(s: Seq<bool>, inv: bool) -> bool {
    exists|i: int| 0 <= i < s.len() && (s[i] != inv)
}

/// Fold the lane mask with AND, inverting each lane first when `inv` is set.
pub fn reduction_and(values: &[bool], inv: bool) -> (r: bool)
    ensures
        r == spec_reduction_and(values@, inv),
{
    let mut acc: bool = true;
    let mut i: usize = 0;
    while i < values.len()
        invariant
            i <= values@.len(),
            acc == (forall|j: int| 0 <= j < i ==> (values@[j] != inv)),
        decreases values@.len() - i,
    {
        acc = acc && (inv ^ values[i]);
        i = i + 1;
    }
    acc
}

/// Fold the lane mask with OR, inverting each lane first when `inv` is set.
pub fn reduction_or(values: &[bool], inv: bool) -> (r: bool)
    ensures
        r == spec_reduction_or(values@, inv),
{
    let mut acc: bool = false;
    let mut i: usize = 0;
    while i < values.len()
        invariant
            i <= values@.len(),
            acc == (exists|j: int| 0 <= j < i && (values@[j] != inv)),
        decreases values@.len() - i,
    {
        acc = acc || (inv ^ values[i]);
        i = i + 1;
    }
    acc
}

} // verus!
