//! Nibble (4-bit half byte) arithmetic used by the nibble editing operations.
use vstd::prelude::*;

verus! {

/// High nibble of a byte.
pub open spec fn hi(b: u8) -> u8 {
    b >> 4
}

/// Low nibble of a byte.
pub open spec fn lo(b: u8) -> u8 {
    b & 0x0F
}

/// The byte made of the low nibble of `prev` followed by the high nibble of `cur`:
/// what a byte becomes when the nibble stream shifts by one position.
pub open spec fn joined(prev: u8, cur: u8) -> u8 {
    ((prev & 0x0F) << 4) | (cur >> 4)
}

/// The buffer read as a stream of nibbles, high nibble first within each byte.
pub open spec fn nibbles(d: Seq<u8>) -> Seq<u8> {
    Seq::new(2 * d.len(), |k: int| if k % 2 == 0 { hi(d[k / 2]) } else { lo(d[k / 2]) })
}

/// Facts about splitting and joining nibbles.
pub proof fn lemma_nibble_facts(a: u8, b: u8, dg: u8)
    requires
        dg < 16,
    ensures
        hi(joined(a, b)) == lo(a),
        lo(joined(a, b)) == hi(b),
        hi((a & 0xF0) | (b >> 4)) == hi(a),
        lo((a & 0xF0) | (b >> 4)) == hi(b),
        hi(a & 0xF0) == hi(a),
        lo(a & 0xF0) == 0,
        hi((a & 0x0F) << 4) == lo(a),
        lo((a & 0x0F) << 4) == 0,
        hi((dg << 4) | (a >> 4)) == dg,
        lo((dg << 4) | (a >> 4)) == hi(a),
        hi((a & 0xF0) | dg) == hi(a),
        lo((a & 0xF0) | dg) == dg,
        hi(dg << 4) == dg,
        lo(dg << 4) == 0,
        hi(a) < 16,
        lo(a) < 16,
        (hi(a) << 4) | lo(a) == a,
{
    assert(((((a & 0x0F) << 4) | (b >> 4)) >> 4) == (a & 0x0F)) by (bit_vector);
    assert(((((a & 0x0F) << 4) | (b >> 4)) & 0x0F) == (b >> 4)) by (bit_vector);
    assert((((a & 0xF0) | (b >> 4)) >> 4) == (a >> 4)) by (bit_vector);
    assert((((a & 0xF0) | (b >> 4)) & 0x0F) == (b >> 4)) by (bit_vector);
    assert(((a & 0xF0) >> 4) == (a >> 4)) by (bit_vector);
    assert(((a & 0xF0) & 0x0F) == 0) by (bit_vector);
    assert((((a & 0x0F) << 4) >> 4) == (a & 0x0F)) by (bit_vector);
    assert((((a & 0x0F) << 4) & 0x0F) == 0) by (bit_vector);
    assert((((dg << 4) | (a >> 4)) >> 4) == dg) by (bit_vector)
        requires
            dg < 16,
    ;
    assert((((dg << 4) | (a >> 4)) & 0x0F) == (a >> 4)) by (bit_vector);
    assert((((a & 0xF0) | dg) >> 4) == (a >> 4)) by (bit_vector)
        requires
            dg < 16,
    ;
    assert((((a & 0xF0) | dg) & 0x0F) == dg) by (bit_vector)
        requires
            dg < 16,
    ;
    assert(((dg << 4) >> 4) == dg) by (bit_vector)
        requires
            dg < 16,
    ;
    assert(((dg << 4) & 0x0F) == 0) by (bit_vector);
    assert((a >> 4) < 16) by (bit_vector);
    assert((a & 0x0F) < 16) by (bit_vector);
    assert((((a >> 4) << 4) | (a & 0x0F)) == a) by (bit_vector);
}

/// A digit masked to four bits is a nibble.
pub proof fn lemma_mask_digit(d: u8)
    ensures
        d & 0x0F < 16,
{
    assert((d & 0x0F) < 16) by (bit_vector);
}

} // verus!
