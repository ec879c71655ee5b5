//! A byte as eight bits, and the reversal of their order.
//!
//! SPI sends the most significant bit of a byte first, JTAG the least
//! significant one. Everything else in this crate is built on the model
//! given here: a byte is the sequence of its eight bits, least significant
//! first, and reversing a byte reverses that sequence.

use vstd::prelude::*;

verus! {

/// Whether bit `i` of `b` is set, counting from the least significant bit.
pub open spec fn bit(b: u8, i: int) -> bool
    recommends
        0 <= i < 8,
{
    (b >> (i as u8)) & 1 == 1
}

/// The byte whose bits are `b0` (least significant) to `b7` (most significant).
pub open spec fn byte_from_bits(
    b0: bool,
    b1: bool,
    b2: bool,
    b3: bool,
    b4: bool,
    b5: bool,
    b6: bool,
    b7: bool,
) -> u8 {
    (if b0 { 0x01u8 } else { 0u8 }) | (if b1 { 0x02u8 } else { 0u8 })
        | (if b2 { 0x04u8 } else { 0u8 }) | (if b3 { 0x08u8 } else { 0u8 })
        | (if b4 { 0x10u8 } else { 0u8 }) | (if b5 { 0x20u8 } else { 0u8 })
        | (if b6 { 0x40u8 } else { 0u8 }) | (if b7 { 0x80u8 } else { 0u8 })
}

/// The eight bits of `b`, least significant first.
pub open spec fn bits_of(b: u8) -> Seq<bool> {
    Seq::new(8, |i: int| bit(b, i))
}

/// The byte that has the eight bits `s`, least significant first.
pub open spec fn byte_of(s: Seq<bool>) -> u8
    recommends
        s.len() == 8,
{
    byte_from_bits(s[0], s[1], s[2], s[3], s[4], s[5], s[6], s[7])
}

/// `b` with the order of its bits reversed: bit 0 and bit 7 change places,
/// bit 1 and bit 6, and so on.
pub open spec fn reverse_byte(b: u8) -> u8 {
    byte_of(bits_of(b).reverse())
}

/// Each bit of a byte made from eight bits is the bit it was made from.
pub proof fn lemma_bit_of_byte_from_bits(
    b0: bool,
    b1: bool,
    b2: bool,
    b3: bool,
    b4: bool,
    b5: bool,
    b6: bool,
    b7: bool,
)
    by (bit_vector)
    ensures
        bit(byte_from_bits(b0, b1, b2, b3, b4, b5, b6, b7), 0) == b0,
        bit(byte_from_bits(b0, b1, b2, b3, b4, b5, b6, b7), 1) == b1,
        bit(byte_from_bits(b0, b1, b2, b3, b4, b5, b6, b7), 2) == b2,
        bit(byte_from_bits(b0, b1, b2, b3, b4, b5, b6, b7), 3) == b3,
        bit(byte_from_bits(b0, b1, b2, b3, b4, b5, b6, b7), 4) == b4,
        bit(byte_from_bits(b0, b1, b2, b3, b4, b5, b6, b7), 5) == b5,
        bit(byte_from_bits(b0, b1, b2, b3, b4, b5, b6, b7), 6) == b6,
        bit(byte_from_bits(b0, b1, b2, b3, b4, b5, b6, b7), 7) == b7,
{
}

/// A byte is the byte made from its own eight bits.
pub proof fn lemma_byte_from_its_bits(b: u8)
    by (bit_vector)
    ensures
        byte_from_bits(
            bit(b, 0),
            bit(b, 1),
            bit(b, 2),
            bit(b, 3),
            bit(b, 4),
            bit(b, 5),
            bit(b, 6),
            bit(b, 7),
        ) == b,
{
}

/// Taking a byte apart into its bits and putting them together again gives
/// the byte back.
pub proof fn lemma_byte_of_bits_of(b: u8)
    ensures
        byte_of(bits_of(b)) == b,
{
    lemma_byte_from_its_bits(b);
}

/// Putting eight bits together into a byte and taking it apart again gives
/// the bits back.
pub proof fn lemma_bits_of_byte_of(s: Seq<bool>)
    requires
        s.len() == 8,
    ensures
        bits_of(byte_of(s)) == s,
{
    lemma_bit_of_byte_from_bits(s[0], s[1], s[2], s[3], s[4], s[5], s[6], s[7]);
    assert(bits_of(byte_of(s)) =~= s);
}

/// Two bytes with the same eight bits are the same byte.
pub proof fn lemma_byte_by_bits(a: u8, b: u8)
    requires
        forall|i: int| 0 <= i < 8 ==> bit(a, i) == bit(b, i),
    ensures
        a == b,
{
    assert(bits_of(a) =~= bits_of(b));
    lemma_byte_of_bits_of(a);
    lemma_byte_of_bits_of(b);
}

/// Bit `i` of the reversed byte is bit `7 - i` of the byte.
pub proof fn lemma_reverse_byte_bit(b: u8, i: int)
    requires
        0 <= i < 8,
    ensures
        bit(reverse_byte(b), i) == bit(b, 7 - i),
{
    let r = bits_of(b).reverse();
    assert(r.len() == 8);
    lemma_bits_of_byte_of(r);
    assert(bits_of(reverse_byte(b))[i] == r[i]);
}

/// Reversing the bits of a byte twice gives the byte back.
pub proof fn lemma_reverse_byte_twice(b: u8)
    ensures
        reverse_byte(reverse_byte(b)) == b,
{
    assert forall|i: int| 0 <= i < 8 implies bit(reverse_byte(reverse_byte(b)), i) == bit(
        b,
        i,
    ) by {
        lemma_reverse_byte_bit(reverse_byte(b), i);
        lemma_reverse_byte_bit(b, 7 - i);
    }
    lemma_byte_by_bits(reverse_byte(reverse_byte(b)), b);
}

/// Reverses the order of the bits of `b`.
pub fn reverse_bits(b: u8) -> (r: u8)
    ensures
        r == reverse_byte(b),
        forall|i: int| 0 <= i < 8 ==> bit(r, i) == bit(b, 7 - i),
{
    // Swap the halves of the byte, then the pairs in each half, then the
    // bits in each pair.
    let nibbles: u8 = (b & 0xF0) >> 4 | (b & 0x0F) << 4;
    let pairs: u8 = (nibbles & 0xCC) >> 2 | (nibbles & 0x33) << 2;
    let r: u8 = (pairs & 0xAA) >> 1 | (pairs & 0x55) << 1;
    proof {
        assert(r == byte_from_bits(
            bit(b, 7),
            bit(b, 6),
            bit(b, 5),
            bit(b, 4),
            bit(b, 3),
            bit(b, 2),
            bit(b, 1),
            bit(b, 0),
        )) by (bit_vector)
            requires
                nibbles == (b & 0xF0) >> 4 | (b & 0x0F) << 4,
                pairs == (nibbles & 0xCC) >> 2 | (nibbles & 0x33) << 2,
                r == (pairs & 0xAA) >> 1 | (pairs & 0x55) << 1,
        ;
        assert forall|i: int| 0 <= i < 8 implies bit(r, i) == bit(b, 7 - i) by {
            lemma_reverse_byte_bit(b, i);
        }
    }
    r
}

} // verus!
