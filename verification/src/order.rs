//! The two bit orders, and the way from one to the other.
//!
//! SPI sends each byte most significant bit first. A JTAG shift takes a
//! sequence of bits and sends it first bit first. So the bit sequence that
//! carries a byte buffer over JTAG to an SPI device holds the bits of each
//! byte from the top down, and the bits that come back are put together the
//! same way.

use crate::bits::{
    bit, bits_of, byte_of, lemma_bits_of_byte_of, lemma_byte_of_bits_of, lemma_reverse_byte_bit,
    lemma_reverse_byte_twice, reverse_bits, reverse_byte,
};
use crate::bitvec::{
    bits_to_bytes, bytes_of_lsb_first, bytes_to_bits, lsb_first, padded_chunk, BitvecError,
};
use vstd::prelude::*;

verus! {

/// The bits of `data` in the order in which SPI sends them: byte after byte,
/// each byte most significant bit first.
pub open spec fn msb_first(data: Seq<u8>) -> Seq<bool> {
    Seq::new(8 * data.len(), |k: int| bit(data[k / 8], 7 - k % 8))
}

/// The bytes that `bits` make up, eight bits to a byte, most significant bit
/// first. A last byte that `bits` fills only in part has its lower bits
/// clear.
pub open spec fn bytes_of_msb_first(bits: Seq<bool>) -> Seq<u8> {
    Seq::new((bits.len() + 7) / 8, |j: int| byte_of(padded_chunk(bits, j).reverse()))
}

/// `data` with the bits of every byte reversed.
pub open spec fn reverse_each(data: Seq<u8>) -> Seq<u8> {
    Seq::new(data.len(), |j: int| reverse_byte(data[j]))
}

/// Reversing the bits of every byte twice gives the bytes back.
pub proof fn lemma_reverse_each_twice(data: Seq<u8>)
    ensures
        reverse_each(reverse_each(data)) == data,
{
    assert forall|j: int| 0 <= j < data.len() implies reverse_each(reverse_each(data))[j]
        == data[j] by {
        lemma_reverse_byte_twice(data[j]);
    }
    assert(reverse_each(reverse_each(data)) =~= data);
}

/// Sending bytes most significant bit first is sending the bit-reversed
/// bytes least significant bit first.
pub proof fn lemma_msb_first_reverses(data: Seq<u8>)
    ensures
        msb_first(data) == lsb_first(reverse_each(data)),
{
    let rev = reverse_each(data);
    assert forall|k: int| 0 <= k < 8 * data.len() implies msb_first(data)[k] == lsb_first(rev)[k] by {
        lemma_reverse_byte_bit(data[k / 8], k % 8);
    }
    assert(msb_first(data) =~= lsb_first(rev));
}

/// Putting bits together most significant bit first gives the bit-reversed
/// bytes of putting them together least significant bit first.
pub proof fn lemma_bytes_of_msb_first_reverses(bits: Seq<bool>)
    ensures
        bytes_of_msb_first(bits) == reverse_each(bytes_of_lsb_first(bits)),
{
    let lsb = bytes_of_lsb_first(bits);
    assert forall|j: int| 0 <= j < lsb.len() implies bytes_of_msb_first(bits)[j] == reverse_byte(
        lsb[j],
    ) by {
        lemma_bits_of_byte_of(padded_chunk(bits, j));
    }
    assert(bytes_of_msb_first(bits) =~= reverse_each(lsb));
}

/// A buffer of N bytes makes a bit sequence of exactly 8N bits, and that
/// bit sequence makes exactly N bytes again.
pub proof fn lemma_length_preserved(data: Seq<u8>)
    ensures
        msb_first(data).len() == 8 * data.len(),
        bytes_of_msb_first(msb_first(data)).len() == data.len(),
{
}

/// Bits that come back as they were sent make the bytes that were sent.
pub proof fn lemma_loopback(data: Seq<u8>)
    ensures
        bytes_of_msb_first(msb_first(data)) == data,
{
    let bits = msb_first(data);
    let back = bytes_of_msb_first(bits);
    assert(back.len() == data.len());
    assert forall|j: int| 0 <= j < data.len() implies back[j] == data[j] by {
        let chunk = padded_chunk(bits, j).reverse();
        assert forall|i: int| 0 <= i < 8 implies chunk[i] == bits_of(data[j])[i] by {
            assert((8 * j + (7 - i)) / 8 == j);
            assert((8 * j + (7 - i)) % 8 == 7 - i);
        }
        assert(chunk =~= bits_of(data[j]));
        lemma_byte_of_bits_of(data[j]);
    }
    assert(back =~= data);
}

/// A whole number of groups of eight bits, put together into bytes and sent
/// again, are the same bits.
pub proof fn lemma_msb_first_of_bytes(bits: Seq<bool>)
    requires
        bits.len() % 8 == 0,
    ensures
        msb_first(bytes_of_msb_first(bits)) == bits,
{
    let bytes = bytes_of_msb_first(bits);
    let back = msb_first(bytes);
    assert(bytes.len() * 8 == bits.len());
    assert forall|k: int| 0 <= k < bits.len() implies back[k] == bits[k] by {
        let j = k / 8;
        let i = k % 8;
        assert(0 <= j < bytes.len());
        assert(8 * j + i == k);
        let chunk = padded_chunk(bits, j).reverse();
        lemma_bits_of_byte_of(chunk);
        assert(bits_of(bytes[j])[7 - i] == chunk[7 - i]);
    }
    assert(back =~= bits);
}

/// The bytes of `data`, each with the order of its bits reversed.
pub fn reverse_all(data: &[u8]) -> (r: Vec<u8>)
    ensures
        r@ == reverse_each(data@),
{
    let mut r: Vec<u8> = Vec::new();
    let mut j: usize = 0;
    while j < data.len()
        invariant
            j <= data@.len(),
            r@ == reverse_each(data@).take(j as int),
        decreases data@.len() - j,
    {
        r.push(reverse_bits(data[j]));
        proof {
            assert(r@ =~= reverse_each(data@).take(j + 1));
        }
        j += 1;
    }
    proof {
        assert(r@ =~= reverse_each(data@));
    }
    r
}

/// The bit sequence that carries `data` to an SPI device through a JTAG
/// shift: eight bits for each byte, the most significant bit of each byte
/// first.
///
/// Fails with `TooManyBits` where eight bits for each byte are more than a
/// length can count.
pub fn spi_to_jtag(data: &[u8]) -> (r: Result<Vec<bool>, BitvecError>)
    ensures
        8 * data@.len() <= usize::MAX ==> (r matches Ok(bits) && bits@ == msb_first(data@)),
        8 * data@.len() > usize::MAX ==> r == Err::<Vec<bool>, BitvecError>(
            BitvecError::TooManyBits,
        ),
{
    let reversed = reverse_all(data);
    match data.len().checked_mul(8) {
        Some(n) => {
            proof {
                lemma_msb_first_reverses(data@);
                assert(lsb_first(reversed@).take(n as int) =~= lsb_first(reversed@));
            }
            bytes_to_bits(reversed.as_slice(), n)
        },
        None => Err(BitvecError::TooManyBits),
    }
}

/// The bytes that an SPI device sent, from the bits that a JTAG shift
/// captured: eight bits to a byte, the first of them the most significant.
/// Where the number of bits is no multiple of eight, the lower bits of the
/// last byte are clear.
pub fn jtag_to_spi(bits: &[bool]) -> (r: Vec<u8>)
    ensures
        r@ == bytes_of_msb_first(bits@),
        r@.len() == (bits@.len() + 7) / 8,
{
    let packed = bits_to_bytes(bits);
    proof {
        lemma_bytes_of_msb_first_reverses(bits@);
    }
    reverse_all(packed.as_slice())
}

} // verus!
