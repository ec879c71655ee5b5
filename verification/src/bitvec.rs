//! Bytes as a sequence of bits, least significant bit of each byte first.
//!
//! This is the order in which a JTAG shift register takes the bits of a
//! byte buffer, and gives them back.

use crate::bits::{
    bit, bits_of, byte_of, lemma_bits_of_byte_of, lemma_byte_by_bits, lemma_byte_of_bits_of,
};
use vstd::prelude::*;

verus! {

/// Why bytes could not be turned into bits, or bits into bytes.
#[derive(Clone, Copy, Debug, PartialEq, Eq)]
pub enum BitvecError {
    /// Fewer bits are at hand than were asked for.
    NotEnoughBits,
    /// More bits are at hand than were asked for, or more than a length
    /// can count.
    TooManyBits,
}

/// The bits of `bytes` in order, each byte least significant bit first.
pub open spec fn lsb_first(bytes: Seq<u8>) -> Seq<bool> {
    Seq::new(8 * bytes.len(), |k: int| bit(bytes[k / 8], k % 8))
}

/// The `j`-th group of eight bits of `bits`; where `bits` ends inside the
/// group, the missing bits are clear.
pub open spec fn padded_chunk(bits: Seq<bool>, j: int) -> Seq<bool> {
    Seq::new(8, |i: int| 8 * j + i < bits.len() && bits[8 * j + i])
}

/// The bytes that `bits` make up, eight bits to a byte, least significant
/// bit first. A last byte that `bits` fills only in part has its upper bits
/// clear.
pub open spec fn bytes_of_lsb_first(bits: Seq<bool>) -> Seq<u8> {
    Seq::new((bits.len() + 7) / 8, |j: int| byte_of(padded_chunk(bits, j)))
}

/// Setting bit `i` of a byte sets that bit and changes no other.
proof fn lemma_or_bit(byte: u8, i: u8, j: u8)
    by (bit_vector)
    requires
        i < 8,
        j < 8,
    ensures
        bit(byte | (1u8 << i), j as int) == (j == i || bit(byte, j as int)),
{
}

/// No bit of zero is set.
proof fn lemma_zero_bit(j: u8)
    by (bit_vector)
    requires
        j < 8,
    ensures
        !bit(0u8, j as int),
{
}

/// Turning whole bytes into bits and back gives the bytes.
pub proof fn lemma_bytes_of_lsb_first(bytes: Seq<u8>)
    ensures
        lsb_first(bytes).len() == 8 * bytes.len(),
        bytes_of_lsb_first(lsb_first(bytes)) == bytes,
{
    let bits = lsb_first(bytes);
    let back = bytes_of_lsb_first(bits);
    assert(back.len() == bytes.len());
    assert forall|j: int| 0 <= j < bytes.len() implies back[j] == bytes[j] by {
        assert forall|i: int| 0 <= i < 8 implies padded_chunk(bits, j)[i] == bits_of(bytes[j])[i] by {
            assert((8 * j + i) / 8 == j);
            assert((8 * j + i) % 8 == i);
        }
        assert(padded_chunk(bits, j) =~= bits_of(bytes[j]));
        lemma_byte_of_bits_of(bytes[j]);
    }
    assert(back =~= bytes);
}

/// Turning a whole number of groups of eight bits into bytes and back gives
/// the bits.
pub proof fn lemma_lsb_first_of_bytes(bits: Seq<bool>)
    requires
        bits.len() % 8 == 0,
    ensures
        bytes_of_lsb_first(bits).len() * 8 == bits.len(),
        lsb_first(bytes_of_lsb_first(bits)) == bits,
{
    let bytes = bytes_of_lsb_first(bits);
    let back = lsb_first(bytes);
    assert(bytes.len() * 8 == bits.len());
    assert forall|k: int| 0 <= k < bits.len() implies back[k] == bits[k] by {
        let j = k / 8;
        let i = k % 8;
        assert(0 <= j < bytes.len());
        assert(8 * j + i == k);
        lemma_bits_of_byte_of(padded_chunk(bits, j));
        assert(bits_of(bytes[j])[i] == padded_chunk(bits, j)[i]);
    }
    assert(back =~= bits);
}

/// The first `n` bits of `bytes`, each byte least significant bit first.
///
/// Fails with `NotEnoughBits` where `bytes` holds fewer than `n` bits.
pub fn bytes_to_bits(bytes: &[u8], n: usize) -> (r: Result<Vec<bool>, BitvecError>)
    ensures
        n <= 8 * bytes@.len() ==> (r matches Ok(bits) && bits@ == lsb_first(bytes@).take(n as int)),
        n > 8 * bytes@.len() ==> r == Err::<Vec<bool>, BitvecError>(BitvecError::NotEnoughBits),
{
    let whole: usize = n / 8;
    if whole > bytes.len() || (whole == bytes.len() && n % 8 != 0) {
        return Err(BitvecError::NotEnoughBits);
    }
    let mut bits: Vec<bool> = Vec::new();
    let mut k: usize = 0;
    while k < n
        invariant
            k <= n,
            n <= 8 * bytes@.len(),
            bits@ == lsb_first(bytes@).take(k as int),
        decreases n - k,
    {
        let byte: u8 = bytes[k / 8];
        let i: usize = k % 8;
        bits.push((byte >> i) & 1 == 1);
        proof {
            assert(bits@ =~= lsb_first(bytes@).take(k + 1));
        }
        k += 1;
    }
    Ok(bits)
}

/// The byte made of the `j`-th group of eight bits of `bits`.
fn chunk_to_byte(bits: &[bool], j: usize) -> (byte: u8)
    requires
        8 * j < bits@.len(),
    ensures
        byte == byte_of(padded_chunk(bits@, j as int)),
{
    let len: usize = bits.len();
    let start: usize = 8 * j;
    let mut byte: u8 = 0;
    let mut i: usize = 0;
    proof {
        assert forall|t: int| 0 <= t < 8 implies bit(0u8, t) == false by {
            lemma_zero_bit(t as u8);
        }
    }
    while i < 8 && start + i < len
        invariant
            i <= 8,
            start == 8 * j,
            len == bits@.len(),
            start + i <= len,
            forall|t: int| 0 <= t < 8 ==> bit(byte, t) == (t < i && bits@[start + t]),
        decreases 8 - i,
    {
        let ghost before = byte;
        if bits[start + i] {
            byte = byte | (1u8 << i);
        }
        proof {
            assert forall|t: int| 0 <= t < 8 implies bit(byte, t) == (t < i + 1 && bits@[start
                + t]) by {
                lemma_or_bit(before, i as u8, t as u8);
            }
        }
        i += 1;
    }
    proof {
        let chunk = padded_chunk(bits@, j as int);
        lemma_bits_of_byte_of(chunk);
        assert forall|t: int| 0 <= t < 8 implies bit(byte, t) == bit(byte_of(chunk), t) by {
            assert(bits_of(byte_of(chunk))[t] == chunk[t]);
        }
        lemma_byte_by_bits(byte, byte_of(chunk));
    }
    byte
}

/// The bytes that `bits` make up, eight bits to a byte, least significant
/// bit first. Where the number of bits is no multiple of eight, the upper
/// bits of the last byte are clear.
pub fn bits_to_bytes(bits: &[bool]) -> (bytes: Vec<u8>)
    ensures
        bytes@ == bytes_of_lsb_first(bits@),
        bytes@.len() == (bits@.len() + 7) / 8,
{
    let count: usize = if bits.len() % 8 == 0 {
        bits.len() / 8
    } else {
        bits.len() / 8 + 1
    };
    let mut bytes: Vec<u8> = Vec::new();
    let mut j: usize = 0;
    while j < count
        invariant
            j <= count,
            count == (bits@.len() + 7) / 8,
            bytes@ == bytes_of_lsb_first(bits@).take(j as int),
        decreases count - j,
    {
        let byte: u8 = chunk_to_byte(bits, j);
        bytes.push(byte);
        proof {
            assert(bytes@ =~= bytes_of_lsb_first(bits@).take(j + 1));
        }
        j += 1;
    }
    proof {
        assert(bytes@ =~= bytes_of_lsb_first(bits@));
    }
    bytes
}

} // verus!
