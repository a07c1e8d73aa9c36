//! Bit fields inside a run of bytes, least significant bit first.

use bitvec::field::BitField;
use bitvec::order::Lsb0;
use bitvec::view::BitView;
use vstd::prelude::*;

verus! {

/// Bit `j` of a byte, counted from the least significant.
pub open spec fn byte_bit(b: u8, j: u8) -> bool {
    (b >> j) & 1u8 == 1u8
}

/// Bit `i` of a sixteen-bit value, counted from the least significant.
pub open spec fn word_bit(v: u16, i: u16) -> bool {
    (v >> i) & 1u16 == 1u16
}

/// Bit `p` of a run of bytes: bit `p % 8` of byte `p / 8`.
pub open spec fn bit_at(bytes: Seq<u8>, p: int) -> bool {
    byte_bit(bytes[p / 8], (p % 8) as u8)
}

/// Calls `store_le` of bitvec's `BitField` on the bits `start..end` of `bytes`, seen in `Lsb0`
/// order. Claimed of it, as its documentation has it: bit `i` of `value` lands at bit
/// `start + i` of the bytes, for every `i` below the width of the field; the bits of `value`
/// above that width are dropped; no bit outside the field changes. It panics on an empty field
/// and on one wider than the value, and the slicing panics beyond the bytes: the
/// precondition leaves those out.
#[verifier::external_body]
pub(crate) fn store_bits(bytes: &mut Vec<u8>, start: usize, end: usize, value: u16)
    requires
        start < end,
        end <= 8 * old(bytes)@.len(),
        end - start <= 16,
    ensures
        final(bytes)@.len() == old(bytes)@.len(),
        forall|p: int|
            0 <= p < 8 * old(bytes)@.len() ==> #[trigger] bit_at(final(bytes)@, p) == if start <= p
                < end {
                word_bit(value, (p - start) as u16)
            } else {
                bit_at(old(bytes)@, p)
            },
{
    bytes.as_mut_slice().view_bits_mut::<Lsb0>()[start..end].store_le::<u16>(value);
}

/// Bit `i` of a sixty-four-bit value, counted from the least significant.
pub open spec fn long_bit(v: u64, i: u64) -> bool {
    (v >> i) & 1u64 == 1u64
}

/// Byte `k` of a value, counted from the least significant.
pub open spec fn byte_of(v: u64, k: u64) -> u8 {
    ((v >> (8 * k) as u64) & 0xffu64) as u8
}

/// A byte whose eight bits are those of byte `k` of a value is that byte.
pub proof fn lemma_byte_from_bits(b: u8, v: u64, k: u64)
    by (bit_vector)
    requires
        k < 8,
        byte_bit(b, 0) == long_bit(v, (8 * k) as u64),
        byte_bit(b, 1) == long_bit(v, (8 * k + 1) as u64),
        byte_bit(b, 2) == long_bit(v, (8 * k + 2) as u64),
        byte_bit(b, 3) == long_bit(v, (8 * k + 3) as u64),
        byte_bit(b, 4) == long_bit(v, (8 * k + 4) as u64),
        byte_bit(b, 5) == long_bit(v, (8 * k + 5) as u64),
        byte_bit(b, 6) == long_bit(v, (8 * k + 6) as u64),
        byte_bit(b, 7) == long_bit(v, (8 * k + 7) as u64),
    ensures
        b == byte_of(v, k),
{
}

/// The bytes of `data` are the `n` lowest bytes of `v` where their bits are those of `v`.
pub proof fn lemma_bytes_from_bits(data: Seq<u8>, v: u64, n: int)
    requires
        0 <= n <= 8,
        data.len() == n,
        forall|p: int| 0 <= p < 8 * n ==> #[trigger] bit_at(data, p) == long_bit(v, p as u64),
    ensures
        forall|k: int| 0 <= k < n ==> #[trigger] data[k] == byte_of(v, k as u64),
{
    assert forall|k: int| 0 <= k < n implies #[trigger] data[k] == byte_of(v, k as u64) by {
        assert(bit_at(data, 8 * k) == byte_bit(data[k], 0));
        assert(bit_at(data, 8 * k + 1) == byte_bit(data[k], 1));
        assert(bit_at(data, 8 * k + 2) == byte_bit(data[k], 2));
        assert(bit_at(data, 8 * k + 3) == byte_bit(data[k], 3));
        assert(bit_at(data, 8 * k + 4) == byte_bit(data[k], 4));
        assert(bit_at(data, 8 * k + 5) == byte_bit(data[k], 5));
        assert(bit_at(data, 8 * k + 6) == byte_bit(data[k], 6));
        assert(bit_at(data, 8 * k + 7) == byte_bit(data[k], 7));
        lemma_byte_from_bits(data[k], v, k as u64);
    }
}

} // verus!
