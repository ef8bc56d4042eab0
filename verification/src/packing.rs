//! How bits are packed into bytes: eight to a byte, the first bit of each
//! group being the most significant.

use vstd::arithmetic::div_mod::lemma_fundamental_div_mod_converse;
use vstd::prelude::*;

verus! {

/// `weight` when bit `i` of `bits` exists and is set, and zero otherwise.
pub open spec fn weighted_bit(bits: Seq<bool>, i: int, weight: int) -> int {
    if 0 <= i < bits.len() && bits[i] {
        weight
    } else {
        0
    }
}

/// The value of byte `j` when `bits` is cut into groups of eight, the first
/// bit of a group being the most significant; bits past the end count as
/// clear.
pub open spec fn packed_byte(bits: Seq<bool>, j: int) -> int {
    weighted_bit(bits, 8 * j, 128) + weighted_bit(bits, 8 * j + 1, 64) + weighted_bit(
        bits,
        8 * j + 2,
        32,
    ) + weighted_bit(bits, 8 * j + 3, 16) + weighted_bit(bits, 8 * j + 4, 8) + weighted_bit(
        bits,
        8 * j + 5,
        4,
    ) + weighted_bit(bits, 8 * j + 6, 2) + weighted_bit(bits, 8 * j + 7, 1)
}

/// The bytes that hold `bits`, eight to a byte, most significant bit first.
pub open spec fn pack(bits: Seq<bool>) -> Seq<u8> {
    Seq::new(((bits.len() + 7) / 8) as nat, |j: int| packed_byte(bits, j) as u8)
}

/// The weight of bit `k` of a byte, counting from the most significant.
pub open spec fn bit_weight(k: int) -> int {
    if k == 0 {
        128
    } else if k == 1 {
        64
    } else if k == 2 {
        32
    } else if k == 3 {
        16
    } else if k == 4 {
        8
    } else if k == 5 {
        4
    } else if k == 6 {
        2
    } else {
        1
    }
}

/// Whether bit `k` of `byte` is set, counting from the most significant.
pub open spec fn byte_bit(byte: u8, k: int) -> bool {
    (byte as int / bit_weight(k)) % 2 == 1
}

/// The bits that `bytes` hold, eight to a byte, most significant bit first.
pub open spec fn unpack(bytes: Seq<u8>) -> Seq<bool> {
    Seq::new(8 * bytes.len(), |i: int| byte_bit(bytes[i / 8], i % 8))
}

/// A byte is the sum of the weights of its set bits.
pub proof fn lemma_byte_is_sum_of_bits(byte: u8)
    ensures
        byte as int == (if byte_bit(byte, 0) { 128int } else { 0 })
            + (if byte_bit(byte, 1) { 64int } else { 0 })
            + (if byte_bit(byte, 2) { 32int } else { 0 })
            + (if byte_bit(byte, 3) { 16int } else { 0 })
            + (if byte_bit(byte, 4) { 8int } else { 0 })
            + (if byte_bit(byte, 5) { 4int } else { 0 })
            + (if byte_bit(byte, 6) { 2int } else { 0 })
            + (if byte_bit(byte, 7) { 1int } else { 0 }),
{
    assert(byte == (if (byte / 128) % 2 == 1 { 128u8 } else { 0 })
        + (if (byte / 64) % 2 == 1 { 64u8 } else { 0 })
        + (if (byte / 32) % 2 == 1 { 32u8 } else { 0 })
        + (if (byte / 16) % 2 == 1 { 16u8 } else { 0 })
        + (if (byte / 8) % 2 == 1 { 8u8 } else { 0 })
        + (if (byte / 4) % 2 == 1 { 4u8 } else { 0 })
        + (if (byte / 2) % 2 == 1 { 2u8 } else { 0 })
        + (if (byte / 1) % 2 == 1 { 1u8 } else { 0 })) by (bit_vector);
}

/// Packing the bits of some bytes gives the bytes back.
pub proof fn lemma_pack_unpack(bytes: Seq<u8>)
    ensures
        pack(unpack(bytes)) == bytes,
{
    let bits = unpack(bytes);
    assert(pack(bits).len() == bytes.len());
    assert forall|j: int| 0 <= j < bytes.len() implies pack(bits)[j] == bytes[j] by {
        lemma_byte_is_sum_of_bits(bytes[j]);
        assert(bits[8 * j] == byte_bit(bytes[j], 0));
        assert(bits[8 * j + 1] == byte_bit(bytes[j], 1));
        assert(bits[8 * j + 2] == byte_bit(bytes[j], 2));
        assert(bits[8 * j + 3] == byte_bit(bytes[j], 3));
        assert(bits[8 * j + 4] == byte_bit(bytes[j], 4));
        assert(bits[8 * j + 5] == byte_bit(bytes[j], 5));
        assert(bits[8 * j + 6] == byte_bit(bytes[j], 6));
        assert(bits[8 * j + 7] == byte_bit(bytes[j], 7));
    }
    assert(pack(bits) =~= bytes);
}

/// A binary digit can be read off a number by division: of
/// `(2 * high + digit) * weight + low`, with `low` below `weight`, the
/// quotient by `weight` is odd exactly when `digit` is one.
proof fn lemma_read_digit(number: int, high: int, digit: int, low: int, weight: int)
    requires
        weight > 0,
        0 <= low < weight,
        0 <= digit <= 1,
        number == (2 * high + digit) * weight + low,
    ensures
        (number / weight) % 2 == digit,
{
    lemma_fundamental_div_mod_converse(number, weight, 2 * high + digit, low);
    lemma_fundamental_div_mod_converse(2 * high + digit, 2, high, digit);
}

/// In a sum of eight binary digits, each with the weight of its place, the
/// digit of place `k` can be read off by division.
proof fn lemma_digit_of_sum(
    d0: int,
    d1: int,
    d2: int,
    d3: int,
    d4: int,
    d5: int,
    d6: int,
    d7: int,
    k: int,
)
    requires
        0 <= d0 <= 1,
        0 <= d1 <= 1,
        0 <= d2 <= 1,
        0 <= d3 <= 1,
        0 <= d4 <= 1,
        0 <= d5 <= 1,
        0 <= d6 <= 1,
        0 <= d7 <= 1,
        0 <= k < 8,
    ensures
        ({
            let sum = 128 * d0 + 64 * d1 + 32 * d2 + 16 * d3 + 8 * d4 + 4 * d5 + 2 * d6 + d7;
            let digit = if k == 0 {
                d0
            } else if k == 1 {
                d1
            } else if k == 2 {
                d2
            } else if k == 3 {
                d3
            } else if k == 4 {
                d4
            } else if k == 5 {
                d5
            } else if k == 6 {
                d6
            } else {
                d7
            };
            0 <= sum < 256 && (sum / bit_weight(k)) % 2 == digit
        }),
{
    let sum = 128 * d0 + 64 * d1 + 32 * d2 + 16 * d3 + 8 * d4 + 4 * d5 + 2 * d6 + d7;
    if k == 0 {
        lemma_read_digit(sum, 0, d0, 64 * d1 + 32 * d2 + 16 * d3 + 8 * d4 + 4 * d5 + 2 * d6 + d7, 128);
    } else if k == 1 {
        lemma_read_digit(sum, d0, d1, 32 * d2 + 16 * d3 + 8 * d4 + 4 * d5 + 2 * d6 + d7, 64);
    } else if k == 2 {
        lemma_read_digit(sum, 2 * d0 + d1, d2, 16 * d3 + 8 * d4 + 4 * d5 + 2 * d6 + d7, 32);
    } else if k == 3 {
        lemma_read_digit(sum, 4 * d0 + 2 * d1 + d2, d3, 8 * d4 + 4 * d5 + 2 * d6 + d7, 16);
    } else if k == 4 {
        lemma_read_digit(sum, 8 * d0 + 4 * d1 + 2 * d2 + d3, d4, 4 * d5 + 2 * d6 + d7, 8);
    } else if k == 5 {
        lemma_read_digit(sum, 16 * d0 + 8 * d1 + 4 * d2 + 2 * d3 + d4, d5, 2 * d6 + d7, 4);
    } else if k == 6 {
        lemma_read_digit(sum, 32 * d0 + 16 * d1 + 8 * d2 + 4 * d3 + 2 * d4 + d5, d6, d7, 2);
    } else {
        lemma_read_digit(
            sum,
            64 * d0 + 32 * d1 + 16 * d2 + 8 * d3 + 4 * d4 + 2 * d5 + d6,
            d7,
            0,
            1,
        );
    }
}

/// A packed byte fits in a byte, and its bits are the bits it was packed
/// from.
pub proof fn lemma_packed_byte_bits(bits: Seq<bool>, j: int, k: int)
    requires
        0 <= k < 8,
    ensures
        0 <= packed_byte(bits, j) < 256,
        byte_bit(packed_byte(bits, j) as u8, k) == (weighted_bit(bits, 8 * j + k, 1) == 1),
{
    lemma_digit_of_sum(
        weighted_bit(bits, 8 * j, 1),
        weighted_bit(bits, 8 * j + 1, 1),
        weighted_bit(bits, 8 * j + 2, 1),
        weighted_bit(bits, 8 * j + 3, 1),
        weighted_bit(bits, 8 * j + 4, 1),
        weighted_bit(bits, 8 * j + 5, 1),
        weighted_bit(bits, 8 * j + 6, 1),
        weighted_bit(bits, 8 * j + 7, 1),
        k,
    );
}

/// Unpacking the bytes of a whole number of groups of eight bits gives the
/// bits back.
pub proof fn lemma_unpack_pack(bits: Seq<bool>)
    requires
        bits.len() % 8 == 0,
    ensures
        unpack(pack(bits)) == bits,
{
    let bytes = pack(bits);
    assert(unpack(bytes).len() == bits.len());
    assert forall|i: int| 0 <= i < bits.len() implies unpack(bytes)[i] == bits[i] by {
        let j = i / 8;
        let k = i % 8;
        lemma_packed_byte_bits(bits, j, k);
        assert(8 * j + k == i);
    }
    assert(unpack(bytes) =~= bits);
}

} // verus!
