//! The hybrid logistic-tent map on 64-bit words.

use vstd::prelude::*;

verus! {

/// The number of values a 64-bit word can take, 2^64.
pub const WORD_MODULUS: u128 = 0x1_0000_0000_0000_0000;

/// The smallest word whose top bit is set, 2^63.
pub const HALF_RANGE: u64 = 0x8000_0000_0000_0000;

/// The map `f` as a function on the integers modulo 2^64.
///
/// Below 2^63 it is the logistic branch `4x - 4 * floor(x^2 / 2^64)`; from
/// 2^63 on it is the tent branch `4 * (x - 2^63) * (2^64 - x)`. Either value
/// is reduced modulo 2^64.
pub open spec fn hltm_spec(x: u64) -> u64 {
    if x < HALF_RANGE {
        ((4 * x - 4 * ((x * x) / (WORD_MODULUS as int))) % (WORD_MODULUS as int)) as u64
    } else {
        ((4 * ((x - HALF_RANGE) * (WORD_MODULUS - x))) % (WORD_MODULUS as int)) as u64
    }
}

/// The square of a word below 2^63 fits in 126 bits, and its upper half
/// is no larger than the word itself.
proof fn lemma_square_bounds(x: u64)
    requires
        x < HALF_RANGE,
    ensures
        x * x < 0x4000_0000_0000_0000_0000_0000_0000_0000,
        (x * x) / (WORD_MODULUS as int) <= x,
        0 <= (x * x) / (WORD_MODULUS as int),
{
    assert(x * x <= x * 0x7fff_ffff_ffff_ffff) by (nonlinear_arith)
        requires
            x <= 0x7fff_ffff_ffff_ffff,
    ;
    assert(x * x >= 0) by (nonlinear_arith);
}

/// The product of the two tent factors fits in 126 bits.
proof fn lemma_tent_bounds(a: u64, b: u64)
    requires
        a < HALF_RANGE,
        b <= HALF_RANGE,
    ensures
        0 <= a * b < 0x4000_0000_0000_0000_0000_0000_0000_0000,
{
    assert(a * b <= 0x7fff_ffff_ffff_ffff * 0x8000_0000_0000_0000) by (nonlinear_arith)
        requires
            0 <= a <= 0x7fff_ffff_ffff_ffff,
            0 <= b <= 0x8000_0000_0000_0000,
    ;
    assert(a * b >= 0) by (nonlinear_arith);
}

/// Applies the hybrid logistic-tent map to one word.
pub fn hltm(x: u64) -> (y: u64)
    ensures
        y == hltm_spec(x),
{
    if x < (1u64 << 63) {
        assert(1u64 << 63 == 0x8000_0000_0000_0000u64) by (bit_vector);
        proof {
            lemma_square_bounds(x);
        }
        let x_mod: u128 = x as u128 * 4;
        let square: u128 = x as u128 * x as u128;
        assert(square >> 64 == square / 0x1_0000_0000_0000_0000) by (bit_vector);
        let x_sq_mod: u128 = (square >> 64) * 4;
        let diff: u128 = x_mod - x_sq_mod;
        assert(diff as u64 == diff % 0x1_0000_0000_0000_0000) by (bit_vector);
        #[verifier::truncate]
        (diff as u64)
    } else {
        assert(1u64 << 63 == 0x8000_0000_0000_0000u64) by (bit_vector);
        let x_prime: u64 = x ^ (1u64 << 63);
        assert(x ^ 0x8000_0000_0000_0000u64 == x - 0x8000_0000_0000_0000u64) by (bit_vector)
            requires
                x >= 0x8000_0000_0000_0000u64,
        ;
        assert(!x == 0xffff_ffff_ffff_ffffu64 - x) by (bit_vector);
        let x_complement: u64 = (!x).wrapping_add(1);
        proof {
            lemma_tent_bounds(x_prime, x_complement);
        }
        let product: u128 = (x_prime as u128) * (x_complement as u128) * 4;
        assert(product as u64 == product % 0x1_0000_0000_0000_0000) by (bit_vector);
        #[verifier::truncate]
        (product as u64)
    }
}

} // verus!
