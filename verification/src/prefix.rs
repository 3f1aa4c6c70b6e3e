//! Prefix arithmetic on machine words: the top bits of a value and the test
//! that its low bits are zero, each tied to division by a power of two.

use vstd::arithmetic::power2::{lemma2_to64, lemma_pow2_adds, lemma_pow2_pos, lemma_pow2_unfold, pow2};
use vstd::bits::{lemma_u128_shr_is_div, lemma_u32_shr_is_div};
use vstd::prelude::*;

verus! {

/// The values of `2^32` and `2^128`, the sizes of the two address spaces.
pub proof fn lemma_pow2_widths()
    ensures
        pow2(32) == 0x1_0000_0000,
        pow2(128) == 0x1_0000_0000_0000_0000_0000_0000_0000_0000,
{
    lemma2_to64();
    lemma_pow2_adds(64, 64);
}

/// Shifting one to the left by `h` gives `2^h` in 32 bits.
proof fn lemma_one_shl_u32(h: u32)
    requires
        h < 32,
    ensures
        (1u32 << h) == pow2(h as nat),
        (1u32 << h) > 0,
    decreases h,
{
    if h == 0 {
        assert(1u32 << 0u32 == 1u32) by (bit_vector);
        lemma2_to64();
    } else {
        let g: u32 = (h - 1) as u32;
        lemma_one_shl_u32(g);
        assert((1u32 << h) == 2 * (1u32 << g)) by (bit_vector)
            requires
                1 <= h < 32,
                g == h - 1,
        ;
        lemma_pow2_unfold(h as nat);
    }
}

/// Shifting one to the left by `h` gives `2^h` in 128 bits.
proof fn lemma_one_shl_u128(h: u128)
    requires
        h < 128,
    ensures
        (1u128 << h) == pow2(h as nat),
        (1u128 << h) > 0,
    decreases h,
{
    if h == 0 {
        assert(1u128 << 0u128 == 1u128) by (bit_vector);
        lemma2_to64();
    } else {
        let g: u128 = (h - 1) as u128;
        lemma_one_shl_u128(g);
        assert((1u128 << h) == 2 * (1u128 << g)) by (bit_vector)
            requires
                1 <= h < 128,
                g == h - 1,
        ;
        lemma_pow2_unfold(h as nat);
    }
}

/// The part of `x` above its `host` low bits.
pub fn top_bits_u32(x: u32, host: u8) -> (r: u32)
    requires
        host <= 32,
    ensures
        r == x as nat / pow2(host as nat),
{
    if host == 32 {
        proof {
            lemma_pow2_widths();
        }
        0
    } else {
        proof {
            lemma_u32_shr_is_div(x, host as u32);
        }
        x >> (host as u32)
    }
}

/// Whether the `host` low bits of `x` are all zero.
pub fn low_bits_zero_u32(x: u32, host: u8) -> (r: bool)
    requires
        host <= 32,
    ensures
        r == (x as nat % pow2(host as nat) == 0),
{
    if host == 32 {
        proof {
            lemma_pow2_widths();
        }
        x == 0
    } else {
        proof {
            lemma_one_shl_u32(host as u32);
        }
        let m: u32 = 1u32 << (host as u32);
        x % m == 0
    }
}

/// The part of `x` above its `host` low bits.
pub fn top_bits_u128(x: u128, host: u8) -> (r: u128)
    requires
        host <= 128,
    ensures
        r == x as nat / pow2(host as nat),
{
    if host == 128 {
        proof {
            lemma_pow2_widths();
        }
        0
    } else {
        proof {
            lemma_u128_shr_is_div(x, host as u128);
        }
        x >> (host as u128)
    }
}

/// Whether the `host` low bits of `x` are all zero.
pub fn low_bits_zero_u128(x: u128, host: u8) -> (r: bool)
    requires
        host <= 128,
    ensures
        r == (x as nat % pow2(host as nat) == 0),
{
    if host == 128 {
        proof {
            lemma_pow2_widths();
        }
        x == 0
    } else {
        proof {
            lemma_one_shl_u128(host as u128);
        }
        let m: u128 = 1u128 << (host as u128);
        x % m == 0
    }
}

} // verus!
