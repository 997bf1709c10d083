//! The Bluetooth backends' allowance for resampler delay.

use crate::rounding::{
    lemma_rounded_error, lemma_rounded_monotone, lemma_rounded_representable, lemma_rounded_shift,
    round_significant, rounded,
};
use vstd::arithmetic::div_mod::*;
use vstd::arithmetic::power2::*;
use vstd::bits::*;
use vstd::prelude::*;

verus! {

/// `host_rate * 0.025` in binary32 arithmetic, cut to a whole number: the rate
/// rounded to 24 significant bits, times the binary32 value nearest to 0.025
/// (13421773 / 2^29), rounded again.
pub open spec fn allowance(host_rate: u32) -> int {
    (rounded(rounded(host_rate as nat) * 13_421_773) / pow2(29)) as int
}

/// ~25 ms of resampler delay at the host rate.
pub fn resampler_allowance(host_rate: u32) -> (r: u32)
    ensures
        r == allowance(host_rate),
        r <= 107_374_184,
{
    let (q, e) = round_significant(host_rate as u64);
    let (p, f) = round_significant(q * 13_421_773);
    proof {
        lemma2_to64();
        let h = host_rate as nat;
        let c: nat = 13_421_773;
        let d = pow2(e as nat);
        lemma_pow2_pos(e as nat);
        assert(rounded(h) * c == (q * c) * d) by (nonlinear_arith)
            requires
                rounded(h) == q * d,
        ;
        lemma_rounded_shift((q * c) as nat, e as nat);
        lemma_pow2_adds(f as nat, e as nat);
        assert((p * pow2(f as nat)) * d == p * (pow2(f as nat) * d)) by (nonlinear_arith);
        // Bounds: 2^32 times the constant is its own rounding.
        lemma_rounded_representable(0x1_0000_0000, 1, 32);
        lemma_rounded_monotone(h, 0x1_0000_0000);
        assert(rounded(h) * c <= 0x1_0000_0000 * c) by (nonlinear_arith)
            requires
                rounded(h) <= 0x1_0000_0000,
                c >= 0,
        ;
        assert(c * pow2(32) == 0x1_0000_0000 * c) by (nonlinear_arith)
            requires
                pow2(32) == 0x1_0000_0000,
        ;
        lemma_rounded_representable(0x1_0000_0000 * c, c, 32);
        lemma_rounded_monotone(rounded(h) * c, 0x1_0000_0000 * c);
        assert(p * pow2((f + e) as nat) == rounded(rounded(h) * c));
        lemma_div_is_ordered(
            rounded(rounded(h) * c) as int,
            (0x1_0000_0000 * c) as int,
            pow2(29) as int,
        );
    }
    let s: u64 = (f + e) as u64;
    proof {
        lemma2_to64_rest();
        let n = rounded(rounded(host_rate as nat) * 13_421_773);
        assert(n <= 0x1_0000_0000 * 13_421_773);
        assert(p * pow2(s as nat) == n);
        if s >= 64 {
            lemma_pow2_strictly_increases(63, s as nat);
            if p > 0 {
                assert(p * pow2(s as nat) >= pow2(s as nat)) by (nonlinear_arith)
                    requires
                        p >= 1,
                        pow2(s as nat) >= 0,
                ;
            }
        }
    }
    if p == 0 {
        proof {
            assert(0 * pow2(s as nat) == 0) by (nonlinear_arith);
        }
        return 0;
    }
    proof {
        lemma_u64_shl_is_mul(p, s);
    }
    let product: u64 = p << s;
    (product / 0x2000_0000) as u32
}

/// At every rate up to 13 MHz the allowance is a fortieth of the rate.
pub proof fn law_allowance_is_a_fortieth(host_rate: u32)
    requires
        host_rate <= 13_000_000,
    ensures
        allowance(host_rate) == host_rate as int / 40,
{
    lemma2_to64();
    let h = host_rate as nat;
    lemma_rounded_representable(h, h, 0);
    let n = h * 13_421_773;
    let k = h / 40;
    let r = h % 40;
    let m = rounded(n);
    assert(h == 40 * k + r);
    // 40 * 13421773 is 2^29 + 8.
    assert(40 * n == h * 0x2000_0008);
    lemma_rounded_representable(k * 0x2000_0000, k, 29);
    lemma_rounded_monotone(k * 0x2000_0000, n);
    lemma_rounded_error(n);
    assert(m < (k + 1) * 0x2000_0000);
    lemma_fundamental_div_mod_converse(m as int, 0x2000_0000, k as int, m - k * 0x2000_0000);
}

}
