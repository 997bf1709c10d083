//! Rounding of whole numbers to a fixed number of significant bits, the way
//! binary floating point rounds: to the nearest candidate, ties to even.

use vstd::arithmetic::div_mod::*;
use vstd::arithmetic::mul::*;
use vstd::arithmetic::power2::*;
use vstd::prelude::*;

verus! {

/// Significant bits of a binary32 significand.
pub const SIGNIFICANT_BITS: u32 = 24;

/// Number of binary digits of `n`; zero has none.
pub open spec fn bit_len(n: nat) -> nat
    decreases n,
{
    if n == 0 {
        0
    } else {
        1 + bit_len(n / 2)
    }
}

/// `n / d` rounded to the nearest whole number, ties to the even one.
pub open spec fn nearest_even(n: nat, d: nat) -> nat {
    if 2 * (n % d) < d || (2 * (n % d) == d && (n / d) % 2 == 0) {
        n / d
    } else {
        n / d + 1
    }
}

/// `n` rounded to 24 significant bits.
pub open spec fn rounded(n: nat) -> nat {
    if bit_len(n) <= SIGNIFICANT_BITS {
        n
    } else {
        nearest_even(n, pow2((bit_len(n) - SIGNIFICANT_BITS) as nat)) * pow2(
            (bit_len(n) - SIGNIFICANT_BITS) as nat,
        )
    }
}

/// `c` times a power of two, with `c` of at most 24 significant bits: what
/// rounding leaves alone.
pub open spec fn representable(n: nat, c: nat, k: nat) -> bool {
    c <= 0x100_0000 && n == c * pow2(k)
}

pub proof fn lemma_bit_len(n: nat)
    requires
        n > 0,
    ensures
        bit_len(n) >= 1,
        pow2((bit_len(n) - 1) as nat) <= n < pow2(bit_len(n)),
    decreases n,
{
    lemma2_to64();
    if n > 1 {
        lemma_bit_len(n / 2);
        lemma_pow2_unfold(bit_len(n));
        lemma_pow2_unfold((bit_len(n) - 1) as nat);
    } else {
        assert(bit_len(1) == 1 + bit_len(0));
    }
}

pub proof fn lemma_pow2_monotone(a: nat, b: nat)
    requires
        a <= b,
    ensures
        0 < pow2(a) <= pow2(b),
{
    lemma_pow2_pos(a);
    if a < b {
        lemma_pow2_strictly_increases(a, b);
    }
}

pub proof fn lemma_bit_len_unique(n: nat, l: nat)
    requires
        l >= 1,
        pow2((l - 1) as nat) <= n < pow2(l),
    ensures
        bit_len(n) == l,
{
    lemma_pow2_pos((l - 1) as nat);
    lemma_bit_len(n);
    let b = bit_len(n);
    if b < l {
        lemma_pow2_monotone(b, (l - 1) as nat);
    }
    if l < b {
        lemma_pow2_monotone(l, (b - 1) as nat);
    }
}

pub proof fn lemma_bit_len_at_most(n: nat, l: nat)
    requires
        n < pow2(l),
    ensures
        bit_len(n) <= l,
{
    if n > 0 {
        lemma_bit_len(n);
        if l < bit_len(n) {
            lemma_pow2_monotone(l, (bit_len(n) - 1) as nat);
        }
    }
}

pub proof fn lemma_bit_len_shift(m: nat, s: nat)
    requires
        m > 0,
    ensures
        bit_len(m * pow2(s)) == bit_len(m) + s,
{
    let l = bit_len(m);
    lemma_bit_len(m);
    lemma_pow2_pos(s);
    lemma_pow2_adds((l - 1) as nat, s);
    lemma_pow2_adds(l, s);
    assert(pow2((l - 1) as nat) * pow2(s) <= m * pow2(s) < pow2(l) * pow2(s)) by (nonlinear_arith)
        requires
            pow2((l - 1) as nat) <= m < pow2(l),
            pow2(s) > 0,
    ;
    assert((l - 1) as nat + s == (l + s - 1) as nat);
    lemma_bit_len_unique(m * pow2(s), l + s);
}

pub proof fn lemma_nearest_even_scale(n: nat, d: nat, c: nat)
    requires
        d > 0,
        c > 0,
    ensures
        nearest_even(n * c, d * c) == nearest_even(n, d),
{
    lemma_fundamental_div_mod(n as int, d as int);
    lemma_mod_bound(n as int, d as int);
    let q = n / d;
    let r = n % d;
    assert(n * c == q * (d * c) + r * c) by (nonlinear_arith)
        requires
            n == d * q + r,
    ;
    assert(0 <= r * c < d * c) by (nonlinear_arith)
        requires
            0 <= r < d,
            c > 0,
    ;
    lemma_fundamental_div_mod_converse(
        (n * c) as int,
        (d * c) as int,
        q as int,
        (r * c) as int,
    );
    assert(2 * (r * c) < d * c <==> 2 * r < d) by (nonlinear_arith)
        requires
            c > 0,
    ;
    assert(2 * (r * c) == d * c <==> 2 * r == d) by (nonlinear_arith)
        requires
            c > 0,
    ;
}

pub proof fn lemma_nearest_even_exact(q: nat, d: nat)
    requires
        d > 0,
    ensures
        nearest_even(q * d, d) == q,
{
    lemma_mod_multiples_basic(q as int, d as int);
    lemma_div_by_multiple(q as int, d as int);
}

pub proof fn lemma_nearest_even_error(n: nat, d: nat)
    requires
        d > 0,
    ensures
        n / d <= nearest_even(n, d) <= n / d + 1,
        2 * (nearest_even(n, d) * d) <= 2 * n + d,
        2 * n <= 2 * (nearest_even(n, d) * d) + d,
{
    lemma_fundamental_div_mod(n as int, d as int);
    lemma_mod_bound(n as int, d as int);
    let q = n / d;
    assert((q + 1) * d == d * q + d) by (nonlinear_arith);
    assert(q * d == d * q) by (nonlinear_arith);
}

/// Rounding commutes with a change of scale by a power of two.
pub proof fn lemma_rounded_shift(m: nat, s: nat)
    ensures
        rounded(m * pow2(s)) == rounded(m) * pow2(s),
{
    if m == 0 {
        assert(0 * pow2(s) == 0) by (nonlinear_arith);
        assert(bit_len(0) == 0);
    } else {
        lemma_bit_len_shift(m, s);
        lemma_pow2_pos(s);
        let l = bit_len(m);
        let n = m * pow2(s);
        if l + s <= 24 {
        } else if l <= 24 {
            let e = (l + s - 24) as nat;
            let c = (24 - l) as nat;
            lemma_pow2_pos(e);
            lemma_pow2_adds(c, e);
            assert(n == (m * pow2(c)) * pow2(e)) by (nonlinear_arith)
                requires
                    n == m * pow2(s),
                    pow2(s) == pow2(c) * pow2(e),
            ;
            lemma_nearest_even_exact(m * pow2(c), pow2(e));
        } else {
            let e = (l - 24) as nat;
            lemma_pow2_pos(e);
            lemma_pow2_adds(e, s);
            lemma_nearest_even_scale(m, pow2(e), pow2(s));
            assert(nearest_even(m, pow2(e)) * (pow2(e) * pow2(s)) == (nearest_even(m, pow2(e))
                * pow2(e)) * pow2(s)) by (nonlinear_arith);
        }
    }
}

/// A representable value is its own rounding.
pub proof fn lemma_rounded_representable(n: nat, c: nat, k: nat)
    requires
        representable(n, c, k),
    ensures
        rounded(n) == n,
{
    lemma_rounded_shift(c, k);
    lemma2_to64();
    if c < 0x100_0000 {
        lemma_bit_len_at_most(c, 24);
    } else {
        lemma_bit_len_unique(c, 25);
        lemma_pow2_unfold(1);
        lemma_nearest_even_exact(0x80_0000, 2);
    }
}

pub proof fn lemma_nearest_even_monotone(a: nat, b: nat, d: nat)
    requires
        d > 0,
        a <= b,
    ensures
        nearest_even(a, d) <= nearest_even(b, d),
{
    lemma_fundamental_div_mod(a as int, d as int);
    lemma_fundamental_div_mod(b as int, d as int);
    lemma_div_is_ordered(a as int, b as int, d as int);
}

/// Rounding keeps a number between the powers of two around it.
pub proof fn lemma_rounded_binade(n: nat)
    requires
        n > 0,
    ensures
        pow2((bit_len(n) - 1) as nat) <= rounded(n) <= pow2(bit_len(n)),
{
    lemma_bit_len(n);
    let l = bit_len(n);
    if l > 24 {
        let e = (l - 24) as nat;
        let d = pow2(e);
        lemma_pow2_pos(e);
        lemma2_to64();
        lemma_pow2_adds(24, e);
        lemma_pow2_adds(23, e);
        let r = nearest_even(n, d);
        lemma_nearest_even_monotone(0x80_0000 * d, n, d);
        lemma_nearest_even_exact(0x80_0000, d);
        lemma_nearest_even_monotone(n, 0x100_0000 * d, d);
        lemma_nearest_even_exact(0x100_0000, d);
        assert(0x80_0000 * d <= r * d <= 0x100_0000 * d) by (nonlinear_arith)
            requires
                0x80_0000 <= r <= 0x100_0000,
        ;
    }
}

/// Rounding keeps the order of numbers.
pub proof fn lemma_rounded_monotone(a: nat, b: nat)
    requires
        a <= b,
    ensures
        rounded(a) <= rounded(b),
{
    if a > 0 {
        let la = bit_len(a);
        let lb = bit_len(b);
        lemma_bit_len(a);
        lemma_bit_len(b);
        lemma_bit_len_at_most(a, lb);
        if la < lb {
            lemma_rounded_binade(a);
            lemma_rounded_binade(b);
            lemma_pow2_monotone(la, (lb - 1) as nat);
        } else if la > 24 {
            let d = pow2((la - 24) as nat);
            lemma_pow2_pos((la - 24) as nat);
            lemma_nearest_even_monotone(a, b, d);
            lemma_mul_inequality(
                nearest_even(a, d) as int,
                nearest_even(b, d) as int,
                d as int,
            );
        }
    } else {
        assert(bit_len(0) == 0);
    }
}

/// Rounding is off by at most one part in 2^24.
pub proof fn lemma_rounded_error(n: nat)
    ensures
        0x100_0000 * rounded(n) <= 0x100_0001 * n,
        0xff_ffff * n <= 0x100_0000 * rounded(n),
{
    if n > 0 {
        lemma_bit_len(n);
        let l = bit_len(n);
        if l > 24 {
            let e = (l - 24) as nat;
            let d = pow2(e);
            lemma_pow2_pos(e);
            lemma2_to64();
            lemma_pow2_adds(23, e);
            lemma_nearest_even_error(n, d);
        }
    } else {
        assert(bit_len(0) == 0);
    }
}

/// The 24 leading binary digits of `m`, rounded, and the scale they stand at.
pub fn round_significant(m: u64) -> (r: (u64, u32))
    ensures
        r.0 * pow2(r.1 as nat) == rounded(m as nat),
        r.0 <= 0x100_0000,
        r.1 <= 40,
        m < 0x100_0000 ==> r == (m, 0u32),
{
    proof {
        lemma2_to64();
    }
    let mut t: u64 = m;
    let mut d: u64 = 1;
    let mut e: u32 = 0;
    while t >= 0x100_0000
        invariant
            d == pow2(e as nat),
            d >= 1,
            t == m / d,
            e <= 40,
            e > 0 ==> t >= 0x80_0000 && m >= 0x100_0000,
            e == 0 ==> t == m,
            t * d <= m,
        decreases t,
    {
        proof {
            lemma_pow2_unfold((e + 1) as nat);
            lemma_div_denominator(m as int, d as int, 2);
            assert(d < 0x100_0000_0000) by (nonlinear_arith)
                requires
                    t * d <= m,
                    t >= 0x100_0000,
                    m <= u64::MAX,
            ;
            lemma2_to64();
            lemma2_to64_rest();
            if e >= 40 {
                lemma_pow2_monotone(40, e as nat);
            }
            lemma_fundamental_div_mod(m as int, (d * 2) as int);
            lemma_mod_bound(m as int, (d * 2) as int);
            assert((t / 2) * (d * 2) <= m) by (nonlinear_arith)
                requires
                    t * d <= m,
                    d >= 1,
            ;
        }
        t = t / 2;
        d = d * 2;
        e = e + 1;
    }
    let rem: u64 = m - t * d;
    proof {
        lemma_fundamental_div_mod(m as int, d as int);
        lemma_mod_bound(m as int, d as int);
        assert(t * d == d * t) by (nonlinear_arith);
        assert(rem == m % d);
        if e == 0 {
            assert(pow2(0) == 1);
            lemma_bit_len_at_most(m as nat, 24);
            assert(m * pow2(0) == m);
        } else {
            assert(0x80_0000 * d <= m < 0x100_0000 * d) by (nonlinear_arith)
                requires
                    m == d * t + rem,
                    0 <= rem < d,
                    0x80_0000 <= t < 0x100_0000,
            ;
            lemma_pow2_adds(23, e as nat);
            lemma_pow2_adds(24, e as nat);
            lemma_bit_len_unique(m as nat, (24 + e) as nat);
        }
    }
    if rem < d - rem || (rem == d - rem && t % 2 == 0) {
        (t, e)
    } else {
        (t + 1, e)
    }
}

}
