//! One audio sample: a binary32 number, held by its bit pattern.
//!
//! Values are reasoned about in whole *units* of 2^-149, the spacing of the
//! smallest binary32 numbers: every finite sample is a whole number of them,
//! and full scale (1.0) is 2^149 units.

use crate::rounding::{
    bit_len, lemma_bit_len, lemma_bit_len_at_most, lemma_bit_len_unique, lemma_nearest_even_exact, lemma_pow2_monotone, lemma_rounded_error,
    lemma_rounded_monotone, lemma_rounded_representable, lemma_rounded_shift, nearest_even,
    round_significant, rounded,
};
use vstd::arithmetic::div_mod::*;
use vstd::arithmetic::power2::*;
use vstd::bits::*;
use vstd::prelude::*;

verus! {

#[derive(Clone, Copy, PartialEq, Eq, Structural, Debug)]
pub struct Sample {
    pub bits: u32,
}

/// Bit pattern of the quiet NaN that undefined sums give.
pub const NAN_BITS: u32 = 0x7fc0_0000;

/// The sample of value zero.
pub fn silence() -> (r: Sample)
    ensures
        r == (Sample { bits: 0 }),
        r.units() == 0,
        r.is_finite(),
{
    let r = Sample { bits: 0 };
    proof {
        assert(0 * pow2(0) == 0) by (nonlinear_arith);
    }
    r
}

impl Sample {
    pub open spec fn is_negative(self) -> bool {
        self.bits >= 0x8000_0000
    }

    /// The biased exponent field.
    pub open spec fn exponent(self) -> nat {
        (self.bits as nat / 0x80_0000) % 0x100
    }

    pub open spec fn fraction(self) -> nat {
        self.bits as nat % 0x80_0000
    }

    pub open spec fn significand(self) -> nat {
        if self.exponent() == 0 {
            self.fraction()
        } else {
            self.fraction() + 0x80_0000
        }
    }

    /// Power of two, in units, that the significand is scaled by.
    pub open spec fn scale(self) -> nat {
        if self.exponent() == 0 {
            0
        } else {
            (self.exponent() - 1) as nat
        }
    }

    pub open spec fn is_nan(self) -> bool {
        self.exponent() == 255 && self.fraction() != 0
    }

    pub open spec fn is_infinite(self) -> bool {
        self.exponent() == 255 && self.fraction() == 0
    }

    pub open spec fn is_finite(self) -> bool {
        self.exponent() != 255
    }

    /// Absolute value of a finite sample, in units.
    pub open spec fn magnitude(self) -> nat {
        self.significand() * pow2(self.scale())
    }

    /// Value of a finite sample, in units.
    pub open spec fn units(self) -> int {
        if self.is_negative() {
            -(self.magnitude() as int)
        } else {
            self.magnitude() as int
        }
    }
}

/// Full scale, 1.0, in units.
pub open spec fn full_scale() -> nat {
    pow2(149)
}

/// The least value, in units, that is past the finite samples.
pub open spec fn overflow_threshold() -> nat {
    pow2(277)
}

/// Puts a sample together from its three fields.
fn assemble(negative: bool, exponent: u32, fraction: u32) -> (r: Sample)
    requires
        exponent <= 255,
        fraction < 0x80_0000,
    ensures
        r.is_negative() == negative,
        r.exponent() == exponent,
        r.fraction() == fraction,
{
    let low: u32 = exponent * 0x80_0000 + fraction;
    let bits: u32 = if negative {
        0x8000_0000 + low
    } else {
        low
    };
    proof {
        let top: int = if negative {
            0x100
        } else {
            0
        };
        lemma_fundamental_div_mod_converse(
            bits as int,
            0x80_0000,
            top + exponent,
            fraction as int,
        );
    }
    Sample { bits }
}

/// The sample whose absolute value is `m * 2^s` units rounded to 24
/// significant bits, or the infinity where that is past the finite samples.
pub fn pack(negative: bool, m: u64, s: u32) -> (r: Sample)
    requires
        s <= 1000,
    ensures
        r.is_negative() == negative,
        rounded(m as nat * pow2(s as nat)) < overflow_threshold() ==> r.is_finite() && r.magnitude()
            == rounded(m as nat * pow2(s as nat)),
        rounded(m as nat * pow2(s as nat)) >= overflow_threshold() ==> r.is_infinite(),
{
    let (q0, e) = round_significant(m);
    let ghost v = rounded(m as nat * pow2(s as nat));
    let mut q: u64 = q0;
    let mut t: u32 = s + e;
    proof {
        lemma_rounded_shift(m as nat, s as nat);
        lemma_pow2_adds(e as nat, s as nat);
        assert(q0 * (pow2(e as nat) * pow2(s as nat)) == (q0 * pow2(e as nat)) * pow2(s as nat))
            by (nonlinear_arith);
        assert(v == q0 * pow2((s + e) as nat));
    }
    if q == 0x100_0000 {
        proof {
            lemma_pow2_unfold((t + 1) as nat);
            assert(0x80_0000 * (2 * pow2(t as nat)) == 0x100_0000 * pow2(t as nat));
        }
        q = 0x80_0000;
        t = t + 1;
    }
    while q < 0x80_0000 && t > 0
        invariant
            q < 0x100_0000,
            t <= 1041,
            v == q * pow2(t as nat),
        decreases t,
    {
        proof {
            lemma_pow2_unfold(t as nat);
            assert((q * 2) * pow2((t - 1) as nat) == q * (2 * pow2((t - 1) as nat)))
                by (nonlinear_arith);
        }
        q = q * 2;
        t = t - 1;
    }
    if q < 0x80_0000 {
        let r = assemble(negative, 0, q as u32);
        proof {
            lemma2_to64();
            lemma_pow2_monotone(23, 277);
            assert(q * pow2(0) == q) by (nonlinear_arith)
                requires
                    pow2(0) == 1,
            ;
        }
        r
    } else if t >= 254 {
        proof {
            lemma2_to64();
            lemma_pow2_monotone(254, t as nat);
            lemma_pow2_adds(23, 254);
            assert(q * pow2(t as nat) >= 0x80_0000 * pow2(254)) by (nonlinear_arith)
                requires
                    q >= 0x80_0000,
                    pow2(t as nat) >= pow2(254),
                    pow2(254) > 0,
            ;
        }
        assemble(negative, 255, 0)
    } else {
        proof {
            lemma2_to64();
            lemma_pow2_monotone(t as nat, 253);
            lemma_pow2_adds(24, 253);
            assert(q * pow2(t as nat) < 0x100_0000 * pow2(253)) by (nonlinear_arith)
                requires
                    q < 0x100_0000,
                    0 < pow2(t as nat) <= pow2(253),
            ;
        }
        assemble(negative, t + 1, (q - 0x80_0000) as u32)
    }
}

/// What a sample becomes as a 16-bit integer: clamped to full scale, scaled
/// by 32767 with one rounding, then cut towards zero. A NaN gives zero.
pub open spec fn quantised(s: Sample) -> int {
    if s.is_nan() {
        0
    } else {
        let clamped = if s.is_infinite() || s.magnitude() > full_scale() {
            full_scale()
        } else {
            s.magnitude()
        };
        let v = rounded(clamped * 32767) / full_scale();
        if s.is_negative() {
            -(v as int)
        } else {
            v as int
        }
    }
}

proof fn lemma_quantised_full_scale()
    ensures
        rounded(full_scale() * 32767) / full_scale() == 32767,
{
    lemma_pow2_pos(149);
    assert(full_scale() * 32767 == 32767 * pow2(149)) by (nonlinear_arith);
    lemma_rounded_representable(full_scale() * 32767, 32767, 149);
    lemma_div_by_multiple(32767, full_scale() as int);
}

impl Sample {
    fn exponent_field(self) -> (r: u32)
        ensures
            r == self.exponent(),
            r <= 255,
    {
        (self.bits / 0x80_0000) % 0x100
    }

    fn fraction_field(self) -> (r: u32)
        ensures
            r == self.fraction(),
            r < 0x80_0000,
    {
        self.bits % 0x80_0000
    }

    /// Significand and scale of the sample.
    fn unpack(self) -> (r: (u64, u32))
        ensures
            r.0 == self.significand(),
            r.1 == self.scale(),
            r.0 < 0x100_0000,
            r.1 <= 254,
            r.1 > 0 ==> r.0 >= 0x80_0000,
            self.is_finite() ==> r.1 <= 253,
    {
        let e = self.exponent_field();
        let f = self.fraction_field();
        if e == 0 {
            (f as u64, 0)
        } else {
            (f as u64 + 0x80_0000, e - 1)
        }
    }

    /// `clamp(-1, 1) * 32767`, cut to a 16-bit integer.
    pub fn quantise(self) -> (r: i16)
        ensures
            r == quantised(self),
            -32767 <= r <= 32767,
    {
        let e = self.exponent_field();
        let f = self.fraction_field();
        let negative: bool = self.bits >= 0x8000_0000;
        if e == 255 && f != 0 {
            return 0;
        }
        proof {
            lemma_quantised_full_scale();
            lemma2_to64();
        }
        if e >= 127 {
            proof {
                if self.is_finite() {
                    lemma_pow2_monotone(126, self.scale());
                    lemma_pow2_adds(23, 126);
                    assert(self.magnitude() >= 0x80_0000 * pow2(126)) by (nonlinear_arith)
                        requires
                            self.significand() >= 0x80_0000,
                            pow2(self.scale()) >= pow2(126) > 0,
                            self.magnitude() == self.significand() * pow2(self.scale()),
                    ;
                }
            }
            return if negative {
                -32767
            } else {
                32767
            };
        }
        let (m, s) = self.unpack();
        let (q, x) = round_significant(m * 32767);
        let ghost w = rounded((m * 32767) as nat);
        let k: u32 = 149 - s;
        proof {
            lemma_pow2_monotone(s as nat, 125);
            lemma_pow2_adds(24, 125);
            assert(m * pow2(s as nat) <= 0x100_0000 * pow2(125)) by (nonlinear_arith)
                requires
                    m < 0x100_0000,
                    0 < pow2(s as nat) <= pow2(125),
            ;
            assert((m * pow2(s as nat)) * 32767 == (m * 32767) * pow2(s as nat))
                by (nonlinear_arith);
            lemma_rounded_shift((m * 32767) as nat, s as nat);
            lemma_pow2_adds(k as nat, s as nat);
            lemma_pow2_pos(s as nat);
            lemma_pow2_pos(k as nat);
            lemma_div_multiples_vanish_quotient(
                pow2(s as nat) as int,
                w as int,
                pow2(k as nat) as int,
            );
            assert(w * pow2(s as nat) == pow2(s as nat) * w) by (nonlinear_arith);
            assert(pow2(k as nat) * pow2(s as nat) == pow2(s as nat) * pow2(k as nat))
                by (nonlinear_arith);
            assert(rounded(self.magnitude() * 32767) / full_scale() == w / pow2(k as nat));
            // The rounded product stays within the product's own range.
            assert(rounded((0x100_0000 * 32767) as nat) == 0x100_0000 * 32767) by {
                assert(32767 * pow2(24) == 0x100_0000 * 32767) by (nonlinear_arith)
                    requires
                        pow2(24) == 0x100_0000,
                ;
                lemma_rounded_representable((0x100_0000 * 32767) as nat, 32767, 24);
            }
            lemma_rounded_monotone((m * 32767) as nat, (0x100_0000 * 32767) as nat);
            assert(q * pow2(x as nat) == w);
        }
        let w_exec: u64 = scaled(q, x);
        if k >= 64 {
            proof {
                lemma_pow2_monotone(40, k as nat);
                lemma2_to64_rest();
                lemma_basic_div(w as int, pow2(k as nat) as int);
            }
            return 0;
        }
        let v: u64 = w_exec >> (k as u64);
        proof {
            lemma_u64_shr_is_div(w_exec, k as u64);
            lemma_pow2_monotone(24, k as nat);
            lemma_div_is_ordered(w as int, 0x7fff_000000int, pow2(k as nat) as int);
            lemma_div_is_ordered_by_denominator(
                0x7fff_000000int,
                0x100_0000,
                pow2(k as nat) as int,
            );
            lemma_div_by_multiple(32767, 0x100_0000);
        }
        if negative {
            -(v as i16)
        } else {
            v as i16
        }
    }
}

/// `m * 2^s`, where it fits.
fn scaled(m: u64, s: u32) -> (r: u64)
    requires
        s < 64,
        m * pow2(s as nat) <= u64::MAX,
    ensures
        r == m * pow2(s as nat),
{
    proof {
        lemma_u64_shl_is_mul(m, s as u64);
    }
    m << (s as u64)
}

/// `r` is the sum of `a` and `b`, rounded once.
pub open spec fn is_sum(a: Sample, b: Sample, r: Sample) -> bool {
    if a.is_nan() || b.is_nan() {
        r == (Sample { bits: NAN_BITS })
    } else if a.is_infinite() && b.is_infinite() && a.is_negative() != b.is_negative() {
        r == (Sample { bits: NAN_BITS })
    } else if a.is_infinite() {
        r == a
    } else if b.is_infinite() {
        r == b
    } else {
        let t = a.units() + b.units();
        let v = rounded(vstd::math::abs(t));
        &&& r.is_negative() == if t == 0 {
            a.is_negative() && b.is_negative()
        } else {
            t < 0
        }
        &&& v < overflow_threshold() ==> r.is_finite() && r.magnitude() == v
        &&& v >= overflow_threshold() ==> r.is_infinite()
    }
}

/// `r` is half of `a`, rounded once.
pub open spec fn is_half(a: Sample, r: Sample) -> bool {
    if !a.is_finite() {
        r == a
    } else {
        &&& r.is_finite()
        &&& r.is_negative() == a.is_negative()
        &&& r.magnitude() == nearest_even(a.magnitude(), 2)
    }
}

/// The sum of two samples.
pub open spec fn sum(a: Sample, b: Sample) -> Sample {
    choose|r: Sample| is_sum(a, b, r)
}

/// Half of a sample.
pub open spec fn half(a: Sample) -> Sample {
    choose|r: Sample| is_half(a, r)
}

/// `s` is the sample of value `v / 32768`.
pub open spec fn is_dequantised(v: i16, s: Sample) -> bool {
    &&& s.is_finite()
    &&& s.units() == v * pow2(134)
    &&& s.is_negative() == (v < 0)
}

/// The sample of a 16-bit integer.
pub open spec fn dequantised(v: i16) -> Sample {
    choose|s: Sample| is_dequantised(v, s)
}

/// A finite sample is known by its sign and its absolute value.
pub proof fn law_value_determines_sample(a: Sample, b: Sample)
    requires
        a.is_finite(),
        b.is_finite(),
        a.is_negative() == b.is_negative(),
        a.magnitude() == b.magnitude(),
    ensures
        a == b,
{
    if a.scale() < b.scale() {
        lemma_scale_order(a, b);
    } else if b.scale() < a.scale() {
        lemma_scale_order(b, a);
    } else {
        lemma_pow2_pos(a.scale());
        assert(a.significand() == b.significand()) by (nonlinear_arith)
            requires
                a.significand() * pow2(a.scale()) == b.significand() * pow2(a.scale()),
                pow2(a.scale()) > 0,
        ;
        assert(a.exponent() == b.exponent());
    }
}

/// Of two finite samples the one of the larger scale is the larger.
proof fn lemma_scale_order(a: Sample, b: Sample)
    requires
        a.is_finite(),
        b.is_finite(),
        a.scale() < b.scale(),
    ensures
        a.magnitude() < b.magnitude(),
{
    let next = a.scale() + 1;
    lemma_pow2_unfold(next);
    lemma_pow2_pos(a.scale());
    lemma_pow2_monotone(next, b.scale());
    assert(a.significand() * pow2(a.scale()) < b.significand() * pow2(b.scale()))
        by (nonlinear_arith)
        requires
            a.significand() < 0x100_0000,
            b.significand() >= 0x80_0000,
            pow2(b.scale()) >= 2 * pow2(a.scale()),
            pow2(a.scale()) > 0,
    ;
}

proof fn lemma_sum_unique(a: Sample, b: Sample, r: Sample)
    requires
        is_sum(a, b, r),
    ensures
        sum(a, b) == r,
{
    let c = sum(a, b);
    assert(is_sum(a, b, c));
    if r.is_finite() && c.is_finite() && r != c {
        law_value_determines_sample(r, c);
    }
}

pub proof fn lemma_dequantised_unique(v: i16, r: Sample)
    requires
        is_dequantised(v, r),
    ensures
        dequantised(v) == r,
{
    let c = dequantised(v);
    assert(is_dequantised(v, c));
    law_value_determines_sample(c, r);
}

/// Every 16-bit integer has a sample.
pub proof fn lemma_dequantised(v: i16)
    ensures
        is_dequantised(v, dequantised(v)),
{
    let a: nat = if v < 0 {
        (-v) as nat
    } else {
        v as nat
    };
    lemma2_to64();
    if v == 0 {
        let s = Sample { bits: 0 };
        assert(0 * pow2(0) == 0) by (nonlinear_arith);
        assert(0 * pow2(134) == 0) by (nonlinear_arith);
        assert(s.units() == 0);
        assert(is_dequantised(v, s));
    } else {
        let l = bit_len(a);
        lemma_bit_len(a);
        lemma_bit_len_at_most(a, 16);
        let up = (24 - l) as nat;
        let m = a * pow2(up);
        lemma_pow2_adds(l, up);
        lemma_pow2_adds((l - 1) as nat, up);
        lemma_pow2_pos(up);
        assert(pow2(23) <= m < pow2(24)) by (nonlinear_arith)
            requires
                pow2((l - 1) as nat) <= a < pow2(l),
                m == a * pow2(up),
                pow2(l) * pow2(up) == pow2(24),
                pow2((l - 1) as nat) * pow2(up) == pow2(23),
                pow2(up) > 0,
        ;
        let top: int = if v < 0 {
            0x100
        } else {
            0
        };
        let field = top + 111 + l;
        let bits = field * 0x80_0000 + (m - 0x80_0000);
        let s = Sample { bits: bits as u32 };
        assert(bits == (bits as u32) as int);
        lemma_fundamental_div_mod_converse(bits, 0x80_0000, field, m - 0x80_0000);
        assert(s.exponent() == 111 + l);
        assert(s.significand() == m);
        let k = (110 + l) as nat;
        lemma_pow2_adds(up, k);
        assert((a * pow2(up)) * pow2(k) == a * (pow2(up) * pow2(k))) by (nonlinear_arith);
        assert(s.magnitude() == a * pow2(134));
        assert(v < 0 ==> v * pow2(134) == -(a * pow2(134))) by (nonlinear_arith)
            requires
                v < 0 ==> a == -v,
        ;
        assert(is_dequantised(v, s));
    }
}

/// Adding less than 2^-15 of the last place changes nothing.
proof fn lemma_absorbed(m: nat, s: nat, n: nat)
    requires
        0x80_0000 <= m < 0x100_0000,
        s >= 15,
        m * pow2(s) - pow2((s - 15) as nat) <= n <= m * pow2(s) + pow2((s - 15) as nat),
    ensures
        rounded(n) == m * pow2(s),
{
    let t = (s - 15) as nat;
    lemma2_to64();
    lemma_pow2_adds(15, t);
    lemma_pow2_pos(t);
    let lo = (m * 0x8000 - 1) as nat;
    let hi = m * 0x8000 + 1;
    assert(lo * pow2(t) == m * pow2(s) - pow2(t)) by (nonlinear_arith)
        requires
            lo == m * 0x8000 - 1,
            pow2(s) == 0x8000 * pow2(t),
    ;
    assert(hi * pow2(t) == m * pow2(s) + pow2(t)) by (nonlinear_arith)
        requires
            hi == m * 0x8000 + 1,
            pow2(s) == 0x8000 * pow2(t),
    ;
    lemma2_to64_rest();
    lemma_bit_len_unique(hi, 39);
    lemma_fundamental_div_mod_converse(hi as int, 0x8000, m as int, 1);
    assert(rounded(hi) == m * 0x8000);
    if m > 0x80_0000 {
        lemma_bit_len_unique(lo, 39);
        lemma_fundamental_div_mod_converse(lo as int, 0x8000, m - 1, 0x7fff);
        assert(nearest_even(lo, 0x8000) == m);
        assert(rounded(lo) == m * 0x8000);
    } else {
        lemma_bit_len_unique(lo, 38);
        lemma_fundamental_div_mod_converse(lo as int, 0x4000, 2 * m - 1, 0x3fff);
        assert(nearest_even(lo, 0x4000) == 2 * m);
        assert(pow2((bit_len(lo) - 24) as nat) == 0x4000);
        assert((2 * m) * 0x4000 == m * 0x8000);
        assert(rounded(lo) == m * 0x8000);
    }
    lemma_rounded_shift(lo, t);
    lemma_rounded_shift(hi, t);
    lemma_rounded_monotone(lo * pow2(t), n);
    lemma_rounded_monotone(n, hi * pow2(t));
    assert((m * 0x8000) * pow2(t) == m * pow2(s)) by (nonlinear_arith)
        requires
            pow2(s) == 0x8000 * pow2(t),
    ;
}

/// Sum of two finite samples, the one of the larger scale first.
fn sum_finite(a: Sample, b: Sample) -> (r: Sample)
    requires
        a.is_finite(),
        b.is_finite(),
        a.scale() >= b.scale(),
    ensures
        is_sum(a, b, r),
{
    let (ma, sa) = a.unpack();
    let (mb, sb) = b.unpack();
    let d: u32 = sa - sb;
    let na: bool = a.bits >= 0x8000_0000;
    let nb: bool = b.bits >= 0x8000_0000;
    let ghost t = a.units() + b.units();
    proof {
        lemma2_to64();
        lemma2_to64_rest();
        lemma_pow2_pos(sb as nat);
    }
    if d > 38 {
        proof {
            lemma_pow2_adds(24, sb as nat);
            lemma_pow2_monotone((24 + sb) as nat, (sa - 15) as nat);
            assert(mb * pow2(sb as nat) < 0x100_0000 * pow2(sb as nat)) by (nonlinear_arith)
                requires
                    mb < 0x100_0000,
                    pow2(sb as nat) > 0,
            ;
            lemma_pow2_adds(15, (sa - 15) as nat);
            lemma_pow2_pos((sa - 15) as nat);
            assert(ma * pow2(sa as nat) > pow2((sa - 15) as nat)) by (nonlinear_arith)
                requires
                    ma >= 0x80_0000,
                    pow2(sa as nat) == 0x8000 * pow2((sa - 15) as nat),
                    pow2((sa - 15) as nat) > 0,
            ;
            lemma_absorbed(ma as nat, sa as nat, vstd::math::abs(t));
            lemma_pow2_monotone(sa as nat, 253);
            lemma_pow2_adds(24, 253);
            assert(ma * pow2(sa as nat) < 0x100_0000 * pow2(253)) by (nonlinear_arith)
                requires
                    ma < 0x100_0000,
                    0 < pow2(sa as nat) <= pow2(253),
            ;
        }
        return a;
    }
    proof {
        lemma_pow2_monotone(d as nat, 38);
        assert(ma * pow2(d as nat) <= 0x100_0000 * 0x40_0000_0000) by (nonlinear_arith)
            requires
                ma < 0x100_0000,
                0 < pow2(d as nat) <= 0x40_0000_0000,
        ;
        lemma_pow2_adds(d as nat, sb as nat);
        assert(ma * pow2(sa as nat) == (ma * pow2(d as nat)) * pow2(sb as nat))
            by (nonlinear_arith)
            requires
                pow2(sa as nat) == pow2(d as nat) * pow2(sb as nat),
        ;
    }
    let wa: u64 = scaled(ma, d);
    if na == nb {
        proof {
            assert((wa + mb) * pow2(sb as nat) == wa * pow2(sb as nat) + mb * pow2(sb as nat))
                by (nonlinear_arith);
        }
        let r = pack(na, wa + mb, sb);
        proof {
            assert(0 <= wa * pow2(sb as nat) && 0 <= mb * pow2(sb as nat));
        }
        r
    } else if wa == mb {
        proof {
            assert(0 * pow2(0) == 0) by (nonlinear_arith);
            lemma_pow2_pos(277);
            assert(bit_len(0) == 0);
        }
        silence()
    } else if wa > mb {
        proof {
            assert((wa - mb) * pow2(sb as nat) == wa * pow2(sb as nat) - mb * pow2(sb as nat))
                by (nonlinear_arith);
            assert((wa - mb) * pow2(sb as nat) > 0) by (nonlinear_arith)
                requires
                    wa > mb,
                    pow2(sb as nat) > 0,
            ;
        }
        pack(na, wa - mb, sb)
    } else {
        proof {
            assert((mb - wa) * pow2(sb as nat) == mb * pow2(sb as nat) - wa * pow2(sb as nat))
                by (nonlinear_arith);
            assert((mb - wa) * pow2(sb as nat) > 0) by (nonlinear_arith)
                requires
                    mb > wa,
                    pow2(sb as nat) > 0,
            ;
        }
        pack(nb, mb - wa, sb)
    }
}

impl Sample {
    /// The sample of a 16-bit integer: `v / 32768`, which is exact.
    pub fn dequantise(v: i16) -> (r: Sample)
        ensures
            r == dequantised(v),
            is_dequantised(v, r),
    {
        if v == 0 {
            let r = silence();
            proof {
                assert(0 * pow2(134) == 0) by (nonlinear_arith);
                lemma_dequantised_unique(v, r);
            }
            return r;
        }
        let m: u64 = if v < 0 {
            (-(v as i32)) as u64
        } else {
            v as u64
        };
        proof {
            lemma_rounded_representable(m as nat * pow2(134), m as nat, 134);
            lemma2_to64();
            lemma_pow2_adds(15, 134);
            lemma_pow2_pos(134);
            assert(m * pow2(134) <= 0x8000 * pow2(134)) by (nonlinear_arith)
                requires
                    m <= 0x8000,
            ;
            lemma_pow2_strictly_increases(149, 277);
            assert(v < 0 ==> v * pow2(134) == -(m * pow2(134))) by (nonlinear_arith)
                requires
                    v < 0 ==> m == -v,
            ;
        }
        let r = pack(v < 0, m, 134);
        proof {
            lemma_dequantised_unique(v, r);
        }
        r
    }

    /// `self + other`.
    pub fn plus(self, other: Sample) -> (r: Sample)
        ensures
            r == sum(self, other),
            is_sum(self, other, r),
    {
        let r = self.plus_by_fields(other);
        proof {
            lemma_sum_unique(self, other, r);
        }
        r
    }

    fn plus_by_fields(self, other: Sample) -> (r: Sample)
        ensures
            is_sum(self, other, r),
    {
        let ea = self.exponent_field();
        let fa = self.fraction_field();
        let eb = other.exponent_field();
        let fb = other.fraction_field();
        if (ea == 255 && fa != 0) || (eb == 255 && fb != 0) {
            return Sample { bits: NAN_BITS };
        }
        if ea == 255 {
            if eb == 255 && (self.bits >= 0x8000_0000) != (other.bits >= 0x8000_0000) {
                return Sample { bits: NAN_BITS };
            }
            return self;
        }
        if eb == 255 {
            return other;
        }
        if ea >= eb {
            sum_finite(self, other)
        } else {
            sum_finite(other, self)
        }
    }

    /// `self * 0.5`.
    pub fn halve(self) -> (r: Sample)
        ensures
            r == half(self),
            is_half(self, r),
    {
        let r = self.halve_by_fields();
        proof {
            let c = half(self);
            assert(is_half(self, c));
            if self.is_finite() {
                law_value_determines_sample(c, r);
            }
        }
        r
    }

    fn halve_by_fields(self) -> (r: Sample)
        ensures
            is_half(self, r),
    {
        if self.exponent_field() == 255 {
            return self;
        }
        let negative: bool = self.bits >= 0x8000_0000;
        let (m, s) = self.unpack();
        proof {
            lemma2_to64();
        }
        if s >= 1 {
            proof {
                let t = (s - 1) as nat;
                lemma_pow2_unfold(s as nat);
                assert(m * pow2(s as nat) == (m * pow2(t)) * 2) by (nonlinear_arith)
                    requires
                        pow2(s as nat) == 2 * pow2(t),
                ;
                lemma_nearest_even_exact(m as nat * pow2(t), 2);
                lemma_rounded_representable(m as nat * pow2(t), m as nat, t);
                lemma_pow2_monotone(t, 252);
                lemma_pow2_adds(24, 252);
                lemma_pow2_strictly_increases(276, 277);
                assert(m * pow2(t) < 0x100_0000 * pow2(252)) by (nonlinear_arith)
                    requires
                        m < 0x100_0000,
                        0 < pow2(t) <= pow2(252),
                ;
            }
            pack(negative, m, s - 1)
        } else {
            let q: u64 = m / 2;
            let up: u64 = if m % 2 == 1 && q % 2 == 1 {
                1
            } else {
                0
            };
            let h: u64 = q + up;
            proof {
                assert(m * pow2(0) == m) by (nonlinear_arith)
                    requires
                        pow2(0) == 1,
                ;
                assert(h * pow2(0) == h) by (nonlinear_arith)
                    requires
                        pow2(0) == 1,
                ;
                lemma_rounded_representable(h as nat, h as nat, 0);
                lemma_pow2_strictly_increases(24, 277);
            }
            pack(negative, h, 0)
        }
    }
}

/// `r` is `a` held between `-ceiling` and `ceiling`; a NaN stays a NaN.
pub open spec fn is_clamped(a: Sample, ceiling: Sample, r: Sample) -> bool {
    if a.is_nan() || (a.is_finite() && a.magnitude() <= ceiling.magnitude()) {
        r == a
    } else {
        &&& r.is_finite()
        &&& r.magnitude() == ceiling.magnitude()
        &&& r.is_negative() == a.is_negative()
    }
}

impl Sample {
    /// `self.clamp(-ceiling, ceiling)`.
    pub fn clamp_to(self, ceiling: Sample) -> (r: Sample)
        requires
            ceiling.is_finite(),
            !ceiling.is_negative(),
        ensures
            is_clamped(self, ceiling, r),
    {
        let negative: bool = self.bits >= 0x8000_0000;
        let low: u32 = if negative {
            self.bits - 0x8000_0000
        } else {
            self.bits
        };
        proof {
            let a = Sample { bits: low };
            assert(a.exponent() == self.exponent() && a.fraction() == self.fraction());
            lemma_bits_order(a, ceiling);
        }
        if self.exponent_field() == 255 && self.fraction_field() != 0 {
            return self;
        }
        if low <= ceiling.bits {
            return self;
        }
        if negative {
            let r = Sample { bits: ceiling.bits + 0x8000_0000 };
            proof {
                assert(r.exponent() == ceiling.exponent() && r.fraction() == ceiling.fraction());
            }
            r
        } else {
            ceiling
        }
    }
}

/// Without the sign, samples are ordered as their bit patterns are.
proof fn lemma_bits_order(a: Sample, b: Sample)
    requires
        !a.is_negative(),
        !b.is_negative(),
        b.is_finite(),
    ensures
        a.bits <= b.bits <==> a.is_finite() && a.magnitude() <= b.magnitude(),
{
    assert(a.bits == a.exponent() * 0x80_0000 + a.fraction());
    assert(b.bits == b.exponent() * 0x80_0000 + b.fraction());
    if a.is_finite() {
        if a.scale() < b.scale() {
            lemma_scale_order(a, b);
        } else if b.scale() < a.scale() {
            lemma_scale_order(b, a);
        } else {
            lemma_pow2_pos(a.scale());
            let d = pow2(a.scale());
            assert(a.significand() <= b.significand() <==> a.significand() * d <= b.significand()
                * d) by (nonlinear_arith)
                requires
                    d > 0,
            ;
        }
    }
}

/// Quantising keeps the order of samples.
pub proof fn law_quantise_monotone(a: Sample, b: Sample)
    requires
        a.is_finite(),
        b.is_finite(),
        a.units() <= b.units(),
    ensures
        quantised(a) <= quantised(b),
{
    lemma_pow2_pos(149);
    lemma_quantised_magnitude(a);
    lemma_quantised_magnitude(b);
    if a.is_negative() == b.is_negative() {
        if a.magnitude() <= b.magnitude() {
            lemma_quantised_order(a, b);
        }
        if b.magnitude() <= a.magnitude() {
            lemma_quantised_order(b, a);
        }
    } else if b.is_negative() {
        assert(a.magnitude() == 0 && b.magnitude() == 0);
        lemma_quantised_order(a, b);
        lemma_quantised_order(b, a);
        assert(bit_len(0) == 0);
        lemma_div_basics(full_scale() as int);
    }
}

/// Absolute value of a quantised sample.
pub open spec fn quantised_magnitude(s: Sample) -> nat {
    rounded(
        (if s.magnitude() > full_scale() {
            full_scale()
        } else {
            s.magnitude()
        }) * 32767,
    ) / full_scale()
}

proof fn lemma_quantised_magnitude(s: Sample)
    requires
        s.is_finite(),
    ensures
        quantised(s) == if s.is_negative() {
            -(quantised_magnitude(s) as int)
        } else {
            quantised_magnitude(s) as int
        },
{
}

proof fn lemma_quantised_order(a: Sample, b: Sample)
    requires
        a.is_finite(),
        b.is_finite(),
        a.magnitude() <= b.magnitude(),
    ensures
        quantised_magnitude(a) <= quantised_magnitude(b),
{
    lemma_pow2_pos(149);
    let ca = if a.magnitude() > full_scale() {
        full_scale()
    } else {
        a.magnitude()
    };
    let cb = if b.magnitude() > full_scale() {
        full_scale()
    } else {
        b.magnitude()
    };
    lemma_rounded_monotone(ca * 32767, cb * 32767);
    lemma_div_is_ordered(
        rounded(ca * 32767) as int,
        rounded(cb * 32767) as int,
        full_scale() as int,
    );
}

/// At and past full scale the quantised value is the largest of its sign.
pub proof fn law_quantise_saturates(s: Sample)
    requires
        s.is_infinite() || s.is_finite() && s.magnitude() >= full_scale(),
    ensures
        quantised(s) == if s.is_negative() {
            -32767int
        } else {
            32767int
        },
{
    lemma_quantised_full_scale();
}

/// Within full scale, a sample survives quantising and dequantising to
/// within two steps of 1/32768, and only ever loses magnitude.
pub proof fn law_quantise_round_trip(s: Sample, r: Sample)
    requires
        s.is_finite(),
        s.magnitude() <= full_scale(),
        is_dequantised(quantised(s) as i16, r),
    ensures
        r.magnitude() <= s.magnitude() <= r.magnitude() + 2 * pow2(134),
        r.units() != 0 ==> r.is_negative() == s.is_negative(),
{
    let p = pow2(134);
    lemma2_to64();
    lemma_pow2_adds(15, 134);
    lemma_pow2_pos(134);
    let fs = full_scale();
    let c = s.magnitude();
    let n = c * 32767;
    let v = rounded(n) / fs;
    lemma_rounded_monotone(n, fs * 32767);
    lemma_quantised_full_scale();
    lemma_div_is_ordered(rounded(n) as int, rounded(fs * 32767) as int, fs as int);
    lemma_fundamental_div_mod(rounded(n) as int, fs as int);
    lemma_mod_bound(rounded(n) as int, fs as int);
    assert(v * fs <= rounded(n) < (v + 1) * fs) by (nonlinear_arith)
        requires
            rounded(n) == fs * v + rounded(n) % fs,
            0 <= rounded(n) % fs < fs,
    ;
    assert(r.magnitude() == v * p) by {
        assert(quantised(s) * p == v * p || quantised(s) * p == -(v * p)) by (nonlinear_arith)
            requires
                quantised(s) == v || quantised(s) == -v,
        ;
        assert(v * p >= 0) by (nonlinear_arith);
    }
    if n >= (v + 1) * fs {
        lemma_rounded_monotone((v + 1) * fs, n);
        lemma_rounded_representable((v + 1) * fs, v + 1, 149);
    }
    assert(c <= v * p + 2 * p) by (nonlinear_arith)
        requires
            c * 32767 < (v + 1) * fs,
            fs == 0x8000 * p,
            v <= 32767,
            c <= fs,
    ;
    if c < v * p {
        let y = 32767 * v;
        lemma_rounded_error(y);
        assert(n <= y * p) by (nonlinear_arith)
            requires
                n == c * 32767,
                c < v * p,
                y == 32767 * v,
        ;
        lemma_rounded_monotone(n, y * p);
        lemma_rounded_shift(y, 134);
        assert(v > 0) by (nonlinear_arith)
            requires
                c < v * p,
                c >= 0,
                p > 0,
        ;
        assert(rounded(y) < 0x8000 * v);
        assert(rounded(y) * p < v * fs) by (nonlinear_arith)
            requires
                rounded(y) < 0x8000 * v,
                fs == 0x8000 * p,
                p > 0,
        ;
    }
    if r.units() != 0 {
        assert(quantised(s) != 0) by (nonlinear_arith)
            requires
                r.units() == quantised(s) * p,
                r.units() != 0,
        ;
        assert(quantised(s) > 0 ==> quantised(s) * p > 0) by (nonlinear_arith)
            requires
                p > 0,
        ;
        assert(quantised(s) < 0 ==> quantised(s) * p < 0) by (nonlinear_arith)
            requires
                p > 0,
        ;
    }
}

/// Quantising a dequantised integer moves it one step towards zero.
pub proof fn law_requantise_steps_towards_zero(v: i16, s: Sample)
    requires
        is_dequantised(v, s),
    ensures
        quantised(s) == if v > 0 {
            v - 1
        } else if v < 0 {
            v + 1
        } else {
            0
        },
{
    let p = pow2(134);
    lemma2_to64();
    lemma_pow2_adds(15, 134);
    lemma_pow2_pos(134);
    let a: nat = if v < 0 {
        (-v) as nat
    } else {
        v as nat
    };
    assert(s.magnitude() == a * p) by (nonlinear_arith)
        requires
            s.units() == v * p,
            s.units() == (if v < 0 {
                -(s.magnitude() as int)
            } else {
                s.magnitude() as int
            }),
            a == (if v < 0 {
                -v
            } else {
                v as int
            }),
    ;
    assert(a * p <= full_scale()) by (nonlinear_arith)
        requires
            a <= 0x8000,
            full_scale() == 0x8000 * p,
    ;
    let y = 32767 * a;
    assert((a * p) * 32767 == y * p) by (nonlinear_arith)
        requires
            y == 32767 * a,
    ;
    lemma_rounded_shift(y, 134);
    lemma_rounded_error(y);
    lemma_div_multiples_vanish_quotient(p as int, rounded(y) as int, 0x8000);
    assert(rounded(y) * p == p * rounded(y)) by (nonlinear_arith);
    assert(quantised_magnitude(s) == rounded(y) / 0x8000);
    if a > 0 {
        let b = (a - 1) as nat;
        lemma_rounded_monotone(b * 0x8000, y);
        lemma_rounded_representable(b * 0x8000, b, 15);
        lemma_fundamental_div_mod_converse(
            rounded(y) as int,
            0x8000,
            b as int,
            rounded(y) - b * 0x8000,
        );
    } else {
        assert(bit_len(0) == 0);
    }
}

}
