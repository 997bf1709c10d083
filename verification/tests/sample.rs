use streaming_simulator::processor::fm_mpx::NoiseSource;
use streaming_simulator::processor::fm_radio::hard_clip_2x;
use streaming_simulator::rounding::round_significant;
use streaming_simulator::sample::{pack, silence, Sample};

fn to_sample(v: f32) -> Sample {
    Sample { bits: v.to_bits() }
}

fn to_float(v: Sample) -> f32 {
    f32::from_bits(v.bits)
}

/// A spread of bit patterns over every exponent and both signs.
fn patterns() -> Vec<u32> {
    let mut out = vec![
        0, 1, 2, 3, 0x7fffff, 0x800000, 0x800001, 0xffffff, 0x1000000, 0x3f800000, 0x3f7fffff,
        0x3f800001, 0x7f7fffff, 0x7f800000, 0x7fc00000, 0x7f800001,
    ];
    let mut x: u32 = 0x1234_5678;
    for _ in 0..3000 {
        x ^= x << 13;
        x ^= x >> 17;
        x ^= x << 5;
        out.push(x & 0x7fff_ffff);
    }
    let negative: Vec<u32> = out.iter().map(|b| b | 0x8000_0000).collect();
    out.extend(negative);
    out
}

fn same(a: f32, b: f32) -> bool {
    (a.is_nan() && b.is_nan()) || a.to_bits() == b.to_bits()
}

#[test]
fn quantise_agrees_with_native_arithmetic() {
    for bits in patterns() {
        let v = f32::from_bits(bits);
        let expected = (v.clamp(-1.0, 1.0) * 32767.0) as i16;
        assert_eq!(to_sample(v).quantise(), expected, "{bits:#x}");
    }
    for k in 0..200_000u32 {
        let v = (k as f32 / 100_000.0) - 1.0;
        let expected = (v.clamp(-1.0, 1.0) * 32767.0) as i16;
        assert_eq!(to_sample(v).quantise(), expected, "{v}");
    }
}

#[test]
fn dequantise_agrees_with_native_arithmetic() {
    for v in i16::MIN..=i16::MAX {
        assert_eq!(to_float(Sample::dequantise(v)).to_bits(), (v as f32 / 32768.0).to_bits());
    }
}

#[test]
fn sums_agree_with_native_arithmetic() {
    let all = patterns();
    for (i, &a) in all.iter().enumerate() {
        for step in [1usize, 7, 113, 997, 2311] {
            let b = all[(i * 31 + step) % all.len()];
            let (x, y) = (f32::from_bits(a), f32::from_bits(b));
            let got = to_float(to_sample(x).plus(to_sample(y)));
            assert!(same(got, x + y), "{a:#x} + {b:#x}: {got} instead of {}", x + y);
            // Neighbours in scale, where rounding and cancellation bite.
            let c = (a & 0x7fff_ffff) ^ ((b & 0x0fff_ffff) >> 4) | (b & 0x8000_0000);
            let z = f32::from_bits(c);
            let got = to_float(to_sample(x).plus(to_sample(z)));
            assert!(same(got, x + z), "{a:#x} + {c:#x}: {got} instead of {}", x + z);
        }
    }
}

#[test]
fn halves_agree_with_native_arithmetic() {
    for bits in patterns() {
        let v = f32::from_bits(bits);
        let got = to_float(to_sample(v).halve());
        assert!(same(got, v * 0.5), "{bits:#x}: {got} instead of {}", v * 0.5);
    }
}

#[test]
fn clamps_agree_with_native_arithmetic() {
    let ceiling = 0.94406f32;
    for bits in patterns() {
        let v = f32::from_bits(bits);
        let got = to_float(to_sample(v).clamp_to(to_sample(ceiling)));
        assert!(same(got, v.clamp(-ceiling, ceiling)), "{bits:#x}");
    }
}

#[test]
fn clipper_agrees_with_native_arithmetic_and_holds_its_ceiling() {
    const CEIL: f32 = 0.944_06;
    let mut prev = 0.0f32;
    for k in 0..20_000 {
        let x = (k as f32 * 0.37).sin() * 3.0;
        let mid = (prev + x) * 0.5;
        let expected = (mid.clamp(-CEIL, CEIL) + x.clamp(-CEIL, CEIL)) * 0.5;
        let got = to_float(hard_clip_2x(to_sample(prev), to_sample(x)));
        assert_eq!(got.to_bits(), expected.to_bits());
        assert!(got.abs() <= CEIL);
        prev = x;
    }
}

#[test]
fn noise_agrees_with_native_arithmetic() {
    let mut state = 0xACE1u32;
    let mut noise = NoiseSource::new();
    for _ in 0..10_000 {
        let mut x = state;
        x ^= x << 13;
        x ^= x >> 17;
        x ^= x << 5;
        state = x;
        let expected = (x as i32 as f32) / (i32::MAX as f32);
        assert_eq!(to_float(noise.rand()).to_bits(), expected.to_bits());
        assert_eq!(noise.state, state);
        assert_ne!(noise.state, 0);
    }
}

#[test]
fn rounding_keeps_24_bits_and_ties_go_to_even() {
    assert_eq!(round_significant(0x100_0001), (0x80_0000, 1));
    assert_eq!(round_significant(0x100_0003), (0x80_0002, 1));
    assert_eq!(round_significant(12345), (12345, 0));
    assert_eq!(round_significant(0), (0, 0));
    for k in 0..64u32 {
        let v = u64::MAX >> k;
        let (q, e) = round_significant(v);
        assert_eq!(q as f64 * 2f64.powi(e as i32), (v as f32) as f64);
    }
}

#[test]
fn packing_overflows_to_infinity() {
    assert_eq!(to_float(pack(false, 1, 149)), 1.0);
    assert_eq!(to_float(pack(true, 3, 148)), -1.5);
    assert_eq!(to_float(pack(false, 1, 277)), f32::INFINITY);
    assert_eq!(to_float(pack(true, 0xff_ffff, 253)), f32::MIN);
    assert_eq!(silence(), Sample { bits: 0 });
}

/// Each trip through 16 bits costs one step towards zero.
#[test]
fn requantising_steps_towards_zero() {
    for v in i16::MIN..=i16::MAX {
        let expected = v - v.signum();
        assert_eq!(Sample::dequantise(v).quantise(), expected);
    }
}

#[test]
fn quantising_keeps_order_and_saturates() {
    let mut last = -32767i16;
    for k in -2000..=2000 {
        let q = to_sample(k as f32 / 1000.0).quantise();
        assert!(q >= last);
        last = q;
    }
    assert_eq!(to_sample(f32::INFINITY).quantise(), 32767);
    assert_eq!(to_sample(f32::NEG_INFINITY).quantise(), -32767);
    assert_eq!(to_sample(f32::NAN).quantise(), 0);
}

#[test]
fn round_trip_through_16_bits_loses_two_steps_at_most() {
    for k in 0..=100_000 {
        let v = k as f32 / 100_000.0;
        let back = to_float(Sample::dequantise(to_sample(v).quantise()));
        assert!(back <= v && v - back <= 2.0 / 32768.0, "{v} -> {back}");
    }
}

/// The states that would round up to 1 give the value next below it.
#[test]
fn noise_stays_below_one() {
    let mut noise = NoiseSource { state: 0xd66c_bce7 };
    let top = to_float(noise.rand());
    assert_eq!(noise.state, 0x7fff_ffff);
    assert!(top < 1.0);
    assert_eq!(top, f32::from_bits(0x3f7f_ffff));
}
