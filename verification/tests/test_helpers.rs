//! The helpers that the audio tests drive processors with, and checks that
//! they measure what they should. The pipeline stands in at the end, so that
//! a helper's block is one that the library takes.

use std::f32::consts::PI;
use streaming_simulator::processor::pipeline::ResampledPipeline;
use streaming_simulator::sample::Sample;

/// Stereo sine block at `cursor` host-rate samples since test start.
fn sine_stereo(rate: u32, freq: f32, amp: f32, n: usize, cursor: usize) -> Vec<Vec<f32>> {
    let mut out = vec![vec![0.0f32; n]; 2];
    for s in 0..n {
        let t = (cursor + s) as f32 / rate as f32;
        let v = (2.0 * PI * freq * t).sin() * amp;
        out[0][s] = v;
        out[1][s] = v;
    }
    out
}

/// Max absolute sample across every channel.
fn peak(planar: &[Vec<f32>]) -> f32 {
    let mut p = 0.0f32;
    for ch in planar {
        for &s in ch {
            p = p.max(s.abs());
        }
    }
    p
}

/// Root-mean-square across every sample of every channel.
fn rms(planar: &[Vec<f32>]) -> f32 {
    let mut sum_sq = 0.0f64;
    let mut count = 0usize;
    for ch in planar {
        for &s in ch {
            sum_sq += (s as f64) * (s as f64);
            count += 1;
        }
    }
    if count == 0 {
        0.0
    } else {
        ((sum_sq / count as f64) as f32).sqrt()
    }
}

/// Hands a planar block to a closure as bit patterns, and takes back what it
/// left there.
fn with_buffer<R>(
    planar: &mut [Vec<f32>],
    n: usize,
    f: impl FnOnce(&mut Vec<Vec<Sample>>, usize) -> R,
) -> R {
    let mut block: Vec<Vec<Sample>> = planar
        .iter()
        .map(|ch| ch.iter().map(|v| Sample { bits: v.to_bits() }).collect())
        .collect();
    let r = f(&mut block, n);
    for (ch, out) in planar.iter_mut().zip(block.iter()) {
        for (dst, src) in ch.iter_mut().zip(out.iter()) {
            *dst = f32::from_bits(src.bits);
        }
    }
    r
}

/// Drive an in-place planar closure with a sine for `total_seconds`, return the
/// peak observed after `warmup_seconds`.
fn drive_with_sine_and_measure_planar(
    rate: u32,
    block_size: usize,
    total_seconds: f32,
    warmup_seconds: f32,
    freq: f32,
    amp: f32,
    mut process_block: impl FnMut(&mut [Vec<f32>], usize),
) -> f32 {
    let total = (rate as f32 * total_seconds) as usize;
    let warmup = (rate as f32 * warmup_seconds) as usize;
    let mut peak_observed = 0.0f32;
    let mut cursor = 0usize;
    while cursor + block_size <= total {
        let mut block = sine_stereo(rate, freq, amp, block_size, cursor);
        process_block(&mut block, block_size);
        if cursor >= warmup {
            peak_observed = peak_observed.max(peak(&block));
        }
        cursor += block_size;
    }
    peak_observed
}

#[test]
fn sine_stereo_amplitude_matches_amp() {
    // 4800 samples at 48 kHz x 1 kHz = 100 cycles: guaranteed peak.
    let block = sine_stereo(48_000, 1_000.0, 0.5, 4_800, 0);
    assert!((peak(&block) - 0.5).abs() < 1e-3);
}

#[test]
fn sine_stereo_silence_when_amp_zero() {
    let block = sine_stereo(44_100, 440.0, 0.0, 1_024, 0);
    assert_eq!(peak(&block), 0.0);
}

/// RMS of sin(t) is sqrt(1/2), about 0.707.
#[test]
fn rms_of_unit_sine_is_about_root_two_over_two() {
    let block = sine_stereo(48_000, 1_000.0, 1.0, 48_000, 0);
    let r = rms(&block);
    assert!((r - 0.7071).abs() < 0.01, "rms = {r}");
}

#[test]
fn rms_of_silence_is_zero() {
    let block = vec![vec![0.0f32; 256]; 2];
    assert_eq!(rms(&block), 0.0);
}

#[test]
fn rms_of_empty_block_is_zero() {
    let empty: Vec<Vec<f32>> = vec![];
    assert_eq!(rms(&empty), 0.0);
}

#[test]
fn peak_handles_negative_samples() {
    let block = vec![vec![-0.9, 0.1, -0.3, 0.5], vec![0.0, 0.0, 0.0, 0.0]];
    assert!((peak(&block) - 0.9).abs() < 1e-6);
}

#[test]
fn drive_with_sine_passthrough_returns_amp() {
    let measured =
        drive_with_sine_and_measure_planar(48_000, 256, 0.5, 0.05, 1_000.0, 0.4, |_block, _n| {});
    assert!((measured - 0.4).abs() < 1e-3);
}

#[test]
fn drive_with_sine_buffer_runs_closure_each_block() {
    let mut planar: Vec<Vec<f32>> = vec![vec![0.0; 4]; 2];
    with_buffer(&mut planar, 4, |buf, n| {
        assert_eq!(n, 4);
        for ch in buf.iter_mut() {
            for s in ch.iter_mut() {
                *s = Sample { bits: 0.5f32.to_bits() };
            }
        }
    });
    assert_eq!(planar[0], vec![0.5; 4]);
    assert_eq!(planar[1], vec![0.5; 4]);
}

/// The direct path of a pipeline hands a sine through at its own level.
#[test]
fn sine_survives_the_direct_path() {
    let mut pipeline = ResampledPipeline::new();
    assert!(pipeline.setup(48_000, 2, 256, 48_000, 48_000, None, None));
    let measured =
        drive_with_sine_and_measure_planar(48_000, 256, 0.5, 0.05, 1_000.0, 0.4, |block, n| {
            with_buffer(block, n, |buf, n| {
                pipeline.push_host_block(buf, n);
                assert!(pipeline.pump_host_to_internal().is_none());
                pipeline.pass_internal();
                assert!(pipeline.pump_internal_to_host().is_none());
                pipeline.drain_host_block(buf, n);
            });
        });
    assert!((measured - 0.4).abs() < 1e-3);
}
