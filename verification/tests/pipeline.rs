use audioadapter_buffers::direct::SequentialSliceOfVecs;
use rubato::{Fft, FixedSync, Resampler};
use std::collections::VecDeque;
use streaming_simulator::processor::pipeline::{
    drain_to_i16_interleaved, drain_to_planar_f32, plan_resampler, push_i16_interleaved,
    push_planar_f32, BlockAction, BlockEvent, BuiltResampler, ResampledPipeline,
    RESAMPLER_SUB_CHUNKS,
};
use streaming_simulator::sample::Sample;

fn to_sample(v: f32) -> Sample {
    Sample { bits: v.to_bits() }
}

fn to_float(v: Sample) -> f32 {
    f32::from_bits(v.bits)
}

/// A rubato resampler that takes and gives bit patterns.
struct Rig {
    fft: Fft<f32>,
    chunk: usize,
    channels: usize,
}

impl Rig {
    fn new(rate_in: u32, rate_out: u32, chunk: usize, channels: usize) -> Option<Rig> {
        let fft = Fft::<f32>::new(
            rate_in as usize,
            rate_out as usize,
            chunk,
            2,
            channels,
            FixedSync::Input,
        )
        .ok()?;
        Some(Rig { fft, chunk, channels })
    }

    /// The resampler that a pipeline asks for between two rates.
    fn between(rate_in: u32, rate_out: u32, channels: usize) -> Option<Rig> {
        let plan = plan_resampler(rate_in, rate_out, channels)?;
        Rig::new(plan.rate_in, plan.rate_out, plan.chunk, plan.channels)
    }

    fn facts(&self) -> BuiltResampler {
        BuiltResampler { output_delay: self.fft.output_delay() as u32 }
    }

    fn run(&mut self, chunk: &[Vec<Sample>]) -> (Vec<Vec<Sample>>, usize) {
        let input: Vec<Vec<f32>> =
            chunk.iter().map(|ch| ch.iter().map(|v| to_float(*v)).collect()).collect();
        let max = self.fft.output_frames_max();
        let mut output: Vec<Vec<f32>> = vec![vec![0.0; max]; self.channels];
        let produced = {
            let reader = SequentialSliceOfVecs::new(&input, self.channels, self.chunk).unwrap();
            let mut writer =
                SequentialSliceOfVecs::new_mut(&mut output, self.channels, max).unwrap();
            self.fft
                .process_into_buffer(&reader, &mut writer, None)
                .map(|(_, out)| out)
                .unwrap_or(0)
        };
        let out = output.iter().map(|ch| ch.iter().map(|v| to_sample(*v)).collect()).collect();
        (out, produced)
    }
}

fn facts(rig: &Option<Rig>) -> Option<BuiltResampler> {
    rig.as_ref().map(|r| r.facts())
}

/// A pipeline with the resamplers that it was set up around.
struct Plumbing {
    pipeline: ResampledPipeline,
    h2i: Option<Rig>,
    i2h: Option<Rig>,
}

impl Plumbing {
    fn setup(host_rate: u32, channels: usize, block: usize, encode: u32, decode: u32) -> Plumbing {
        let h2i = Rig::between(host_rate, encode, channels);
        let i2h = Rig::between(decode, host_rate, channels);
        let mut pipeline = ResampledPipeline::new();
        assert!(
            pipeline.setup(host_rate, channels, block, encode, decode, facts(&h2i), facts(&i2h)),
            "setup failed at host={host_rate} encode={encode}"
        );
        Plumbing { pipeline, h2i, i2h }
    }

    fn pump_in(&mut self) {
        while let Some(chunk) = self.pipeline.pump_host_to_internal() {
            let (out, produced) = self.h2i.as_mut().unwrap().run(&chunk);
            self.pipeline.push_resampled_input(&out, produced);
        }
    }

    fn pump_out(&mut self) {
        while let Some(chunk) = self.pipeline.pump_internal_to_host() {
            let (out, produced) = self.i2h.as_mut().unwrap().run(&chunk);
            self.pipeline.push_resampled_output(&out, produced);
        }
    }
}

fn fill_rings(samples: &[Vec<f32>]) -> Vec<VecDeque<Sample>> {
    samples.iter().map(|ch| ch.iter().map(|v| to_sample(*v)).collect()).collect()
}

fn ring_floats(ring: &VecDeque<Sample>) -> Vec<f32> {
    ring.iter().map(|v| to_float(*v)).collect()
}

fn to_block(planar: &[Vec<f32>]) -> Vec<Vec<Sample>> {
    planar.iter().map(|ch| ch.iter().map(|v| to_sample(*v)).collect()).collect()
}

fn block_floats(block: &[Vec<Sample>], ch: usize) -> Vec<f32> {
    block[ch].iter().map(|v| to_float(*v)).collect()
}

/// Stub codec that copies `internal_input` to `internal_output` 1:1.
#[test]
fn pipeline_passthrough_emits_audio_at_each_host_rate() {
    let block_size = 256usize;
    let channels = 2usize;
    let cases = [
        (44_100u32, 44_100u32),
        (44_100, 48_000),
        (48_000, 44_100),
        (96_000, 44_100),
        (192_000, 44_100),
        (32_000, 44_100),
    ];
    for &(host_rate, encode_rate) in &cases {
        let mut p = Plumbing::setup(host_rate, channels, block_size, encode_rate, encode_rate);
        p.pipeline.set_latency(host_rate / 4);
        let total_samples = (host_rate as usize) * 3;
        let mut produced_nonzero = 0usize;
        let mut produced_total = 0usize;
        let mut cursor = 0usize;
        while cursor + block_size <= total_samples {
            for s in 0..block_size {
                let t = (cursor + s) as f32 / host_rate as f32;
                let v = (2.0 * std::f32::consts::PI * 440.0 * t).sin() * 0.5;
                for ch in 0..channels {
                    p.pipeline.host_input[ch].push_back(to_sample(v));
                }
            }
            p.pump_in();
            for ch in 0..channels {
                while let Some(s) = p.pipeline.internal_input[ch].pop_front() {
                    p.pipeline.internal_output[ch].push_back(s);
                }
            }
            p.pump_out();
            for ch in 0..channels {
                for _ in 0..block_size {
                    let v = p.pipeline.host_output[ch].pop_front().map(to_float).unwrap_or(0.0);
                    produced_total += 1;
                    if v.abs() > 1e-4 {
                        produced_nonzero += 1;
                    }
                }
            }
            cursor += block_size;
        }
        let nonzero_pct = 100.0 * produced_nonzero as f64 / produced_total.max(1) as f64;
        assert!(produced_nonzero > 0, "host={host_rate} encode={encode_rate}: all silence");
        // 3 s of sine vs ~250 ms preroll: well over half nonzero.
        assert!(
            nonzero_pct > 50.0,
            "host={host_rate} encode={encode_rate} produced only {nonzero_pct:.1}% nonzero output"
        );
    }
}

#[test]
fn drain_to_i16_interleaved_quantises_correctly() {
    let mut rings = fill_rings(&[vec![-1.0, 0.0, 1.0], vec![-1.0, 0.0, 1.0]]);
    let mut out = vec![0i16; 3 * 2];
    drain_to_i16_interleaved(&mut rings, 3, &mut out);
    assert_eq!(out[0], -32767);
    assert_eq!(out[1], -32767);
    assert_eq!(out[2], 0);
    assert_eq!(out[3], 0);
    assert_eq!(out[4], 32767);
    assert_eq!(out[5], 32767);
    assert!(rings.iter().all(|r| r.is_empty()));
}

#[test]
fn drain_to_i16_interleaved_clamps_out_of_range() {
    let mut rings = fill_rings(&[vec![-2.5, 5.0], vec![-2.5, 5.0]]);
    let mut out = vec![0i16; 4];
    drain_to_i16_interleaved(&mut rings, 2, &mut out);
    assert_eq!(out[0], -32767);
    assert_eq!(out[1], -32767);
    assert_eq!(out[2], 32767);
    assert_eq!(out[3], 32767);
}

#[test]
fn drain_to_i16_interleaved_underflow_pads_zeros() {
    let mut rings = fill_rings(&[vec![1.0, -1.0], vec![1.0, -1.0]]);
    let mut out = vec![123i16; 4 * 2];
    drain_to_i16_interleaved(&mut rings, 4, &mut out);
    assert_eq!(out[0], 32767);
    assert_eq!(out[1], 32767);
    assert_eq!(out[2], -32767);
    assert_eq!(out[3], -32767);
    assert_eq!(out[4], 0);
    assert_eq!(out[5], 0);
    assert_eq!(out[6], 0);
    assert_eq!(out[7], 0);
}

#[test]
fn push_i16_interleaved_dequantises_correctly() {
    let src: Vec<i16> = vec![-32768, -32768, 0, 0, 32767, 32767];
    let mut rings: Vec<VecDeque<Sample>> = (0..2).map(|_| VecDeque::new()).collect();
    push_i16_interleaved(&src, 3, 2, &mut rings);
    let (l, r) = (ring_floats(&rings[0]), ring_floats(&rings[1]));
    assert!((l[0] - -1.0).abs() < 1e-6);
    assert!((r[0] - -1.0).abs() < 1e-6);
    assert!(l[1].abs() < 1e-6);
    assert!(r[1].abs() < 1e-6);
    assert!(l[2] > 0.99 && l[2] < 1.0);
}

/// To i16 and back should be lossless within ~1 LSB.
#[test]
fn i16_roundtrip_preserves_samples_modulo_quantisation() {
    let original: Vec<Vec<f32>> =
        vec![vec![0.0, 0.5, -0.5, 0.25, -0.25], vec![0.0, -0.5, 0.5, -0.25, 0.25]];
    let mut rings = fill_rings(&original);
    let n = original[0].len();
    let mut interleaved = vec![0i16; n * 2];
    drain_to_i16_interleaved(&mut rings, n, &mut interleaved);
    let mut roundtripped: Vec<VecDeque<Sample>> = (0..2).map(|_| VecDeque::new()).collect();
    push_i16_interleaved(&interleaved, n, 2, &mut roundtripped);
    for ch in 0..2 {
        let back = ring_floats(&roundtripped[ch]);
        for s in 0..n {
            assert!(
                (original[ch][s] - back[s]).abs() < 1.0 / 32767.0 + 1e-6,
                "ch{ch}[{s}] {} -> {}",
                original[ch][s],
                back[s]
            );
        }
    }
}

#[test]
fn drain_to_planar_f32_copies_then_drains() {
    let mut rings = fill_rings(&[vec![1.0, 2.0, 3.0], vec![4.0, 5.0, 6.0]]);
    let mut dest = to_block(&[vec![0.0; 3], vec![0.0; 3]]);
    drain_to_planar_f32(&mut rings, 3, &mut dest);
    assert_eq!(block_floats(&dest, 0), vec![1.0, 2.0, 3.0]);
    assert_eq!(block_floats(&dest, 1), vec![4.0, 5.0, 6.0]);
    assert!(rings.iter().all(|r| r.is_empty()));
}

#[test]
fn drain_to_planar_f32_underflow_pads_zeros() {
    let mut rings = fill_rings(&[vec![1.0, 2.0], vec![4.0, 5.0]]);
    let mut dest = to_block(&[vec![99.0; 4], vec![99.0; 4]]);
    drain_to_planar_f32(&mut rings, 4, &mut dest);
    assert_eq!(block_floats(&dest, 0), vec![1.0, 2.0, 0.0, 0.0]);
    assert_eq!(block_floats(&dest, 1), vec![4.0, 5.0, 0.0, 0.0]);
}

#[test]
fn push_planar_f32_appends_in_order() {
    let mut rings: Vec<VecDeque<Sample>> = (0..2).map(|_| VecDeque::new()).collect();
    push_planar_f32(&to_block(&[vec![1.0, 2.0, 3.0], vec![4.0, 5.0, 6.0]]), &mut rings);
    assert_eq!(ring_floats(&rings[0]), vec![1.0, 2.0, 3.0]);
    assert_eq!(ring_floats(&rings[1]), vec![4.0, 5.0, 6.0]);
}

#[test]
fn set_latency_pre_fills_host_output_with_silence() {
    let mut p = Plumbing::setup(48_000, 2, 256, 48_000, 48_000).pipeline;
    p.set_latency(1_024);
    assert_eq!(p.latency_host_samples, 1_024);
    for ch in 0..2 {
        assert_eq!(p.host_output[ch].len(), 1_024);
        assert!(p.host_output[ch].iter().all(|&s| to_float(s) == 0.0));
    }
}

#[test]
fn pad_output_to_grows_only_when_target_is_larger() {
    let mut p = Plumbing::setup(48_000, 2, 256, 48_000, 48_000).pipeline;
    p.set_latency(512);
    assert_eq!(p.host_output[0].len(), 512);
    p.pad_output_to(256);
    assert_eq!(p.host_output[0].len(), 512);
    assert_eq!(p.latency_host_samples, 512);
    p.pad_output_to(512);
    assert_eq!(p.host_output[0].len(), 512);
    p.pad_output_to(2_048);
    assert_eq!(p.host_output[0].len(), 2_048);
    assert_eq!(p.latency_host_samples, 2_048);
}

#[test]
fn reset_restores_prefill_and_clears_other_rings() {
    let mut p = Plumbing::setup(48_000, 2, 256, 48_000, 48_000).pipeline;
    p.set_latency(256);
    for ch in 0..2 {
        for _ in 0..32 {
            p.host_input[ch].push_back(to_sample(0.5));
            p.internal_input[ch].push_back(to_sample(0.5));
            p.internal_output[ch].push_back(to_sample(0.5));
            p.host_output[ch].push_back(to_sample(0.5));
        }
    }
    p.reset();
    for ch in 0..2 {
        assert!(p.host_input[ch].is_empty());
        assert!(p.internal_input[ch].is_empty());
        assert!(p.internal_output[ch].is_empty());
        assert_eq!(p.host_output[ch].len(), 256);
        assert!(p.host_output[ch].iter().all(|&s| to_float(s) == 0.0));
    }
}

#[test]
fn estimate_latency_is_positive_for_real_codec_combinations() {
    for &(host, encode, decode, codec_budget) in &[
        (44_100u32, 48_000u32, 48_000u32, 960u32 * 4),
        (48_000, 44_100, 44_100, 1024 * 4),
        (96_000, 44_100, 22_050, 1152 * 4),
        (44_100, 44_100, 44_100, 1024 * 4),
    ] {
        let h2i = facts(&Rig::between(host, encode, 2));
        let i2h = facts(&Rig::between(decode, host, 2));
        let lat =
            ResampledPipeline::estimate_latency(host, 2, encode, decode, codec_budget, h2i, i2h);
        assert!(lat > 0, "estimate_latency host={host} encode={encode} decode={decode} gave 0");
    }
}

#[test]
fn h2i_and_i2h_latency_pairs_are_zero_when_rates_match() {
    let p = Plumbing::setup(48_000, 2, 256, 48_000, 48_000).pipeline;
    assert_eq!(p.h2i_latency_pair(), (0, 0));
    assert_eq!(p.i2h_latency_pair(), (0, 0));
}

#[test]
fn h2i_and_i2h_latency_pairs_are_nonzero_when_rates_differ() {
    let p = Plumbing::setup(48_000, 2, 256, 44_100, 44_100).pipeline;
    let (chunk, delay) = p.h2i_latency_pair();
    assert!(chunk > 0 && delay > 0, "h2i: chunk={chunk} delay={delay}");
    let (chunk, delay) = p.i2h_latency_pair();
    assert!(chunk > 0 && delay > 0, "i2h: chunk={chunk} delay={delay}");
}

#[test]
fn pumps_are_no_ops_when_not_ready() {
    let mut p = ResampledPipeline::new();
    assert!(p.pump_host_to_internal().is_none());
    assert!(p.pump_internal_to_host().is_none());
    assert!(p.host_input.is_empty());
    assert!(p.internal_input.is_empty());
    assert!(p.internal_output.is_empty());
    assert!(p.host_output.is_empty());
}

#[test]
fn drain_host_block_writes_silence_when_not_ready() {
    let mut p = ResampledPipeline::new();
    let mut block = to_block(&[vec![0.5; 4], vec![0.5; 4]]);
    p.drain_host_block(&mut block, 4);
    assert_eq!(block_floats(&block, 0), vec![0.0; 4]);
    assert_eq!(block_floats(&block, 1), vec![0.0; 4]);
}

/// MP3 auto-downsample case: encode 44.1 kHz, decode 24 kHz.
#[test]
fn pipeline_handles_mismatched_decode_rate() {
    let mut p = Plumbing::setup(96_000, 2, 256, 44_100, 24_000);
    p.pipeline.set_latency(48_000);
    for _ in 0..100 {
        for ch in 0..2 {
            for _ in 0..256 {
                p.pipeline.host_input[ch].push_back(to_sample(0.5));
            }
        }
        p.pump_in();
        for ch in 0..2 {
            while let Some(s) = p.pipeline.internal_input[ch].pop_front() {
                p.pipeline.internal_output[ch].push_back(s);
            }
        }
        p.pump_out();
    }
    let total: usize = p.pipeline.host_output.iter().map(|r| r.len()).sum();
    assert!(
        total > p.pipeline.latency_host_samples as usize,
        "no output beyond preroll: total={total}, prefill={}",
        p.pipeline.latency_host_samples
    );
}

#[test]
fn plans_name_the_chunk_and_nothing_for_equal_rates() {
    assert!(plan_resampler(44_100, 44_100, 2).is_none());
    let plan = plan_resampler(48_000, 44_100, 2).unwrap();
    assert_eq!(plan.rate_in, 48_000);
    assert_eq!(plan.rate_out, 44_100);
    assert_eq!(plan.chunk, 960);
    assert_eq!(plan.sub_chunks, RESAMPLER_SUB_CHUNKS);
    assert_eq!(plan.channels, 2);
}

#[test]
fn setup_fails_without_a_resampler_that_is_needed() {
    let built = Some(BuiltResampler { output_delay: 100 });
    let mut p = ResampledPipeline::new();
    assert!(!p.setup(48_000, 2, 256, 44_100, 44_100, None, built));
    assert!(!p.ready);
    assert!(!p.setup(48_000, 2, 256, 44_100, 44_100, built, None));
    assert!(!p.ready);
    assert!(p.setup(48_000, 2, 256, 44_100, 44_100, built, built));
    assert!(p.ready);
    assert_eq!(p.h2i_chunk, 960);
    assert_eq!(p.i2h_chunk, 882);
}

/// 960 + (300 + 4096) * 48000 / 44100 + 882 * 48000 / 44100 + 200.
#[test]
fn estimate_is_the_sum_of_its_parts() {
    let h2i = Some(BuiltResampler { output_delay: 300 });
    let i2h = Some(BuiltResampler { output_delay: 200 });
    let l = ResampledPipeline::estimate_latency(48_000, 2, 44_100, 44_100, 4096, h2i, i2h);
    assert_eq!(l, 960 + 4784 + 960 + 200);
    let none = ResampledPipeline::estimate_latency(48_000, 2, 44_100, 44_100, 4096, None, i2h);
    assert_eq!(none, 0);
    let direct = ResampledPipeline::estimate_latency(44_100, 2, 44_100, 44_100, 4096, None, None);
    assert_eq!(direct, 4096);
}

/// On the direct path, block after block, the output is the input behind the
/// pre-filled silence.
#[test]
fn direct_path_is_a_plain_delay() {
    let mut p = Plumbing::setup(44_100, 1, 8, 44_100, 44_100).pipeline;
    p.set_latency(5);
    let mut heard: Vec<f32> = Vec::new();
    for k in 0..4 {
        let input: Vec<f32> = (0..4).map(|i| (k * 4 + i + 1) as f32).collect();
        let mut block = to_block(&[input]);
        assert!(p.take_event(&block, 4, &BlockEvent::Start));
        assert!(p.pump_host_to_internal().is_none());
        p.pass_internal();
        assert!(matches!(p.finish_block(&mut block, 4), BlockAction::Done));
        heard.extend(block_floats(&block, 0));
    }
    let mut expected = vec![0.0; 5];
    expected.extend((1..=11).map(|v| v as f32));
    assert_eq!(heard, expected);
}

#[test]
fn padding_twice_is_padding_to_the_larger() {
    let mut once = Plumbing::setup(44_100, 2, 8, 44_100, 44_100).pipeline;
    let mut twice = Plumbing::setup(44_100, 2, 8, 44_100, 44_100).pipeline;
    once.set_latency(10);
    twice.set_latency(10);
    once.pad_output_to(30);
    twice.pad_output_to(30);
    twice.pad_output_to(20);
    assert_eq!(once.latency_host_samples, twice.latency_host_samples);
    assert_eq!(once.host_output[1].len(), twice.host_output[1].len());
}

#[test]
fn mute_replaces_the_input_by_as_much_silence() {
    let mut p = Plumbing::setup(44_100, 2, 8, 44_100, 44_100).pipeline;
    p.internal_input[0].extend(fill_rings(&[vec![1.0, 2.0, 3.0]])[0].iter().copied());
    p.mute_internal();
    assert!(p.internal_input[0].is_empty());
    assert_eq!(ring_floats(&p.internal_output[0]), vec![0.0; 3]);
    assert!(p.internal_output[1].is_empty());
}

/// A chunk is handed out only once it is complete, and oldest samples first.
#[test]
fn resampled_pump_hands_out_full_chunks_in_order() {
    let built = Some(BuiltResampler { output_delay: 1 });
    let mut p = ResampledPipeline::new();
    assert!(p.setup(100, 1, 8, 200, 200, built, built));
    assert_eq!(p.h2i_chunk, 2);
    assert_eq!(p.i2h_chunk, 4);
    p.push_host_block(&to_block(&[vec![1.0, 2.0, 3.0]]), 3);
    let first = p.pump_host_to_internal().unwrap();
    assert_eq!(block_floats(&first, 0), vec![1.0, 2.0]);
    assert!(p.pump_host_to_internal().is_none());
    p.push_resampled_input(&to_block(&[vec![7.0, 8.0, 9.0]]), 2);
    assert_eq!(ring_floats(&p.internal_input[0]), vec![7.0, 8.0]);
    assert!(p.pump_internal_to_host().is_none());
}
