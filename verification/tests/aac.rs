use audioadapter_buffers::direct::SequentialSliceOfVecs;
use rubato::{Fft, FixedSync, Resampler};
use std::collections::VecDeque;
use streaming_simulator::processor::aac::{AacMode, AacProcessor};
use streaming_simulator::processor::bluetooth::AacBtCodec;
use streaming_simulator::processor::fdk::{AacProfile, ChannelLayout, EncodeStep};
use streaming_simulator::processor::fdk_chain::{
    accept_frame, after_encode, stage_mono_frame, EncodeDecision, FdkCodec, FdkFamily,
};
use streaming_simulator::processor::frames::DecodedFrame;
use streaming_simulator::processor::heaac::{HeAacV1Mode, HeAacV1Processor};
use streaming_simulator::processor::heaacv2::{HeAacV2Mode, HeAacV2Processor};
use streaming_simulator::processor::pipeline::{
    plan_resampler, BlockAction, BlockEvent, BuiltResampler,
};
use streaming_simulator::sample::Sample;

fn to_sample(v: f32) -> Sample {
    Sample { bits: v.to_bits() }
}

fn to_float(v: Sample) -> f32 {
    f32::from_bits(v.bits)
}

/// A rubato resampler that takes and gives bit patterns.
struct Rig {
    fft: Fft<f32>,
    chunk: usize,
    channels: usize,
}

impl Rig {
    fn new(rate_in: u32, rate_out: u32, chunk: usize, channels: usize) -> Option<Rig> {
        let fft = Fft::<f32>::new(
            rate_in as usize,
            rate_out as usize,
            chunk,
            2,
            channels,
            FixedSync::Input,
        )
        .ok()?;
        Some(Rig { fft, chunk, channels })
    }

    /// The resampler that a pipeline asks for between two rates.
    fn between(rate_in: u32, rate_out: u32, channels: usize) -> Option<Rig> {
        let plan = plan_resampler(rate_in, rate_out, channels)?;
        Rig::new(plan.rate_in, plan.rate_out, plan.chunk, plan.channels)
    }

    fn facts(&self) -> BuiltResampler {
        BuiltResampler { output_delay: self.fft.output_delay() as u32 }
    }

    fn run(&mut self, chunk: &[Vec<Sample>]) -> (Vec<Vec<Sample>>, usize) {
        let input: Vec<Vec<f32>> =
            chunk.iter().map(|ch| ch.iter().map(|v| to_float(*v)).collect()).collect();
        let max = self.fft.output_frames_max();
        let mut output: Vec<Vec<f32>> = vec![vec![0.0; max]; self.channels];
        let produced = {
            let reader = SequentialSliceOfVecs::new(&input, self.channels, self.chunk).unwrap();
            let mut writer =
                SequentialSliceOfVecs::new_mut(&mut output, self.channels, max).unwrap();
            self.fft
                .process_into_buffer(&reader, &mut writer, None)
                .map(|(_, out)| out)
                .unwrap_or(0)
        };
        let out = output.iter().map(|ch| ch.iter().map(|v| to_sample(*v)).collect()).collect();
        (out, produced)
    }
}

fn facts(rig: &Option<Rig>) -> Option<BuiltResampler> {
    rig.as_ref().map(|r| r.facts())
}

fn to_block(planar: &[Vec<f32>]) -> Vec<Vec<Sample>> {
    planar.iter().map(|ch| ch.iter().map(|v| to_sample(*v)).collect()).collect()
}

fn peak(planar: &[Vec<Sample>]) -> f32 {
    planar.iter().flatten().fold(0.0f32, |p, v| p.max(to_float(*v).abs()))
}

/// Drives a closure with a stereo sine, block by block, and gives the peak of
/// what it leaves in the blocks after the warm-up.
fn drive_with_sine(
    rate: u32,
    block_size: usize,
    total_seconds: f32,
    warmup_seconds: f32,
    freq: f32,
    amp: f32,
    mut process_block: impl FnMut(&mut Vec<Vec<Sample>>, usize),
) -> f32 {
    let total = (rate as f32 * total_seconds) as usize;
    let warmup = (rate as f32 * warmup_seconds) as usize;
    let mut observed = 0.0f32;
    let mut cursor = 0usize;
    while cursor + block_size <= total {
        let mut channel: Vec<Sample> = Vec::with_capacity(block_size);
        for s in 0..block_size {
            let t = (cursor + s) as f32 / rate as f32;
            channel.push(to_sample((2.0 * std::f32::consts::PI * freq * t).sin() * amp));
        }
        let mut block = vec![channel.clone(), channel];
        process_block(&mut block, block_size);
        if cursor >= warmup {
            observed = observed.max(peak(&block));
        }
        cursor += block_size;
    }
    observed
}

/// A chain with the resamplers that it was set up around.
struct Chain<P> {
    proc: P,
    h2i: Option<Rig>,
    i2h: Option<Rig>,
}

impl<P> Chain<P> {
    fn around(proc: P, host_rate: u32, channels: usize) -> Chain<P> {
        Chain {
            proc,
            h2i: Rig::between(host_rate, 44_100, channels),
            i2h: Rig::between(44_100, host_rate, channels),
        }
    }

    /// Runs a block to its end, resampling what is handed out.
    fn run(
        &mut self,
        block: &mut Vec<Vec<Sample>>,
        mut step: impl FnMut(&mut P, &mut Vec<Vec<Sample>>, BlockEvent) -> BlockAction,
    ) {
        let mut event = BlockEvent::Start;
        loop {
            match step(&mut self.proc, block, event) {
                BlockAction::Done => return,
                BlockAction::ResampleInput(chunk) => {
                    let (out, produced) = self.h2i.as_mut().unwrap().run(&chunk);
                    event = BlockEvent::InputResampled { out, produced };
                }
                BlockAction::ResampleOutput(chunk) => {
                    let (out, produced) = self.i2h.as_mut().unwrap().run(&chunk);
                    event = BlockEvent::OutputResampled { out, produced };
                }
            }
        }
    }
}

fn aac_at(host_rate: u32, channels: usize, block_size: usize) -> Chain<AacProcessor> {
    let mut chain = Chain::around(AacProcessor::new(), host_rate, channels.clamp(1, 2));
    let (h2i, i2h) = (facts(&chain.h2i), facts(&chain.i2h));
    chain.proc.initialize(host_rate, channels, block_size, h2i, i2h);
    chain
}

fn aac_block(chain: &mut Chain<AacProcessor>, block: &mut Vec<Vec<Sample>>, n: usize, mode: AacMode) {
    chain.run(block, |p, b, e| p.process(b, n, e, mode));
}

fn heaac_at(host_rate: u32, channels: usize, block_size: usize) -> Chain<HeAacV1Processor> {
    let mut chain = Chain::around(HeAacV1Processor::new(), host_rate, channels.clamp(1, 2));
    let (h2i, i2h) = (facts(&chain.h2i), facts(&chain.i2h));
    chain.proc.initialize(host_rate, channels, block_size, h2i, i2h);
    chain
}

fn heaac_block(chain: &mut Chain<HeAacV1Processor>, block: &mut Vec<Vec<Sample>>, n: usize, mode: HeAacV1Mode) {
    chain.run(block, |p, b, e| p.process(b, n, e, mode));
}

fn heaacv2_at(host_rate: u32, channels: usize, block_size: usize) -> Chain<HeAacV2Processor> {
    let mut chain = Chain::around(HeAacV2Processor::new(), host_rate, channels.clamp(1, 2));
    let (h2i, i2h) = (facts(&chain.h2i), facts(&chain.i2h));
    chain.proc.initialize(host_rate, channels, block_size, h2i, i2h);
    chain
}

fn heaacv2_block(chain: &mut Chain<HeAacV2Processor>, block: &mut Vec<Vec<Sample>>, n: usize, mode: HeAacV2Mode) {
    chain.run(block, |p, b, e| p.process(b, n, e, mode));
}

fn run_aac_smoke_test(host_rate: u32, bitrate_kbps: u32, mono: bool) {
    let block_size = 256;
    let mut chain = aac_at(host_rate, 2, block_size);
    assert!(chain.proc.chain.pipeline.ready, "initialize failed for host_rate={host_rate} Hz");
    let peak = drive_with_sine(host_rate, block_size, 3.0, 0.5, 440.0, 0.5, |b, n| {
        aac_block(&mut chain, b, n, AacMode::AacLc { bitrate_kbps, mono });
    });
    assert!(
        peak > 0.05,
        "AAC at {host_rate} Hz / {bitrate_kbps} kbps / mono={mono}: peak {peak:.3} below threshold"
    );
}

#[test]
fn stereo_emits_audio_at_every_host_rate_and_bitrate() {
    for &host_rate in &[44_100u32, 48_000, 88_200, 96_000] {
        for &bitrate_kbps in &[48u32, 128, 256, 320] {
            run_aac_smoke_test(host_rate, bitrate_kbps, false);
        }
    }
}

/// Stereo -> mono sum -> 1-channel encode -> duplicate back to L=R.
#[test]
fn mono_emits_audio_at_every_host_rate_and_bitrate() {
    for &host_rate in &[44_100u32, 48_000, 88_200, 96_000] {
        for &bitrate_kbps in &[48u32, 64, 128] {
            run_aac_smoke_test(host_rate, bitrate_kbps, true);
        }
    }
}

#[test]
fn aac_passthrough_mode_emits_audio() {
    let mut chain = aac_at(48_000, 2, 256);
    let peak = drive_with_sine(48_000, 256, 1.0, 0.25, 440.0, 0.5, |b, n| {
        aac_block(&mut chain, b, n, AacMode::Passthrough)
    });
    assert!(peak > 0.05, "passthrough silent: {peak:.3}");
}

#[test]
fn aac_reset_clears_state_safely() {
    let mut chain = aac_at(48_000, 2, 256);
    for _ in 0..4 {
        let mut block = to_block(&vec![vec![0.3; 256]; 2]);
        aac_block(&mut chain, &mut block, 256, AacMode::AacLc { bitrate_kbps: 128, mono: false });
    }
    chain.proc.reset();
    assert!(chain.proc.chain.pipeline.ready);
    assert!(chain.proc.chain.codec.is_none());
    assert_eq!(chain.proc.chain.current_bitrate_kbps, -1);
}

#[test]
fn aac_pad_output_to_grows_latency() {
    let mut chain = aac_at(48_000, 2, 256);
    let before = chain.proc.latency_samples();
    chain.proc.pad_output_to(before + 1_000);
    assert_eq!(chain.proc.latency_samples(), before + 1_000);
}

#[test]
fn aac_worst_case_latency_at_is_positive_for_every_supported_rate() {
    for &rate in &[44_100u32, 48_000, 88_200, 96_000] {
        let h2i = facts(&Rig::between(rate, 44_100, 2));
        let i2h = facts(&Rig::between(44_100, rate, 2));
        let l = AacProcessor::worst_case_latency_at(rate, 2, h2i, i2h);
        assert!(l > 0, "worst_case_latency_at({rate}) returned 0");
        assert_eq!(l, aac_at(rate, 2, 256).proc.latency_samples());
    }
}

#[test]
fn aac_default_constructor_yields_unready_processor() {
    let proc = AacProcessor::default();
    assert!(!proc.chain.pipeline.ready);
}

#[test]
fn aac_initialize_with_unsupported_channel_count_marks_not_ready() {
    let chain = aac_at(48_000, 7, 256);
    assert!(!chain.proc.chain.pipeline.ready);
}

#[test]
fn heaacv2_passthrough_mode_emits_audio() {
    let mut chain = heaacv2_at(48_000, 2, 256);
    let peak = drive_with_sine(48_000, 256, 1.0, 0.25, 440.0, 0.5, |b, n| {
        heaacv2_block(&mut chain, b, n, HeAacV2Mode::Passthrough)
    });
    assert!(peak > 0.05, "passthrough silent: {peak:.3}");
}

#[test]
fn heaacv2_reset_clears_state_safely() {
    let mut chain = heaacv2_at(48_000, 2, 256);
    for _ in 0..4 {
        let mut block = to_block(&vec![vec![0.3; 256]; 2]);
        heaacv2_block(&mut chain, &mut block, 256, HeAacV2Mode::HeAacV2 { bitrate_kbps: 24 });
    }
    chain.proc.reset();
    assert!(chain.proc.chain.pipeline.ready);
    assert!(chain.proc.chain.codec.is_none());
    assert_eq!(chain.proc.chain.current_bitrate_kbps, -1);
}

#[test]
fn heaacv2_pad_output_to_grows_latency() {
    let mut chain = heaacv2_at(48_000, 2, 256);
    let before = chain.proc.latency_samples();
    chain.proc.pad_output_to(before + 1_000);
    assert_eq!(chain.proc.latency_samples(), before + 1_000);
}

#[test]
fn heaacv2_worst_case_latency_at_is_positive_for_every_supported_rate() {
    for &rate in &[44_100u32, 48_000, 88_200, 96_000] {
        let h2i = facts(&Rig::between(rate, 44_100, 2));
        let i2h = facts(&Rig::between(44_100, rate, 2));
        let l = HeAacV2Processor::worst_case_latency_at(rate, 2, h2i, i2h);
        assert!(l > 0, "worst_case_latency_at({rate}) returned 0");
        assert_eq!(l, heaacv2_at(rate, 2, 256).proc.latency_samples());
    }
}

#[test]
fn heaacv2_default_constructor_yields_unready_processor() {
    let proc = HeAacV2Processor::default();
    assert!(!proc.chain.pipeline.ready);
}

#[test]
fn heaacv2_initialize_with_unsupported_channel_count_marks_not_ready() {
    let chain = heaacv2_at(48_000, 7, 256);
    assert!(!chain.proc.chain.pipeline.ready);
}

#[test]
fn heaac_passthrough_mode_emits_audio() {
    let mut chain = heaac_at(48_000, 2, 256);
    let peak = drive_with_sine(48_000, 256, 1.0, 0.25, 440.0, 0.5, |b, n| {
        heaac_block(&mut chain, b, n, HeAacV1Mode::Passthrough)
    });
    assert!(peak > 0.05, "passthrough silent: {peak:.3}");
}

#[test]
fn heaac_reset_clears_state_safely() {
    let mut chain = heaac_at(48_000, 2, 256);
    for _ in 0..4 {
        let mut block = to_block(&vec![vec![0.3; 256]; 2]);
        heaac_block(&mut chain, &mut block, 256, HeAacV1Mode::HeAacV1 { bitrate_kbps: 64 });
    }
    chain.proc.reset();
    assert!(chain.proc.chain.pipeline.ready);
    assert!(chain.proc.chain.codec.is_none());
    assert_eq!(chain.proc.chain.current_bitrate_kbps, -1);
}

#[test]
fn heaac_pad_output_to_grows_latency() {
    let mut chain = heaac_at(48_000, 2, 256);
    let before = chain.proc.latency_samples();
    chain.proc.pad_output_to(before + 1_000);
    assert_eq!(chain.proc.latency_samples(), before + 1_000);
}

#[test]
fn heaac_worst_case_latency_at_is_positive_for_every_supported_rate() {
    for &rate in &[44_100u32, 48_000, 88_200, 96_000] {
        let h2i = facts(&Rig::between(rate, 44_100, 2));
        let i2h = facts(&Rig::between(44_100, rate, 2));
        let l = HeAacV1Processor::worst_case_latency_at(rate, 2, h2i, i2h);
        assert!(l > 0, "worst_case_latency_at({rate}) returned 0");
        assert_eq!(l, heaac_at(rate, 2, 256).proc.latency_samples());
    }
}

#[test]
fn heaac_default_constructor_yields_unready_processor() {
    let proc = HeAacV1Processor::default();
    assert!(!proc.chain.pipeline.ready);
}

#[test]
fn heaac_initialize_with_unsupported_channel_count_marks_not_ready() {
    let chain = heaac_at(48_000, 7, 256);
    assert!(!chain.proc.chain.pipeline.ready);
}

#[test]
fn aac_bitrate_change_rebuilds_codec_without_panic() {
    let mut chain = aac_at(48_000, 2, 256);
    for kbps in [128u32, 256, 64, 256] {
        let mut block = to_block(&vec![vec![0.3; 256]; 2]);
        aac_block(&mut chain, &mut block, 256, AacMode::AacLc { bitrate_kbps: kbps, mono: false });
        assert_eq!(chain.proc.chain.current_bitrate_kbps, kbps as i32);
    }
}

#[test]
fn mono_to_stereo_transition_rebuilds_codec() {
    let mut chain = aac_at(48_000, 2, 256);
    for mono in [false, true, false] {
        let mut block = to_block(&vec![vec![0.3; 256]; 2]);
        aac_block(&mut chain, &mut block, 256, AacMode::AacLc { bitrate_kbps: 128, mono });
        assert_eq!(chain.proc.chain.current_mono, mono);
        assert!(chain.proc.chain.codec.is_some());
    }
}

#[test]
fn heaacv2_emits_audio_at_every_host_rate_and_bitrate() {
    for &host_rate in &[44_100u32, 48_000, 88_200, 96_000] {
        for &bitrate_kbps in &[24u32] {
            let block_size = 256;
            let mut chain = heaacv2_at(host_rate, 2, block_size);
            assert!(chain.proc.chain.pipeline.ready, "initialize failed at {host_rate} Hz");
            let peak = drive_with_sine(host_rate, block_size, 5.0, 1.0, 440.0, 0.5, |b, n| {
                heaacv2_block(&mut chain, b, n, HeAacV2Mode::HeAacV2 { bitrate_kbps });
            });
            assert!(
                peak > 0.05,
                "HE-AAC v2 at {host_rate} Hz / {bitrate_kbps} kbps: peak {peak:.3} too low"
            );
        }
    }
}

#[test]
fn heaacv2_bitrate_change_rebuilds_codec_without_panic() {
    let mut chain = heaacv2_at(48_000, 2, 256);
    for kbps in [16u32, 24, 32, 24] {
        let mut block = to_block(&vec![vec![0.3; 256]; 2]);
        heaacv2_block(&mut chain, &mut block, 256, HeAacV2Mode::HeAacV2 { bitrate_kbps: kbps });
    }
}

#[test]
fn heaac_emits_audio_at_every_host_rate() {
    for &host_rate in &[44_100u32, 48_000] {
        let mut chain = heaac_at(host_rate, 2, 256);
        let peak = drive_with_sine(host_rate, 256, 2.0, 0.5, 440.0, 0.5, |b, n| {
            heaac_block(&mut chain, b, n, HeAacV1Mode::HeAacV1 { bitrate_kbps: 64 });
        });
        assert!(peak > 0.05, "HE-AAC v1 at {host_rate} Hz: peak {peak:.3} too low");
    }
}

/// Mono AAC plays the same on both channels.
#[test]
fn mono_mode_gives_equal_channels() {
    let mut chain = aac_at(44_100, 2, 256);
    let mut seen = 0usize;
    for k in 0..60usize {
        let l: Vec<f32> = (0..256).map(|s| ((k * 256 + s) as f32 * 0.05).sin() * 0.6).collect();
        let r: Vec<f32> = (0..256).map(|s| ((k * 256 + s) as f32 * 0.11).sin() * 0.2).collect();
        let mut block = to_block(&[l, r]);
        aac_block(&mut chain, &mut block, 256, AacMode::AacLc { bitrate_kbps: 96, mono: true });
        assert_eq!(block[0], block[1]);
        seen += block[0].iter().filter(|v| to_float(**v).abs() > 0.01).count();
    }
    assert!(seen > 1000);
}

/// Without a codec for the bitrate as much silence comes out as went in.
#[test]
fn a_refused_bitrate_gives_silence() {
    let mut chain = aac_at(44_100, 2, 256);
    for _ in 0..40 {
        let mut block = to_block(&vec![vec![0.3; 256]; 2]);
        let mode = AacMode::AacLc { bitrate_kbps: 4_000_000, mono: false };
        aac_block(&mut chain, &mut block, 256, mode);
        assert_eq!(peak(&block), 0.0);
    }
    if chain.proc.chain.codec.is_none() {
        assert_eq!(chain.proc.chain.current_bitrate_kbps, -1);
    }
}

#[test]
fn aac_passthrough_is_a_plain_delay_at_the_internal_rate() {
    let mut chain = aac_at(44_100, 2, 64);
    let latency = chain.proc.latency_samples() as usize;
    assert_eq!(latency, 4096);
    let mut heard: Vec<f32> = Vec::new();
    for k in 0..80usize {
        let channel: Vec<f32> = (0..64).map(|s| (k * 64 + s + 1) as f32).collect();
        let mut block = to_block(&[channel.clone(), channel]);
        aac_block(&mut chain, &mut block, 64, AacMode::Passthrough);
        heard.extend(block[1].iter().map(|v| to_float(*v)));
    }
    assert!(heard[..latency].iter().all(|v| *v == 0.0));
    for (i, v) in heard[latency..].iter().enumerate() {
        assert_eq!(*v, (i + 1) as f32);
    }
}

#[test]
fn settings_follow_family_and_channels() {
    let lc = FdkFamily::AacLc.settings(2, 128);
    assert_eq!(lc.bitrate_bps, 128_000);
    assert_eq!(lc.sample_rate, 44_100);
    assert_eq!(lc.layout, ChannelLayout::Stereo);
    assert_eq!(lc.profile, AacProfile::LowComplexity);
    assert_eq!(FdkFamily::HeAacV2.settings(2, 24).profile, AacProfile::HighEfficiencyV2);
    let mono = FdkFamily::HeAacV2.settings(1, 24);
    assert_eq!(mono.profile, AacProfile::HighEfficiency);
    assert_eq!(mono.layout, ChannelLayout::Mono);
    assert_eq!(FdkFamily::HeAacV1.settings(2, 64).profile, AacProfile::HighEfficiency);
    assert_eq!(FdkFamily::HeAacV2.frame_size(), 2048);
    assert_eq!(FdkFamily::HeAacV2.roundtrip(), 6 * 2048);
}

#[test]
fn encoder_outcomes_decide_what_follows() {
    let step = |input_consumed, output_size| Some(EncodeStep { input_consumed, output_size });
    assert_eq!(after_encode(None), EncodeDecision::Stop);
    assert_eq!(after_encode(step(0, 0)), EncodeDecision::Stop);
    assert_eq!(after_encode(step(512, 0)), EncodeDecision::Feed);
    assert_eq!(after_encode(step(512, 77)), EncodeDecision::Decode(77));
    assert_eq!(after_encode(step(0, 77)), EncodeDecision::Decode(77));
}

#[test]
fn mono_fold_takes_the_mean() {
    let ring = |v: &[f32]| v.iter().map(|x| to_sample(*x)).collect::<VecDeque<Sample>>();
    let mut rings = vec![ring(&[1.0, 0.5, -1.0]), ring(&[0.0, -0.5, -1.0])];
    let mut pcm = vec![9i16; 4];
    stage_mono_frame(&mut rings, 3, &mut pcm);
    assert_eq!(pcm, vec![16383, 0, -32767, 9]);
    assert!(rings[0].is_empty() && rings[1].is_empty());
    let mut one = vec![ring(&[0.5, 1.0])];
    stage_mono_frame(&mut one, 2, &mut pcm);
    assert_eq!(&pcm[..2], &[16383, 32767]);
}

#[test]
fn frames_lose_the_preroll_and_spread_mono() {
    let pcm: Vec<i16> = vec![1000, 2000, 3000, 4000];
    let mut rings: Vec<VecDeque<Sample>> = vec![VecDeque::new(), VecDeque::new()];
    let mut discard = 1usize;
    let frame = DecodedFrame { samples: 4, channels: 1 };
    accept_frame(&mut rings, &mut discard, &pcm, frame, true);
    assert_eq!(discard, 0);
    let floats: Vec<f32> = rings[1].iter().map(|v| to_float(*v)).collect();
    assert_eq!(floats, vec![2000.0 / 32768.0, 3000.0 / 32768.0, 4000.0 / 32768.0]);
    assert_eq!(rings[0], rings[1]);
    // Without duplication only the channels that there are get samples.
    let mut apart: Vec<VecDeque<Sample>> = vec![VecDeque::new(), VecDeque::new()];
    accept_frame(&mut apart, &mut discard, &pcm, frame, false);
    assert_eq!(apart[0].len(), 4);
    assert!(apart[1].is_empty());
    // Two channels, interleaved, all of it preroll.
    let mut stereo: Vec<VecDeque<Sample>> = vec![VecDeque::new(), VecDeque::new()];
    let mut all = 5usize;
    accept_frame(&mut stereo, &mut all, &pcm, DecodedFrame { samples: 2, channels: 2 }, true);
    assert_eq!(all, 3);
    assert!(stereo[0].is_empty());
}

fn aac_bt_at(host_rate: u32, kbps: u32) -> Chain<AacBtCodec> {
    let h2i = Rig::between(host_rate, 44_100, 2);
    let i2h = Rig::between(44_100, host_rate, 2);
    let codec = AacBtCodec::new(host_rate, 2, 256, kbps, facts(&h2i), facts(&i2h));
    Chain { proc: codec, h2i, i2h }
}

/// Sine through, peak nonzero.
#[test]
fn aac_bt_roundtrip_emits_audio_at_every_host_rate() {
    for &host_rate in &[44_100u32, 48_000, 96_000] {
        for &bitrate in &[128u32, 256] {
            let mut chain = aac_bt_at(host_rate, bitrate);
            let peak = drive_with_sine(host_rate, 256, 2.0, 0.5, 1_000.0, 0.3, |b, n| {
                chain.run(b, |p, block, e| p.process(block, n, e));
            });
            assert!(peak > 0.05, "AAC-BT at {host_rate} Hz / {bitrate} kbps: {peak:.3}");
        }
    }
}

#[test]
fn aac_bt_worst_case_latency_at_is_positive_for_every_supported_rate() {
    for &rate in &[44_100u32, 48_000, 96_000] {
        let h2i = facts(&Rig::between(rate, 44_100, 2));
        let i2h = facts(&Rig::between(44_100, rate, 2));
        let l = AacBtCodec::worst_case_latency_at(rate, 2, h2i, i2h);
        assert!(l > 0, "worst_case_latency_at({rate}) returned 0");
    }
}

#[test]
fn reset_does_not_panic() {
    let mut chain = aac_bt_at(48_000, 256);
    chain.proc.reset();
}

/// A pair stands or falls with its encoder.
#[test]
fn a_codec_needs_an_encoder() {
    assert!(FdkCodec::around(None).is_none());
    let encoder = fdk_aac::enc::Encoder::new(fdk_aac::enc::EncoderParams {
        bit_rate: fdk_aac::enc::BitRate::Cbr(128_000),
        sample_rate: 44_100,
        transport: fdk_aac::enc::Transport::Adts,
        channels: fdk_aac::enc::ChannelMode::Stereo,
        audio_object_type: fdk_aac::enc::AudioObjectType::Mpeg4LowComplexity,
    })
    .unwrap();
    assert!(FdkCodec::around(Some(encoder)).is_some());
}

/// Whether FDK-AAC gave a pair decides the whole of the new state.
#[test]
fn what_fdk_gave_decides_the_codec() {
    let mut p = aac_at(44_100, 2, 256).proc;
    p.chain.ensure_codec(64, true);
    let pair = p.chain.codec.take();
    assert!(pair.is_some());
    p.chain.adopt_codec(None, 96, false);
    assert!(p.chain.codec.is_none());
    assert_eq!((p.chain.current_bitrate_kbps, p.chain.current_mono), (-1, true));
    p.chain.adopt_codec(pair, 96, false);
    assert!(p.chain.codec.is_some());
    assert_eq!((p.chain.current_bitrate_kbps, p.chain.current_mono), (96, false));
    assert_eq!(p.chain.samples_to_discard, 1024);
}

/// A mono tier plays the same left and right, and only the mean counts.
#[test]
fn mono_plays_the_mean_on_both_channels() {
    let play = |l: f32, r: f32| {
        let mut chain = aac_at(44_100, 2, 1024);
        let mode = AacMode::AacLc { bitrate_kbps: 64, mono: true };
        let mut heard: Vec<Vec<u32>> = vec![Vec::new(); 2];
        for k in 0..12 {
            let wave = |amp: f32| -> Vec<f32> {
                (0..1024).map(|s| ((k * 1024 + s) as f32 * 0.0625).sin() * amp).collect()
            };
            let mut block = to_block(&[wave(l), wave(r)]);
            aac_block(&mut chain, &mut block, 1024, mode);
            for ch in 0..2 {
                heard[ch].extend(block[ch].iter().map(|v| v.bits));
            }
        }
        heard
    };
    let even = play(0.25, 0.25);
    assert!(even[0].iter().any(|v| f32::from_bits(*v).abs() > 0.1));
    assert_eq!(even[0], even[1]);
    assert_eq!(play(0.5, 0.0), even);
}
