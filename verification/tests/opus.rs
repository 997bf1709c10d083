use audioadapter_buffers::direct::SequentialSliceOfVecs;
use rubato::{Fft, FixedSync, Resampler};
use streaming_simulator::processor::opus::{
    OpusAction, OpusEvent, OpusMode, OpusOutcome, OpusProcessor,
};
use streaming_simulator::processor::pipeline::{
    plan_resampler, BlockAction, BlockEvent, BuiltResampler,
};
use streaming_simulator::sample::Sample;

fn to_sample(v: f32) -> Sample {
    Sample { bits: v.to_bits() }
}

fn to_float(v: Sample) -> f32 {
    f32::from_bits(v.bits)
}

/// A rubato resampler that takes and gives bit patterns.
struct Rig {
    fft: Fft<f32>,
    chunk: usize,
    channels: usize,
}

impl Rig {
    fn new(rate_in: u32, rate_out: u32, chunk: usize, channels: usize) -> Option<Rig> {
        let fft = Fft::<f32>::new(
            rate_in as usize,
            rate_out as usize,
            chunk,
            2,
            channels,
            FixedSync::Input,
        )
        .ok()?;
        Some(Rig { fft, chunk, channels })
    }

    /// The resampler that a pipeline asks for between two rates.
    fn between(rate_in: u32, rate_out: u32, channels: usize) -> Option<Rig> {
        let plan = plan_resampler(rate_in, rate_out, channels)?;
        Rig::new(plan.rate_in, plan.rate_out, plan.chunk, plan.channels)
    }

    fn facts(&self) -> BuiltResampler {
        BuiltResampler { output_delay: self.fft.output_delay() as u32 }
    }

    fn run(&mut self, chunk: &[Vec<Sample>]) -> (Vec<Vec<Sample>>, usize) {
        let input: Vec<Vec<f32>> =
            chunk.iter().map(|ch| ch.iter().map(|v| to_float(*v)).collect()).collect();
        let max = self.fft.output_frames_max();
        let mut output: Vec<Vec<f32>> = vec![vec![0.0; max]; self.channels];
        let produced = {
            let reader = SequentialSliceOfVecs::new(&input, self.channels, self.chunk).unwrap();
            let mut writer =
                SequentialSliceOfVecs::new_mut(&mut output, self.channels, max).unwrap();
            self.fft
                .process_into_buffer(&reader, &mut writer, None)
                .map(|(_, out)| out)
                .unwrap_or(0)
        };
        let out = output.iter().map(|ch| ch.iter().map(|v| to_sample(*v)).collect()).collect();
        (out, produced)
    }
}

fn facts(rig: &Option<Rig>) -> Option<BuiltResampler> {
    rig.as_ref().map(|r| r.facts())
}

fn to_block(planar: &[Vec<f32>]) -> Vec<Vec<Sample>> {
    planar.iter().map(|ch| ch.iter().map(|v| to_sample(*v)).collect()).collect()
}

fn peak(planar: &[Vec<Sample>]) -> f32 {
    planar.iter().flatten().fold(0.0f32, |p, v| p.max(to_float(*v).abs()))
}

/// Drives a closure with a stereo sine, block by block, and gives the peak of
/// what it leaves in the blocks after the warm-up.
fn drive_with_sine(
    rate: u32,
    block_size: usize,
    total_seconds: f32,
    warmup_seconds: f32,
    freq: f32,
    amp: f32,
    mut process_block: impl FnMut(&mut Vec<Vec<Sample>>, usize),
) -> f32 {
    let total = (rate as f32 * total_seconds) as usize;
    let warmup = (rate as f32 * warmup_seconds) as usize;
    let mut observed = 0.0f32;
    let mut cursor = 0usize;
    while cursor + block_size <= total {
        let mut channel: Vec<Sample> = Vec::with_capacity(block_size);
        for s in 0..block_size {
            let t = (cursor + s) as f32 / rate as f32;
            channel.push(to_sample((2.0 * std::f32::consts::PI * freq * t).sin() * amp));
        }
        let mut block = vec![channel.clone(), channel];
        process_block(&mut block, block_size);
        if cursor >= warmup {
            observed = observed.max(peak(&block));
        }
        cursor += block_size;
    }
    observed
}

/// The processor with its resamplers, and a codec that hands frames back as
/// they are.
struct Chain {
    proc: OpusProcessor,
    h2i: Option<Rig>,
    i2h: Option<Rig>,
    frames: usize,
    bitrates: Vec<i32>,
}

impl Chain {
    fn at(host_rate: u32, channels: usize, block_size: usize) -> Chain {
        let rigged = channels.clamp(1, 2);
        let h2i = Rig::between(host_rate, 48_000, rigged);
        let i2h = Rig::between(48_000, host_rate, rigged);
        let mut proc = OpusProcessor::new();
        proc.initialize(host_rate, channels, block_size, true, facts(&h2i), facts(&i2h));
        Chain { proc, h2i, i2h, frames: 0, bitrates: Vec::new() }
    }

    fn run(&mut self, block: &mut Vec<Vec<Sample>>, n: usize, mode: OpusMode) {
        let mut event = OpusEvent::Block(BlockEvent::Start);
        loop {
            event = match self.proc.process(block, n, event, mode) {
                OpusAction::Block(BlockAction::Done) => return,
                OpusAction::Block(BlockAction::ResampleInput(chunk)) => {
                    let (out, produced) = self.h2i.as_mut().unwrap().run(&chunk);
                    OpusEvent::Block(BlockEvent::InputResampled { out, produced })
                }
                OpusAction::Block(BlockAction::ResampleOutput(chunk)) => {
                    let (out, produced) = self.i2h.as_mut().unwrap().run(&chunk);
                    OpusEvent::Block(BlockEvent::OutputResampled { out, produced })
                }
                OpusAction::SetBitrate(bps) => {
                    self.bitrates.push(bps);
                    OpusEvent::BitrateTried { bps, accepted: true }
                }
                OpusAction::Code(frame) => {
                    self.frames += 1;
                    let outcome = OpusOutcome::Decoded(frame.clone());
                    OpusEvent::Coded { frame, outcome }
                }
            };
        }
    }
}

#[test]
fn opus_passthrough_mode_emits_audio() {
    let mut chain = Chain::at(48_000, 2, 256);
    let peak = drive_with_sine(48_000, 256, 1.0, 0.25, 440.0, 0.5, |b, n| {
        chain.run(b, n, OpusMode::Passthrough)
    });
    assert!(peak > 0.05, "Opus passthrough silent: {peak:.3}");
    assert_eq!(chain.frames, 0);
}

#[test]
fn reset_does_not_break_subsequent_processing() {
    let mut chain = Chain::at(48_000, 2, 256);
    for _ in 0..4 {
        let mut block = to_block(&vec![vec![0.5; 256]; 2]);
        chain.run(&mut block, 256, OpusMode::Opus { bitrate_kbps: 128 });
    }
    chain.proc.reset();
    assert!(chain.proc.pipeline.ready);
    assert!(chain.proc.latency_samples() > 0);
    let channel: Vec<f32> = (0..256).map(|s| (s as f32 * 0.01).sin() * 0.3).collect();
    let mut block = to_block(&[channel.clone(), channel]);
    chain.run(&mut block, 256, OpusMode::Opus { bitrate_kbps: 128 });
}

#[test]
fn opus_pad_output_to_grows_latency() {
    let mut chain = Chain::at(48_000, 2, 256);
    let before = chain.proc.latency_samples();
    chain.proc.pad_output_to(before + 1_000);
    assert_eq!(chain.proc.latency_samples(), before + 1_000);
}

#[test]
fn opus_worst_case_latency_at_is_positive_for_every_supported_rate() {
    for &rate in &[44_100u32, 48_000, 88_200, 96_000] {
        let h2i = facts(&Rig::between(rate, 48_000, 2));
        let i2h = facts(&Rig::between(48_000, rate, 2));
        let l = OpusProcessor::worst_case_latency_at(rate, 2, h2i, i2h);
        assert!(l > 0, "worst_case_latency_at({rate}) returned 0");
        assert!(l >= Chain::at(rate, 2, 256).proc.latency_samples());
    }
}

#[test]
fn opus_default_constructor_yields_unready_processor() {
    let proc = OpusProcessor::default();
    assert!(!proc.pipeline.ready);
    assert_eq!(proc.latency_samples(), 0);
}

/// The encoder is told of each bitrate change, and of nothing else.
#[test]
fn opus_bitrate_change_rebuilds_codec_without_panic() {
    let mut chain = Chain::at(48_000, 2, 256);
    for kbps in [64u32, 128, 256, 64] {
        let mut block = to_block(&vec![vec![0.3; 256]; 2]);
        chain.run(&mut block, 256, OpusMode::Opus { bitrate_kbps: kbps });
        let mut block = to_block(&vec![vec![0.3; 256]; 2]);
        chain.run(&mut block, 256, OpusMode::Opus { bitrate_kbps: kbps });
    }
    assert_eq!(chain.bitrates, vec![64_000, 128_000, 256_000, 64_000]);
}

#[test]
fn opus_initialize_with_unsupported_channel_count_marks_not_ready() {
    let chain = Chain::at(48_000, 7, 256);
    assert!(!chain.proc.pipeline.ready);
}

/// Frames that come back from the codec are what is heard, at every rate.
#[test]
fn frames_from_the_codec_are_heard_at_every_host_rate() {
    for &host_rate in &[44_100u32, 48_000, 88_200, 96_000] {
        let mut chain = Chain::at(host_rate, 2, 256);
        assert!(chain.proc.pipeline.ready);
        let peak = drive_with_sine(host_rate, 256, 1.0, 0.5, 440.0, 0.5, |b, n| {
            chain.run(b, n, OpusMode::Opus { bitrate_kbps: 128 })
        });
        assert!(chain.frames > 40);
        assert!(peak > 0.05, "{host_rate} Hz: {peak:.3}");
    }
}

#[test]
fn without_libopus_nothing_is_ready() {
    let mut proc = OpusProcessor::new();
    proc.initialize(48_000, 2, 256, false, None, None);
    assert!(!proc.pipeline.ready);
    let mut block = to_block(&vec![vec![0.25; 8]; 2]);
    let mode = OpusMode::Opus { bitrate_kbps: 64 };
    let event = OpusEvent::Block(BlockEvent::Start);
    assert!(matches!(
        proc.process(&mut block, 8, event, mode),
        OpusAction::Block(BlockAction::Done)
    ));
    assert_eq!(to_float(block[0][0]), 0.25);
}

#[test]
fn outcomes_decide_what_is_played() {
    let frame: Vec<Sample> = (0..960).map(|i| to_sample(i as f32)).collect();
    let decoded: Vec<Sample> = (0..960).map(|i| to_sample(-(i as f32))).collect();
    let mut proc = OpusProcessor::new();
    proc.initialize(48_000, 1, 256, true, None, None);
    assert_eq!(proc.latency_samples(), 960 + 312);
    proc.accept_frame(&frame, &OpusOutcome::NoPacket);
    proc.accept_frame(&frame, &OpusOutcome::EncodeFailed);
    proc.accept_frame(&frame, &OpusOutcome::Decoded(decoded));
    let out: Vec<f32> = proc.pipeline.internal_output[0].iter().map(|v| to_float(*v)).collect();
    assert_eq!(out.len(), 3 * 960);
    assert_eq!(out[7], 7.0);
    assert_eq!(out[960 + 7], 0.0);
    assert_eq!(out[2 * 960 + 7], -7.0);
}

#[test]
fn a_refused_bitrate_is_asked_for_again() {
    let mut proc = OpusProcessor::new();
    proc.initialize(48_000, 1, 256, true, None, None);
    let mode = OpusMode::Opus { bitrate_kbps: 48 };
    assert_eq!(proc.bitrate_to_set(mode), Some(48_000));
    proc.note_bitrate(48_000, false);
    assert_eq!(proc.bitrate_to_set(mode), Some(48_000));
    proc.note_bitrate(48_000, true);
    assert_eq!(proc.bitrate_to_set(mode), None);
    assert_eq!(proc.bitrate_to_set(OpusMode::Passthrough), None);
}

/// 44.1 kHz: 882 + (100 + 1272) * 44100 / 48000 + 50.
#[test]
fn opus_latency_counts_the_frame_once() {
    let h2i = Some(BuiltResampler { output_delay: 100 });
    let i2h = Some(BuiltResampler { output_delay: 50 });
    let mut proc = OpusProcessor::new();
    proc.initialize(44_100, 2, 256, true, h2i, i2h);
    assert_eq!(proc.latency_samples(), 882 + 1260 + 50);
    let worst = OpusProcessor::worst_case_latency_at(44_100, 2, h2i, i2h);
    assert_eq!(worst, 882 + 1260 + 882 + 50);
}
