use audioadapter_buffers::direct::SequentialSliceOfVecs;
use rubato::{Fft, FixedSync, Resampler};
use streaming_simulator::processor::vorbis::{
    quality_for_spotify_bitrate, VorbisAction, VorbisEvent, VorbisMode, VorbisProcessor,
};
use streaming_simulator::processor::pipeline::{
    plan_resampler, BlockAction, BlockEvent, BuiltResampler,
};
use streaming_simulator::sample::Sample;

fn to_sample(v: f32) -> Sample {
    Sample { bits: v.to_bits() }
}

fn to_float(v: Sample) -> f32 {
    f32::from_bits(v.bits)
}

/// A rubato resampler that takes and gives bit patterns.
struct Rig {
    fft: Fft<f32>,
    chunk: usize,
    channels: usize,
}

impl Rig {
    fn new(rate_in: u32, rate_out: u32, chunk: usize, channels: usize) -> Option<Rig> {
        let fft = Fft::<f32>::new(
            rate_in as usize,
            rate_out as usize,
            chunk,
            2,
            channels,
            FixedSync::Input,
        )
        .ok()?;
        Some(Rig { fft, chunk, channels })
    }

    /// The resampler that a pipeline asks for between two rates.
    fn between(rate_in: u32, rate_out: u32, channels: usize) -> Option<Rig> {
        let plan = plan_resampler(rate_in, rate_out, channels)?;
        Rig::new(plan.rate_in, plan.rate_out, plan.chunk, plan.channels)
    }

    fn facts(&self) -> BuiltResampler {
        BuiltResampler { output_delay: self.fft.output_delay() as u32 }
    }

    fn run(&mut self, chunk: &[Vec<Sample>]) -> (Vec<Vec<Sample>>, usize) {
        let input: Vec<Vec<f32>> =
            chunk.iter().map(|ch| ch.iter().map(|v| to_float(*v)).collect()).collect();
        let max = self.fft.output_frames_max();
        let mut output: Vec<Vec<f32>> = vec![vec![0.0; max]; self.channels];
        let produced = {
            let reader = SequentialSliceOfVecs::new(&input, self.channels, self.chunk).unwrap();
            let mut writer =
                SequentialSliceOfVecs::new_mut(&mut output, self.channels, max).unwrap();
            self.fft
                .process_into_buffer(&reader, &mut writer, None)
                .map(|(_, out)| out)
                .unwrap_or(0)
        };
        let out = output.iter().map(|ch| ch.iter().map(|v| to_sample(*v)).collect()).collect();
        (out, produced)
    }
}

fn facts(rig: &Option<Rig>) -> Option<BuiltResampler> {
    rig.as_ref().map(|r| r.facts())
}

fn to_block(planar: &[Vec<f32>]) -> Vec<Vec<Sample>> {
    planar.iter().map(|ch| ch.iter().map(|v| to_sample(*v)).collect()).collect()
}

fn peak(planar: &[Vec<Sample>]) -> f32 {
    planar.iter().flatten().fold(0.0f32, |p, v| p.max(to_float(*v).abs()))
}

/// Drives a closure with a stereo sine, block by block, and gives the peak of
/// what it leaves in the blocks after the warm-up.
fn drive_with_sine(
    rate: u32,
    block_size: usize,
    total_seconds: f32,
    warmup_seconds: f32,
    freq: f32,
    amp: f32,
    mut process_block: impl FnMut(&mut Vec<Vec<Sample>>, usize),
) -> f32 {
    let total = (rate as f32 * total_seconds) as usize;
    let warmup = (rate as f32 * warmup_seconds) as usize;
    let mut observed = 0.0f32;
    let mut cursor = 0usize;
    while cursor + block_size <= total {
        let mut channel: Vec<Sample> = Vec::with_capacity(block_size);
        for s in 0..block_size {
            let t = (cursor + s) as f32 / rate as f32;
            channel.push(to_sample((2.0 * std::f32::consts::PI * freq * t).sin() * amp));
        }
        let mut block = vec![channel.clone(), channel];
        process_block(&mut block, block_size);
        if cursor >= warmup {
            observed = observed.max(peak(&block));
        }
        cursor += block_size;
    }
    observed
}

/// The processor with its resamplers, and a codec that hands samples back in
/// runs of its own choosing.
struct Chain {
    proc: VorbisProcessor,
    h2i: Option<Rig>,
    i2h: Option<Rig>,
    opened: Vec<u32>,
    refuse: bool,
    run_length: usize,
}

impl Chain {
    fn at(host_rate: u32, channels: usize, block_size: usize) -> Chain {
        let rigged = channels.clamp(1, 2);
        let h2i = Rig::between(host_rate, 44_100, rigged);
        let i2h = Rig::between(44_100, host_rate, rigged);
        let mut proc = VorbisProcessor::new();
        proc.initialize(host_rate, channels, block_size, facts(&h2i), facts(&i2h));
        Chain { proc, h2i, i2h, opened: Vec::new(), refuse: false, run_length: 64 }
    }

    fn run(&mut self, block: &mut Vec<Vec<Sample>>, n: usize, mode: VorbisMode) {
        let mut event = VorbisEvent::Block(BlockEvent::Start);
        loop {
            event = match self.proc.process(block, n, event, mode) {
                VorbisAction::Block(BlockAction::Done) => return,
                VorbisAction::Block(BlockAction::ResampleInput(chunk)) => {
                    let (out, produced) = self.h2i.as_mut().unwrap().run(&chunk);
                    VorbisEvent::Block(BlockEvent::InputResampled { out, produced })
                }
                VorbisAction::Block(BlockAction::ResampleOutput(chunk)) => {
                    let (out, produced) = self.i2h.as_mut().unwrap().run(&chunk);
                    VorbisEvent::Block(BlockEvent::OutputResampled { out, produced })
                }
                VorbisAction::OpenCodec(kbps) => {
                    self.opened.push(kbps);
                    VorbisEvent::CodecTried { opened: !self.refuse }
                }
                VorbisAction::Code(pending) => {
                    let len = pending[0].len();
                    let mut runs = Vec::new();
                    let mut at = 0;
                    while at < len {
                        let end = (at + self.run_length).min(len);
                        runs.push(pending.iter().map(|ch| ch[at..end].to_vec()).collect());
                        at = end;
                    }
                    VorbisEvent::Coded(runs)
                }
            };
        }
    }
}

#[test]
fn vorbis_passthrough_mode_emits_audio() {
    let mut chain = Chain::at(48_000, 2, 256);
    let peak = drive_with_sine(48_000, 256, 1.0, 0.25, 440.0, 0.5, |b, n| {
        chain.run(b, n, VorbisMode::Passthrough)
    });
    assert!(peak > 0.05, "Vorbis passthrough silent: {peak:.3}");
}

#[test]
fn vorbis_reset_clears_state_safely() {
    let mut chain = Chain::at(48_000, 2, 256);
    for _ in 0..4 {
        let mut block = to_block(&vec![vec![0.3; 256]; 2]);
        chain.run(&mut block, 256, VorbisMode::Vorbis { bitrate_kbps: 160 });
    }
    chain.proc.reset();
    assert!(chain.proc.pipeline.ready);
    assert!(!chain.proc.codec_open);
}

#[test]
fn vorbis_pad_output_to_grows_latency() {
    let mut chain = Chain::at(48_000, 2, 256);
    let before = chain.proc.latency_samples();
    chain.proc.pad_output_to(before + 1_000);
    assert_eq!(chain.proc.latency_samples(), before + 1_000);
}

#[test]
fn vorbis_worst_case_latency_at_is_positive_for_every_supported_rate() {
    for &rate in &[44_100u32, 48_000, 88_200, 96_000] {
        let h2i = facts(&Rig::between(rate, 44_100, 2));
        let i2h = facts(&Rig::between(44_100, rate, 2));
        let l = VorbisProcessor::worst_case_latency_at(rate, 2, h2i, i2h);
        assert!(l > 0, "worst_case_latency_at({rate}) returned 0");
        assert_eq!(l, Chain::at(rate, 2, 256).proc.latency_samples());
    }
}

#[test]
fn vorbis_default_constructor_yields_unready_processor() {
    let proc = VorbisProcessor::default();
    assert!(!proc.pipeline.ready);
    assert_eq!(proc.latency_samples(), 0);
}

#[test]
fn vorbis_bitrate_change_rebuilds_codec_without_panic() {
    let mut chain = Chain::at(48_000, 2, 256);
    for kbps in [96u32, 160, 320, 96] {
        let mut block = to_block(&vec![vec![0.3; 256]; 2]);
        chain.run(&mut block, 256, VorbisMode::Vorbis { bitrate_kbps: kbps });
    }
    assert_eq!(chain.opened, vec![96, 160, 320, 96]);
}

#[test]
fn vorbis_initialize_with_unsupported_channel_count_marks_not_ready() {
    let chain = Chain::at(48_000, 7, 256);
    assert!(!chain.proc.pipeline.ready);
}

#[test]
fn qualities_follow_the_published_tiers() {
    for (kbps, tenths) in [(0, 2), (96, 2), (97, 5), (160, 5), (161, 9), (320, 9)] {
        assert_eq!(quality_for_spotify_bitrate(kbps), tenths);
    }
    assert_eq!(quality_for_spotify_bitrate(96) as f32 / 10.0, 0.2);
    assert_eq!(quality_for_spotify_bitrate(320) as f32 / 10.0, 0.9);
}

/// The warm-up is dropped once, however the decoder cuts its output.
#[test]
fn cuts_between_runs_make_no_difference() {
    let mut heard: Vec<Vec<f32>> = Vec::new();
    for run_length in [1usize, 64, 1000, 4096] {
        let mut chain = Chain::at(44_100, 2, 500);
        chain.run_length = run_length;
        let mut out = Vec::new();
        for k in 0..20usize {
            let channel: Vec<f32> = (0..500).map(|s| (k * 500 + s + 1) as f32).collect();
            let mut block = to_block(&[channel.clone(), channel]);
            chain.run(&mut block, 500, VorbisMode::Vorbis { bitrate_kbps: 96 });
            out.extend(block[0].iter().map(|v| to_float(*v)));
        }
        assert_eq!(chain.proc.samples_to_discard, 0);
        heard.push(out);
    }
    assert_eq!(heard[0], heard[1]);
    assert_eq!(heard[0], heard[2]);
    assert_eq!(heard[0], heard[3]);
    // 4096 of silence, then the input without its first 1024 samples.
    assert_eq!(heard[0][4095], 0.0);
    assert_eq!(heard[0][4096], 1025.0);
}

#[test]
fn without_a_codec_there_is_silence() {
    let mut chain = Chain::at(44_100, 2, 256);
    chain.refuse = true;
    for _ in 0..40 {
        let mut block = to_block(&vec![vec![0.3; 256]; 2]);
        chain.run(&mut block, 256, VorbisMode::Vorbis { bitrate_kbps: 96 });
        assert_eq!(peak(&block), 0.0);
    }
    assert_eq!(chain.proc.current_bitrate_kbps, -1);
    // Every block tries again.
    assert_eq!(chain.opened.len(), 40);
}
