use audioadapter_buffers::direct::SequentialSliceOfVecs;
use rubato::{Fft, FixedSync, Resampler};
use std::collections::VecDeque;
use streaming_simulator::processor::lame::{LameBitrate, LameMode, LameQuality, LameVbr};
use streaming_simulator::processor::mp3::{
    bitrate_to_lame, decode_threshold, feed, lame_settings, stage_planar, DecodeReport, Mp3Action,
    Mp3Event, Mp3Mode, Mp3Processor, OutputResamplers, ProbeAction, RateProbe,
};
use streaming_simulator::processor::pipeline::{
    plan_resampler, BlockAction, BlockEvent, BuiltResampler,
};
use streaming_simulator::sample::Sample;

fn to_sample(v: f32) -> Sample {
    Sample { bits: v.to_bits() }
}

fn to_float(v: Sample) -> f32 {
    f32::from_bits(v.bits)
}

/// A rubato resampler that takes and gives bit patterns.
struct Rig {
    fft: Fft<f32>,
    chunk: usize,
    channels: usize,
}

impl Rig {
    fn new(rate_in: u32, rate_out: u32, chunk: usize, channels: usize) -> Option<Rig> {
        let fft = Fft::<f32>::new(
            rate_in as usize,
            rate_out as usize,
            chunk,
            2,
            channels,
            FixedSync::Input,
        )
        .ok()?;
        Some(Rig { fft, chunk, channels })
    }

    /// The resampler that a pipeline asks for between two rates.
    fn between(rate_in: u32, rate_out: u32, channels: usize) -> Option<Rig> {
        let plan = plan_resampler(rate_in, rate_out, channels)?;
        Rig::new(plan.rate_in, plan.rate_out, plan.chunk, plan.channels)
    }

    fn facts(&self) -> BuiltResampler {
        BuiltResampler { output_delay: self.fft.output_delay() as u32 }
    }

    fn run(&mut self, chunk: &[Vec<Sample>]) -> (Vec<Vec<Sample>>, usize) {
        let input: Vec<Vec<f32>> =
            chunk.iter().map(|ch| ch.iter().map(|v| to_float(*v)).collect()).collect();
        let max = self.fft.output_frames_max();
        let mut output: Vec<Vec<f32>> = vec![vec![0.0; max]; self.channels];
        let produced = {
            let reader = SequentialSliceOfVecs::new(&input, self.channels, self.chunk).unwrap();
            let mut writer =
                SequentialSliceOfVecs::new_mut(&mut output, self.channels, max).unwrap();
            self.fft
                .process_into_buffer(&reader, &mut writer, None)
                .map(|(_, out)| out)
                .unwrap_or(0)
        };
        let out = output.iter().map(|ch| ch.iter().map(|v| to_sample(*v)).collect()).collect();
        (out, produced)
    }
}

fn facts(rig: &Option<Rig>) -> Option<BuiltResampler> {
    rig.as_ref().map(|r| r.facts())
}

fn to_block(planar: &[Vec<f32>]) -> Vec<Vec<Sample>> {
    planar.iter().map(|ch| ch.iter().map(|v| to_sample(*v)).collect()).collect()
}

fn peak(planar: &[Vec<Sample>]) -> f32 {
    planar.iter().flatten().fold(0.0f32, |p, v| p.max(to_float(*v).abs()))
}

/// Drives a closure with a stereo sine, block by block, and gives the peak of
/// what it leaves in the blocks after the warm-up.
fn drive_with_sine(
    rate: u32,
    block_size: usize,
    total_seconds: f32,
    warmup_seconds: f32,
    freq: f32,
    amp: f32,
    mut process_block: impl FnMut(&mut Vec<Vec<Sample>>, usize),
) -> f32 {
    let total = (rate as f32 * total_seconds) as usize;
    let warmup = (rate as f32 * warmup_seconds) as usize;
    let mut observed = 0.0f32;
    let mut cursor = 0usize;
    while cursor + block_size <= total {
        let mut channel: Vec<Sample> = Vec::with_capacity(block_size);
        for s in 0..block_size {
            let t = (cursor + s) as f32 / rate as f32;
            channel.push(to_sample((2.0 * std::f32::consts::PI * freq * t).sin() * amp));
        }
        let mut block = vec![channel.clone(), channel];
        process_block(&mut block, block_size);
        if cursor >= warmup {
            observed = observed.max(peak(&block));
        }
        cursor += block_size;
    }
    observed
}

/// Rate and length of the first frame in a stretch of MP3 bytes, read from its
/// header: where it starts, samples per second, bytes.
fn frame_header(bytes: &[u8]) -> Option<(usize, u32, usize)> {
    const MPEG1: [u32; 15] = [0, 32, 40, 48, 56, 64, 80, 96, 112, 128, 160, 192, 224, 256, 320];
    const MPEG2: [u32; 15] = [0, 8, 16, 24, 32, 40, 48, 56, 64, 80, 96, 112, 128, 144, 160];
    for at in 0..bytes.len().saturating_sub(3) {
        let (a, b, c) = (bytes[at], bytes[at + 1], bytes[at + 2]);
        if a != 0xff || b & 0xe0 != 0xe0 || b & 0x06 != 0x02 {
            continue;
        }
        let version = (b >> 3) & 3;
        let (rate_index, kbps_index) = (((c >> 2) & 3) as usize, (c >> 4) as usize);
        if version == 1 || rate_index == 3 || kbps_index == 0 || kbps_index == 15 {
            continue;
        }
        let base = [44_100u32, 48_000, 32_000][rate_index];
        let (rate, kbps, samples) = match version {
            3 => (base, MPEG1[kbps_index], 144),
            2 => (base / 2, MPEG2[kbps_index], 72),
            _ => (base / 4, MPEG2[kbps_index], 72),
        };
        let padding = ((c >> 1) & 1) as u32;
        return Some((at, rate, (samples * kbps * 1000 / rate + padding) as usize));
    }
    None
}

fn outs(host_rate: u32, channels: usize) -> OutputResamplers {
    OutputResamplers {
        from_22050: facts(&Rig::between(22_050, host_rate, channels)),
        from_24000: facts(&Rig::between(24_000, host_rate, channels)),
        from_32000: facts(&Rig::between(32_000, host_rate, channels)),
        from_44100: facts(&Rig::between(44_100, host_rate, channels)),
    }
}

/// Runs a rate probe with header parsing in the decoder's place.
fn probe_rate(mut probe: RateProbe) -> u32 {
    loop {
        match probe.advance() {
            ProbeAction::Settle(hz) => return hz,
            ProbeAction::Decode => {
                let found = frame_header(&probe.dec_input);
                let (hz, skip) = match found {
                    Some((at, hz, _)) => (hz, at),
                    None => (0, 0),
                };
                if let Some(hz) = probe.report(hz, skip) {
                    return hz;
                }
            }
        }
    }
}

/// The processor with its resamplers. In the decoder's place stands a reader of
/// frame headers that plays a tone for every frame it finds.
struct Chain {
    proc: Mp3Processor,
    host_rate: u32,
    channels: usize,
    h2i: Option<Rig>,
    i2h: Option<Rig>,
    frames: usize,
    opened: Vec<(u32, u32)>,
}

impl Chain {
    fn at(host_rate: u32, channels: usize, block_size: usize) -> Chain {
        let rigged = channels.clamp(1, 2);
        let h2i = Rig::between(host_rate, 44_100, rigged);
        let i2h = Rig::between(44_100, host_rate, rigged);
        let mut proc = Mp3Processor::new();
        proc.initialize(host_rate, channels, block_size, facts(&h2i), outs(host_rate, rigged));
        Chain { proc, host_rate, channels: rigged, h2i, i2h, frames: 0, opened: Vec::new() }
    }

    fn open(&mut self, kbps: u32) {
        let probe = match self.proc.begin_codec(kbps) {
            Some(probe) => probe,
            None => return,
        };
        let hz = probe_rate(probe);
        if hz != self.proc.pipeline.decode_rate {
            self.i2h = Rig::between(hz, self.host_rate, self.channels);
        }
        self.proc.finish_codec(kbps, hz, facts(&self.i2h));
        self.opened.push((kbps, hz));
    }

    fn decode(&mut self) -> DecodeReport {
        let pcm_len = 2304;
        match frame_header(&self.proc.dec_input) {
            Some((at, hz, len)) => {
                let samples = if hz <= 24_000 { 576 } else { 1152 };
                self.frames += 1;
                let pcm = (0..pcm_len).map(|i| if i % 64 < 32 { 9000 } else { -9000 }).collect();
                DecodeReport { pcm, samples, channels: 2, frame_bytes: at + len }
            }
            None => DecodeReport { pcm: vec![0; pcm_len], samples: 0, channels: 0, frame_bytes: 0 },
        }
    }

    fn run(&mut self, block: &mut Vec<Vec<Sample>>, n: usize, mode: Mp3Mode) {
        let mut event = Mp3Event::Block(BlockEvent::Start);
        loop {
            event = match self.proc.process(block, n, event, mode) {
                Mp3Action::Block(BlockAction::Done) => return,
                Mp3Action::Block(BlockAction::ResampleInput(chunk)) => {
                    let (out, produced) = self.h2i.as_mut().unwrap().run(&chunk);
                    Mp3Event::Block(BlockEvent::InputResampled { out, produced })
                }
                Mp3Action::Block(BlockAction::ResampleOutput(chunk)) => {
                    let (out, produced) = self.i2h.as_mut().unwrap().run(&chunk);
                    Mp3Event::Block(BlockEvent::OutputResampled { out, produced })
                }
                Mp3Action::OpenCodec(kbps) => {
                    self.open(kbps);
                    Mp3Event::CodecTried
                }
                Mp3Action::Decode => Mp3Event::Decoded(self.decode()),
            };
        }
    }
}

/// LAME's auto-downsample decision must match real-world encoders (Deezer Basic
/// 64 kbps stereo: 24 kHz).
#[test]
fn detect_output_rate_matches_lame_decision() {
    let cases = [
        (64u32, 2usize, 24_000u32),
        (128, 2, 44_100),
        (320, 2, 44_100),
        (128, 1, 44_100),
        (320, 1, 44_100),
    ];
    for &(bitrate_kbps, channels, expected_rate) in &cases {
        let bitrate = bitrate_to_lame(bitrate_kbps).unwrap();
        let probe = RateProbe::new(channels, bitrate).expect("LAME accepts valid configs");
        let hz = probe_rate(probe);
        assert_eq!(hz, expected_rate, "{bitrate_kbps} kbps x {channels} ch");
    }
}

#[test]
fn mp3_passthrough_mode_emits_audio() {
    let mut chain = Chain::at(48_000, 2, 256);
    let peak = drive_with_sine(48_000, 256, 1.0, 0.25, 440.0, 0.5, |b, n| {
        chain.run(b, n, Mp3Mode::Passthrough)
    });
    assert!(peak > 0.05, "MP3 passthrough silent: {peak:.3}");
}

#[test]
fn mp3_reset_clears_state_safely() {
    let mut chain = Chain::at(48_000, 2, 256);
    for _ in 0..4 {
        let mut block = to_block(&vec![vec![0.3; 256]; 2]);
        chain.run(&mut block, 256, Mp3Mode::Mp3 { bitrate_kbps: 128 });
    }
    chain.proc.reset();
    assert!(chain.proc.pipeline.ready);
    assert!(chain.proc.codec.is_none());
    assert!(chain.proc.dec_input.is_empty());
}

#[test]
fn mp3_pad_output_to_grows_latency() {
    let mut chain = Chain::at(48_000, 2, 256);
    let before = chain.proc.latency_samples();
    chain.proc.pad_output_to(before + 1_000);
    assert_eq!(chain.proc.latency_samples(), before + 1_000);
}

#[test]
fn mp3_worst_case_latency_at_is_positive_for_every_supported_rate() {
    for &rate in &[44_100u32, 48_000, 88_200, 96_000, 192_000] {
        let h2i = facts(&Rig::between(rate, 44_100, 2));
        let l = Mp3Processor::worst_case_latency_at(rate, 2, h2i, outs(rate, 2));
        assert!(l > 0, "worst_case_latency_at({rate}) returned 0");
        assert!(l >= Chain::at(rate, 2, 256).proc.latency_samples());
    }
}

#[test]
fn mp3_default_constructor_yields_unready_processor() {
    let proc = Mp3Processor::default();
    assert!(!proc.pipeline.ready);
}

#[test]
fn mp3_bitrate_change_rebuilds_codec_without_panic() {
    let mut chain = Chain::at(48_000, 2, 256);
    for kbps in [64u32, 128, 320, 64] {
        let mut block = to_block(&vec![vec![0.3; 256]; 2]);
        chain.run(&mut block, 256, Mp3Mode::Mp3 { bitrate_kbps: kbps });
    }
    let expected = vec![(64, 24_000), (128, 44_100), (320, 44_100), (64, 24_000)];
    assert_eq!(chain.opened, expected);
    assert_eq!(chain.proc.pipeline.decode_rate, 24_000);
}

#[test]
fn mp3_initialize_with_unsupported_channel_count_marks_not_ready() {
    let chain = Chain::at(48_000, 7, 256);
    assert!(!chain.proc.pipeline.ready);
}

/// Every frame that LAME emits is found by the decoder, and what the decoder
/// reports is heard, at every host rate and bitrate.
#[test]
fn decoded_frames_are_heard_at_every_host_rate_and_bitrate() {
    for &host_rate in &[44_100u32, 48_000, 88_200, 96_000, 192_000] {
        for &bitrate_kbps in &[64u32, 128, 320] {
            let mut chain = Chain::at(host_rate, 2, 256);
            assert!(chain.proc.pipeline.ready);
            let peak = drive_with_sine(host_rate, 256, 1.0, 0.5, 440.0, 0.5, |b, n| {
                chain.run(b, n, Mp3Mode::Mp3 { bitrate_kbps });
            });
            assert!(chain.frames > 20, "{host_rate} Hz / {bitrate_kbps}: {}", chain.frames);
            assert!(peak > 0.05, "{host_rate} Hz / {bitrate_kbps} kbps: {peak:.3}");
        }
    }
}

#[test]
fn bitrates_snap_to_the_next_one_up() {
    let cases = [
        (0u32, LameBitrate::Kbps8),
        (8, LameBitrate::Kbps8),
        (9, LameBitrate::Kbps16),
        (64, LameBitrate::Kbps64),
        (65, LameBitrate::Kbps80),
        (256, LameBitrate::Kbps256),
        (257, LameBitrate::Kbps320),
        (9999, LameBitrate::Kbps320),
    ];
    for (kbps, expected) in cases {
        assert_eq!(bitrate_to_lame(kbps), Some(expected));
    }
}

#[test]
fn settings_are_streaming_grade() {
    let s = lame_settings(2);
    assert_eq!(s.num_channels, 2);
    assert_eq!(s.sample_rate, 44_100);
    assert_eq!(s.quality, LameQuality::Good);
    assert_eq!(s.mode, LameMode::JointStereo);
    assert_eq!(s.vbr, LameVbr::Off);
    assert!(!s.write_vbr_tag);
}

/// 1152 * 128000 / 8 / 44100 is 417, 576 * 64000 / 8 / 24000 is 192.
#[test]
fn thresholds_are_two_frames_and_a_header() {
    assert_eq!(decode_threshold(128, 44_100), 2 * 418 + 4);
    assert_eq!(decode_threshold(64, 24_000), 2 * 193 + 4);
}

#[test]
fn decoder_input_keeps_the_newest_bytes_within_the_cap() {
    let mut pending: Vec<u8> = vec![1; 32_000];
    feed(&mut pending, &vec![2; 700]);
    assert_eq!(pending.len(), 32_700);
    feed(&mut pending, &vec![3; 168]);
    assert_eq!(pending.len(), 32_768);
    assert_eq!(pending[31_899], 1);
    assert_eq!(pending[31_900], 2);
    assert_eq!(*pending.last().unwrap(), 3);
    feed(&mut pending, &vec![4; 40_000]);
    assert_eq!(pending, vec![4; 40_000]);
}

#[test]
fn frames_are_staged_channel_by_channel() {
    let ring = |v: f32| (0..1200).map(|_| to_sample(v)).collect::<VecDeque<Sample>>();
    let mut rings = vec![ring(0.5), ring(-1.0)];
    let pcm = stage_planar(&mut rings);
    assert_eq!(pcm[0], vec![16383i16; 1152]);
    assert_eq!(pcm[1], vec![-32767i16; 1152]);
    assert_eq!(rings[0].len(), 48);
}

fn ready_for_reports() -> Mp3Processor {
    let mut proc = Mp3Processor::new();
    proc.initialize(44_100, 2, 256, None, outs(44_100, 2));
    proc.dec_input = (0..100).collect();
    proc.decoding = true;
    proc
}

#[test]
fn reports_decide_what_goes_on() {
    let report = |samples, channels, frame_bytes| DecodeReport {
        pcm: vec![16384; 8],
        samples,
        channels,
        frame_bytes,
    };
    // Nothing consumed: wait.
    let mut p = ready_for_reports();
    p.accept_decode(&report(0, 0, 0));
    assert!(!p.decoding);
    assert_eq!(p.dec_input.len(), 100);
    // An incomplete frame at the end: wait, and keep the bytes.
    let mut p = ready_for_reports();
    p.accept_decode(&report(0, 0, 100));
    assert!(!p.decoding);
    assert_eq!(p.dec_input.len(), 100);
    // Junk before the next sync: skip it.
    let mut p = ready_for_reports();
    p.accept_decode(&report(0, 0, 30));
    assert!(p.decoding);
    assert_eq!(p.dec_input[0], 30);
    assert!(p.pipeline.internal_output[0].is_empty());
    // A frame with fewer channels than the host: the first one everywhere.
    let mut p = ready_for_reports();
    p.samples_to_discard = 1;
    p.accept_decode(&report(4, 1, 40));
    assert_eq!(p.dec_input.len(), 60);
    assert_eq!(p.samples_to_discard, 0);
    for ch in 0..2 {
        let out: Vec<f32> = p.pipeline.internal_output[ch].iter().map(|v| to_float(*v)).collect();
        assert_eq!(out, vec![0.5; 3]);
    }
}

/// A probe that hears of no rate settles on 44.1 kHz after 64 rounds.
#[test]
fn a_probe_without_a_rate_settles() {
    let mut probe = RateProbe::new(2, LameBitrate::Kbps128).unwrap();
    assert_eq!(probe.rounds_left, 64);
    let mut decodes = 0;
    loop {
        match probe.advance() {
            ProbeAction::Decode => {
                decodes += 1;
                assert!(probe.dec_input.len() >= 2204);
                assert_eq!(probe.report(0, 100), None);
            }
            ProbeAction::Settle(hz) => {
                assert_eq!(hz, 44_100);
                break;
            }
        }
    }
    assert!(decodes > 0 && probe.rounds_left == 0);
}

/// LAME takes one channel or two; a probe stands or falls with its encoder.
#[test]
fn a_probe_needs_an_encoder() {
    assert!(RateProbe::new(0, LameBitrate::Kbps128).is_none());
    assert!(RateProbe::new(3, LameBitrate::Kbps128).is_none());
    assert!(RateProbe::around(None, 2).is_none());
    let encoder = mp3lame_encoder::Builder::new().unwrap().build().unwrap();
    let probe = RateProbe::around(Some(encoder), 1).unwrap();
    assert!(!probe.stereo);
    assert!(probe.dec_input.is_empty());
    assert_eq!(probe.rounds_left, 64);
    assert!(RateProbe::new(2, LameBitrate::Kbps128).unwrap().stereo);
}

/// Whether LAME gave an encoder decides the whole of the new state.
#[test]
fn what_lame_gave_decides_the_codec() {
    let mut p = Mp3Processor::new();
    p.initialize(44_100, 2, 256, None, outs(44_100, 2));
    let encoder = mp3lame_encoder::Builder::new().unwrap().build().unwrap();
    let back = Some(BuiltResampler { output_delay: 9 });
    p.adopt_encoder(Some(encoder), 64, 24_000, back);
    assert_eq!(p.codec.as_ref().unwrap().output_hz, 24_000);
    assert_eq!(p.current_bitrate_kbps, 64);
    assert_eq!(p.pipeline.decode_rate, 24_000);
    assert_eq!(p.pipeline.i2h, back);
    assert_eq!(p.min_decode_bytes, 390);
    assert_eq!(p.samples_to_discard, 1152);
    assert!(p.dec_input.is_empty());
    assert!(p.adopt_probe(RateProbe::new(2, LameBitrate::Kbps64)).is_some());
    assert!(p.codec.is_none());
    assert_eq!((p.current_bitrate_kbps, p.min_decode_bytes), (64, 390));
    p.adopt_encoder(None, 128, 44_100, None);
    assert!(p.codec.is_none());
    assert_eq!((p.current_bitrate_kbps, p.min_decode_bytes), (-1, 0));
    assert!(p.adopt_probe(None).is_none());
    assert_eq!(p.current_bitrate_kbps, -1);
}

/// Once the queue is long enough, decoding is asked for, though no frame is left
/// to encode.
#[test]
fn a_full_queue_is_decoded() {
    let mut p = Mp3Processor::new();
    p.initialize(44_100, 2, 256, None, outs(44_100, 2));
    let probe = p.begin_codec(128);
    assert!(probe.is_some());
    p.finish_codec(128, 44_100, None);
    assert_eq!(p.min_decode_bytes, 2 * (417 + 1) + 4);
    let mut asked = false;
    for _ in 0..8 {
        for ring in p.pipeline.internal_input.iter_mut() {
            ring.extend((0..1152).map(|_| to_sample(0.1)));
        }
        let decode = p.advance();
        assert_eq!(decode, p.dec_input.len() as u64 >= p.min_decode_bytes);
        asked |= decode;
    }
    assert!(asked);
}
