use audioadapter_buffers::direct::SequentialSliceOfVecs;
use rubato::{Fft, FixedSync, Resampler};
use std::collections::VecDeque;
use streaming_simulator::processor::bluetooth::lc3::{fold_down, play_frame, Lc3Quality};
use streaming_simulator::processor::bluetooth::link::resampler_allowance;
use streaming_simulator::processor::bluetooth::sbc::{
    sbc_settings, BtAction, BtEvent, SbcAllocation, SbcMode, SbcQuality, SbcReport,
};
use streaming_simulator::processor::bluetooth::{
    AacBtCodec, BluetoothProcessor, BluetoothProtocol, Lc3Codec, SbcCodec,
};
use streaming_simulator::processor::pipeline::{
    plan_resampler, BlockAction, BlockEvent, BuiltResampler,
};
use streaming_simulator::processor::pump::chunk_at;
use streaming_simulator::sample::Sample;

fn to_sample(v: f32) -> Sample {
    Sample { bits: v.to_bits() }
}

fn to_float(v: Sample) -> f32 {
    f32::from_bits(v.bits)
}

/// A rubato resampler that takes and gives bit patterns.
struct Rig {
    fft: Fft<f32>,
    chunk: usize,
    channels: usize,
}

impl Rig {
    fn new(rate_in: u32, rate_out: u32, chunk: usize, channels: usize) -> Option<Rig> {
        let fft = Fft::<f32>::new(
            rate_in as usize,
            rate_out as usize,
            chunk,
            2,
            channels,
            FixedSync::Input,
        )
        .ok()?;
        Some(Rig { fft, chunk, channels })
    }

    /// The resampler that a pipeline asks for between two rates.
    fn between(rate_in: u32, rate_out: u32, channels: usize) -> Option<Rig> {
        let plan = plan_resampler(rate_in, rate_out, channels)?;
        Rig::new(plan.rate_in, plan.rate_out, plan.chunk, plan.channels)
    }

    fn facts(&self) -> BuiltResampler {
        BuiltResampler { output_delay: self.fft.output_delay() as u32 }
    }

    fn run(&mut self, chunk: &[Vec<Sample>]) -> (Vec<Vec<Sample>>, usize) {
        let input: Vec<Vec<f32>> =
            chunk.iter().map(|ch| ch.iter().map(|v| to_float(*v)).collect()).collect();
        let max = self.fft.output_frames_max();
        let mut output: Vec<Vec<f32>> = vec![vec![0.0; max]; self.channels];
        let produced = {
            let reader = SequentialSliceOfVecs::new(&input, self.channels, self.chunk).unwrap();
            let mut writer =
                SequentialSliceOfVecs::new_mut(&mut output, self.channels, max).unwrap();
            self.fft
                .process_into_buffer(&reader, &mut writer, None)
                .map(|(_, out)| out)
                .unwrap_or(0)
        };
        let out = output.iter().map(|ch| ch.iter().map(|v| to_sample(*v)).collect()).collect();
        (out, produced)
    }
}

fn facts(rig: &Option<Rig>) -> Option<BuiltResampler> {
    rig.as_ref().map(|r| r.facts())
}

fn to_block(planar: &[Vec<f32>]) -> Vec<Vec<Sample>> {
    planar.iter().map(|ch| ch.iter().map(|v| to_sample(*v)).collect()).collect()
}

fn peak(planar: &[Vec<Sample>]) -> f32 {
    planar.iter().flatten().fold(0.0f32, |p, v| p.max(to_float(*v).abs()))
}

/// Drives a closure with a stereo sine, block by block, and gives the peak of
/// what it leaves in the blocks after the warm-up.
fn drive_with_sine(
    rate: u32,
    block_size: usize,
    total_seconds: f32,
    warmup_seconds: f32,
    freq: f32,
    amp: f32,
    mut process_block: impl FnMut(&mut Vec<Vec<Sample>>, usize),
) -> f32 {
    let total = (rate as f32 * total_seconds) as usize;
    let warmup = (rate as f32 * warmup_seconds) as usize;
    let mut observed = 0.0f32;
    let mut cursor = 0usize;
    while cursor + block_size <= total {
        let mut channel: Vec<Sample> = Vec::with_capacity(block_size);
        for s in 0..block_size {
            let t = (cursor + s) as f32 / rate as f32;
            channel.push(to_sample((2.0 * std::f32::consts::PI * freq * t).sin() * amp));
        }
        let mut block = vec![channel.clone(), channel];
        process_block(&mut block, block_size);
        if cursor >= warmup {
            observed = observed.max(peak(&block));
        }
        cursor += block_size;
    }
    observed
}

/// Resamplers for one Bluetooth backend.
struct Link {
    to_codec: Option<Rig>,
    to_host: Option<Rig>,
}

impl Link {
    /// ~10 ms chunks to and from a backend that resamples on its own terms.
    fn own(host_rate: u32, codec_rate: u32) -> Link {
        if host_rate == codec_rate {
            return Link { to_codec: None, to_host: None };
        }
        Link {
            to_codec: Rig::new(host_rate, codec_rate, chunk_at(host_rate), 2),
            to_host: Rig::new(codec_rate, host_rate, chunk_at(codec_rate), 2),
        }
    }

    /// The chunks of a resampled pipeline at 44.1 kHz.
    fn pipeline(host_rate: u32) -> Link {
        Link {
            to_codec: Rig::between(host_rate, 44_100, 2),
            to_host: Rig::between(44_100, host_rate, 2),
        }
    }

    fn for_protocol(host_rate: u32, protocol: BluetoothProtocol) -> Link {
        match protocol {
            BluetoothProtocol::SbcLow | BluetoothProtocol::SbcHigh => Link::own(host_rate, 44_100),
            BluetoothProtocol::Lc3_64 | BluetoothProtocol::Lc3_160 => Link::own(host_rate, 48_000),
            BluetoothProtocol::Aac128 | BluetoothProtocol::Aac256 => Link::pipeline(host_rate),
        }
    }

    fn answer(&mut self, action: BlockAction) -> Option<BlockEvent> {
        match action {
            BlockAction::Done => None,
            BlockAction::ResampleInput(chunk) => {
                let (out, produced) = self.to_codec.as_mut().unwrap().run(&chunk);
                Some(BlockEvent::InputResampled { out, produced })
            }
            BlockAction::ResampleOutput(chunk) => {
                let (out, produced) = self.to_host.as_mut().unwrap().run(&chunk);
                Some(BlockEvent::OutputResampled { out, produced })
            }
        }
    }
}

/// What libsbc would report for a frame that it hands back untouched.
fn echo(pcm: Vec<i16>) -> SbcReport {
    let decoded = pcm.len() * 2;
    SbcReport { encoded_len: decoded as i64, written: 100, consumed: 100, decoded, pcm }
}

const ALL: [BluetoothProtocol; 6] = [
    BluetoothProtocol::SbcLow,
    BluetoothProtocol::SbcHigh,
    BluetoothProtocol::Aac128,
    BluetoothProtocol::Aac256,
    BluetoothProtocol::Lc3_64,
    BluetoothProtocol::Lc3_160,
];

fn run_lc3(codec: &mut Lc3Codec, link: &mut Link, block: &mut Vec<Vec<Sample>>, n: usize) {
    let mut event = BlockEvent::Start;
    loop {
        let action = codec.process(block, n, event);
        event = match link.answer(action) {
            Some(event) => event,
            None => return,
        };
    }
}

fn run_sbc(codec: &mut SbcCodec, link: &mut Link, block: &mut Vec<Vec<Sample>>, n: usize) {
    let mut event = BtEvent::Block(BlockEvent::Start);
    loop {
        event = match codec.process(block, n, event) {
            BtAction::Code(pcm) => BtEvent::Coded(echo(pcm)),
            BtAction::Block(action) => match link.answer(action) {
                Some(event) => BtEvent::Block(event),
                None => return,
            },
        };
    }
}

fn run_bt(
    bt: &mut BluetoothProcessor,
    link: &mut Link,
    block: &mut Vec<Vec<Sample>>,
    n: usize,
    protocol: BluetoothProtocol,
) {
    let (h2i, i2h) = if matches!(protocol, BluetoothProtocol::Aac128 | BluetoothProtocol::Aac256) {
        (facts(&link.to_codec), facts(&link.to_host))
    } else {
        (None, None)
    };
    let mut event = BtEvent::Block(BlockEvent::Start);
    loop {
        event = match bt.process(block, n, event, protocol, h2i, i2h) {
            BtAction::Code(pcm) => BtEvent::Coded(echo(pcm)),
            BtAction::Block(action) => match link.answer(action) {
                Some(event) => BtEvent::Block(event),
                None => return,
            },
        };
    }
}

/// Every preset must emit audio at every common host rate.
#[test]
fn orchestrator_emits_audio_for_every_preset() {
    for &host_rate in &[44_100u32, 48_000, 96_000] {
        for &preset in &ALL {
            let mut bt = BluetoothProcessor::new();
            bt.initialize(host_rate, 2, 256);
            let mut link = Link::for_protocol(host_rate, preset);
            let peak = drive_with_sine(host_rate, 256, 2.0, 0.5, 1_000.0, 0.3, |b, n| {
                run_bt(&mut bt, &mut link, b, n, preset)
            });
            assert!(peak > 0.05, "{host_rate} Hz / {preset:?}: near-silent ({peak:.3})");
        }
    }
}

/// `initialize` alone must not make any codec backend.
#[test]
fn orchestrator_is_lazy_until_first_dispatch() {
    let mut bt = BluetoothProcessor::new();
    bt.initialize(44_100, 2, 256);
    assert!(bt.sbc_low.is_none());
    assert!(bt.sbc_high.is_none());
    assert!(bt.lc3_64.is_none());
    assert!(bt.lc3_160.is_none());
    assert!(bt.aac_128.is_none());
    assert!(bt.aac_256.is_none());
}

/// Touched codec slots stay warm so back-and-forth A/B is glitch-free.
#[test]
fn orchestrator_caches_warmed_codecs() {
    let mut bt = BluetoothProcessor::new();
    bt.initialize(44_100, 2, 256);
    for preset in
        [BluetoothProtocol::SbcLow, BluetoothProtocol::SbcHigh, BluetoothProtocol::Lc3_64]
    {
        let mut block = to_block(&vec![vec![0.0; 128]; 2]);
        let mut link = Link::for_protocol(44_100, preset);
        run_bt(&mut bt, &mut link, &mut block, 128, preset);
    }
    assert!(bt.sbc_low.is_some());
    assert!(bt.sbc_high.is_some());
    assert!(bt.lc3_64.is_some());
    assert!(bt.lc3_160.is_none(), "untouched slot must stay None");
}

#[test]
fn bluetooth_worst_case_latency_at_is_positive_for_every_supported_rate() {
    for &rate in &[44_100u32, 48_000, 96_000] {
        let link = Link::pipeline(rate);
        let (h2i, i2h) = (facts(&link.to_codec), facts(&link.to_host));
        let l = BluetoothProcessor::worst_case_latency_at(rate, 2, h2i, i2h);
        assert!(l > 0, "BT worst_case_latency_at({rate}) returned 0");
        assert!(l >= SbcCodec::worst_case_latency_at(rate, 2));
        assert!(l >= Lc3Codec::worst_case_latency_at(rate, 2));
    }
}

#[test]
fn default_constructor_matches_new() {
    let from_new = BluetoothProcessor::new();
    let from_default = BluetoothProcessor::default();
    assert_eq!(from_new.sample_rate, from_default.sample_rate);
    assert_eq!(from_new.channels, from_default.channels);
    assert_eq!(from_new.ready, from_default.ready);
}

#[test]
fn reset_before_initialize_is_noop() {
    let mut bt = BluetoothProcessor::new();
    bt.reset();
    assert!(!bt.ready);
}

/// `reset` clears codec state but keeps slots so the next dispatch doesn't have
/// to rebuild.
#[test]
fn reset_after_dispatch_clears_codec_state() {
    let mut bt = BluetoothProcessor::new();
    bt.initialize(48_000, 2, 256);
    let mut block = to_block(&vec![vec![0.0; 256]; 2]);
    let mut link = Link::own(48_000, 44_100);
    run_bt(&mut bt, &mut link, &mut block, 256, BluetoothProtocol::SbcLow);
    assert!(bt.sbc_low.is_some());
    bt.reset();
    let sbc = bt.sbc_low.as_ref().unwrap();
    assert!(sbc.host_in[0].is_empty() && sbc.sbc_in[0].is_empty() && sbc.sbc_out[0].is_empty());
    let prefill = SbcCodec::worst_case_latency_at(48_000, 2) as usize;
    assert_eq!(sbc.host_out[1].len(), prefill);
}

#[test]
fn bluetooth_initialize_with_unsupported_channel_count_marks_not_ready() {
    let mut bt = BluetoothProcessor::new();
    bt.initialize(48_000, 7, 256);
    assert!(!bt.ready);
}

#[test]
fn lc3_roundtrip_emits_audio_at_every_host_rate() {
    for &host_rate in &[44_100u32, 48_000, 96_000] {
        for &quality in &[Lc3Quality::Low64, Lc3Quality::High160] {
            let mut codec = Lc3Codec::new(host_rate, 2, 256, quality);
            let mut link = Link::own(host_rate, 48_000);
            let peak = drive_with_sine(host_rate, 256, 2.0, 0.25, 1_000.0, 0.3, |b, n| {
                run_lc3(&mut codec, &mut link, b, n)
            });
            assert!(peak > 0.05, "LC3 at {host_rate} Hz / {quality:?}: {peak:.3}");
        }
    }
}

#[test]
fn lc3_worst_case_latency_at_is_positive_for_every_supported_rate() {
    for &rate in &[44_100u32, 48_000, 96_000] {
        let l = Lc3Codec::worst_case_latency_at(rate, 2);
        assert!(l > 0, "LC3 worst_case_latency_at({rate}) returned 0");
    }
    assert_eq!(Lc3Codec::worst_case_latency_at(48_000, 2), 1920);
    assert_eq!(Lc3Codec::worst_case_latency_at(44_100, 2), 1102 + 1764);
}

#[test]
fn lc3_reset_clears_state_safely() {
    let mut codec = Lc3Codec::new(48_000, 2, 256, Lc3Quality::High160);
    let mut link = Link::own(48_000, 48_000);
    for _ in 0..4 {
        let mut block = to_block(&vec![vec![0.3; 256]; 2]);
        run_lc3(&mut codec, &mut link, &mut block, 256);
    }
    codec.reset();
    assert!(codec.host_in[0].is_empty() && codec.codec_in[0].is_empty());
    assert_eq!(codec.host_out[0].len(), 1920);
}

#[test]
fn sbc_roundtrip_emits_audio_at_every_host_rate() {
    for &host_rate in &[44_100u32, 48_000, 96_000] {
        for &quality in &[SbcQuality::Low, SbcQuality::High] {
            let mut codec = SbcCodec::new(host_rate, 2, 256, quality);
            let mut link = Link::own(host_rate, 44_100);
            let peak = drive_with_sine(host_rate, 256, 2.0, 0.25, 1_000.0, 0.3, |b, n| {
                run_sbc(&mut codec, &mut link, b, n)
            });
            assert!(peak > 0.05, "SBC at {host_rate} Hz / {quality:?}: {peak:.3}");
        }
    }
}

#[test]
fn sbc_worst_case_latency_at_is_positive_for_every_supported_rate() {
    for &rate in &[44_100u32, 48_000, 96_000] {
        let l = SbcCodec::worst_case_latency_at(rate, 2);
        assert!(l > 0, "SBC worst_case_latency_at({rate}) returned 0");
    }
    assert_eq!(SbcCodec::worst_case_latency_at(44_100, 2), 512);
    assert_eq!(SbcCodec::worst_case_latency_at(48_000, 2), 1200 + 557);
}

#[test]
fn sbc_reset_clears_state_safely() {
    let mut codec = SbcCodec::new(48_000, 2, 256, SbcQuality::High);
    let mut link = Link::own(48_000, 44_100);
    for _ in 0..4 {
        let mut block = to_block(&vec![vec![0.3; 256]; 2]);
        run_sbc(&mut codec, &mut link, &mut block, 256);
    }
    codec.reset();
}

#[test]
fn qualities_have_their_parameters() {
    assert_eq!(SbcQuality::Low.bitpool(), 19);
    assert_eq!(SbcQuality::High.bitpool(), 53);
    assert_eq!(Lc3Quality::Low64.channels(), 1);
    assert_eq!(Lc3Quality::High160.channels(), 2);
    assert_eq!(Lc3Quality::Low64.frame_bytes_per_channel(), 80);
    assert_eq!(Lc3Quality::High160.frame_bytes_per_channel(), 100);
}

#[test]
fn allowance_agrees_with_native_arithmetic() {
    for rate in (0..400_000u32).chain([13_000_000, 100_000_000, 2_000_000_001, u32::MAX]) {
        assert_eq!(resampler_allowance(rate), (rate as f32 * 0.025) as u32, "{rate}");
        if rate <= 13_000_000 {
            assert_eq!(resampler_allowance(rate), rate / 40);
        }
    }
}

#[test]
fn chunks_are_ten_milliseconds_and_never_empty() {
    assert_eq!(chunk_at(48_000), 480);
    assert_eq!(chunk_at(44_100), 441);
    assert_eq!(chunk_at(99), 1);
}

/// A failed encode or decode gives a frame of silence.
#[test]
fn failed_sbc_frames_are_silent() {
    let mut codec = SbcCodec::new(44_100, 2, 256, SbcQuality::High);
    let good = echo(vec![16384; 256]);
    codec.accept_frame(&good);
    assert_eq!(codec.sbc_out[0].len(), 128);
    assert_eq!(to_float(codec.sbc_out[1][127]), 0.5);
    for (encoded_len, written, consumed, decoded) in
        [(0, 100, 100, 512), (100, 0, 100, 512), (-1, 1, 1, 512), (100, 100, 0, 512), (9, 9, 9, 0)]
    {
        let report = SbcReport { encoded_len, written, consumed, decoded, pcm: vec![16384; 256] };
        codec.accept_frame(&report);
        assert_eq!(to_float(*codec.sbc_out[0].back().unwrap()), 0.0);
    }
    assert_eq!(codec.sbc_out[0].len(), 6 * 128);
}

/// At 44.1 kHz, with a codec that changes nothing, the output is the quantised
/// input behind the pre-filled silence.
#[test]
fn sbc_frames_come_out_in_order() {
    let mut codec = SbcCodec::new(44_100, 2, 128, SbcQuality::Low);
    let mut link = Link::own(44_100, 44_100);
    let mut heard = Vec::new();
    for k in 0..10usize {
        let channel: Vec<f32> = (0..128).map(|s| (k * 128 + s) as f32 / 4096.0).collect();
        let mut block = to_block(&[channel.clone(), channel]);
        run_sbc(&mut codec, &mut link, &mut block, 128);
        heard.extend(block[0].iter().map(|v| to_float(*v)));
    }
    assert!(heard[..512].iter().all(|v| *v == 0.0));
    for (i, v) in heard[512..].iter().enumerate() {
        let expected = ((i as f32 / 4096.0 * 32767.0) as i16) as f32 / 32768.0;
        assert_eq!(*v, expected);
    }
}

#[test]
fn fold_down_takes_the_mean() {
    let ring = |v: &[f32]| v.iter().map(|x| to_sample(*x)).collect::<VecDeque<Sample>>();
    let mut out = ring(&[9.0]);
    fold_down(&mut out, &ring(&[1.0, 0.5, 0.25]), &ring(&[0.0, 0.5]));
    let floats: Vec<f32> = out.iter().map(|v| to_float(*v)).collect();
    assert_eq!(floats, vec![9.0, 0.5, 0.5, 0.25]);
}

#[test]
fn lc3_frames_that_fail_are_silent() {
    let mut ring: VecDeque<Sample> = VecDeque::new();
    play_frame(&mut ring, Some(&vec![-32768i16; 480]));
    play_frame(&mut ring, None);
    assert_eq!(ring.len(), 960);
    assert_eq!(to_float(ring[479]), -1.0);
    assert_eq!(to_float(ring[480]), 0.0);
}

/// The low-power preset plays the same on both channels; the high-quality one
/// keeps them apart.
#[test]
fn lc3_presets_fold_or_keep_channels() {
    for (quality, same) in [(Lc3Quality::Low64, true), (Lc3Quality::High160, false)] {
        let mut codec = Lc3Codec::new(48_000, 2, 256, quality);
        let mut link = Link::own(48_000, 48_000);
        let mut equal = true;
        for k in 0..60usize {
            let tone = |f: f32| -> Vec<f32> {
                (0..256).map(|s| ((k * 256 + s) as f32 * f).sin() * 0.4).collect()
            };
            let mut block = to_block(&[tone(0.05), tone(0.13)]);
            run_lc3(&mut codec, &mut link, &mut block, 256);
            equal = equal && block[0] == block[1];
        }
        assert_eq!(equal, same);
    }
}

/// A mono host has one channel throughout; the stereo preset feeds both codec
/// channels from it.
#[test]
fn lc3_takes_a_mono_host() {
    for quality in [Lc3Quality::Low64, Lc3Quality::High160] {
        let mut codec = Lc3Codec::new(48_000, 1, 256, quality);
        let mut link = Link::own(48_000, 48_000);
        let mut peak_seen = 0.0f32;
        for k in 0..60usize {
            let tone: Vec<f32> =
                (0..256).map(|s| ((k * 256 + s) as f32 * 0.05).sin() * 0.4).collect();
            let mut block = to_block(&[tone]);
            run_lc3(&mut codec, &mut link, &mut block, 256);
            peak_seen = peak_seen.max(peak(&block));
        }
        assert!(peak_seen > 0.2, "{quality:?}: {peak_seen}");
    }
}

#[test]
fn sbc_settings_are_those_of_a2dp() {
    let high = sbc_settings(2, SbcQuality::High);
    assert_eq!((high.sample_rate, high.subbands, high.blocks), (44_100, 8, 16));
    assert_eq!(high.allocation, SbcAllocation::Snr);
    assert_eq!((high.mode, high.bitpool), (SbcMode::JointStereo, 53));
    let low = sbc_settings(1, SbcQuality::Low);
    assert_eq!((low.mode, low.bitpool), (SbcMode::Mono, 19));
}

/// A block with fewer channels than the host announced fills those it has.
#[test]
fn a_block_may_have_fewer_channels() {
    let mut sbc = SbcCodec::new(44_100, 2, 256, SbcQuality::High);
    let before = sbc.host_out[1].len();
    let mut block = to_block(&[vec![0.5; 64]]);
    run_sbc(&mut sbc, &mut Link::own(44_100, 44_100), &mut block, 64);
    assert_eq!((sbc.sbc_in[0].len(), sbc.sbc_in[1].len()), (64, 0));
    assert_eq!(sbc.host_out[1].len(), before);
    let mut lc3 = Lc3Codec::new(48_000, 2, 256, Lc3Quality::High160);
    let before = (lc3.host_out[0].len(), lc3.host_out[1].len());
    let mut block = to_block(&[vec![0.5; 64]]);
    run_lc3(&mut lc3, &mut Link::own(48_000, 48_000), &mut block, 64);
    assert_eq!((lc3.host_out[0].len(), lc3.host_out[1].len()), (before.0 - 64, before.1));
}

/// A Bluetooth AAC link is set up between the host's rate and 44.1 kHz.
#[test]
fn an_aac_link_is_set_up_for_the_host() {
    let (there, back) =
        (Some(BuiltResampler { output_delay: 5 }), Some(BuiltResampler { output_delay: 6 }));
    let link = AacBtCodec::new(96_000, 2, 256, 128, there, back);
    let p = &link.inner.chain.pipeline;
    assert_eq!((p.host_rate, p.encode_rate, p.decode_rate), (96_000, 44_100, 44_100));
    assert_eq!((p.h2i, p.i2h), (there, back));
    assert!(link.inner.chain.codec.is_none());
}

/// The SBC and LC3 presets take a block with fewer channels through the cascade
/// too.
#[test]
fn presets_but_aac_take_fewer_channels() {
    for protocol in [
        BluetoothProtocol::SbcLow,
        BluetoothProtocol::SbcHigh,
        BluetoothProtocol::Lc3_64,
        BluetoothProtocol::Lc3_160,
    ] {
        let rate = Link::for_protocol(44_100, protocol).to_codec.map_or(44_100, |_| 48_000);
        let mut bt = BluetoothProcessor::new();
        bt.initialize(rate, 2, 256);
        let mut block = to_block(&[vec![0.5; 64]]);
        let start = BtEvent::Block(BlockEvent::Start);
        let r = bt.process(&mut block, 64, start, protocol, None, None);
        assert!(matches!(r, BtAction::Block(BlockAction::Done)));
        assert!(block[0].iter().all(|v| to_float(*v) == 0.0));
    }
}
