use audioadapter_buffers::direct::SequentialSliceOfVecs;
use rubato::{Fft, FixedSync, Resampler};
use streaming_simulator::platforms::{Codec, CodecSpec};
use streaming_simulator::processor::bluetooth::sbc::{BtAction, BtEvent, SbcReport};
use streaming_simulator::processor::bluetooth::{BluetoothProcessor, BluetoothProtocol};
use streaming_simulator::processor::fm_mpx::{MpxAction, MpxEvent};
use streaming_simulator::processor::fm_radio::{FmAction, FmEvent, FmRadioProcessor};
use streaming_simulator::processor::mp3::{DecodeReport, Mp3Action, Mp3Event, Mp3Processor};
use streaming_simulator::processor::opus::{OpusAction, OpusEvent, OpusOutcome, OpusProcessor};
use streaming_simulator::processor::pipeline::{
    plan_resampler, BlockAction, BlockEvent, BuiltResampler,
};
use streaming_simulator::processor::pump::chunk_at;
use streaming_simulator::processor::vorbis::{VorbisAction, VorbisEvent, VorbisProcessor};
use streaming_simulator::sample::Sample;
use streaming_simulator::simulator::{
    CodecAction, CodecEvent, HostResamplers, SimAction, SimEvent, StreamingSimulator,
};

fn to_sample(v: f32) -> Sample {
    Sample { bits: v.to_bits() }
}

fn to_float(v: Sample) -> f32 {
    f32::from_bits(v.bits)
}

/// A rubato resampler that takes and gives bit patterns.
struct Rig {
    fft: Fft<f32>,
    chunk: usize,
    channels: usize,
}

impl Rig {
    fn new(rate_in: u32, rate_out: u32, chunk: usize, channels: usize) -> Option<Rig> {
        let fft = Fft::<f32>::new(
            rate_in as usize,
            rate_out as usize,
            chunk,
            2,
            channels,
            FixedSync::Input,
        )
        .ok()?;
        Some(Rig { fft, chunk, channels })
    }

    /// The resampler that a pipeline asks for between two rates.
    fn between(rate_in: u32, rate_out: u32, channels: usize) -> Option<Rig> {
        let plan = plan_resampler(rate_in, rate_out, channels)?;
        Rig::new(plan.rate_in, plan.rate_out, plan.chunk, plan.channels)
    }

    fn facts(&self) -> BuiltResampler {
        BuiltResampler { output_delay: self.fft.output_delay() as u32 }
    }

    fn run(&mut self, chunk: &[Vec<Sample>]) -> (Vec<Vec<Sample>>, usize) {
        let input: Vec<Vec<f32>> =
            chunk.iter().map(|ch| ch.iter().map(|v| to_float(*v)).collect()).collect();
        let max = self.fft.output_frames_max();
        let mut output: Vec<Vec<f32>> = vec![vec![0.0; max]; self.channels];
        let produced = {
            let reader = SequentialSliceOfVecs::new(&input, self.channels, self.chunk).unwrap();
            let mut writer =
                SequentialSliceOfVecs::new_mut(&mut output, self.channels, max).unwrap();
            self.fft
                .process_into_buffer(&reader, &mut writer, None)
                .map(|(_, out)| out)
                .unwrap_or(0)
        };
        let out = output.iter().map(|ch| ch.iter().map(|v| to_sample(*v)).collect()).collect();
        (out, produced)
    }
}

fn facts(rig: &Option<Rig>) -> Option<BuiltResampler> {
    rig.as_ref().map(|r| r.facts())
}

fn to_block(planar: &[Vec<f32>]) -> Vec<Vec<Sample>> {
    planar.iter().map(|ch| ch.iter().map(|v| to_sample(*v)).collect()).collect()
}

fn peak(planar: &[Vec<Sample>]) -> f32 {
    planar.iter().flatten().fold(0.0f32, |p, v| p.max(to_float(*v).abs()))
}

/// Drives a closure with a stereo sine, block by block, and gives the peak of
/// what it leaves in the blocks after the warm-up.
fn drive_with_sine(
    rate: u32,
    block_size: usize,
    total_seconds: f32,
    warmup_seconds: f32,
    freq: f32,
    amp: f32,
    mut process_block: impl FnMut(&mut Vec<Vec<Sample>>, usize),
) -> f32 {
    let total = (rate as f32 * total_seconds) as usize;
    let warmup = (rate as f32 * warmup_seconds) as usize;
    let mut observed = 0.0f32;
    let mut cursor = 0usize;
    while cursor + block_size <= total {
        let mut channel: Vec<Sample> = Vec::with_capacity(block_size);
        for s in 0..block_size {
            let t = (cursor + s) as f32 / rate as f32;
            channel.push(to_sample((2.0 * std::f32::consts::PI * freq * t).sin() * amp));
        }
        let mut block = vec![channel.clone(), channel];
        process_block(&mut block, block_size);
        if cursor >= warmup {
            observed = observed.max(peak(&block));
        }
        cursor += block_size;
    }
    observed
}

/// The two resamplers of one stage.
struct Pair {
    there: Option<Rig>,
    back: Option<Rig>,
}

impl Pair {
    fn between(host: u32, internal: u32) -> Pair {
        Pair { there: Rig::between(host, internal, 2), back: Rig::between(internal, host, 2) }
    }

    fn short_chunks(host: u32, internal: u32) -> Pair {
        if host == internal {
            return Pair { there: None, back: None };
        }
        Pair {
            there: Rig::new(host, internal, chunk_at(host), 2),
            back: Rig::new(internal, host, chunk_at(internal), 2),
        }
    }

    fn answer(&mut self, action: BlockAction) -> BlockEvent {
        match action {
            BlockAction::ResampleInput(chunk) => {
                let (out, produced) = self.there.as_mut().unwrap().run(&chunk);
                BlockEvent::InputResampled { out, produced }
            }
            BlockAction::ResampleOutput(chunk) => {
                let (out, produced) = self.back.as_mut().unwrap().run(&chunk);
                BlockEvent::OutputResampled { out, produced }
            }
            BlockAction::Done => panic!("a finished block needs no answer"),
        }
    }
}

/// The simulator with everything it asks for around it. AAC and LC3 are real;
/// in the place of the other codecs, and of the FM filters, stand ones that
/// change nothing, but for MP3, where every decode gives a frame of a tone.
struct Host {
    sim: StreamingSimulator,
    opus: Pair,
    vorbis: Pair,
    mp3: Pair,
    aac: Pair,
    mpx: Pair,
    bt: Vec<Pair>,
}

fn resamplers(host: u32) -> HostResamplers {
    let mpx = Pair::short_chunks(host, 192_000);
    HostResamplers {
        to_44100: facts(&Rig::between(host, 44_100, 2)),
        from_44100: facts(&Rig::between(44_100, host, 2)),
        to_48000: facts(&Rig::between(host, 48_000, 2)),
        from_48000: facts(&Rig::between(48_000, host, 2)),
        from_22050: facts(&Rig::between(22_050, host, 2)),
        from_24000: facts(&Rig::between(24_000, host, 2)),
        from_32000: facts(&Rig::between(32_000, host, 2)),
        to_192000: facts(&mpx.there),
        from_192000: facts(&mpx.back),
    }
}

impl Host {
    fn fresh(host: u32, channels: usize, max_block: usize) -> Host {
        let mut sim = StreamingSimulator::default();
        let latency = sim.initialize(host, channels, max_block, resamplers(host));
        assert_eq!(latency, sim.target_latency_samples);
        let bt = (0..6)
            .map(|i| match i {
                0 | 1 => Pair::short_chunks(host, 44_100),
                2 | 3 => Pair::between(host, 44_100),
                _ => Pair::short_chunks(host, 48_000),
            })
            .collect();
        Host {
            sim,
            opus: Pair::between(host, 48_000),
            vorbis: Pair::between(host, 44_100),
            mp3: Pair::between(host, 44_100),
            aac: Pair::between(host, 44_100),
            mpx: Pair::short_chunks(host, 192_000),
            bt,
        }
    }

    fn codec_event(&mut self, action: CodecAction) -> CodecEvent {
        match action {
            CodecAction::Opus(OpusAction::SetBitrate(bps)) => {
                CodecEvent::Opus(OpusEvent::BitrateTried { bps, accepted: true })
            }
            CodecAction::Opus(OpusAction::Code(frame)) => {
                let outcome = OpusOutcome::Decoded(frame.clone());
                CodecEvent::Opus(OpusEvent::Coded { frame, outcome })
            }
            CodecAction::Opus(OpusAction::Block(a)) => {
                CodecEvent::Opus(OpusEvent::Block(self.opus.answer(a)))
            }
            CodecAction::Vorbis(VorbisAction::OpenCodec(_)) => {
                CodecEvent::Vorbis(VorbisEvent::CodecTried { opened: true })
            }
            CodecAction::Vorbis(VorbisAction::Code(pending)) => {
                CodecEvent::Vorbis(VorbisEvent::Coded(vec![pending]))
            }
            CodecAction::Vorbis(VorbisAction::Block(a)) => {
                CodecEvent::Vorbis(VorbisEvent::Block(self.vorbis.answer(a)))
            }
            CodecAction::Mp3(Mp3Action::OpenCodec(kbps)) => {
                assert!(self.sim.begin_mp3_codec(kbps).is_some());
                self.sim.finish_mp3_codec(kbps, 44_100, facts(&self.mp3.back));
                CodecEvent::Mp3(Mp3Event::CodecTried)
            }
            CodecAction::Mp3(Mp3Action::Decode) => {
                let pcm = (0..2304).map(|i| if i % 64 < 32 { 9000 } else { -9000 }).collect();
                let report = DecodeReport { pcm, samples: 1152, channels: 2, frame_bytes: 417 };
                CodecEvent::Mp3(Mp3Event::Decoded(report))
            }
            CodecAction::Mp3(Mp3Action::Block(a)) => {
                CodecEvent::Mp3(Mp3Event::Block(self.mp3.answer(a)))
            }
            CodecAction::Aac(a) => CodecEvent::Aac(self.aac.answer(a)),
            CodecAction::Fm(FmAction::Mpx(MpxAction::Upsample(chunk))) => {
                let (out, produced) = self.mpx.there.as_mut().unwrap().run(&chunk);
                CodecEvent::Fm(FmEvent::Mpx(MpxEvent::Upsampled { out, produced }))
            }
            CodecAction::Fm(FmAction::Mpx(MpxAction::Downsample(chunk))) => {
                let (out, produced) = self.mpx.back.as_mut().unwrap().run(&chunk);
                CodecEvent::Fm(FmEvent::Mpx(MpxEvent::Downsampled { out, produced }))
            }
            CodecAction::Fm(FmAction::Mpx(MpxAction::Transmit(both))) => {
                CodecEvent::Fm(FmEvent::Mpx(MpxEvent::Transmitted(both)))
            }
            CodecAction::Fm(FmAction::Finish(both)) => CodecEvent::Fm(FmEvent::Finished(both)),
            CodecAction::Fm(other) => match other {
                FmAction::Condition { .. } => panic!("answered where the block is at hand"),
                _ => panic!("a finished block needs no answer"),
            },
        }
    }

    fn dispatch(
        &mut self,
        block: &mut Vec<Vec<Sample>>,
        n: usize,
        bypass: bool,
        codec: Codec,
        bt_enabled: bool,
        protocol: BluetoothProtocol,
    ) {
        let mut event = SimEvent::Codec(CodecEvent::Start { opus_opened: true });
        loop {
            let action =
                self.sim.dispatch_buffer(block, n, event, bypass, codec, bt_enabled, protocol);
            event = match action {
                SimAction::Done => return,
                SimAction::Codec(CodecAction::Fm(FmAction::Condition { .. })) => {
                    let both = vec![block[0].clone(), block[1].clone()];
                    SimEvent::Codec(CodecEvent::Fm(FmEvent::Conditioned(both)))
                }
                SimAction::Codec(action) => SimEvent::Codec(self.codec_event(action)),
                SimAction::Bluetooth(BtAction::Code(pcm)) => {
                    let decoded = pcm.len() * 2;
                    let report =
                        SbcReport { encoded_len: 1, written: 1, consumed: 1, decoded, pcm };
                    SimEvent::Bluetooth(BtEvent::Coded(report))
                }
                SimAction::Bluetooth(BtAction::Block(action)) => {
                    let pair = &mut self.bt[protocol.to_index()];
                    SimEvent::Bluetooth(BtEvent::Block(pair.answer(action)))
                }
            };
        }
    }
}

#[test]
fn default_state_is_lazy() {
    let sim = StreamingSimulator::default();
    assert!(sim.opus.is_none());
    assert!(sim.vorbis.is_none());
    assert!(sim.mp3.is_none());
    assert!(sim.fm_radio.is_none());
    assert!(sim.bluetooth.is_none());
    assert!(sim.aac.is_none());
    assert!(sim.heaac_v1.is_none());
    assert!(sim.heaac.is_none());
}

#[test]
fn initialize_caches_host_config() {
    let sim = Host::fresh(48_000, 2, 256).sim;
    assert_eq!(sim.host_sample_rate, 48_000);
    assert_eq!(sim.host_channels, 2);
    assert_eq!(sim.host_max_block_size, 256);
    assert!(sim.target_latency_samples > 0);
}

#[test]
fn target_latency_at_least_each_codec_worst_case() {
    let sim = Host::fresh(48_000, 2, 256).sim;
    let r = resamplers(48_000);
    let target = sim.target_latency_samples;
    assert!(target >= OpusProcessor::worst_case_latency_at(48_000, 2, r.to_48000, r.from_48000));
    assert!(target >= VorbisProcessor::worst_case_latency_at(48_000, 2, r.to_44100, r.from_44100));
    assert!(target >= Mp3Processor::worst_case_latency_at(48_000, 2, r.to_44100, r.outs()));
    assert!(
        target >= FmRadioProcessor::worst_case_latency_at(48_000, 2, r.to_192000, r.from_192000)
    );
    assert!(
        target >= BluetoothProcessor::worst_case_latency_at(48_000, 2, r.to_44100, r.from_44100)
    );
}

#[test]
fn reset_on_uninitialized_is_noop() {
    let mut sim = StreamingSimulator::default();
    sim.reset();
}

#[test]
fn ensure_opus_is_idempotent() {
    let mut sim = Host::fresh(48_000, 2, 256).sim;
    sim.ensure_opus(true);
    sim.opus.as_mut().unwrap().note_bitrate(77_000, true);
    sim.ensure_opus(true);
    let bps = sim.opus.as_ref().unwrap().current_bitrate_bps;
    assert_eq!(bps, 77_000, "ensure_opus must keep the same processor");
}

#[test]
fn ensure_helpers_are_lazy() {
    let mut sim = Host::fresh(48_000, 2, 256).sim;
    assert!(sim.opus.is_none());
    sim.ensure_opus(true);
    assert!(sim.opus.is_some());
    assert!(sim.vorbis.is_none());
    assert!(sim.mp3.is_none());
    assert!(sim.fm_radio.is_none());
}

/// Run a sine through the simulator with the given codec and return the
/// post-warmup peak.
fn dispatch_peak(codec: Codec, host_rate: u32) -> f32 {
    let mut host = Host::fresh(host_rate, 2, 256);
    drive_with_sine(host_rate, 256, 3.0, 0.5, 440.0, 0.5, |b, n| {
        host.dispatch(b, n, false, codec, false, BluetoothProtocol::SbcHigh)
    })
}

fn first_codec(wanted: impl Fn(CodecSpec) -> bool) -> Codec {
    (0..Codec::COUNT)
        .map(|i| Codec::from_index(i).unwrap())
        .find(|c| wanted(c.def().spec))
        .expect("at least one such tier in the catalog")
}

#[test]
fn dispatch_bypass_codec_passes_audio() {
    let p = dispatch_peak(Codec::SpotifyLossless, 48_000);
    assert!(p > 0.05, "Bypass dispatch produced near-silent output ({p:.3})");
}

#[test]
fn dispatch_opus_codec_passes_audio() {
    let p = dispatch_peak(Codec::YtMusicLowWeb, 48_000);
    assert!(p > 0.05, "Opus dispatch produced near-silent output ({p:.3})");
}

#[test]
fn dispatch_vorbis_codec_passes_audio() {
    let p = dispatch_peak(Codec::SpotifyHigh, 48_000);
    assert!(p > 0.05, "Vorbis dispatch produced near-silent output ({p:.3})");
}

#[test]
fn dispatch_mp3_codec_passes_audio() {
    let p = dispatch_peak(Codec::DeezerStandard, 48_000);
    assert!(p > 0.05, "MP3 dispatch produced near-silent output ({p:.3})");
}

#[test]
fn dispatch_aac_codec_passes_audio() {
    let p = dispatch_peak(Codec::TidalLow, 48_000);
    assert!(p > 0.05, "AAC dispatch produced near-silent output ({p:.3})");
}

#[test]
fn dispatch_aac_mono_codec_passes_audio() {
    let codec = first_codec(|s| matches!(s, CodecSpec::AacLcMono { .. }));
    let p = dispatch_peak(codec, 48_000);
    assert!(p > 0.05, "AacLcMono dispatch produced near-silent output ({p:.3})");
}

#[test]
fn dispatch_he_aac_v1_codec_passes_audio() {
    let p = dispatch_peak(Codec::AppleMusicHighEfficiency, 48_000);
    assert!(p > 0.05, "HE-AAC v1 dispatch produced near-silent output ({p:.3})");
}

#[test]
fn dispatch_he_aac_v2_codec_passes_audio() {
    let p = dispatch_peak(Codec::SpotifyLow, 48_000);
    assert!(p > 0.05, "HE-AAC v2 dispatch produced near-silent output ({p:.3})");
}

#[test]
fn dispatch_fm_radio_codec_passes_audio() {
    let codec = first_codec(|s| matches!(s, CodecSpec::FmRadio { .. }));
    let p = dispatch_peak(codec, 48_000);
    assert!(p > 0.05, "FmRadio dispatch produced near-silent output ({p:.3})");
}

/// Lossless tier + BT enabled must build the BT processor.
#[test]
fn bluetooth_runs_on_top_of_lossless_tier() {
    let mut host = Host::fresh(48_000, 2, 256);
    let mut block = to_block(&vec![vec![0.0; 256]; 2]);
    let codec = Codec::SpotifyLossless;
    host.dispatch(&mut block, 256, false, codec, true, BluetoothProtocol::SbcHigh);
    assert!(host.sim.bluetooth.is_some(), "BT must engage on a lossless tier");
}

/// Plugin-wide bypass *does* suppress BT (bypass means "no processing").
#[test]
fn plugin_bypass_suppresses_bluetooth() {
    let mut host = Host::fresh(48_000, 2, 256);
    let mut block = to_block(&vec![vec![0.0; 256]; 2]);
    let codec = Codec::SpotifyHigh;
    host.dispatch(&mut block, 256, true, codec, true, BluetoothProtocol::SbcHigh);
    assert!(host.sim.bluetooth.is_none(), "BT must not run while bypassed");
}

#[test]
fn bypass_routes_audio_through_passthrough() {
    let mut host = Host::fresh(48_000, 2, 256);
    let p = drive_with_sine(48_000, 256, 3.0, 0.5, 440.0, 0.5, |b, n| {
        host.dispatch(b, n, true, Codec::SpotifyHigh, false, BluetoothProtocol::SbcHigh)
    });
    assert!(p > 0.05, "bypass route produced near-silent output ({p:.3})");
}

#[test]
fn bluetooth_cascade_runs_when_enabled() {
    let mut host = Host::fresh(48_000, 2, 256);
    let off = drive_with_sine(48_000, 256, 2.0, 0.5, 440.0, 0.5, |b, n| {
        host.dispatch(b, n, false, Codec::SpotifyHigh, false, BluetoothProtocol::SbcLow)
    });
    assert!(host.sim.bluetooth.is_none(), "BT must not be built when bt_enabled=false");
    let mut host = Host::fresh(48_000, 2, 256);
    let on = drive_with_sine(48_000, 256, 2.0, 0.5, 440.0, 0.5, |b, n| {
        host.dispatch(b, n, false, Codec::SpotifyHigh, true, BluetoothProtocol::SbcLow)
    });
    assert!(host.sim.bluetooth.is_some(), "BT must be built when bt_enabled=true");
    assert!(off > 0.05, "BT-off peak {off:.3} too low");
    assert!(on > 0.05, "BT-on peak {on:.3} too low");
}

#[test]
fn every_bluetooth_protocol_dispatches_without_panic() {
    let mut host = Host::fresh(48_000, 2, 256);
    for i in 0..BluetoothProtocol::COUNT {
        let proto = BluetoothProtocol::from_index(i).unwrap();
        let mut block = to_block(&vec![vec![0.0; 256]; 2]);
        host.dispatch(&mut block, 256, false, Codec::SpotifyHigh, true, proto);
        // The first block is allowed to be silent (warm-up).
        let _ = peak(&block);
    }
}

#[test]
fn reset_after_dispatch_does_not_panic() {
    let mut host = Host::fresh(48_000, 2, 256);
    let mut block = to_block(&vec![vec![0.0; 256]; 2]);
    let codec = Codec::SpotifyHigh;
    host.dispatch(&mut block, 256, false, codec, false, BluetoothProtocol::SbcHigh);
    assert!(host.sim.vorbis.is_some(), "vorbis should be built after dispatch");
    host.sim.reset();
    assert!(host.sim.vorbis.is_some());
    assert_eq!(host.sim.last_dispatched_codec, None);
}

/// Bypass is the input, exactly as late as was reported, sample for sample,
/// whatever codec runs underneath and across codec switches.
#[test]
fn bypass_is_an_exact_delay() {
    let mut host = Host::fresh(44_100, 2, 100);
    let target = host.sim.target_latency_samples as usize;
    let codecs = [Codec::SpotifyHigh, Codec::TidalLow, Codec::TidalLossless, Codec::DeezerBasic];
    let mut heard: Vec<f32> = Vec::new();
    let blocks = target / 100 + 20;
    for k in 0..blocks {
        let left: Vec<f32> = (0..100).map(|s| (k * 100 + s + 1) as f32).collect();
        let right: Vec<f32> = left.iter().map(|v| -v).collect();
        let mut block = to_block(&[left, right]);
        let codec = codecs[k % codecs.len()];
        host.dispatch(&mut block, 100, true, codec, true, BluetoothProtocol::Lc3_160);
        heard.extend(block[0].iter().map(|v| to_float(*v)));
        assert_eq!(host.sim.bypass_delay[0].len(), target);
    }
    assert!(heard[..target].iter().all(|v| *v == 0.0));
    for (i, v) in heard[target..].iter().enumerate() {
        assert_eq!(*v, (i + 1) as f32);
    }
}

/// Every processor that is built is padded to the plugin's latency.
#[test]
fn every_slot_is_aligned_to_the_reported_latency() {
    for host_rate in [44_100u32, 48_000, 96_000] {
        let mut sim = Host::fresh(host_rate, 2, 256).sim;
        sim.ensure_opus(true);
        sim.ensure_vorbis();
        sim.ensure_mp3();
        sim.ensure_aac();
        sim.ensure_heaac_v1();
        sim.ensure_heaac_v2();
        sim.ensure_fm_radio();
        let target = sim.target_latency_samples;
        assert_eq!(sim.opus.as_ref().unwrap().latency_samples(), target);
        assert_eq!(sim.vorbis.as_ref().unwrap().latency_samples(), target);
        assert_eq!(sim.mp3.as_ref().unwrap().latency_samples(), target);
        assert_eq!(sim.aac.as_ref().unwrap().latency_samples(), target);
        assert_eq!(sim.heaac_v1.as_ref().unwrap().latency_samples(), target);
        assert_eq!(sim.heaac.as_ref().unwrap().latency_samples(), target);
        let fm = sim.fm_radio.as_ref().unwrap();
        assert_eq!(fm.delay_len as u32 + fm.mpx.latency_host_samples(), target);
    }
}

/// Coming back to a codec starts it afresh; staying on it does not.
#[test]
fn a_codec_switch_resets_the_new_codec_only() {
    let mut host = Host::fresh(44_100, 2, 256);
    let loud = || to_block(&vec![vec![0.5; 256]; 2]);
    let bt = BluetoothProtocol::SbcHigh;
    let aac = Codec::TidalLow;
    let vorbis = Codec::SpotifyHigh;
    for _ in 0..8 {
        host.dispatch(&mut loud(), 256, false, aac, false, bt);
    }
    assert!(host.sim.aac.as_ref().unwrap().chain.codec.is_some());
    host.dispatch(&mut loud(), 256, false, vorbis, false, bt);
    assert!(host.sim.aac.as_ref().unwrap().chain.codec.is_some());
    let pending = host.sim.vorbis.as_ref().unwrap().samples_to_discard;
    host.dispatch(&mut loud(), 256, false, vorbis, false, bt);
    assert!(host.sim.vorbis.as_ref().unwrap().samples_to_discard < pending);
    // One block of a switch back: the output ring holds silence again.
    let mut block = loud();
    host.dispatch(&mut block, 256, false, aac, false, bt);
    assert_eq!(peak(&block), 0.0);
    let queue = &host.sim.aac.as_ref().unwrap().chain.pipeline.host_output[0];
    assert_eq!(queue.len(), host.sim.target_latency_samples as usize - 256);
    assert!(queue.iter().all(|v| to_float(*v) == 0.0));
}

/// The codec runs while bypassed, so its pipeline is warm when bypass ends.
#[test]
fn the_codec_stays_warm_under_bypass() {
    let mut host = Host::fresh(44_100, 2, 256);
    let p = drive_with_sine(44_100, 256, 0.6, 0.0, 440.0, 0.5, |b, n| {
        host.dispatch(b, n, true, Codec::TidalLow, false, BluetoothProtocol::SbcHigh)
    });
    assert!(p > 0.4);
    let mut block = to_block(&vec![vec![0.0; 256]; 2]);
    host.dispatch(&mut block, 256, false, Codec::TidalLow, false, BluetoothProtocol::SbcHigh);
    assert!(peak(&block) > 0.05, "first block after bypass is stale");
}

/// With nothing but a lossless tier, the parameters of the plugin route the dry
/// signal.
#[test]
fn process_follows_the_parameters() {
    let mut sim = Host::fresh(44_100, 2, 16).sim;
    sim.params.codec = Codec::TidalLossless;
    let target = sim.target_latency_samples as usize;
    let mut heard = Vec::new();
    for k in 0..(target / 16 + 4) {
        let channel: Vec<f32> = (0..16).map(|s| (k * 16 + s + 1) as f32).collect();
        let mut block = to_block(&[channel.clone(), channel]);
        let event = SimEvent::Codec(CodecEvent::Start { opus_opened: false });
        assert!(matches!(sim.process(&mut block, 16, event), SimAction::Done));
        heard.extend(block[1].iter().map(|v| to_float(*v)));
    }
    assert_eq!(heard[target - 1], 0.0);
    assert_eq!(heard[target], 1.0);
}

#[test]
fn unsupported_channel_counts_leave_processors_unready() {
    let mut sim = StreamingSimulator::default();
    sim.initialize(48_000, 7, 256, resamplers(48_000));
    sim.ensure_aac();
    sim.ensure_bluetooth();
    assert!(!sim.aac.as_ref().unwrap().chain.pipeline.ready);
    assert!(!sim.bluetooth.as_ref().unwrap().ready);
    let mut block = to_block(&vec![vec![0.25; 8]; 7]);
    let event = SimEvent::Codec(CodecEvent::Start { opus_opened: true });
    let bt = BluetoothProtocol::SbcLow;
    let action = sim.dispatch_buffer(&mut block, 8, event, false, Codec::TidalLow, true, bt);
    assert!(matches!(action, SimAction::Done));
    assert_eq!(to_float(block[6][7]), 0.25);
}

/// Every slot is built for the host's rate, with the host's resamplers.
#[test]
fn slots_are_built_for_the_host() {
    let r = resamplers(96_000);
    let mut sim = Host::fresh(96_000, 2, 256).sim;
    sim.ensure_opus(true);
    sim.ensure_vorbis();
    sim.ensure_mp3();
    sim.ensure_aac();
    sim.ensure_fm_radio();
    let opus = &sim.opus.as_ref().unwrap().pipeline;
    assert_eq!((opus.host_rate, opus.encode_rate), (96_000, 48_000));
    assert_eq!((opus.h2i, opus.i2h), (r.to_48000, r.from_48000));
    for p in [
        &sim.vorbis.as_ref().unwrap().pipeline,
        &sim.mp3.as_ref().unwrap().pipeline,
        &sim.aac.as_ref().unwrap().chain.pipeline,
    ] {
        assert_eq!((p.host_rate, p.encode_rate, p.decode_rate), (96_000, 44_100, 44_100));
        assert_eq!((p.h2i, p.i2h), (r.to_44100, r.from_44100));
    }
    let fm = sim.fm_radio.as_ref().unwrap();
    assert_eq!(fm.sample_rate, 96_000);
    assert_eq!((fm.mpx.h2m, fm.mpx.m2h), (r.to_192000, r.from_192000));
}

/// Bypass and lossless tiers, mixed over blocks of many sizes, are one delay.
#[test]
fn dry_routes_are_one_delay_over_a_series() {
    let mut host = Host::fresh(48_000, 2, 512);
    let latency = host.sim.target_latency_samples as usize;
    let routes = [
        (true, Codec::TidalLow),
        (false, Codec::TidalLossless),
        (true, Codec::SpotifyLossless),
        (false, Codec::DeezerHiFi),
    ];
    let (mut fed, mut heard) = (Vec::new(), Vec::new());
    for k in 0..120usize {
        let n = [512, 1, 300, 64, 511][k % 5];
        let (bypass, codec) = routes[k % 4];
        let channel: Vec<f32> = (0..n).map(|s| (fed.len() + s + 1) as f32).collect();
        fed.extend(channel.iter().copied());
        let mut block = to_block(&[channel.clone(), channel]);
        host.dispatch(&mut block, n, bypass, codec, false, BluetoothProtocol::SbcHigh);
        heard.extend(block[1].iter().map(|v| to_float(*v)));
    }
    assert!(fed.len() > latency);
    let mut expected = vec![0.0; latency];
    expected.extend(fed.iter().copied());
    expected.truncate(fed.len());
    assert_eq!(heard, expected);
}

/// The codec's state does not depend on the bypass switch.
#[test]
fn bypass_leaves_the_codec_s_state_alone() {
    let run = |bypass: bool| {
        let mut host = Host::fresh(48_000, 2, 256);
        for k in 0..40 {
            let channel: Vec<f32> = (0..256).map(|s| ((k * 256 + s) as f32 * 0.05).sin()).collect();
            let mut block = to_block(&[channel.clone(), channel]);
            let codec = Codec::SpotifyHigh;
            host.dispatch(&mut block, 256, bypass, codec, false, BluetoothProtocol::SbcHigh);
        }
        let p = host.sim.vorbis.unwrap();
        let rings = [
            p.pipeline.host_input,
            p.pipeline.internal_input,
            p.pipeline.internal_output,
            p.pipeline.host_output,
        ];
        (rings, p.samples_to_discard, host.sim.bypass_delay, host.sim.last_dispatched_codec)
    };
    assert!(run(true) == run(false));
}

/// Coming back to a tier, nothing of the earlier visit is heard.
#[test]
fn a_tier_change_leaves_no_trace() {
    let run = |loud: f32| {
        let mut host = Host::fresh(44_100, 2, 256);
        let mut heard = Vec::new();
        let mut play = |host: &mut Host, codec, amp: f32, blocks: usize| {
            heard.clear();
            for _ in 0..blocks {
                let mut block = to_block(&[vec![amp; 256], vec![amp; 256]]);
                host.dispatch(&mut block, 256, false, codec, false, BluetoothProtocol::SbcHigh);
                heard.extend(block[0].iter().map(|v| v.bits));
            }
        };
        play(&mut host, Codec::SpotifyHigh, loud, 60);
        play(&mut host, Codec::SpotifyLossless, 0.0, 1);
        assert!(matches!(
            host.sim.reset_before(Codec::SpotifyHigh),
            Some(CodecSpec::Vorbis { bitrate_kbps: 160 })
        ));
        play(&mut host, Codec::SpotifyHigh, 0.125, 60);
        assert!(host.sim.reset_before(Codec::SpotifyHigh).is_none());
        heard
    };
    let quiet = run(0.0);
    assert!(quiet.iter().any(|v| f32::from_bits(*v) == 0.125));
    assert_eq!(run(0.75), quiet);
}
