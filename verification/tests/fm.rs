use audioadapter_buffers::direct::SequentialSliceOfVecs;
use rubato::{Fft, FixedSync, Resampler};
use streaming_simulator::processor::fm_mpx::{
    FmReception, Impairment, MpxAction, MpxEvent, MpxPipeline, MPX_RATE,
};
use streaming_simulator::processor::fm_radio::{
    Clipper, FmAction, FmEvent, FmRadioMode, FmRadioProcessor, FmRadioVariant, FmRegion,
};
use streaming_simulator::processor::pipeline::BuiltResampler;
use streaming_simulator::processor::pump::chunk_at;
use streaming_simulator::sample::Sample;

fn to_sample(v: f32) -> Sample {
    Sample { bits: v.to_bits() }
}

fn to_float(v: Sample) -> f32 {
    f32::from_bits(v.bits)
}

/// A rubato resampler that takes and gives bit patterns.
struct Rig {
    fft: Fft<f32>,
    chunk: usize,
    channels: usize,
}

impl Rig {
    fn new(rate_in: u32, rate_out: u32, chunk: usize, channels: usize) -> Option<Rig> {
        let fft = Fft::<f32>::new(
            rate_in as usize,
            rate_out as usize,
            chunk,
            2,
            channels,
            FixedSync::Input,
        )
        .ok()?;
        Some(Rig { fft, chunk, channels })
    }

    fn facts(&self) -> BuiltResampler {
        BuiltResampler { output_delay: self.fft.output_delay() as u32 }
    }

    fn run(&mut self, chunk: &[Vec<Sample>]) -> (Vec<Vec<Sample>>, usize) {
        let input: Vec<Vec<f32>> =
            chunk.iter().map(|ch| ch.iter().map(|v| to_float(*v)).collect()).collect();
        let max = self.fft.output_frames_max();
        let mut output: Vec<Vec<f32>> = vec![vec![0.0; max]; self.channels];
        let produced = {
            let reader = SequentialSliceOfVecs::new(&input, self.channels, self.chunk).unwrap();
            let mut writer =
                SequentialSliceOfVecs::new_mut(&mut output, self.channels, max).unwrap();
            self.fft
                .process_into_buffer(&reader, &mut writer, None)
                .map(|(_, out)| out)
                .unwrap_or(0)
        };
        let out = output.iter().map(|ch| ch.iter().map(|v| to_sample(*v)).collect()).collect();
        (out, produced)
    }
}

fn facts(rig: &Option<Rig>) -> Option<BuiltResampler> {
    rig.as_ref().map(|r| r.facts())
}

fn to_block(planar: &[Vec<f32>]) -> Vec<Vec<Sample>> {
    planar.iter().map(|ch| ch.iter().map(|v| to_sample(*v)).collect()).collect()
}

fn peak(planar: &[Vec<Sample>]) -> f32 {
    planar.iter().flatten().fold(0.0f32, |p, v| p.max(to_float(*v).abs()))
}

/// Drives a closure with a stereo sine, block by block, and gives the peak of
/// what it leaves in the blocks after the warm-up.
fn drive_with_sine(
    rate: u32,
    block_size: usize,
    total_seconds: f32,
    warmup_seconds: f32,
    freq: f32,
    amp: f32,
    mut process_block: impl FnMut(&mut Vec<Vec<Sample>>, usize),
) -> f32 {
    let total = (rate as f32 * total_seconds) as usize;
    let warmup = (rate as f32 * warmup_seconds) as usize;
    let mut observed = 0.0f32;
    let mut cursor = 0usize;
    while cursor + block_size <= total {
        let mut channel: Vec<Sample> = Vec::with_capacity(block_size);
        for s in 0..block_size {
            let t = (cursor + s) as f32 / rate as f32;
            channel.push(to_sample((2.0 * std::f32::consts::PI * freq * t).sin() * amp));
        }
        let mut block = vec![channel.clone(), channel];
        process_block(&mut block, block_size);
        if cursor >= warmup {
            observed = observed.max(peak(&block));
        }
        cursor += block_size;
    }
    observed
}

/// The resamplers to and from 192 kHz.
struct Rates {
    up: Option<Rig>,
    down: Option<Rig>,
}

impl Rates {
    fn at(host_rate: u32) -> Rates {
        if host_rate == MPX_RATE {
            return Rates { up: None, down: None };
        }
        Rates {
            up: Rig::new(host_rate, MPX_RATE, chunk_at(host_rate), 2),
            down: Rig::new(MPX_RATE, host_rate, chunk_at(MPX_RATE), 2),
        }
    }

    /// Answers the MPX stage, with a signal path that changes nothing.
    fn answer(&mut self, action: MpxAction) -> Option<MpxEvent> {
        match action {
            MpxAction::Done => None,
            MpxAction::Upsample(chunk) => {
                let (out, produced) = self.up.as_mut().unwrap().run(&chunk);
                Some(MpxEvent::Upsampled { out, produced })
            }
            MpxAction::Transmit(both) => Some(MpxEvent::Transmitted(both)),
            MpxAction::Downsample(chunk) => {
                let (out, produced) = self.down.as_mut().unwrap().run(&chunk);
                Some(MpxEvent::Downsampled { out, produced })
            }
        }
    }
}

fn pump(pipe: &mut MpxPipeline, rates: &mut Rates) {
    let mut event = MpxEvent::Start;
    loop {
        let action = pipe.pump(&event);
        event = match rates.answer(action) {
            Some(event) => event,
            None => return,
        };
    }
}

fn fm_at(host_rate: u32, channels: usize) -> (FmRadioProcessor, Rates) {
    let rates = Rates::at(host_rate);
    let mut proc = FmRadioProcessor::new();
    proc.initialize(host_rate, channels, 256, facts(&rates.up), facts(&rates.down));
    (proc, rates)
}

/// Runs a block with filters and dynamics that change nothing; gives how often
/// the chain asked to be rebuilt.
fn run(
    proc: &mut FmRadioProcessor,
    rates: &mut Rates,
    block: &mut Vec<Vec<Sample>>,
    n: usize,
    mode: FmRadioMode,
) -> usize {
    let mut rebuilt = 0;
    let mut event = FmEvent::Start;
    loop {
        event = match proc.process(block, n, event, mode) {
            FmAction::Done => return rebuilt,
            FmAction::Condition { rebuild } => {
                rebuilt += rebuild as usize;
                let last = block.len() - 1;
                FmEvent::Conditioned(vec![block[0].clone(), block[last].clone()])
            }
            FmAction::Mpx(action) => FmEvent::Mpx(rates.answer(action).unwrap()),
            FmAction::Finish(both) => FmEvent::Finished(both),
        };
    }
}

fn us(reception: FmReception) -> FmRadioMode {
    FmRadioMode::FmRadio { variant: FmRadioVariant { region: FmRegion::Us75us, reception } }
}

/// The pipeline must hand audio through at every common host rate.
#[test]
fn pipeline_emits_audio_at_every_host_rate() {
    for &host_rate in &[44_100u32, 48_000, 96_000, MPX_RATE] {
        for &reception in &[FmReception::Pristine, FmReception::Urban, FmReception::Fringe] {
            let mut rates = Rates::at(host_rate);
            let mut pipe = MpxPipeline::new(reception);
            assert!(pipe.initialize(host_rate, 2, 256, facts(&rates.up), facts(&rates.down)));
            let peak = drive_with_sine(host_rate, 256, 2.0, 0.05, 1_000.0, 0.3, |b, n| {
                pipe.push_block(b, n);
                pump(&mut pipe, &mut rates);
                pipe.drain_block(b, n);
            });
            assert!(peak > 0.05, "{host_rate} Hz / {reception:?}: near-silent ({peak:.3})");
        }
    }
}

/// Every queued sample passes through the signal path.
#[test]
fn pump_drains_mpx_input_rings() {
    let mut rates = Rates::at(MPX_RATE);
    let mut pipe = MpxPipeline::new(FmReception::Pristine);
    assert!(pipe.initialize(MPX_RATE, 2, 1024, None, None));
    pipe.push_block(&to_block(&[vec![0.1; 1024], vec![-0.1; 1024]]), 1024);
    pump(&mut pipe, &mut rates);
    assert!(pipe.mpx[0].is_empty(), "left still has {} samples", pipe.mpx[0].len());
    assert!(pipe.mpx[1].is_empty(), "right still has {} samples", pipe.mpx[1].len());
    assert_eq!(pipe.host_output[1].len(), 1024);
}

#[test]
fn fm_radio_passthrough_mode_emits_audio() {
    let (mut proc, mut rates) = fm_at(48_000, 2);
    proc.pad_output_to(48_000 / 50);
    let peak = drive_with_sine(48_000, 256, 1.0, 0.25, 440.0, 0.5, |b, n| {
        run(&mut proc, &mut rates, b, n, FmRadioMode::Passthrough);
    });
    assert!(peak > 0.05, "FM passthrough silent: {peak:.3}");
}

#[test]
fn fm_radio_worst_case_latency_at_is_positive_for_every_supported_rate() {
    for &rate in &[44_100u32, 48_000, 96_000] {
        let rates = Rates::at(rate);
        let (up, down) = (facts(&rates.up), facts(&rates.down));
        let l = FmRadioProcessor::worst_case_latency_at(rate, 2, up, down);
        assert!(l > 0, "FM worst_case_latency_at({rate}) returned 0");
    }
    assert_eq!(FmRadioProcessor::worst_case_latency_at(MPX_RATE, 2, None, None), 0);
}

#[test]
fn fm_radio_default_constructor_yields_unready_processor() {
    let proc = FmRadioProcessor::default();
    assert!(!proc.ready);
}

#[test]
fn reset_after_dispatch_clears_state_safely() {
    let (mut proc, mut rates) = fm_at(48_000, 2);
    proc.pad_output_to(48_000 / 50);
    for _ in 0..4 {
        let mut block = to_block(&vec![vec![0.3; 256]; 2]);
        run(&mut proc, &mut rates, &mut block, 256, us(FmReception::Pristine));
    }
    proc.reset();
    assert!(proc.ready);
    assert!(proc.mpx.host_input[0].is_empty() && proc.mpx.mpx[1].is_empty());
    assert!(proc.delay[0].iter().all(|v| to_float(*v) == 0.0));
}

#[test]
fn pad_output_to_grows_delay() {
    let (mut proc, _) = fm_at(48_000, 2);
    let before = proc.delay[0].len();
    proc.pad_output_to(before as u32 + 10_000);
    for ch in 0..2 {
        assert!(
            proc.delay[ch].len() > before,
            "ch{ch} delay didn't grow after pad_output_to: was {before}, now {}",
            proc.delay[ch].len()
        );
    }
    assert_eq!(proc.delay_len as u32 + proc.mpx.latency_host_samples(), 10_000);
    assert_eq!(proc.latency_samples(), 10_000);
}

#[test]
fn fm_radio_initialize_with_unsupported_channel_count_marks_not_ready() {
    let (proc, _) = fm_at(48_000, 7);
    assert!(!proc.ready);
}

/// The delay is exact to the sample.
#[test]
fn passthrough_delays_by_the_delay_length() {
    let (mut proc, mut rates) = fm_at(MPX_RATE, 1);
    proc.pad_output_to(10);
    assert_eq!(proc.delay_len, 10);
    let mut heard = Vec::new();
    for k in 0..4 {
        let mut block = to_block(&[(0..8).map(|s| (k * 8 + s + 1) as f32).collect()]);
        run(&mut proc, &mut rates, &mut block, 8, FmRadioMode::Passthrough);
        heard.extend(block[0].iter().map(|v| to_float(*v)));
    }
    let mut expected = vec![0.0; 10];
    expected.extend((1..=22).map(|v| v as f32));
    assert_eq!(heard, expected);
}

/// The chain is rebuilt when the variant changes, and only then.
#[test]
fn only_a_new_variant_rebuilds_the_chain() {
    let (mut proc, mut rates) = fm_at(48_000, 2);
    let mut rebuilt = Vec::new();
    for reception in [
        FmReception::Pristine,
        FmReception::Pristine,
        FmReception::Fringe,
        FmReception::Fringe,
        FmReception::Pristine,
    ] {
        let mut block = to_block(&vec![vec![0.1; 64]; 2]);
        rebuilt.push(run(&mut proc, &mut rates, &mut block, 64, us(reception)));
        assert_eq!(proc.mpx.reception, reception);
    }
    assert_eq!(rebuilt, vec![1, 0, 1, 0, 1]);
}

#[test]
fn conditioned_audio_is_heard_at_every_host_rate() {
    for &host_rate in &[44_100u32, 48_000, 96_000, MPX_RATE] {
        let (mut proc, mut rates) = fm_at(host_rate, 2);
        let peak = drive_with_sine(host_rate, 256, 1.0, 0.25, 440.0, 0.5, |b, n| {
            run(&mut proc, &mut rates, b, n, us(FmReception::Urban));
        });
        assert!(peak > 0.05, "{host_rate} Hz: {peak:.3}");
    }
}

#[test]
fn receptions_and_regions_have_their_parameters() {
    assert_eq!(FmReception::Pristine.impairment(), None);
    let urban = Impairment { noise: 32, subcarrier: 5000 };
    assert_eq!(FmReception::Urban.impairment(), Some(urban));
    assert_eq!(urban.noise as f32 / 10_000.0, 0.0032);
    assert_eq!(urban.subcarrier as f32 / 10_000.0, 0.5);
    let fringe = FmReception::Fringe.impairment().unwrap();
    assert_eq!(fringe.noise as f32 / 10_000.0, 0.0316);
    assert_eq!(fringe.subcarrier as f32 / 10_000.0, 0.126);
    assert_eq!(FmRegion::Us75us.tau(), 75);
    assert_eq!(FmRegion::Eu50us.tau(), 50);
}

/// 480 + 400 * 48000 / 192000 + 1920 * 48000 / 192000 + 30.
#[test]
fn mpx_latency_is_the_sum_of_its_parts() {
    let up = Some(BuiltResampler { output_delay: 400 });
    let down = Some(BuiltResampler { output_delay: 30 });
    assert_eq!(MpxPipeline::estimate_latency(48_000, up, down), 480 + 100 + 480 + 30);
    assert_eq!(MpxPipeline::estimate_latency(48_000, None, down), 0);
    let mut pipe = MpxPipeline::new(FmReception::Pristine);
    assert!(!pipe.initialize(48_000, 2, 16, up, None));
    let mut block = to_block(&vec![vec![0.5; 4]; 2]);
    pipe.drain_block(&mut block, 4);
    assert_eq!(peak(&block), 0.0);
}

/// The reported latency is the target, also where the MPX stage takes that long
/// by itself; a lower target changes nothing.
#[test]
fn padding_to_the_stage_s_own_latency_reports_it() {
    let (mut proc, _) = fm_at(48_000, 2);
    let own = proc.mpx.latency_host_samples();
    assert!(own > 0);
    proc.pad_output_to(own - 1);
    assert_eq!(proc.latency_samples(), 0);
    proc.pad_output_to(own);
    assert_eq!(proc.latency_samples(), own);
    assert_eq!(proc.delay_len, 0);
    proc.pad_output_to(own + 7);
    assert_eq!((proc.latency_samples(), proc.delay[1].len()), (own + 7, 7));
    proc.pad_output_to(own + 3);
    assert_eq!((proc.latency_samples(), proc.delay[1].len()), (own + 7, 7));
}

#[test]
fn a_second_pump_changes_nothing() {
    for rate in [48_000, MPX_RATE] {
        let mut rates = Rates::at(rate);
        let mut pipe = MpxPipeline::new(FmReception::Pristine);
        assert!(pipe.initialize(rate, 2, 1024, facts(&rates.up), facts(&rates.down)));
        pipe.push_block(&to_block(&[vec![0.1; 1000], vec![-0.1; 1000]]), 1000);
        pump(&mut pipe, &mut rates);
        let held = |p: &MpxPipeline| {
            [&p.host_input, &p.mpx, &p.decoded, &p.host_output].map(|rings| rings.to_vec())
        };
        let before = held(&pipe);
        assert!(matches!(pipe.pump(&MpxEvent::Start), MpxAction::Done));
        assert_eq!(held(&pipe), before);
    }
}

#[test]
fn a_pump_that_is_not_ready_does_nothing() {
    let mut pipe = MpxPipeline::new(FmReception::Urban);
    assert!(matches!(pipe.pump(&MpxEvent::Start), MpxAction::Done));
    assert!(!pipe.ready);
}

/// Each channel of the clipper remembers its own last sample.
#[test]
fn the_clipper_keeps_its_channels_apart() {
    let mut clipper = Clipper::new();
    assert_eq!(to_float(clipper.clip(0, to_sample(0.5))), 0.375);
    assert_eq!(clipper.last_input, [to_sample(0.5), to_sample(0.0)]);
    assert_eq!(to_float(clipper.clip(1, to_sample(-0.25))), -0.1875);
    assert_eq!(to_float(clipper.clip(0, to_sample(0.5))), 0.5);
    assert_eq!(clipper.last_input, [to_sample(0.5), to_sample(-0.25)]);
}

/// Without a resampler that is needed, nothing but the host is taken down.
#[test]
fn a_failed_setup_keeps_delay_and_rings() {
    let (mut proc, _) = fm_at(MPX_RATE, 2);
    proc.pad_output_to(25);
    proc.mpx.push_block(&to_block(&[vec![0.5; 4], vec![0.5; 4]]), 4);
    proc.initialize(48_000, 1, 256, None, None);
    assert!(!proc.ready && !proc.mpx.ready);
    assert_eq!((proc.sample_rate, proc.channels, proc.mpx.host_rate), (48_000, 1, 48_000));
    assert_eq!((proc.delay_len, proc.delay.len(), proc.latency_host_samples), (25, 2, 25));
    assert_eq!(proc.mpx.host_input[1].len(), 4);
}
