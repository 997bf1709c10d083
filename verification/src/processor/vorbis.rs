//! Real-time Ogg Vorbis encode -> decode via libvorbis, at 44.1 kHz. Spotify's
//! and SoundCloud's codec family.
//!
//! libvorbis works on floating point through raw pointers and is called from
//! outside: `process` hands out what has gathered at the codec's input and
//! takes back the runs of samples that came out of the decoder. The codec is
//! rebuilt when the bitrate changes.

use crate::processor::pipeline::{
    block_fits, delay_of, estimated, event_fits, failed_setup, finished_block, is_chunk,
    lemma_round_trip_estimated, muted_internal, padded, passed_internal, pumped_input,
    reset_pipeline, ring_fits, round_trip, took_event, BlockAction, BlockEvent, BuiltResampler, ResampledPipeline,
};
use crate::processor::rings::{append_slice, drain_all, drained, same_shape};
use crate::sample::Sample;
use vstd::prelude::*;
use vstd::slice::slice_subrange;

verus! {

pub const VORBIS_RATE: u32 = 44_100;

/// The decoder's first block is overlap-add warm-up garbage; discard it.
pub const PREROLL_SAMPLES: usize = 1024;

/// Samples at the internal rate from input to first usable output.
pub const VORBIS_ROUNDTRIP: u32 = 4096;

/// libvorbis quality for Spotify's published tiers, in tenths: -q2 up to
/// 96 kbps, -q5 up to 160 kbps, -q9 above.
pub fn quality_for_spotify_bitrate(kbps: u32) -> (r: u32)
    ensures
        r == if kbps <= 96 {
            2u32
        } else if kbps <= 160 {
            5u32
        } else {
            9u32
        },
{
    if kbps <= 96 {
        2
    } else if kbps <= 160 {
        5
    } else {
        9
    }
}

#[derive(Clone, Copy, PartialEq, Eq, Structural, Debug)]
pub enum VorbisMode {
    Passthrough,
    Vorbis { bitrate_kbps: u32 },
}

/// What the caller of the processor brings.
pub enum VorbisEvent {
    Block(BlockEvent),
    /// The codec that was asked for has been tried.
    CodecTried { opened: bool },
    /// The runs of samples, per channel, that the decoder gave for what was
    /// handed out last.
    Coded(Vec<Vec<Vec<Sample>>>),
}

/// What the caller of the processor is to do next.
pub enum VorbisAction {
    Block(BlockAction),
    /// Open the codec for a bitrate.
    OpenCodec(u32),
    /// Run these samples, per channel, through libvorbis.
    Code(Vec<Vec<Sample>>),
}

pub struct VorbisProcessor {
    pub pipeline: ResampledPipeline,
    pub current_bitrate_kbps: i32,
    pub codec_open: bool,
    pub samples_to_discard: usize,
}

/// Host-rate latency of the processor.
pub open spec fn vorbis_latency(
    host_rate: u32,
    h2i: Option<BuiltResampler>,
    i2h: Option<BuiltResampler>,
) -> int {
    estimated(host_rate, VORBIS_RATE, VORBIS_RATE, VORBIS_ROUNDTRIP, h2i, i2h)
}

pub open spec fn vorbis_latency_fits(
    host_rate: u32,
    h2i: Option<BuiltResampler>,
    i2h: Option<BuiltResampler>,
) -> bool {
    &&& delay_of(host_rate, VORBIS_RATE, h2i) + VORBIS_ROUNDTRIP <= u32::MAX
    &&& vorbis_latency(host_rate, h2i, i2h) <= u32::MAX
}

impl VorbisProcessor {
    pub open spec fn wf(&self) -> bool {
        &&& self.pipeline.wf()
        &&& self.pipeline.ready ==> {
            &&& self.pipeline.channels == 1 || self.pipeline.channels == 2
            &&& self.pipeline.encode_rate == VORBIS_RATE
        }
    }

    /// No codec is open, and the next bitrate opens one.
    pub open spec fn idle(&self) -> bool {
        &&& !self.codec_open
        &&& self.current_bitrate_kbps == -1
    }

    pub fn new() -> (r: VorbisProcessor)
        ensures
            r.wf(),
            !r.pipeline.ready,
            r.pipeline.channels == 2,
            r.idle(),
            r.samples_to_discard == 0,
    {
        VorbisProcessor {
            pipeline: ResampledPipeline::new(),
            current_bitrate_kbps: -1,
            codec_open: false,
            samples_to_discard: 0,
        }
    }

    /// Sets the processor up for a host. Only mono and stereo are supported:
    /// any other channel count leaves everything as it was.
    pub fn initialize(
        &mut self,
        sample_rate: u32,
        channels: usize,
        max_block_size: usize,
        h2i: Option<BuiltResampler>,
        i2h: Option<BuiltResampler>,
    )
        requires
            old(self).wf(),
            ring_fits(max_block_size, sample_rate),
            vorbis_latency_fits(sample_rate, h2i, i2h),
        ensures
            final(self).wf(),
            channels != 1 && channels != 2 ==> *final(self) == *old(self),
            channels == 1 || channels == 2 ==> {
                let p = final(self).pipeline;
                &&& final(self).idle()
                &&& final(self).samples_to_discard == old(self).samples_to_discard
                &&& p.host_rate == sample_rate
                &&& p.channels == channels
                &&& p.ready == (sample_rate == VORBIS_RATE || (h2i is Some && i2h is Some))
                &&& !p.ready ==> failed_setup(
                    old(self).pipeline,
                    p,
                    sample_rate,
                    channels,
                    VORBIS_RATE,
                    VORBIS_RATE,
                    h2i,
                )
                &&& p.ready ==> {
                    &&& p.latency_host_samples == vorbis_latency(sample_rate, h2i, i2h)
                    &&& p.primed()
                    &&& p.set_up_for(sample_rate, channels, VORBIS_RATE, VORBIS_RATE, h2i, i2h)
                }
            },
    {
        if channels != 1 && channels != 2 {
            return;
        }
        self.current_bitrate_kbps = -1;
        self.codec_open = false;
        if !self.pipeline.setup(
            sample_rate,
            channels,
            max_block_size,
            VORBIS_RATE,
            VORBIS_RATE,
            h2i,
            i2h,
        ) {
            return;
        }
        proof {
            lemma_round_trip_estimated(self.pipeline, VORBIS_RATE, VORBIS_ROUNDTRIP, h2i, i2h);
        }
        let latency = self.compute_natural_latency();
        self.pipeline.set_latency(latency);
    }

    fn compute_natural_latency(&self) -> (r: u32)
        requires
            self.pipeline.wf(),
            self.pipeline.encode_rate == VORBIS_RATE,
            self.pipeline.h2i_pair().1 + VORBIS_ROUNDTRIP <= u32::MAX,
            round_trip(self.pipeline, VORBIS_ROUNDTRIP as int) <= u32::MAX,
        ensures
            r == round_trip(self.pipeline, VORBIS_ROUNDTRIP as int),
    {
        self.pipeline.round_trip_latency(VORBIS_ROUNDTRIP)
    }

    pub fn pad_output_to(&mut self, target: u32)
        requires
            old(self).wf(),
        ensures
            final(self).wf(),
            *final(self) == (VorbisProcessor { pipeline: final(self).pipeline, ..*old(self) }),
            padded(old(self).pipeline, final(self).pipeline, target),
    {
        self.pipeline.pad_output_to(target);
    }

    /// Static estimate for the lazy-init path.
    pub fn worst_case_latency_at(
        host_rate: u32,
        channels: usize,
        h2i: Option<BuiltResampler>,
        i2h: Option<BuiltResampler>,
    ) -> (r: u32)
        requires
            ring_fits(1, host_rate),
            vorbis_latency_fits(host_rate, h2i, i2h),
        ensures
            r == vorbis_latency(host_rate, h2i, i2h),
    {
        ResampledPipeline::estimate_latency(
            host_rate,
            channels,
            VORBIS_RATE,
            VORBIS_RATE,
            VORBIS_ROUNDTRIP,
            h2i,
            i2h,
        )
    }

    /// Clears the rings and lets the codec go: the caller drops it.
    pub fn reset(&mut self)
        requires
            old(self).wf(),
        ensures
            final(self).wf(),
            reset_processor(*old(self), *final(self)),
    {
        if !self.pipeline.ready {
            return;
        }
        self.codec_open = false;
        self.current_bitrate_kbps = -1;
        self.pipeline.reset();
    }

    pub fn latency_samples(&self) -> (r: u32)
        ensures
            r == if self.pipeline.ready {
                self.pipeline.latency_host_samples
            } else {
                0
            },
    {
        if self.pipeline.ready {
            self.pipeline.latency_host_samples
        } else {
            0
        }
    }

    pub open spec fn spec_needs_codec(&self, bitrate_kbps: u32) -> bool {
        !(self.codec_open && self.current_bitrate_kbps == bitrate_kbps)
    }

    /// No codec is open for this bitrate.
    #[verifier::when_used_as_spec(spec_needs_codec)]
    pub fn needs_codec(&self, bitrate_kbps: u32) -> (r: bool)
        requires
            bitrate_kbps <= i32::MAX,
        ensures
            r == self.spec_needs_codec(bitrate_kbps),
    {
        !(self.codec_open && self.current_bitrate_kbps == bitrate_kbps as i32)
    }

    /// Takes down whether libvorbis gave a codec for a bitrate. A fresh codec
    /// starts with warm-up to discard.
    pub fn note_codec(&mut self, bitrate_kbps: u32, opened: bool)
        requires
            bitrate_kbps <= i32::MAX,
        ensures
            noted_codec(*old(self), *final(self), bitrate_kbps, opened),
    {
        self.codec_open = opened;
        if opened {
            self.current_bitrate_kbps = bitrate_kbps as i32;
            self.samples_to_discard = PREROLL_SAMPLES;
        } else {
            self.current_bitrate_kbps = -1;
        }
    }

    /// Plays one run of decoded samples, less the warm-up still to discard.
    pub fn accept_run(&mut self, run: &Vec<Vec<Sample>>)
        requires
            old(self).wf(),
            old(self).pipeline.ready,
            run_fits(run@, old(self).pipeline.channels as nat),
        ensures
            final(self).wf(),
            accepted_run(*old(self), *final(self), run@),
    {
        let ghost before = *self;
        let samples: usize = run[0].len();
        let skip: usize = if self.samples_to_discard < samples {
            self.samples_to_discard
        } else {
            samples
        };
        self.samples_to_discard = self.samples_to_discard - skip;
        let channels: usize = self.pipeline.channels;
        for ch in 0..channels
            invariant
                self.wf(),
                before.wf(),
                self.pipeline.ready,
                before.pipeline.ready,
                channels == before.pipeline.channels,
                run_fits(run@, channels as nat),
                samples == run@[0].len(),
                skip <= samples,
                skip == before.samples_to_discard - self.samples_to_discard,
                *self == (VorbisProcessor {
                    pipeline: self.pipeline,
                    samples_to_discard: self.samples_to_discard,
                    ..before
                }),
                self.pipeline.only_rings_changed(&before.pipeline, false, false, true, false),
                forall|c: int|
                    ch <= c < channels ==> self.pipeline.internal_output@[c]
                        == before.pipeline.internal_output@[c],
                forall|c: int|
                    0 <= c < ch ==> (#[trigger] self.pipeline.internal_output@[c])@
                        == before.pipeline.internal_output@[c]@ + run@[c]@.skip(skip as int),
        {
            assert(run@[ch as int].len() == samples);
            let tail = slice_subrange(run[ch].as_slice(), skip, samples);
            append_slice(&mut self.pipeline.internal_output[ch], tail, samples - skip);
            proof {
                assert(tail@.take((samples - skip) as int) =~= run@[ch as int]@.skip(skip as int));
            }
        }
    }

    /// Plays every run in turn.
    fn accept_runs(&mut self, runs: &Vec<Vec<Vec<Sample>>>)
        requires
            old(self).wf(),
            old(self).pipeline.ready,
            forall|i: int|
                0 <= i < runs.len() ==> run_fits(
                    (#[trigger] runs@[i])@,
                    old(self).pipeline.channels as nat,
                ),
        ensures
            final(self).wf(),
            final(self).pipeline.same_setup(&old(self).pipeline),
            accepted_runs(*old(self), *final(self), runs@),
    {
        let ghost before = *self;
        let ghost mut states: Seq<VorbisProcessor> = seq![before];
        let count: usize = runs.len();
        for i in 0..count
            invariant
                self.wf(),
                self.pipeline.ready,
                count == runs.len(),
                self.pipeline.same_setup(&before.pipeline),
                forall|k: int|
                    0 <= k < runs.len() ==> run_fits(
                        (#[trigger] runs@[k])@,
                        before.pipeline.channels as nat,
                    ),
                played_through(states, runs@, i as nat),
                states.first() == before,
                states.last() == *self,
        {
            self.accept_run(&runs[i]);
            proof {
                states = states.push(*self);
            }
        }
    }

    /// The codec stage: passes through, asks for a codec, replaces the input
    /// by silence where there is none, or hands out all that has gathered.
    /// `None` says that the stage is done.
    fn code(&mut self, mode: VorbisMode, tried: bool) -> (r: Option<VorbisAction>)
        requires
            old(self).wf(),
            old(self).pipeline.ready,
            mode matches VorbisMode::Vorbis { bitrate_kbps } ==> bitrate_kbps <= i32::MAX,
        ensures
            final(self).wf(),
            coded(*old(self), *final(self), mode, tried, r),
    {
        match mode {
            VorbisMode::Passthrough => {
                self.pipeline.pass_internal();
                None
            },
            VorbisMode::Vorbis { bitrate_kbps } => {
                if !tried && self.needs_codec(bitrate_kbps) {
                    return Some(VorbisAction::OpenCodec(bitrate_kbps));
                }
                if !self.codec_open {
                    self.pipeline.mute_internal();
                    return None;
                }
                let pending: usize = self.pipeline.internal_input[0].len();
                if pending == 0 {
                    return None;
                }
                Some(VorbisAction::Code(drain_all(&mut self.pipeline.internal_input, pending)))
            },
        }
    }

    /// One step of a block: takes in what the caller brings, and says what the
    /// caller is to do next. A processor that is not ready leaves the block as
    /// it is.
    pub fn process(
        &mut self,
        block: &mut Vec<Vec<Sample>>,
        n_samples: usize,
        event: VorbisEvent,
        mode: VorbisMode,
    ) -> (r: VorbisAction)
        requires
            old(self).wf(),
            old(self).pipeline.ready ==> block_fits(
                old(block)@,
                old(self).pipeline.channels as nat,
                n_samples as nat,
            ) && vorbis_event_fits(event, old(self).pipeline.channels as nat),
            mode matches VorbisMode::Vorbis { bitrate_kbps } ==> bitrate_kbps <= i32::MAX,
        ensures
            final(self).wf(),
            same_shape(old(block)@, final(block)@),
            final(self).pipeline.same_setup(&old(self).pipeline),
            processed(
                *old(self),
                *final(self),
                old(block)@,
                final(block)@,
                n_samples as nat,
                event,
                mode,
                r,
            ),
    {
        if !self.pipeline.ready {
            return VorbisAction::Block(BlockAction::Done);
        }
        let ghost c0 = *self;
        let mut tried: bool = false;
        match event {
            VorbisEvent::Block(e) => {
                let input_side = self.pipeline.take_event(block, n_samples, &e);
                let ghost c1 = *self;
                proof {
                    assert(took_event(c0.pipeline, c1.pipeline, old(block)@, n_samples as nat, e));
                }
                if !input_side {
                    return VorbisAction::Block(self.pipeline.finish_block(block, n_samples));
                }
                let chunk = self.pipeline.pump_host_to_internal();
                proof {
                    assert(pumped_input(c1.pipeline, self.pipeline, chunk));
                }
                match chunk {
                    Some(chunk) => {
                        return VorbisAction::Block(BlockAction::ResampleInput(chunk));
                    },
                    None => {},
                }
            },
            VorbisEvent::CodecTried { opened } => {
                tried = true;
                if let VorbisMode::Vorbis { bitrate_kbps } = mode {
                    self.note_codec(bitrate_kbps, opened);
                }
            },
            VorbisEvent::Coded(runs) => {
                self.accept_runs(&runs);
                proof {
                    assert(accepted_runs(c0, *self, runs@));
                }
                return VorbisAction::Block(self.pipeline.finish_block(block, n_samples));
            },
        }
        let ghost c2 = *self;
        let todo = self.code(mode, tried);
        proof {
            assert(entered(c0, c2, block@, n_samples as nat, event, mode));
            assert(coded_after(c2, *self, mode, event, todo));
        }
        match todo {
            Some(action) => action,
            None => VorbisAction::Block(self.pipeline.finish_block(block, n_samples)),
        }
    }
}

/// A run has as many samples for every channel.
pub open spec fn run_fits(run: Seq<Vec<Sample>>, channels: nat) -> bool {
    &&& run.len() >= channels
    &&& channels >= 1
    &&& forall|ch: int| 0 <= ch < channels ==> (#[trigger] run[ch]).len() == run[0].len()
}

pub open spec fn vorbis_event_fits(event: VorbisEvent, channels: nat) -> bool {
    match event {
        VorbisEvent::Block(e) => event_fits(e, channels),
        VorbisEvent::CodecTried { .. } => true,
        VorbisEvent::Coded(runs) => forall|i: int|
            0 <= i < runs.len() ==> run_fits((#[trigger] runs@[i])@, channels),
    }
}

/// The codec is gone and the pipeline back at its start; a processor that is not
/// ready stays as it is.
pub open spec fn reset_processor(before: VorbisProcessor, after: VorbisProcessor) -> bool {
    &&& reset_pipeline(before.pipeline, after.pipeline)
    &&& before.pipeline.ready ==> after == (VorbisProcessor {
        pipeline: after.pipeline,
        codec_open: false,
        current_bitrate_kbps: (-1) as i32,
        ..before
    })
    &&& !before.pipeline.ready ==> after == before
}

/// Whether libvorbis gave a codec for a bitrate was taken down.
pub open spec fn noted_codec(
    before: VorbisProcessor,
    after: VorbisProcessor,
    bitrate_kbps: u32,
    opened: bool,
) -> bool {
    after == (VorbisProcessor {
        codec_open: opened,
        current_bitrate_kbps: if opened {
            bitrate_kbps as i32
        } else {
            (-1) as i32
        },
        samples_to_discard: if opened {
            PREROLL_SAMPLES
        } else {
            before.samples_to_discard
        },
        ..before
    })
}

/// How many of `samples` are dropped with `discard` still to go.
pub open spec fn dropped(discard: int, samples: int) -> int {
    vstd::math::min(discard, samples)
}

/// A run was played, less the warm-up still to discard.
pub open spec fn accepted_run(
    before: VorbisProcessor,
    after: VorbisProcessor,
    run: Seq<Vec<Sample>>,
) -> bool {
    let skip = dropped(before.samples_to_discard as int, run[0].len() as int);
    &&& after == (VorbisProcessor {
        pipeline: after.pipeline,
        samples_to_discard: after.samples_to_discard,
        ..before
    })
    &&& after.samples_to_discard == before.samples_to_discard - skip
    &&& after.pipeline.only_rings_changed(&before.pipeline, false, false, true, false)
    &&& after.pipeline.internal_output.len() == before.pipeline.internal_output.len()
    &&& forall|ch: int|
        0 <= ch < before.pipeline.channels ==> (#[trigger] after.pipeline.internal_output@[ch])@
            == before.pipeline.internal_output@[ch]@ + run[ch]@.skip(skip)
}

/// `states` are the processor before, between and after the runs played in
/// turn.
pub open spec fn played_through(
    states: Seq<VorbisProcessor>,
    runs: Seq<Vec<Vec<Sample>>>,
    n: nat,
) -> bool {
    &&& states.len() == n + 1
    &&& forall|i: int|
        0 <= i < n ==> accepted_run(#[trigger] states[i], states[i + 1], runs[i]@)
}

/// Every run was played in turn.
pub open spec fn accepted_runs(
    before: VorbisProcessor,
    after: VorbisProcessor,
    runs: Seq<Vec<Vec<Sample>>>,
) -> bool {
    exists|states: Seq<VorbisProcessor>|
        {
            &&& #[trigger] played_through(states, runs, runs.len())
            &&& states.first() == before
            &&& states.last() == after
        }
}

/// It makes no difference how the decoder cuts its output into runs: two in
/// turn play what one of both would.
pub proof fn law_runs_join(
    a: VorbisProcessor,
    b: VorbisProcessor,
    c: VorbisProcessor,
    first: Seq<Vec<Sample>>,
    second: Seq<Vec<Sample>>,
    ch: int,
)
    requires
        a.wf(),
        a.pipeline.ready,
        run_fits(first, a.pipeline.channels as nat),
        run_fits(second, a.pipeline.channels as nat),
        accepted_run(a, b, first),
        accepted_run(b, c, second),
        0 <= ch < a.pipeline.channels,
    ensures
        ({
            let joined = first[ch]@ + second[ch]@;
            let skip = dropped(a.samples_to_discard as int, joined.len() as int);
            &&& c.samples_to_discard == a.samples_to_discard - skip
            &&& c.pipeline.internal_output@[ch]@ == a.pipeline.internal_output@[ch]@ + joined.skip(
                skip,
            )
        }),
{
    let joined = first[ch]@ + second[ch]@;
    let skip = dropped(a.samples_to_discard as int, joined.len() as int);
    assert(first[ch].len() == first[0].len());
    assert(second[ch].len() == second[0].len());
    let s1 = dropped(a.samples_to_discard as int, first[0].len() as int);
    let s2 = dropped(b.samples_to_discard as int, second[0].len() as int);
    assert(b.pipeline.internal_output@[ch]@ == a.pipeline.internal_output@[ch]@ + first[ch]@.skip(
        s1,
    ));
    assert(c.pipeline.internal_output@[ch]@ == b.pipeline.internal_output@[ch]@ + second[ch]@.skip(
        s2,
    ));
    assert(skip == s1 + s2);
    assert(first[ch]@.skip(s1) + second[ch]@.skip(s2) =~= joined.skip(skip));
    assert(c.pipeline.internal_output@[ch]@ =~= a.pipeline.internal_output@[ch]@ + joined.skip(
        skip,
    ));
}

/// The codec stage of one step.
pub open spec fn coded(
    before: VorbisProcessor,
    after: VorbisProcessor,
    mode: VorbisMode,
    tried: bool,
    r: Option<VorbisAction>,
) -> bool {
    let input = before.pipeline.internal_input@;
    match mode {
        VorbisMode::Passthrough => {
            &&& r is None
            &&& after == around(before, after.pipeline)
            &&& passed_internal(before.pipeline, after.pipeline)
        },
        VorbisMode::Vorbis { bitrate_kbps } => {
            if !tried && before.needs_codec(bitrate_kbps) {
                r == Some(VorbisAction::OpenCodec(bitrate_kbps)) && after == before
            } else if !before.codec_open {
                &&& r is None
                &&& after == around(before, after.pipeline)
                &&& muted_internal(before.pipeline, after.pipeline)
            } else if input[0]@.len() == 0 {
                r is None && after == before
            } else {
                &&& r matches Some(VorbisAction::Code(pending)) && is_chunk(
                    pending@,
                    input,
                    input[0]@.len(),
                )
                &&& after == around(before, after.pipeline)
                &&& after.pipeline.only_rings_changed(&before.pipeline, false, true, false, false)
                &&& drained(input, after.pipeline.internal_input@, input[0]@.len())
            }
        },
    }
}

/// The codec stage of a step that began with `event`: after a block event an
/// open codec is asked for first.
pub open spec fn coded_after(
    before: VorbisProcessor,
    after: VorbisProcessor,
    mode: VorbisMode,
    event: VorbisEvent,
    r: Option<VorbisAction>,
) -> bool {
    coded(before, after, mode, !(event is Block), r)
}

/// The processor `c` around another pipeline.
pub open spec fn around(c: VorbisProcessor, p: ResampledPipeline) -> VorbisProcessor {
    VorbisProcessor { pipeline: p, ..c }
}

/// What an event leads to before the codec stage runs.
pub open spec fn entered(
    before: VorbisProcessor,
    after: VorbisProcessor,
    block: Seq<Vec<Sample>>,
    n: nat,
    event: VorbisEvent,
    mode: VorbisMode,
) -> bool {
    match event {
        VorbisEvent::Block(e) => {
            &&& !(e is OutputResampled)
            &&& after == around(before, after.pipeline)
            &&& exists|p1: ResampledPipeline|
                #[trigger] took_event(before.pipeline, p1, block, n, e) && pumped_input(
                    p1,
                    after.pipeline,
                    None,
                )
        },
        VorbisEvent::CodecTried { opened } => match mode {
            VorbisMode::Vorbis { bitrate_kbps } => noted_codec(before, after, bitrate_kbps, opened),
            VorbisMode::Passthrough => after == before,
        },
        VorbisEvent::Coded(runs) => false,
    }
}

/// A step that skips the codec stage.
pub open spec fn early(
    before: VorbisProcessor,
    after: VorbisProcessor,
    block_before: Seq<Vec<Sample>>,
    block_after: Seq<Vec<Sample>>,
    n: nat,
    event: VorbisEvent,
    r: VorbisAction,
) -> bool {
    &&& r is Block
    &&& match event {
        VorbisEvent::Block(e) => {
            &&& after == around(before, after.pipeline)
            &&& exists|p1: ResampledPipeline|
                {
                    &&& #[trigger] took_event(before.pipeline, p1, block_before, n, e)
                    &&& if e is OutputResampled {
                        finished_block(
                            p1,
                            after.pipeline,
                            block_before,
                            block_after,
                            n,
                            r->Block_0,
                        )
                    } else {
                        &&& r->Block_0 is ResampleInput
                        &&& pumped_input(p1, after.pipeline, Some(r->Block_0->ResampleInput_0))
                        &&& block_after == block_before
                    }
                }
        },
        VorbisEvent::CodecTried { .. } => false,
        VorbisEvent::Coded(runs) => exists|c1: VorbisProcessor|
            {
                &&& #[trigger] accepted_runs(before, c1, runs@)
                &&& after == around(c1, after.pipeline)
                &&& finished_block(
                    c1.pipeline,
                    after.pipeline,
                    block_before,
                    block_after,
                    n,
                    r->Block_0,
                )
            },
    }
}

/// One step of a block: an outcome without the codec stage, or the codec
/// stage and what follows from it.
pub open spec fn processed(
    before: VorbisProcessor,
    after: VorbisProcessor,
    block_before: Seq<Vec<Sample>>,
    block_after: Seq<Vec<Sample>>,
    n: nat,
    event: VorbisEvent,
    mode: VorbisMode,
    r: VorbisAction,
) -> bool {
    &&& !before.pipeline.ready ==> {
        &&& r == VorbisAction::Block(BlockAction::Done)
        &&& after == before
        &&& block_after == block_before
    }
    &&& before.pipeline.ready ==> {
        ||| early(before, after, block_before, block_after, n, event, r)
        ||| exists|c2: VorbisProcessor, c3: VorbisProcessor, todo: Option<VorbisAction>|
            {
                &&& #[trigger] coded_after(c2, c3, mode, event, todo)
                &&& entered(before, c2, block_before, n, event, mode)
                &&& match todo {
                    Some(action) => r == action && after == c3 && block_after == block_before,
                    None => {
                        &&& after == around(c3, after.pipeline)
                        &&& r is Block
                        &&& finished_block(
                            c3.pipeline,
                            after.pipeline,
                            block_before,
                            block_after,
                            n,
                            r->Block_0,
                        )
                    },
                }
            }
    }
}

impl Default for VorbisProcessor {
    fn default() -> (r: VorbisProcessor)
        ensures
            r.wf(),
            !r.pipeline.ready,
    {
        VorbisProcessor::new()
    }
}

}
