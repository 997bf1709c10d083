//! Real-time FM broadcast-chain simulation.
//!
//! ```text
//!  input -> AGC -> broadcast EQ -> multiband + per-band limiter
//!       -> pre-emphasis -> 2x oversampled hard clipper
//!       -> MPX encoder -> imperfect channel -> MPX decoder
//!       -> de-emphasis -> auto-makeup -> delay -> output
//! ```
//!
//! The filters and dynamics on both sides of the MPX stage work on floating
//! point and are called from outside; what runs when, the variant in force,
//! the MPX rings and the output delay are kept here.

use crate::processor::fm_mpx::{
    failed_mpx, mpx_event_fits, mpx_latency, mpx_sizes_fit, stepped, FmReception, MpxAction,
    MpxEvent, MpxPipeline, MPX_RATE,
};
use crate::processor::pipeline::{block_fits, BuiltResampler};
use crate::processor::rings::{
    append_block, append_silence_all, drain_into, drained, extended, front, new_rings, overwritten,
    prefill_all, rest, same_shape, zeros,
};
use crate::rounding::{
    lemma_nearest_even_exact, lemma_nearest_even_monotone, lemma_rounded_monotone,
    lemma_rounded_representable,
};
use crate::sample::{half, is_clamped, is_half, is_sum, silence, sum, Sample};
use std::collections::VecDeque;
use vstd::arithmetic::power2::*;
use vstd::prelude::*;

verus! {

#[derive(Clone, Copy, PartialEq, Eq, Structural, Debug)]
pub enum FmRegion {
    /// FCC 75 us: Americas, Korea.
    Us75us,
    /// ITU-R BS.450 50 us: Europe, Africa, Asia, Australia.
    Eu50us,
}

impl FmRegion {
    /// Emphasis time constant, in microseconds.
    pub fn tau(self) -> (r: u32)
        ensures
            r == match self {
                FmRegion::Us75us => 75u32,
                FmRegion::Eu50us => 50u32,
            },
    {
        match self {
            FmRegion::Us75us => 75,
            FmRegion::Eu50us => 50,
        }
    }
}

/// 2 regions x 3 reception qualities = 6 catalog tiers.
#[derive(Clone, Copy, PartialEq, Eq, Structural, Debug)]
pub struct FmRadioVariant {
    pub region: FmRegion,
    pub reception: FmReception,
}

#[derive(Clone, Copy, PartialEq, Eq, Structural, Debug)]
pub enum FmRadioMode {
    Passthrough,
    FmRadio { variant: FmRadioVariant },
}

/// -0.5 dBFS (0.94406) as a bit pattern.
pub const CLIP_CEILING_BITS: u32 = 0x3f71_adeb;

/// What the clipper gives for a sample and the one before it: the mean of the
/// two clipped values of the 2x oversampled signal, whose middle point is the
/// samples' mean.
pub open spec fn is_clipped(prev: Sample, x: Sample, r: Sample) -> bool {
    let ceiling = Sample { bits: CLIP_CEILING_BITS };
    exists|mid: Sample, cur: Sample|
        {
            &&& #[trigger] is_clamped(half(sum(prev, x)), ceiling, mid)
            &&& #[trigger] is_clamped(x, ceiling, cur)
            &&& r == half(sum(mid, cur))
        }
}

/// 2x oversampled hard clipper at -0.5 dBFS. Linear-interp upsample + 2-tap
/// boxcar decimate gives 6-8 dB of alias suppression, the threshold where
/// digital fizz stops being audible.
///
/// No number leaves the clipper above its ceiling.
pub fn hard_clip_2x(prev: Sample, x: Sample) -> (r: Sample)
    ensures
        is_clipped(prev, x, r),
        !x.is_nan() && !sum(prev, x).is_nan() ==> r.is_finite() && r.magnitude() <= (Sample {
            bits: CLIP_CEILING_BITS,
        }).magnitude(),
{
    let ceiling = Sample { bits: CLIP_CEILING_BITS };
    let mid = prev.plus(x).halve();
    let cur_clipped = x.clamp_to(ceiling);
    let mid_clipped = mid.clamp_to(ceiling);
    let total = mid_clipped.plus(cur_clipped);
    let r = total.halve();
    proof {
        if !x.is_nan() && !sum(prev, x).is_nan() {
            lemma_clipper_holds_the_ceiling(mid_clipped, cur_clipped, total, r);
        }
    }
    r
}

/// The hard clipper of both channels, with the sample that each got last.
#[derive(Clone, Copy, Debug)]
pub struct Clipper {
    pub last_input: [Sample; 2],
}

impl Clipper {
    /// A clipper that has got silence so far.
    pub fn new() -> (r: Clipper)
        ensures
            forall|ch: int| 0 <= ch < 2 ==> #[trigger] r.last_input@[ch] == (Sample { bits: 0 }),
    {
        Clipper { last_input: [Sample { bits: 0 }; 2] }
    }

    /// Clips the next sample of a channel. Only that channel's memory changes,
    /// and becomes the sample.
    pub fn clip(&mut self, ch: usize, x: Sample) -> (r: Sample)
        requires
            ch < 2,
        ensures
            is_clipped(old(self).last_input@[ch as int], x, r),
            !x.is_nan() && !sum(old(self).last_input@[ch as int], x).is_nan() ==> r.is_finite()
                && r.magnitude() <= (Sample { bits: CLIP_CEILING_BITS }).magnitude(),
            final(self).last_input@ == old(self).last_input@.update(ch as int, x),
    {
        let prev = self.last_input[ch];
        self.last_input[ch] = x;
        hard_clip_2x(prev, x)
    }
}

proof fn lemma_clipper_holds_the_ceiling(mid: Sample, cur: Sample, t: Sample, r: Sample)
    requires
        mid.is_finite(),
        cur.is_finite(),
        mid.magnitude() <= (Sample { bits: CLIP_CEILING_BITS }).magnitude(),
        cur.magnitude() <= (Sample { bits: CLIP_CEILING_BITS }).magnitude(),
        is_sum(mid, cur, t),
        is_half(t, r),
    ensures
        r.is_finite(),
        r.magnitude() <= (Sample { bits: CLIP_CEILING_BITS }).magnitude(),
{
    let c = Sample { bits: CLIP_CEILING_BITS };
    let m = c.significand();
    assert(c.exponent() == 126 && m == 0xf1_adeb);
    lemma2_to64();
    lemma_pow2_unfold(126);
    let top = c.magnitude() * 2;
    assert(top == m * pow2(126)) by (nonlinear_arith)
        requires
            top == (m * pow2(125)) * 2,
            pow2(126) == 2 * pow2(125),
    ;
    let n = vstd::math::abs(mid.units() + cur.units());
    lemma_rounded_monotone(n, top);
    lemma_rounded_representable(top, m, 126);
    lemma_pow2_adds(24, 126);
    lemma_pow2_strictly_increases(150, 277);
    lemma_pow2_pos(126);
    assert(m * pow2(126) < 0x100_0000 * pow2(126)) by (nonlinear_arith)
        requires
            m < 0x100_0000,
            pow2(126) > 0,
    ;
    assert(t.is_finite());
    lemma_nearest_even_monotone(t.magnitude(), top, 2);
    lemma_nearest_even_exact(c.magnitude(), 2);
}

/// What the caller of the processor brings.
pub enum FmEvent {
    /// The block holds fresh host samples.
    Start,
    /// Left and right after AGC, EQ, multiband, pre-emphasis and clipper.
    Conditioned(Vec<Vec<Sample>>),
    /// Something for the MPX stage.
    Mpx(MpxEvent),
    /// Left and right after de-emphasis and makeup gain.
    Finished(Vec<Vec<Sample>>),
}

/// What the caller of the processor is to do next.
pub enum FmAction {
    /// Run the block through the stages before MPX. `rebuild` says that the
    /// variant has changed: emphasis coefficients and channel are set up anew
    /// and filter memory is wiped, so that the previous variant doesn't bleed
    /// into the new one.
    Condition { rebuild: bool },
    /// Work for the MPX stage.
    Mpx(MpxAction),
    /// Run left and right through de-emphasis and makeup gain.
    Finish(Vec<Vec<Sample>>),
    /// The block holds the processor's output.
    Done,
}

pub struct FmRadioProcessor {
    pub ready: bool,
    pub sample_rate: u32,
    pub channels: usize,
    /// host <-> 192 kHz oversampling + MPX encoder + imperfect channel + MPX
    /// decoder.
    pub mpx: MpxPipeline,
    /// Per-channel delay for alignment with the rest of the codecs.
    pub delay: Vec<VecDeque<Sample>>,
    pub delay_len: usize,
    /// The variant that the chain is set up for.
    pub current_variant: Option<FmRadioVariant>,
    pub latency_host_samples: u32,
}

/// Every queue is `len` samples long.
pub open spec fn all_long(rings: Seq<VecDeque<Sample>>, len: nat) -> bool {
    forall|ch: int| 0 <= ch < rings.len() ==> (#[trigger] rings[ch])@.len() == len
}

impl FmRadioProcessor {
    pub open spec fn wf(&self) -> bool {
        &&& self.mpx.wf()
        &&& self.ready ==> {
            &&& self.channels == 1 || self.channels == 2
            &&& self.mpx.ready
            &&& self.mpx.host_rate == self.sample_rate
            &&& self.delay.len() == self.channels
            &&& all_long(self.delay@, self.delay_len as nat)
            &&& self.own_latency() <= u32::MAX
            &&& self.latency_host_samples == self.own_latency() + self.delay_len || (
            self.latency_host_samples == 0 && self.delay_len == 0)
        }
    }

    /// Latency of the MPX stage.
    pub open spec fn own_latency(&self) -> int {
        mpx_latency(self.sample_rate, self.mpx.h2m, self.mpx.m2h)
    }

    /// Rates, channels and latency are those of `other`.
    pub open spec fn same_setup(&self, other: &FmRadioProcessor) -> bool {
        &&& self.ready == other.ready
        &&& self.sample_rate == other.sample_rate
        &&& self.channels == other.channels
        &&& self.delay_len == other.delay_len
        &&& self.latency_host_samples == other.latency_host_samples
        &&& self.mpx.h2m == other.mpx.h2m
        &&& self.mpx.m2h == other.mpx.m2h
    }

    pub fn new() -> (r: FmRadioProcessor)
        ensures
            r.wf(),
            !r.ready,
            r.sample_rate == 44_100,
            r.channels == 2,
            r.current_variant is None,
            r.delay_len == 0,
            r.latency_host_samples == 0,
    {
        FmRadioProcessor {
            ready: false,
            sample_rate: 44_100,
            channels: 2,
            mpx: MpxPipeline::new(FmReception::Pristine),
            delay: Vec::new(),
            delay_len: 0,
            current_variant: None,
            latency_host_samples: 0,
        }
    }

    /// Sets the processor up for a host. Only mono and stereo are supported:
    /// any other channel count leaves it not ready.
    pub fn initialize(
        &mut self,
        sample_rate: u32,
        channels: usize,
        max_block_size: usize,
        h2m: Option<BuiltResampler>,
        m2h: Option<BuiltResampler>,
    )
        requires
            old(self).wf(),
            mpx_sizes_fit(max_block_size, sample_rate),
            mpx_latency(sample_rate, h2m, m2h) <= u32::MAX,
        ensures
            final(self).wf(),
            final(self).ready == ((channels == 1 || channels == 2) && (sample_rate == MPX_RATE || (
            h2m is Some && m2h is Some))),
            channels != 1 && channels != 2 ==> *final(self) == (FmRadioProcessor {
                ready: false,
                ..*old(self)
            }),
            channels == 1 || channels == 2 ==> {
                &&& final(self).sample_rate == sample_rate
                &&& final(self).channels == channels
                &&& final(self).current_variant is None
                &&& !final(self).ready ==> *final(self) == (FmRadioProcessor {
                    ready: false,
                    sample_rate,
                    channels,
                    mpx: failed_mpx(old(self).mpx, sample_rate),
                    current_variant: None,
                    ..*old(self)
                })
            },
            final(self).ready ==> {
                &&& final(self).mpx.empty()
                &&& final(self).mpx.h2m == (if sample_rate == MPX_RATE {
                    None
                } else {
                    h2m
                })
                &&& final(self).mpx.m2h == (if sample_rate == MPX_RATE {
                    None
                } else {
                    m2h
                })
                &&& final(self).delay_len == 0
                &&& final(self).latency_host_samples == 0
            },
    {
        self.ready = false;
        if channels != 1 && channels != 2 {
            return;
        }
        self.sample_rate = sample_rate;
        self.channels = channels;
        self.current_variant = None;
        if !self.mpx.initialize(sample_rate, channels, max_block_size, h2m, m2h) {
            return;
        }
        // Sized by `pad_output_to`.
        self.delay = new_rings(channels, 0);
        self.delay_len = 0;
        self.latency_host_samples = 0;
        self.ready = true;
    }

    /// The chain is to be padded to `target`: the MPX stage alone does not take
    /// longer, and the reported latency is shorter.
    pub open spec fn can_pad_to(&self, target: u32) -> bool {
        &&& self.ready
        &&& target >= self.own_latency()
        &&& target > self.latency_host_samples
    }

    /// Pad the delay line so reported latency matches the plugin-wide target.
    pub fn pad_output_to(&mut self, target: u32)
        requires
            old(self).wf(),
        ensures
            final(self).wf(),
            !old(self).can_pad_to(target) ==> *final(self) == *old(self),
            old(self).can_pad_to(target) ==> {
                &&& *final(self) == (FmRadioProcessor {
                    delay: final(self).delay,
                    delay_len: (target - old(self).own_latency()) as usize,
                    latency_host_samples: target,
                    ..*old(self)
                })
                &&& final(self).delay_len >= old(self).delay_len
                &&& extended(
                    old(self).delay@,
                    final(self).delay@,
                    |ch: int| zeros((final(self).delay_len - old(self).delay_len) as nat),
                )
            },
    {
        if !self.ready {
            return;
        }
        let own: u32 = self.mpx.latency_host_samples();
        if target < own || target <= self.latency_host_samples {
            return;
        }
        let extra: usize = (target - own) as usize;
        let grow: usize = extra - self.delay_len;
        append_silence_all(&mut self.delay, grow);
        self.delay_len = extra;
        self.latency_host_samples = target;
    }

    /// Clears the MPX rings and refills the delay with silence; the caller
    /// resets the stages around them. The variant stays in force.
    pub fn reset(&mut self)
        requires
            old(self).wf(),
        ensures
            final(self).wf(),
            !old(self).ready ==> *final(self) == *old(self),
            old(self).ready ==> {
                &&& *final(self) == (FmRadioProcessor {
                    mpx: final(self).mpx,
                    delay: final(self).delay,
                    ..*old(self)
                })
                &&& final(self).mpx.same_setup(&old(self).mpx)
                &&& final(self).mpx.empty()
                &&& crate::processor::rings::all_hold(
                    final(self).delay@,
                    zeros(old(self).delay_len as nat),
                )
            },
    {
        if !self.ready {
            return;
        }
        self.mpx.reset();
        prefill_all(&mut self.delay, self.delay_len);
    }

    pub fn latency_samples(&self) -> (r: u32)
        ensures
            r == if self.ready {
                self.latency_host_samples
            } else {
                0
            },
    {
        if self.ready {
            self.latency_host_samples
        } else {
            0
        }
    }

    /// MPX (~5-10 ms resampler delay) dominates; audio-domain stages add
    /// negligible group delay.
    pub fn worst_case_latency_at(
        host_rate: u32,
        channels: usize,
        h2m: Option<BuiltResampler>,
        m2h: Option<BuiltResampler>,
    ) -> (r: u32)
        requires
            mpx_sizes_fit(1, host_rate),
            mpx_latency(host_rate, h2m, m2h) <= u32::MAX,
        ensures
            r == mpx_latency(host_rate, h2m, m2h),
    {
        MpxPipeline::estimate_latency(host_rate, h2m, m2h)
    }

    /// Switches to a variant; says whether it is another than the one in
    /// force.
    pub fn setup_chain(&mut self, variant: FmRadioVariant) -> (r: bool)
        requires
            old(self).wf(),
        ensures
            final(self).wf(),
            r == (old(self).current_variant != Some(variant)),
            !r ==> *final(self) == *old(self),
            r ==> *final(self) == (FmRadioProcessor {
                current_variant: Some(variant),
                mpx: MpxPipeline { reception: variant.reception, ..old(self).mpx },
                ..*old(self)
            }),
    {
        if let Some(current) = self.current_variant {
            if current == variant {
                return false;
            }
        }
        self.mpx.set_reception(variant.reception);
        self.current_variant = Some(variant);
        true
    }

    /// Sends samples through the delay line into the block.
    fn play(&mut self, source: &Vec<Vec<Sample>>, block: &mut Vec<Vec<Sample>>, n: usize)
        requires
            old(self).wf(),
            old(self).ready,
            block_fits(source@, old(self).channels as nat, n as nat),
            block_fits(old(block)@, old(self).channels as nat, n as nat),
        ensures
            final(self).wf(),
            same_shape(old(block)@, final(block)@),
            delayed(*old(self), *final(self), source@, old(block)@, final(block)@, n as nat),
    {
        let ghost before = *self;
        append_block(&mut self.delay, source, n);
        drain_into(&mut self.delay, block, n);
    }

    /// Passes one event to the MPX stage, and takes its output once nothing is
    /// left to do there.
    fn step_mpx(&mut self, event: &MpxEvent, n: usize) -> (r: FmAction)
        requires
            old(self).wf(),
            old(self).ready,
            mpx_event_fits(*event),
        ensures
            final(self).wf(),
            final(self).same_setup(&*old(self)),
            mpx_stepped(*old(self), *final(self), *event, n as nat, r),
    {
        let ghost before = self.mpx;
        let action = self.mpx.pump(event);
        let ghost mid = self.mpx;
        proof {
            assert(stepped(before, mid, *event, action));
        }
        match action {
            MpxAction::Done => {
                let quiet: Vec<Sample> = vec![silence(); n];
                let other: Vec<Sample> = vec![silence(); n];
                let mut post: Vec<Vec<Sample>> = Vec::new();
                post.push(quiet);
                post.push(other);
                self.mpx.drain_block(&mut post, n);
                proof {
                    assert forall|ch: int| 0 <= ch < 2 implies (#[trigger] post@[ch])@ == front(
                        mid.host_output@[ch]@,
                        n as nat,
                    ) by {
                        assert(post@[ch]@ =~= front(mid.host_output@[ch]@, n as nat));
                    }
                }
                FmAction::Finish(post)
            },
            action => FmAction::Mpx(action),
        }
    }

    /// One step of a block: takes in what the caller brings, and says what the
    /// caller is to do next. A processor that is not ready leaves the block as
    /// it is.
    pub fn process(
        &mut self,
        block: &mut Vec<Vec<Sample>>,
        n: usize,
        event: FmEvent,
        mode: FmRadioMode,
    ) -> (r: FmAction)
        requires
            old(self).wf(),
            old(self).ready ==> block_fits(old(block)@, old(self).channels as nat, n as nat)
                && fm_event_fits(event, n as nat),
        ensures
            final(self).wf(),
            same_shape(old(block)@, final(block)@),
            final(self).same_setup(&*old(self)),
            processed(
                *old(self),
                *final(self),
                old(block)@,
                final(block)@,
                n as nat,
                event,
                mode,
                r,
            ),
    {
        if !self.ready {
            return FmAction::Done;
        }
        match event {
            FmEvent::Start => match mode {
                FmRadioMode::Passthrough => {
                    append_block(&mut self.delay, block, n);
                    drain_into(&mut self.delay, block, n);
                    FmAction::Done
                },
                FmRadioMode::FmRadio { variant } => {
                    let rebuild = self.setup_chain(variant);
                    FmAction::Condition { rebuild }
                },
            },
            FmEvent::Conditioned(pre) => {
                let ghost c0 = *self;
                self.mpx.push_block(&pre, n);
                let ghost c1 = *self;
                proof {
                    assert(conditioned(c0, c1, pre@, n as nat));
                }
                self.step_mpx(&MpxEvent::Start, n)
            },
            FmEvent::Mpx(e) => self.step_mpx(&e, n),
            FmEvent::Finished(out) => {
                self.play(&out, block, n);
                FmAction::Done
            },
        }
    }
}

pub open spec fn fm_event_fits(event: FmEvent, n: nat) -> bool {
    match event {
        FmEvent::Start => true,
        FmEvent::Conditioned(pre) => block_fits(pre@, 2, n),
        FmEvent::Mpx(e) => mpx_event_fits(e),
        FmEvent::Finished(out) => block_fits(out@, 2, n),
    }
}

/// `n` samples per channel of `source` went into the delay line, and as many
/// came out into the block.
pub open spec fn delayed(
    before: FmRadioProcessor,
    after: FmRadioProcessor,
    source: Seq<Vec<Sample>>,
    block_before: Seq<Vec<Sample>>,
    block_after: Seq<Vec<Sample>>,
    n: nat,
) -> bool {
    &&& after == (FmRadioProcessor { delay: after.delay, ..before })
    &&& after.delay.len() == before.delay.len()
    &&& forall|ch: int|
        0 <= ch < before.channels ==> (#[trigger] after.delay@[ch])@ == rest(
            before.delay@[ch]@ + source[ch]@.take(n as int),
            n,
        )
    &&& overwritten(
        block_before,
        block_after,
        before.channels as nat,
        |ch: int| front(before.delay@[ch]@ + source[ch]@.take(n as int), n),
    )
}

/// The conditioned samples went to the MPX stage.
pub open spec fn conditioned(
    before: FmRadioProcessor,
    after: FmRadioProcessor,
    pre: Seq<Vec<Sample>>,
    n: nat,
) -> bool {
    &&& after == (FmRadioProcessor { mpx: after.mpx, ..before })
    &&& after.mpx == (MpxPipeline { host_input: after.mpx.host_input, ..before.mpx })
    &&& extended(
        before.mpx.host_input@,
        after.mpx.host_input@,
        |ch: int| pre[ch]@.take(n as int),
    )
}

/// The MPX stage took one event; once it has nothing left to do, `n` samples
/// come out of it.
pub open spec fn mpx_stepped(
    before: FmRadioProcessor,
    after: FmRadioProcessor,
    event: MpxEvent,
    n: nat,
    r: FmAction,
) -> bool {
    &&& after == (FmRadioProcessor { mpx: after.mpx, ..before })
    &&& exists|mid: MpxPipeline, action: MpxAction|
        {
            &&& #[trigger] stepped(before.mpx, mid, event, action)
            &&& if action is Done {
                &&& r is Finish
                &&& after.mpx == (MpxPipeline { host_output: after.mpx.host_output, ..mid })
                &&& drained(mid.host_output@, after.mpx.host_output@, n)
                &&& r->Finish_0.len() == 2
                &&& forall|ch: int|
                    0 <= ch < 2 ==> (#[trigger] r->Finish_0@[ch])@ == front(
                        mid.host_output@[ch]@,
                        n,
                    )
            } else {
                &&& r == FmAction::Mpx(action)
                &&& after.mpx == mid
            }
        }
}

/// One step of a block.
pub open spec fn processed(
    before: FmRadioProcessor,
    after: FmRadioProcessor,
    block_before: Seq<Vec<Sample>>,
    block_after: Seq<Vec<Sample>>,
    n: nat,
    event: FmEvent,
    mode: FmRadioMode,
    r: FmAction,
) -> bool {
    if !before.ready {
        r == FmAction::Done && after == before && block_after == block_before
    } else {
        match event {
            FmEvent::Start => match mode {
                FmRadioMode::Passthrough => r == FmAction::Done && delayed(
                    before,
                    after,
                    block_before,
                    block_before,
                    block_after,
                    n,
                ),
                FmRadioMode::FmRadio { variant } => {
                    let rebuild = before.current_variant != Some(variant);
                    &&& r == (FmAction::Condition { rebuild })
                    &&& block_after == block_before
                    &&& after == (if rebuild {
                        FmRadioProcessor {
                            current_variant: Some(variant),
                            mpx: MpxPipeline { reception: variant.reception, ..before.mpx },
                            ..before
                        }
                    } else {
                        before
                    })
                },
            },
            FmEvent::Conditioned(pre) => block_after == block_before && exists|
                c1: FmRadioProcessor,
            |
                #[trigger] conditioned(before, c1, pre@, n) && mpx_stepped(
                    c1,
                    after,
                    MpxEvent::Start,
                    n,
                    r,
                ),
            FmEvent::Mpx(e) => block_after == block_before && mpx_stepped(before, after, e, n, r),
            FmEvent::Finished(out) => r == FmAction::Done && delayed(
                before,
                after,
                out@,
                block_before,
                block_after,
                n,
            ),
        }
    }
}

/// The delay line never runs short or long: each sample comes out exactly
/// `delay_len` samples after it went in.
pub proof fn law_delay_is_exact(
    before: FmRadioProcessor,
    after: FmRadioProcessor,
    source: Seq<Vec<Sample>>,
    block_before: Seq<Vec<Sample>>,
    block_after: Seq<Vec<Sample>>,
    n: nat,
    ch: int,
    s: int,
)
    requires
        before.wf(),
        before.ready,
        block_fits(source, before.channels as nat, n),
        block_fits(block_before, before.channels as nat, n),
        delayed(before, after, source, block_before, block_after, n),
        0 <= ch < before.channels,
        0 <= s < n,
    ensures
        block_after[ch]@[s] == if s < before.delay_len {
            before.delay@[ch]@[s]
        } else {
            source[ch]@[s - before.delay_len]
        },
        after.delay@[ch]@.len() == before.delay_len,
{
    let q = before.delay@[ch]@ + source[ch]@.take(n as int);
    assert(source[ch].len() >= n);
    assert(before.delay@[ch]@.len() == before.delay_len);
    assert(block_after[ch]@ == front(q, n) + block_before[ch]@.skip(n as int));
    assert(after.delay@[ch]@ == rest(q, n));
}

impl Default for FmRadioProcessor {
    fn default() -> (r: FmRadioProcessor)
        ensures
            r.wf(),
            !r.ready,
    {
        FmRadioProcessor::new()
    }
}

}
