//! Real-time Opus encode -> decode via libopus, at 48 kHz in 20 ms frames.
//!
//! libopus works on floating point and is called from outside: `process`
//! hands out one interleaved frame at a time and takes back what became of
//! it. The encoder/decoder pair is opened once; bitrate changes are set on the
//! open encoder.

use crate::processor::frames::{
    channel_of, drain_interleaved, is_interleaved, law_interleave_round_trip, lemma_front_split,
    lemma_rest_rest, push_interleaved,
};
use crate::processor::pipeline::{
    at_host_rate, block_fits, chunk_of, delay_of, estimated, event_fits, failed_setup, finished_block,
    lemma_round_trip_estimated, padded, pumped_input, ring_fits, took_event, BlockAction, BlockEvent,
    BuiltResampler, ResampledPipeline,
};
use crate::processor::rings::{drained, extended, front, rest, same_shape, zeros};
use crate::sample::{silence, Sample};
use vstd::arithmetic::div_mod::*;
use vstd::prelude::*;

verus! {

pub const OPUS_RATE: u32 = 48_000;

/// 20 ms at 48 kHz.
pub const OPUS_FRAME_SIZE: usize = 960;

/// Upper bound for one packet.
pub const OPUS_PACKET_BYTES: usize = 4000;

/// Samples at 48 kHz from input to output: one frame, gathered on the way in
/// or out, and libopus's 6.5 ms of algorithmic delay.
pub const OPUS_ROUNDTRIP: u32 = 1272;

#[derive(Clone, Copy, PartialEq, Eq, Structural, Debug)]
pub enum OpusMode {
    Passthrough,
    Opus { bitrate_kbps: u32 },
}

/// What became of a frame.
pub enum OpusOutcome {
    /// The encoder gave an error.
    EncodeFailed,
    /// The encoder gave no packet.
    NoPacket,
    /// The interleaved frame after the decoder.
    Decoded(Vec<Sample>),
}

/// What the caller of the processor brings.
pub enum OpusEvent {
    Block(BlockEvent),
    /// The encoder was asked to take the bitrate; the block is as it was.
    BitrateTried { bps: i32, accepted: bool },
    /// The frame last handed out went through libopus.
    Coded { frame: Vec<Sample>, outcome: OpusOutcome },
}

/// What the caller of the processor is to do next.
pub enum OpusAction {
    Block(BlockAction),
    /// Set the encoder's bitrate before anything of the block is taken.
    SetBitrate(i32),
    /// Run an interleaved frame through libopus.
    Code(Vec<Sample>),
}

pub struct OpusProcessor {
    pub pipeline: ResampledPipeline,
    /// The encoder and the decoder exist.
    pub opened: bool,
    pub current_bitrate_bps: i32,
}

/// Host-rate latency of the processor. The output chunk is already counted
/// with the frame.
pub open spec fn opus_latency(
    host_rate: u32,
    h2i: Option<BuiltResampler>,
    i2h: Option<BuiltResampler>,
) -> int {
    chunk_of(host_rate, OPUS_RATE) + at_host_rate(
        delay_of(host_rate, OPUS_RATE, h2i) + OPUS_ROUNDTRIP,
        host_rate,
        OPUS_RATE,
    ) + delay_of(OPUS_RATE, host_rate, i2h)
}

/// The estimate made in advance.
pub open spec fn opus_estimate(
    host_rate: u32,
    h2i: Option<BuiltResampler>,
    i2h: Option<BuiltResampler>,
) -> int {
    estimated(host_rate, OPUS_RATE, OPUS_RATE, OPUS_ROUNDTRIP, h2i, i2h)
}

pub open spec fn opus_latency_fits(
    host_rate: u32,
    h2i: Option<BuiltResampler>,
    i2h: Option<BuiltResampler>,
) -> bool {
    &&& delay_of(host_rate, OPUS_RATE, h2i) + OPUS_ROUNDTRIP <= u32::MAX
    &&& opus_estimate(host_rate, h2i, i2h) <= u32::MAX
}

/// The latency of a processor that was set up never exceeds the estimate made
/// for it in advance.
pub proof fn law_estimate_covers_latency(
    host_rate: u32,
    h2i: Option<BuiltResampler>,
    i2h: Option<BuiltResampler>,
)
    requires
        host_rate == OPUS_RATE || h2i is Some && i2h is Some,
    ensures
        opus_latency(host_rate, h2i, i2h) <= opus_estimate(host_rate, h2i, i2h),
        host_rate == OPUS_RATE ==> opus_estimate(host_rate, h2i, i2h) == OPUS_ROUNDTRIP,
{
    let c = chunk_of(OPUS_RATE, host_rate);
    assert(c * host_rate >= 0) by (nonlinear_arith)
        requires
            c >= 0,
            host_rate >= 0,
    ;
    lemma_div_pos_is_pos(c * host_rate as int, OPUS_RATE as int);
    if host_rate == OPUS_RATE {
        assert(0int * 48_000 == 0);
        lemma_div_by_multiple(1272, 48_000);
    }
}

/// The frame to play for each outcome: silence where the encoder failed, the
/// frame itself where there was no packet, else what the decoder left.
pub open spec fn played_frame(frame: Seq<Sample>, outcome: OpusOutcome, n: nat) -> Seq<Sample> {
    match outcome {
        OpusOutcome::EncodeFailed => zeros(n),
        OpusOutcome::NoPacket => frame,
        OpusOutcome::Decoded(decoded) => decoded@,
    }
}

impl OpusProcessor {
    pub open spec fn wf(&self) -> bool {
        &&& self.pipeline.wf()
        &&& self.pipeline.ready ==> {
            &&& self.pipeline.channels == 1 || self.pipeline.channels == 2
            &&& self.pipeline.encode_rate == OPUS_RATE
            &&& self.opened
        }
    }

    pub fn new() -> (r: OpusProcessor)
        ensures
            r.wf(),
            !r.pipeline.ready,
            r.pipeline.channels == 2,
            !r.opened,
            r.current_bitrate_bps == -1,
    {
        OpusProcessor {
            pipeline: ResampledPipeline::new(),
            opened: false,
            current_bitrate_bps: -1,
        }
    }

    /// Sets the processor up for a host. `opened` says whether libopus gave
    /// an encoder and a decoder. Without them, or with another channel count
    /// than one or two, everything stays as it was.
    pub fn initialize(
        &mut self,
        host_sample_rate: u32,
        channels: usize,
        max_block_size: usize,
        opened: bool,
        h2i: Option<BuiltResampler>,
        i2h: Option<BuiltResampler>,
    )
        requires
            old(self).wf(),
            ring_fits(max_block_size, host_sample_rate),
            opus_latency_fits(host_sample_rate, h2i, i2h),
        ensures
            final(self).wf(),
            (channels != 1 && channels != 2) || !opened ==> *final(self) == *old(self),
            (channels == 1 || channels == 2) && opened ==> {
                let p = final(self).pipeline;
                &&& final(self).opened
                &&& p.host_rate == host_sample_rate
                &&& p.channels == channels
                &&& p.ready == (host_sample_rate == OPUS_RATE || (h2i is Some && i2h is Some))
                &&& p.ready ==> {
                    &&& final(self).current_bitrate_bps == -1
                    &&& p.latency_host_samples == opus_latency(host_sample_rate, h2i, i2h)
                    &&& p.primed()
                    &&& p.set_up_for(host_sample_rate, channels, OPUS_RATE, OPUS_RATE, h2i, i2h)
                }
                &&& !p.ready ==> final(self).current_bitrate_bps == old(self).current_bitrate_bps
                &&& !p.ready ==> failed_setup(
                    old(self).pipeline,
                    p,
                    host_sample_rate,
                    channels,
                    OPUS_RATE,
                    OPUS_RATE,
                    h2i,
                )
            },
    {
        if channels != 1 && channels != 2 {
            return;
        }
        if !opened {
            return;
        }
        self.opened = true;
        if !self.pipeline.setup(
            host_sample_rate,
            channels,
            max_block_size,
            OPUS_RATE,
            OPUS_RATE,
            h2i,
            i2h,
        ) {
            return;
        }
        self.current_bitrate_bps = -1;
        proof {
            law_estimate_covers_latency(host_sample_rate, h2i, i2h);
            lemma_round_trip_estimated(self.pipeline, OPUS_RATE, OPUS_ROUNDTRIP, h2i, i2h);
        }
        let latency = self.compute_natural_latency();
        self.pipeline.set_latency(latency);
    }

    /// Where the host runs at 48 kHz a whole frame gathers before the codec;
    /// elsewhere the resampler's output chunk, which is as long, comes on top.
    fn compute_natural_latency(&self) -> (r: u32)
        requires
            self.pipeline.wf(),
            self.pipeline.h2i_pair().1 + OPUS_ROUNDTRIP <= u32::MAX,
            self.pipeline.h2i_pair().0 + at_host_rate(
                self.pipeline.h2i_pair().1 + OPUS_ROUNDTRIP,
                self.pipeline.host_rate,
                OPUS_RATE,
            ) + self.pipeline.i2h_pair().1 <= u32::MAX,
        ensures
            r == self.pipeline.h2i_pair().0 + at_host_rate(
                self.pipeline.h2i_pair().1 + OPUS_ROUNDTRIP,
                self.pipeline.host_rate,
                OPUS_RATE,
            ) + self.pipeline.i2h_pair().1,
    {
        let (h2i_chunk_host, h2i_delay_internal) = self.pipeline.h2i_latency_pair();
        let (_, i2h_delay_host) = self.pipeline.i2h_latency_pair();
        let accum: u32 = if self.pipeline.host_rate == OPUS_RATE {
            960
        } else {
            0
        };
        let chunk: u32 = if self.pipeline.host_rate == OPUS_RATE {
            0
        } else {
            960
        };
        let internal_total: u32 = h2i_delay_internal + (accum + 312 + chunk);
        proof {
            assert(0 <= internal_total * self.pipeline.host_rate <= 0xffff_ffff * 0xffff_ffff)
                by (nonlinear_arith)
                requires
                    0 <= internal_total <= 0xffff_ffff,
                    0 <= self.pipeline.host_rate <= 0xffff_ffff,
            ;
        }
        let at_host: u64 = internal_total as u64 * self.pipeline.host_rate as u64
            / OPUS_RATE as u64;
        h2i_chunk_host + at_host as u32 + i2h_delay_host
    }

    pub fn pad_output_to(&mut self, target: u32)
        requires
            old(self).wf(),
        ensures
            final(self).wf(),
            *final(self) == (OpusProcessor { pipeline: final(self).pipeline, ..*old(self) }),
            padded(old(self).pipeline, final(self).pipeline, target),
    {
        self.pipeline.pad_output_to(target);
    }

    /// Static estimate for the lazy-init path.
    pub fn worst_case_latency_at(
        host_rate: u32,
        channels: usize,
        h2i: Option<BuiltResampler>,
        i2h: Option<BuiltResampler>,
    ) -> (r: u32)
        requires
            ring_fits(1, host_rate),
            opus_latency_fits(host_rate, h2i, i2h),
        ensures
            r == opus_estimate(host_rate, h2i, i2h),
    {
        ResampledPipeline::estimate_latency(
            host_rate,
            channels,
            OPUS_RATE,
            OPUS_RATE,
            OPUS_ROUNDTRIP,
            h2i,
            i2h,
        )
    }

    /// Clears the rings; the caller resets the encoder and the decoder. The
    /// bitrate stays set.
    pub fn reset(&mut self)
        requires
            old(self).wf(),
        ensures
            final(self).wf(),
            *final(self) == (OpusProcessor { pipeline: final(self).pipeline, ..*old(self) }),
            !old(self).pipeline.ready ==> *final(self) == *old(self),
            final(self).pipeline.same_setup(&old(self).pipeline),
            old(self).pipeline.ready ==> final(self).pipeline.primed(),
    {
        if !self.pipeline.ready {
            return;
        }
        self.pipeline.reset();
    }

    pub fn latency_samples(&self) -> (r: u32)
        ensures
            r == if self.pipeline.ready {
                self.pipeline.latency_host_samples
            } else {
                0
            },
    {
        if self.pipeline.ready {
            self.pipeline.latency_host_samples
        } else {
            0
        }
    }

    pub open spec fn spec_bitrate_to_set(&self, mode: OpusMode) -> Option<i32> {
        match mode {
            OpusMode::Opus { bitrate_kbps } if self.pipeline.ready && self.opened && bitrate_kbps
                * 1000 != self.current_bitrate_bps => Some((bitrate_kbps * 1000) as i32),
            _ => None,
        }
    }

    /// The bitrate to set on the encoder before a block, if it is not the one
    /// in force.
    #[verifier::when_used_as_spec(spec_bitrate_to_set)]
    pub fn bitrate_to_set(&self, mode: OpusMode) -> (r: Option<i32>)
        requires
            mode matches OpusMode::Opus { bitrate_kbps } ==> bitrate_kbps * 1000 <= i32::MAX,
        ensures
            r == self.spec_bitrate_to_set(mode),
    {
        if !self.pipeline.ready || !self.opened {
            return None;
        }
        match mode {
            OpusMode::Passthrough => None,
            OpusMode::Opus { bitrate_kbps } => {
                let target_bps: i32 = (bitrate_kbps as i32) * 1000;
                if target_bps == self.current_bitrate_bps {
                    None
                } else {
                    Some(target_bps)
                }
            },
        }
    }

    pub open spec fn with_bitrate(self, bps: i32, accepted: bool) -> OpusProcessor {
        OpusProcessor {
            current_bitrate_bps: if accepted {
                bps
            } else {
                self.current_bitrate_bps
            },
            ..self
        }
    }

    /// Takes down the outcome of setting a bitrate: one that the encoder
    /// refused is tried again with the next block.
    pub fn note_bitrate(&mut self, bps: i32, accepted: bool)
        ensures
            *final(self) == old(self).with_bitrate(bps, accepted),
    {
        if accepted {
            self.current_bitrate_bps = bps;
        }
    }

    /// Plays a frame that went through libopus.
    pub fn accept_frame(&mut self, frame: &Vec<Sample>, outcome: &OpusOutcome)
        requires
            old(self).wf(),
            old(self).pipeline.ready,
            frame_fits(frame@, *outcome, old(self).pipeline.channels as nat),
        ensures
            final(self).wf(),
            accepted_frame(*old(self), *final(self), frame@, *outcome),
    {
        match outcome {
            OpusOutcome::EncodeFailed => {
                let quiet: Vec<Sample> = vec![silence(); OPUS_FRAME_SIZE * self.pipeline.channels];
                proof {
                    assert(quiet@ =~= zeros(
                        (OPUS_FRAME_SIZE * self.pipeline.channels) as nat,
                    ));
                }
                push_interleaved(&quiet, OPUS_FRAME_SIZE, &mut self.pipeline.internal_output);
            },
            OpusOutcome::NoPacket => {
                push_interleaved(frame, OPUS_FRAME_SIZE, &mut self.pipeline.internal_output);
            },
            OpusOutcome::Decoded(decoded) => {
                push_interleaved(decoded, OPUS_FRAME_SIZE, &mut self.pipeline.internal_output);
            },
        }
    }

    /// The codec stage: hands out the next whole frame, if there is one. In
    /// passthrough every whole frame goes on at once.
    fn pump_codec(&mut self, mode: OpusMode) -> (r: Option<Vec<Sample>>)
        requires
            old(self).wf(),
            old(self).pipeline.ready,
        ensures
            final(self).wf(),
            pumped_codec(*old(self), *final(self), mode, r),
    {
        let ghost before = *self;
        let ghost input = before.pipeline.internal_input@;
        let ghost output = before.pipeline.internal_output@;
        let ghost mut taken: nat = 0;
        proof {
            assert forall|ch: int| 0 <= ch < input.len() implies (#[trigger] input[ch])@ == rest(
                input[ch]@,
                0,
            ) by {
                assert(input[ch]@ =~= rest(input[ch]@, 0));
            }
            assert forall|ch: int| 0 <= ch < output.len() implies (#[trigger] output[ch])@
                == output[ch]@ + front(input[ch]@, 0) by {
                assert(output[ch]@ =~= output[ch]@ + front(input[ch]@, 0));
            }
        }
        while self.pipeline.internal_input[0].len() >= OPUS_FRAME_SIZE
            invariant
                self.wf(),
                self.pipeline.ready,
                before == *old(self),
                before.wf(),
                before.pipeline.ready,
                input == before.pipeline.internal_input@,
                output == before.pipeline.internal_output@,
                *self == (OpusProcessor { pipeline: self.pipeline, ..before }),
                mode is Opus ==> taken == 0 && *self == before,
                taken * OPUS_FRAME_SIZE <= input[0]@.len(),
                self.pipeline.only_rings_changed(&before.pipeline, false, true, true, false),
                drained(input, self.pipeline.internal_input@, taken * OPUS_FRAME_SIZE as nat),
                extended(
                    output,
                    self.pipeline.internal_output@,
                    |ch: int| front(input[ch]@, taken * OPUS_FRAME_SIZE as nat),
                ),
            decreases self.pipeline.internal_input@[0]@.len(),
        {
            let ghost start = self.pipeline;
            let frame = drain_interleaved(&mut self.pipeline.internal_input, OPUS_FRAME_SIZE);
            match mode {
                OpusMode::Opus { .. } => {
                    return Some(frame);
                },
                OpusMode::Passthrough => {},
            }
            push_interleaved(&frame, OPUS_FRAME_SIZE, &mut self.pipeline.internal_output);
            proof {
                let n = taken * OPUS_FRAME_SIZE as nat;
                assert forall|ch: int| 0 <= ch < input.len() implies {
                    &&& rest(rest((#[trigger] input[ch])@, n), OPUS_FRAME_SIZE as nat) == rest(
                        input[ch]@,
                        (taken + 1) * OPUS_FRAME_SIZE as nat,
                    )
                    &&& self.pipeline.internal_output@[ch]@ == output[ch]@ + front(
                        input[ch]@,
                        (taken + 1) * OPUS_FRAME_SIZE as nat,
                    )
                } by {
                    lemma_rest_rest(input[ch]@, n, OPUS_FRAME_SIZE as nat);
                    lemma_front_split(input[ch]@, n, OPUS_FRAME_SIZE as nat);
                    law_interleave_round_trip(
                        start.internal_input@,
                        OPUS_FRAME_SIZE as nat,
                        frame@,
                        ch,
                    );
                    assert(start.internal_output@[ch]@ == output[ch]@ + front(input[ch]@, n));
                    assert(start.internal_input@[ch]@ == rest(input[ch]@, n));
                    assert(self.pipeline.internal_output@[ch]@ == start.internal_output@[ch]@
                        + front(start.internal_input@[ch]@, OPUS_FRAME_SIZE as nat));
                    assert(self.pipeline.internal_output@[ch]@ =~= output[ch]@ + (front(
                        input[ch]@,
                        n,
                    ) + front(rest(input[ch]@, n), OPUS_FRAME_SIZE as nat)));
                }
                taken = taken + 1;
            }
        }
        proof {
            let n = input[0]@.len() as int;
            assert(self.pipeline.internal_input@[0]@.len() == n - taken * OPUS_FRAME_SIZE);
            lemma_fundamental_div_mod_converse(
                n,
                OPUS_FRAME_SIZE as int,
                taken as int,
                n - taken * OPUS_FRAME_SIZE,
            );
        }
        None
    }

    /// One step of a block: takes in what the caller brings, and says what the
    /// caller is to do next. A processor that is not ready leaves the block as
    /// it is.
    pub fn process(
        &mut self,
        block: &mut Vec<Vec<Sample>>,
        n_samples: usize,
        event: OpusEvent,
        mode: OpusMode,
    ) -> (r: OpusAction)
        requires
            old(self).wf(),
            old(self).pipeline.ready ==> block_fits(
                old(block)@,
                old(self).pipeline.channels as nat,
                n_samples as nat,
            ) && opus_event_fits(event, old(self).pipeline.channels as nat),
            mode matches OpusMode::Opus { bitrate_kbps } ==> bitrate_kbps * 1000 <= i32::MAX,
        ensures
            final(self).wf(),
            same_shape(old(block)@, final(block)@),
            final(self).pipeline.same_setup(&old(self).pipeline),
            processed(
                *old(self),
                *final(self),
                old(block)@,
                final(block)@,
                n_samples as nat,
                event,
                mode,
                r,
            ),
    {
        if !self.pipeline.ready {
            return OpusAction::Block(BlockAction::Done);
        }
        let ghost c0 = *self;
        match event {
            OpusEvent::Block(e) => {
                if let BlockEvent::Start = e {
                    if let Some(bps) = self.bitrate_to_set(mode) {
                        return OpusAction::SetBitrate(bps);
                    }
                }
                let input_side = self.pipeline.take_event(block, n_samples, &e);
                let ghost c1 = *self;
                proof {
                    assert(took_event(c0.pipeline, c1.pipeline, old(block)@, n_samples as nat, e));
                }
                if !input_side {
                    return OpusAction::Block(self.pipeline.finish_block(block, n_samples));
                }
                let chunk = self.pipeline.pump_host_to_internal();
                proof {
                    assert(pumped_input(c1.pipeline, self.pipeline, chunk));
                }
                match chunk {
                    Some(chunk) => {
                        return OpusAction::Block(BlockAction::ResampleInput(chunk));
                    },
                    None => {},
                }
            },
            OpusEvent::BitrateTried { bps, accepted } => {
                self.note_bitrate(bps, accepted);
                self.pipeline.push_host_block(block, n_samples);
                let ghost c1 = *self;
                proof {
                    assert(took_event(
                        c0.pipeline,
                        c1.pipeline,
                        old(block)@,
                        n_samples as nat,
                        BlockEvent::Start,
                    ));
                }
                let chunk = self.pipeline.pump_host_to_internal();
                proof {
                    assert(pumped_input(c1.pipeline, self.pipeline, chunk));
                }
                match chunk {
                    Some(chunk) => {
                        return OpusAction::Block(BlockAction::ResampleInput(chunk));
                    },
                    None => {},
                }
            },
            OpusEvent::Coded { frame, outcome } => {
                self.accept_frame(&frame, &outcome);
            },
        }
        let ghost c2 = *self;
        let frame = self.pump_codec(mode);
        proof {
            assert(entered(c0, c2, block@, n_samples as nat, event));
            assert(pumped_codec(c2, *self, mode, frame));
        }
        match frame {
            Some(frame) => OpusAction::Code(frame),
            None => OpusAction::Block(self.pipeline.finish_block(block, n_samples)),
        }
    }
}

/// The frame, and what became of it, hold one frame for each channel.
pub open spec fn frame_fits(frame: Seq<Sample>, outcome: OpusOutcome, channels: nat) -> bool {
    &&& frame.len() == OPUS_FRAME_SIZE * channels
    &&& outcome matches OpusOutcome::Decoded(decoded) ==> decoded@.len() == OPUS_FRAME_SIZE
        * channels
}

pub open spec fn opus_event_fits(event: OpusEvent, channels: nat) -> bool {
    match event {
        OpusEvent::Block(e) => event_fits(e, channels),
        OpusEvent::BitrateTried { .. } => true,
        OpusEvent::Coded { frame, outcome } => frame_fits(frame@, outcome, channels),
    }
}

/// A frame that went through libopus was played.
pub open spec fn accepted_frame(
    before: OpusProcessor,
    after: OpusProcessor,
    frame: Seq<Sample>,
    outcome: OpusOutcome,
) -> bool {
    let channels = before.pipeline.channels as nat;
    let out = played_frame(frame, outcome, OPUS_FRAME_SIZE as nat * channels);
    &&& after == around(before, after.pipeline)
    &&& after.pipeline.only_rings_changed(&before.pipeline, false, false, true, false)
    &&& extended(
        before.pipeline.internal_output@,
        after.pipeline.internal_output@,
        |ch: int| channel_of(out, OPUS_FRAME_SIZE as nat, channels, ch),
    )
}

/// The codec stage of one step.
pub open spec fn pumped_codec(
    before: OpusProcessor,
    after: OpusProcessor,
    mode: OpusMode,
    r: Option<Vec<Sample>>,
) -> bool {
    let input = before.pipeline.internal_input@;
    match mode {
        OpusMode::Passthrough => {
            let whole = (input[0]@.len() / OPUS_FRAME_SIZE as nat) * OPUS_FRAME_SIZE as nat;
            &&& r is None
            &&& after == around(before, after.pipeline)
            &&& after.pipeline.only_rings_changed(&before.pipeline, false, true, true, false)
            &&& drained(input, after.pipeline.internal_input@, whole)
            &&& extended(
                before.pipeline.internal_output@,
                after.pipeline.internal_output@,
                |ch: int| front(input[ch]@, whole),
            )
        },
        OpusMode::Opus { .. } => {
            &&& r is Some <==> input[0]@.len() >= OPUS_FRAME_SIZE
            &&& r is None ==> after == before
            &&& r matches Some(frame) ==> {
                &&& is_interleaved(input, OPUS_FRAME_SIZE as nat, frame@)
                &&& after == around(before, after.pipeline)
                &&& after.pipeline.only_rings_changed(&before.pipeline, false, true, false, false)
                &&& drained(input, after.pipeline.internal_input@, OPUS_FRAME_SIZE as nat)
            }
        },
    }
}

/// The processor `c` around another pipeline.
pub open spec fn around(c: OpusProcessor, p: ResampledPipeline) -> OpusProcessor {
    OpusProcessor { pipeline: p, ..c }
}

/// The processor that an event leaves to work with, and the block event that
/// it amounts to, if any.
pub open spec fn opened_with(before: OpusProcessor, event: OpusEvent) -> (
    OpusProcessor,
    Option<BlockEvent>,
) {
    match event {
        OpusEvent::Block(e) => (before, Some(e)),
        OpusEvent::BitrateTried { bps, accepted } => (
            before.with_bitrate(bps, accepted),
            Some(BlockEvent::Start),
        ),
        OpusEvent::Coded { .. } => (before, None),
    }
}

/// What an event leads to before the codec stage runs.
pub open spec fn entered(
    before: OpusProcessor,
    after: OpusProcessor,
    block: Seq<Vec<Sample>>,
    n: nat,
    event: OpusEvent,
) -> bool {
    let (start, block_event) = opened_with(before, event);
    match event {
        OpusEvent::Coded { frame, outcome } => accepted_frame(before, after, frame@, outcome),
        _ => {
            &&& !(block_event->0 is OutputResampled)
            &&& after == around(start, after.pipeline)
            &&& exists|p1: ResampledPipeline|
                #[trigger] took_event(start.pipeline, p1, block, n, block_event->0)
                    && pumped_input(p1, after.pipeline, None)
        },
    }
}

/// A step that ends before the codec stage.
pub open spec fn early(
    before: OpusProcessor,
    after: OpusProcessor,
    block_before: Seq<Vec<Sample>>,
    block_after: Seq<Vec<Sample>>,
    n: nat,
    event: OpusEvent,
    r: OpusAction,
) -> bool {
    let (start, block_event) = opened_with(before, event);
    &&& !(event is Coded)
    &&& r is Block
    &&& after == around(start, after.pipeline)
    &&& exists|p1: ResampledPipeline|
        {
            &&& #[trigger] took_event(start.pipeline, p1, block_before, n, block_event->0)
            &&& if block_event->0 is OutputResampled {
                finished_block(p1, after.pipeline, block_before, block_after, n, r->Block_0)
            } else {
                &&& r->Block_0 is ResampleInput
                &&& pumped_input(p1, after.pipeline, Some(r->Block_0->ResampleInput_0))
                &&& block_after == block_before
            }
        }
}

/// One step of a block: a bitrate to set first, an outcome before the codec
/// stage, or the codec stage and what follows from it.
pub open spec fn processed(
    before: OpusProcessor,
    after: OpusProcessor,
    block_before: Seq<Vec<Sample>>,
    block_after: Seq<Vec<Sample>>,
    n: nat,
    event: OpusEvent,
    mode: OpusMode,
    r: OpusAction,
) -> bool {
    &&& !before.pipeline.ready ==> {
        &&& r == OpusAction::Block(BlockAction::Done)
        &&& after == before
        &&& block_after == block_before
    }
    &&& before.pipeline.ready && event == OpusEvent::Block(BlockEvent::Start)
        && before.bitrate_to_set(mode) is Some ==> {
        &&& r == OpusAction::SetBitrate(before.bitrate_to_set(mode)->0)
        &&& after == before
        &&& block_after == block_before
    }
    &&& before.pipeline.ready && !(event == OpusEvent::Block(BlockEvent::Start)
        && before.bitrate_to_set(mode) is Some) ==> {
        ||| early(before, after, block_before, block_after, n, event, r)
        ||| exists|c2: OpusProcessor, c3: OpusProcessor, frame: Option<Vec<Sample>>|
            {
                &&& #[trigger] pumped_codec(c2, c3, mode, frame)
                &&& entered(before, c2, block_before, n, event)
                &&& match frame {
                    Some(f) => r == OpusAction::Code(f) && after == c3 && block_after
                        == block_before,
                    None => {
                        &&& after == around(c3, after.pipeline)
                        &&& r is Block
                        &&& finished_block(
                            c3.pipeline,
                            after.pipeline,
                            block_before,
                            block_after,
                            n,
                            r->Block_0,
                        )
                    },
                }
            }
    }
}

impl Default for OpusProcessor {
    fn default() -> (r: OpusProcessor)
        ensures
            r.wf(),
            !r.pipeline.ready,
    {
        OpusProcessor::new()
    }
}

}
