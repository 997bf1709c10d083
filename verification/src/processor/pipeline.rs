//! Shared scaffolding for every codec processor: ring buffers, host I/O
//! glue, latency padding.
//!
//! ```text
//!  host_input (host_rate)                host_output (host_rate, pre-filled)
//!      |                                              ^
//!      | pump_host_to_internal                        | pump_internal_to_host
//!      v                                              |
//!  internal_input (encode_rate)   internal_output (decode_rate)
//!      |                                              ^
//!      +---- codec's encode -> decode (lives in codec module) ----+
//! ```
//!
//! Where the two rates of a side differ, a resampler stands between its
//! rings. The resampler itself works on floating point and is driven from
//! outside: a pump hands out one chunk at a time, and the samples that the
//! resampler makes of it come back through `push_resampled_input` or
//! `push_resampled_output`. `encode_rate` is fixed per codec; `decode_rate`
//! may differ (MP3 auto-downsample) and is updated via `setup_i2h`.

use crate::processor::rings::{
    all_hold, append_block, append_silence, append_silence_all, append_slice, clear_all, drain_all,
    drain_into, drained, extended, front, move_all, new_rings, overwritten, prefill_all, rest,
    same_shape, silence_blocks, zeros,
};
use crate::sample::{
    dequantised, full_scale, law_quantise_round_trip, lemma_dequantised, quantised, silence, Sample,
};
use std::collections::VecDeque;
use vstd::arithmetic::div_mod::*;
use vstd::arithmetic::power2::pow2;
use vstd::prelude::*;

verus! {

/// Sub-chunks per resampler chunk; quality/latency sweet spot for music.
pub const RESAMPLER_SUB_CHUNKS: usize = 2;

/// A resampler that has been built for one side of a pipeline.
#[derive(Clone, Copy, PartialEq, Eq, Structural, Debug)]
pub struct BuiltResampler {
    /// Its delay, in samples at its output rate.
    pub output_delay: u32,
}

/// What has to be built for one side of a pipeline.
#[derive(Clone, Copy, PartialEq, Eq, Structural, Debug)]
pub struct ResamplerPlan {
    pub rate_in: u32,
    pub rate_out: u32,
    /// Samples per channel handed over at a time: about 20 ms, a clean
    /// ratio across all common host rates.
    pub chunk: usize,
    pub sub_chunks: usize,
    pub channels: usize,
}

/// The resampler between two rates; none where they match.
pub fn plan_resampler(rate_in: u32, rate_out: u32, channels: usize) -> (r: Option<ResamplerPlan>)
    ensures
        r is None <==> rate_in == rate_out,
        rate_in != rate_out ==> r == Some(
            ResamplerPlan {
                rate_in,
                rate_out,
                chunk: (rate_in / 50) as usize,
                sub_chunks: RESAMPLER_SUB_CHUNKS,
                channels,
            },
        ),
{
    if rate_in == rate_out {
        None
    } else {
        Some(
            ResamplerPlan {
                rate_in,
                rate_out,
                chunk: (rate_in as usize) / 50,
                sub_chunks: RESAMPLER_SUB_CHUNKS,
                channels,
            },
        )
    }
}

pub struct ResampledPipeline {
    /// `setup` succeeded. Every pump / push / drain is a no-op while false.
    pub ready: bool,
    pub host_rate: u32,
    pub channels: usize,
    /// Encoder input rate. Fixed for the lifetime of this pipeline.
    pub encode_rate: u32,
    /// Decoder output rate. May differ from `encode_rate` (MP3 auto-
    /// downsample); updated via `setup_i2h`.
    pub decode_rate: u32,
    pub h2i: Option<BuiltResampler>,
    pub i2h: Option<BuiltResampler>,
    pub h2i_chunk: usize,
    pub i2h_chunk: usize,
    pub host_input: Vec<VecDeque<Sample>>,
    pub internal_input: Vec<VecDeque<Sample>>,
    pub internal_output: Vec<VecDeque<Sample>>,
    pub host_output: Vec<VecDeque<Sample>>,
    pub latency_host_samples: u32,
}

/// `n` samples at `rate` take this many whole samples at `host_rate`.
pub open spec fn at_host_rate(n: int, host_rate: u32, rate: u32) -> int {
    n * host_rate as int / rate as int
}

/// Host-rate delay of a pipeline whose codec needs `roundtrip` samples at
/// the encode rate: input chunk, resampler and codec delay, output chunk,
/// output resampler delay.
pub open spec fn round_trip(p: ResampledPipeline, roundtrip: int) -> int {
    p.h2i_pair().0 + at_host_rate(p.h2i_pair().1 + roundtrip, p.host_rate, p.encode_rate)
        + p.i2h_pair().0 + p.i2h_pair().1
}

/// The rings of a pipeline are capacity hints of this many samples.
pub open spec fn ring_capacity(max_block_size: usize, host_rate: u32) -> int {
    max_block_size + host_rate as int / 10 + 1
}

/// A ring of that capacity can be asked for at all.
pub open spec fn ring_fits(max_block_size: usize, host_rate: u32) -> bool {
    4 * ring_capacity(max_block_size, host_rate) <= isize::MAX
}

impl ResampledPipeline {
    pub open spec fn wf(&self) -> bool {
        &&& self.h2i is Some ==> self.h2i_chunk == (self.host_rate / 50) as usize
        &&& self.h2i is None ==> self.h2i_chunk == 0
        &&& self.i2h is Some ==> self.i2h_chunk == (self.decode_rate / 50) as usize
            && self.decode_rate != self.host_rate
        &&& self.i2h is None ==> self.i2h_chunk == 0
        &&& self.ready ==> {
            &&& self.h2i is None <==> self.host_rate == self.encode_rate
            &&& self.host_input.len() == self.channels
            &&& self.internal_input.len() == self.channels
            &&& self.internal_output.len() == self.channels
            &&& self.host_output.len() == self.channels
        }
    }

    /// Rates, channels, resamplers and latency are those of `other`.
    pub open spec fn same_setup(&self, other: &ResampledPipeline) -> bool {
        &&& self.ready == other.ready
        &&& self.host_rate == other.host_rate
        &&& self.channels == other.channels
        &&& self.encode_rate == other.encode_rate
        &&& self.decode_rate == other.decode_rate
        &&& self.h2i == other.h2i
        &&& self.i2h == other.i2h
        &&& self.h2i_chunk == other.h2i_chunk
        &&& self.i2h_chunk == other.i2h_chunk
        &&& self.latency_host_samples == other.latency_host_samples
    }

    /// Rates, channels and resamplers are those of a host and a codec; where two
    /// rates agree there is no resampler between them.
    pub open spec fn set_up_for(
        &self,
        host_rate: u32,
        channels: usize,
        encode_rate: u32,
        decode_rate: u32,
        h2i: Option<BuiltResampler>,
        i2h: Option<BuiltResampler>,
    ) -> bool {
        &&& self.host_rate == host_rate
        &&& self.channels == channels
        &&& self.encode_rate == encode_rate
        &&& self.decode_rate == decode_rate
        &&& self.h2i == (if host_rate == encode_rate {
            None
        } else {
            h2i
        })
        &&& self.i2h == (if decode_rate == host_rate {
            None
        } else {
            i2h
        })
    }

    /// Only rings have changed since `before`, and of these only the ones
    /// that are let through.
    pub open spec fn only_rings_changed(
        &self,
        before: &ResampledPipeline,
        host_input: bool,
        internal_input: bool,
        internal_output: bool,
        host_output: bool,
    ) -> bool {
        &&& self.same_setup(before)
        &&& !host_input ==> self.host_input == before.host_input
        &&& !internal_input ==> self.internal_input == before.internal_input
        &&& !internal_output ==> self.internal_output == before.internal_output
        &&& !host_output ==> self.host_output == before.host_output
    }

    /// The rings are as `set_latency` leaves them after `setup`.
    pub open spec fn primed(&self) -> bool {
        &&& all_hold(self.host_input@, Seq::empty())
        &&& all_hold(self.internal_input@, Seq::empty())
        &&& all_hold(self.internal_output@, Seq::empty())
        &&& all_hold(self.host_output@, zeros(self.latency_host_samples as nat))
    }

    /// Input-side latency: chunk at the host rate, delay at the encode rate.
    pub open spec fn h2i_pair(&self) -> (int, int) {
        match self.h2i {
            None => (0, 0),
            Some(r) => (self.h2i_chunk as int, r.output_delay as int),
        }
    }

    /// Output-side latency: chunk and delay, both at the host rate.
    pub open spec fn i2h_pair(&self) -> (int, int) {
        match self.i2h {
            None => (0, 0),
            Some(r) => (
                if self.decode_rate == 0 {
                    0
                } else {
                    at_host_rate(self.i2h_chunk as int, self.host_rate, self.decode_rate)
                },
                r.output_delay as int,
            ),
        }
    }

    pub fn new() -> (r: ResampledPipeline)
        ensures
            r.wf(),
            !r.ready,
            r.host_rate == 44_100,
            r.channels == 2,
            r.encode_rate == 44_100,
            r.decode_rate == 44_100,
            r.h2i is None,
            r.i2h is None,
            r.host_input.len() == 0,
            r.internal_input.len() == 0,
            r.internal_output.len() == 0,
            r.host_output.len() == 0,
            r.latency_host_samples == 0,
    {
        ResampledPipeline {
            ready: false,
            host_rate: 44_100,
            channels: 2,
            encode_rate: 44_100,
            decode_rate: 44_100,
            h2i: None,
            i2h: None,
            h2i_chunk: 0,
            i2h_chunk: 0,
            host_input: Vec::new(),
            internal_input: Vec::new(),
            internal_output: Vec::new(),
            host_output: Vec::new(),
            latency_host_samples: 0,
        }
    }

    /// (Re)initialise the pipeline. `h2i` and `i2h` are the resamplers that
    /// were built to `plan_resampler`, or `None` where a rate pair needs none
    /// or the build failed. Codecs that change `decode_rate` dynamically
    /// (MP3) pass a sensible initial `decode_rate_hint` here and call
    /// `setup_i2h` later. Returns `false` where a resampler that is needed is
    /// missing; caller should bail.
    pub fn setup(
        &mut self,
        host_rate: u32,
        channels: usize,
        max_block_size: usize,
        encode_rate: u32,
        decode_rate_hint: u32,
        h2i: Option<BuiltResampler>,
        i2h: Option<BuiltResampler>,
    ) -> (r: bool)
        requires
            ring_fits(max_block_size, host_rate),
        ensures
            final(self).wf(),
            final(self).ready == r,
            r == ((host_rate == encode_rate || h2i is Some) && (decode_rate_hint == host_rate
                || i2h is Some)),
            final(self).host_rate == host_rate,
            final(self).channels == channels,
            final(self).encode_rate == encode_rate,
            final(self).decode_rate == decode_rate_hint,
            r ==> {
                &&& final(self).set_up_for(
                    host_rate,
                    channels,
                    encode_rate,
                    decode_rate_hint,
                    h2i,
                    i2h,
                )
                &&& final(self).latency_host_samples == 0
                &&& final(self).primed()
            },
            !r ==> failed_setup(
                *old(self),
                *final(self),
                host_rate,
                channels,
                encode_rate,
                decode_rate_hint,
                h2i,
            ),
    {
        self.ready = false;
        self.host_rate = host_rate;
        self.channels = channels;
        self.encode_rate = encode_rate;
        self.decode_rate = decode_rate_hint;
        self.i2h = None;
        self.i2h_chunk = 0;
        if !self.setup_h2i(h2i) {
            return false;
        }
        if !self.setup_i2h(decode_rate_hint, i2h) {
            return false;
        }
        // Host buffer + ~100 ms of push/drain cadence skew.
        let ring_cap: usize = max_block_size + (host_rate as usize / 10) + 1;
        self.host_input = new_rings(channels, ring_cap);
        self.internal_input = new_rings(channels, ring_cap);
        self.internal_output = new_rings(channels, ring_cap);
        self.host_output = new_rings(channels, ring_cap);
        self.latency_host_samples = 0;
        self.ready = true;
        proof {
            assert(zeros(0) =~= Seq::empty());
        }
        true
    }

    /// Take the host-to-encode-rate resampler, or go without one (direct
    /// path) when the rates already match.
    fn setup_h2i(&mut self, built: Option<BuiltResampler>) -> (r: bool)
        requires
            !old(self).ready,
            old(self).i2h is None,
            old(self).i2h_chunk == 0,
        ensures
            final(self).wf(),
            r == (old(self).host_rate == old(self).encode_rate || built is Some),
            final(self).h2i == (if old(self).host_rate == old(self).encode_rate {
                None
            } else {
                built
            }),
            *final(self) == (ResampledPipeline {
                h2i: final(self).h2i,
                h2i_chunk: final(self).h2i_chunk,
                ..*old(self)
            }),
    {
        self.h2i = None;
        self.h2i_chunk = 0;
        match plan_resampler(self.host_rate, self.encode_rate, self.channels) {
            None => true,
            Some(plan) => {
                if built.is_none() {
                    return false;
                }
                self.h2i_chunk = plan.chunk;
                self.h2i = built;
                true
            },
        }
    }

    /// Replace the decode-rate-to-host resampler. Called by codecs whose
    /// decoder rate changes at runtime (MP3 auto-downsample). Idempotent.
    pub fn setup_i2h(&mut self, decode_rate: u32, built: Option<BuiltResampler>) -> (r: bool)
        requires
            old(self).wf(),
        ensures
            final(self).wf(),
            r == (decode_rate == old(self).host_rate || built is Some),
            final(self).i2h == (if decode_rate == old(self).host_rate {
                None
            } else {
                built
            }),
            *final(self) == (ResampledPipeline {
                decode_rate,
                i2h: final(self).i2h,
                i2h_chunk: final(self).i2h_chunk,
                ..*old(self)
            }),
    {
        self.i2h = None;
        self.i2h_chunk = 0;
        self.decode_rate = decode_rate;
        match plan_resampler(decode_rate, self.host_rate, self.channels) {
            None => true,
            Some(plan) => {
                if built.is_none() {
                    return false;
                }
                self.i2h_chunk = plan.chunk;
                self.i2h = built;
                true
            },
        }
    }

    /// Pre-fill `host_output` with N silence so the audio thread can read
    /// before the codec produces its first real sample.
    pub fn set_latency(&mut self, latency_host_samples: u32)
        requires
            old(self).wf(),
        ensures
            final(self).wf(),
            !old(self).ready ==> *final(self) == *old(self),
            old(self).ready ==> {
                &&& *final(self) == (ResampledPipeline {
                    latency_host_samples,
                    host_output: final(self).host_output,
                    ..*old(self)
                })
                &&& all_hold(final(self).host_output@, zeros(latency_host_samples as nat))
            },
    {
        if !self.ready {
            return;
        }
        self.latency_host_samples = latency_host_samples;
        prefill_all(&mut self.host_output, latency_host_samples as usize);
    }

    /// Grow the pre-fill to `target` if currently shorter. Used to align
    /// every codec to the plugin-wide latency so switches don't re-tick PDC.
    pub fn pad_output_to(&mut self, target: u32)
        requires
            old(self).wf(),
        ensures
            final(self).wf(),
            padded(*old(self), *final(self), target),
    {
        if !self.ready || target <= self.latency_host_samples {
            return;
        }
        let extra: usize = (target - self.latency_host_samples) as usize;
        append_silence_all(&mut self.host_output, extra);
        self.latency_host_samples = target;
    }

    /// Push one block of host samples (per-channel) into `host_input`.
    pub fn push_host_block(&mut self, block: &Vec<Vec<Sample>>, n_samples: usize)
        requires
            old(self).wf(),
            old(self).ready ==> block.len() >= old(self).channels,
            old(self).ready ==> forall|ch: int|
                0 <= ch < old(self).channels ==> n_samples <= (#[trigger] block@[ch]).len(),
        ensures
            final(self).wf(),
            pushed_block(*old(self), *final(self), block@, n_samples as nat),
    {
        if !self.ready {
            return;
        }
        append_block(&mut self.host_input, block, n_samples);
    }

    /// Drain `n_samples` per channel into the host buffer. Pads with silence
    /// on underflow, which shouldn't happen at steady state.
    pub fn drain_host_block(&mut self, block: &mut Vec<Vec<Sample>>, n_samples: usize)
        requires
            old(self).wf(),
            old(block).len() >= old(self).channels,
            forall|ch: int|
                0 <= ch < old(self).channels ==> n_samples <= (#[trigger] old(block)@[ch]).len(),
        ensures
            final(self).wf(),
            old(self).ready ==> same_shape(old(block)@, final(block)@),
            drained_block(*old(self), *final(self), old(block)@, final(block)@, n_samples as nat),
    {
        if !self.ready {
            silence_blocks(block, self.channels, n_samples);
            return;
        }
        drain_into(&mut self.host_output, block, n_samples);
    }

    /// Pump `host_input` to `internal_input`. On the direct path everything
    /// moves at once. With a resampler, the next full chunk is taken out and
    /// returned, to be resampled and handed to `push_resampled_input`; `None`
    /// says that no full chunk is left.
    pub fn pump_host_to_internal(&mut self) -> (r: Option<Vec<Vec<Sample>>>)
        requires
            old(self).wf(),
            old(self).h2i is Some ==> old(self).channels >= 1,
        ensures
            final(self).wf(),
            pumped_input(*old(self), *final(self), r),
    {
        if !self.ready {
            return None;
        }
        if self.h2i.is_none() {
            move_all(&mut self.host_input, &mut self.internal_input);
            return None;
        }
        if self.host_input[0].len() < self.h2i_chunk {
            return None;
        }
        Some(drain_all(&mut self.host_input, self.h2i_chunk))
    }

    /// Push the first `produced` samples per channel that the input resampler
    /// made of a chunk.
    pub fn push_resampled_input(&mut self, out: &Vec<Vec<Sample>>, produced: usize)
        requires
            old(self).wf(),
            old(self).ready,
            out.len() >= old(self).channels,
            forall|ch: int|
                0 <= ch < old(self).channels ==> produced <= (#[trigger] out@[ch]).len(),
        ensures
            final(self).wf(),
            resampled_input(*old(self), *final(self), out@, produced as nat),
    {
        append_block(&mut self.internal_input, out, produced);
    }

    /// Pump `internal_output` to `host_output`; the counterpart of
    /// `pump_host_to_internal`, with `push_resampled_output` to take what the
    /// resampler makes of a chunk.
    pub fn pump_internal_to_host(&mut self) -> (r: Option<Vec<Vec<Sample>>>)
        requires
            old(self).wf(),
            old(self).i2h is Some ==> old(self).channels >= 1,
        ensures
            final(self).wf(),
            pumped_output(*old(self), *final(self), r),
    {
        if !self.ready {
            return None;
        }
        if self.i2h.is_none() {
            move_all(&mut self.internal_output, &mut self.host_output);
            return None;
        }
        if self.internal_output[0].len() < self.i2h_chunk {
            return None;
        }
        Some(drain_all(&mut self.internal_output, self.i2h_chunk))
    }

    /// Push the first `produced` samples per channel that the output
    /// resampler made of a chunk.
    pub fn push_resampled_output(&mut self, out: &Vec<Vec<Sample>>, produced: usize)
        requires
            old(self).wf(),
            old(self).ready,
            out.len() >= old(self).channels,
            forall|ch: int|
                0 <= ch < old(self).channels ==> produced <= (#[trigger] out@[ch]).len(),
        ensures
            final(self).wf(),
            resampled_output(*old(self), *final(self), out@, produced as nat),
    {
        append_block(&mut self.host_output, out, produced);
    }

    /// Takes in what the caller brings: a block from the host, or the output
    /// of one of the resamplers. Says whether the input side is to be pumped
    /// next.
    pub fn take_event(
        &mut self,
        block: &Vec<Vec<Sample>>,
        n_samples: usize,
        event: &BlockEvent,
    ) -> (r: bool)
        requires
            old(self).wf(),
            old(self).ready,
            block_fits(block@, old(self).channels as nat, n_samples as nat),
            event_fits(*event, old(self).channels as nat),
        ensures
            final(self).wf(),
            took_event(*old(self), *final(self), block@, n_samples as nat, *event),
            r == !(event is OutputResampled),
    {
        match event {
            BlockEvent::Start => {
                self.push_host_block(block, n_samples);
                true
            },
            BlockEvent::InputResampled { out, produced } => {
                self.push_resampled_input(out, *produced);
                true
            },
            BlockEvent::OutputResampled { out, produced } => {
                self.push_resampled_output(out, *produced);
                false
            },
        }
    }

    /// The last stage of a block: pumps the output side, and drains into the
    /// block once no chunk is left to resample.
    pub fn finish_block(&mut self, block: &mut Vec<Vec<Sample>>, n_samples: usize) -> (r:
        BlockAction)
        requires
            old(self).wf(),
            old(self).ready,
            old(self).channels >= 1,
            block_fits(old(block)@, old(self).channels as nat, n_samples as nat),
        ensures
            final(self).wf(),
            same_shape(old(block)@, final(block)@),
            finished_block(
                *old(self),
                *final(self),
                old(block)@,
                final(block)@,
                n_samples as nat,
                r,
            ),
    {
        let ghost before = *self;
        let chunk = self.pump_internal_to_host();
        proof {
            assert(pumped_output(before, *self, chunk));
        }
        match chunk {
            Some(chunk) => BlockAction::ResampleOutput(chunk),
            None => {
                self.drain_host_block(block, n_samples);
                BlockAction::Done
            },
        }
    }

    /// Moves everything from the codec's input to its output untouched.
    pub fn pass_internal(&mut self)
        requires
            old(self).wf(),
            old(self).ready,
        ensures
            final(self).wf(),
            passed_internal(*old(self), *final(self)),
    {
        move_all(&mut self.internal_input, &mut self.internal_output);
    }

    /// Replaces everything at the codec's input by as much silence at its
    /// output.
    pub fn mute_internal(&mut self)
        requires
            old(self).wf(),
            old(self).ready,
        ensures
            final(self).wf(),
            muted_internal(*old(self), *final(self)),
    {
        let ghost before = *self;
        let channels: usize = self.channels;
        for ch in 0..channels
            invariant
                self.wf(),
                channels == self.channels,
                self.ready,
                before.wf(),
                self.only_rings_changed(&before, false, false, true, false),
                self.internal_input == before.internal_input,
                forall|c: int|
                    ch <= c < channels ==> self.internal_output@[c] == before.internal_output@[c],
                forall|c: int|
                    0 <= c < ch ==> (#[trigger] self.internal_output@[c])@
                        == before.internal_output@[c]@ + zeros(before.internal_input@[c]@.len()),
        {
            let n: usize = self.internal_input[ch].len();
            append_silence(&mut self.internal_output[ch], n);
        }
        clear_all(&mut self.internal_input);
    }

    /// Output-side latency: `(chunk_at_host, delay_at_host)`.
    pub fn i2h_latency_pair(&self) -> (r: (u32, u32))
        requires
            self.wf(),
        ensures
            r.0 == self.i2h_pair().0,
            r.1 == self.i2h_pair().1,
            r.0 <= self.host_rate / 50,
    {
        match self.i2h {
            None => (0, 0),
            Some(b) => {
                if self.decode_rate == 0 {
                    return (0, b.output_delay);
                }
                proof {
                    let c = self.i2h_chunk as int;
                    let h = self.host_rate as int;
                    let d = self.decode_rate as int;
                    assert(50 * c <= d);
                    assert(0 <= c * h <= u32::MAX as int * u32::MAX as int) by (nonlinear_arith)
                        requires
                            0 <= c <= u32::MAX,
                            0 <= h <= u32::MAX,
                    ;
                    assert((c * h) * 50 <= d * h) by (nonlinear_arith)
                        requires
                            50 * c <= d,
                            h >= 0,
                    ;
                    let q = c * h / d;
                    lemma_fundamental_div_mod(c * h, d);
                    lemma_mod_bound(c * h, d);
                    assert(50 * q <= h) by (nonlinear_arith)
                        requires
                            (c * h) * 50 <= d * h,
                            c * h == d * q + (c * h) % d,
                            (c * h) % d >= 0,
                            d > 0,
                    ;
                    lemma_div_pos_is_pos(c * h, d);
                }
                let chunk_at_host: u64 = self.i2h_chunk as u64 * self.host_rate as u64
                    / self.decode_rate as u64;
                (chunk_at_host as u32, b.output_delay)
            },
        }
    }

    /// Input-side latency: `(chunk_at_host, delay_at_encode_rate)`.
    pub fn h2i_latency_pair(&self) -> (r: (u32, u32))
        requires
            self.wf(),
        ensures
            r.0 == self.h2i_pair().0,
            r.1 == self.h2i_pair().1,
            r.0 <= self.host_rate / 50,
    {
        match self.h2i {
            None => (0, 0),
            Some(b) => (self.h2i_chunk as u32, b.output_delay),
        }
    }

    /// Host-rate delay from input to first usable output for a codec that
    /// needs `roundtrip` samples at the encode rate.
    pub fn round_trip_latency(&self, roundtrip: u32) -> (r: u32)
        requires
            self.wf(),
            self.encode_rate > 0,
            self.h2i_pair().1 + roundtrip <= u32::MAX,
            round_trip(*self, roundtrip as int) <= u32::MAX,
        ensures
            r == round_trip(*self, roundtrip as int),
    {
        let (h2i_chunk_host, h2i_delay_internal) = self.h2i_latency_pair();
        let (i2h_chunk_at_host, i2h_delay_at_host) = self.i2h_latency_pair();
        let internal_total: u64 = (h2i_delay_internal + roundtrip) as u64;
        proof {
            assert(0 <= internal_total * self.host_rate <= u32::MAX as int * u32::MAX as int)
                by (nonlinear_arith)
                requires
                    0 <= internal_total <= u32::MAX,
                    0 <= self.host_rate <= u32::MAX,
            ;
            lemma_div_pos_is_pos(
                internal_total as int * self.host_rate as int,
                self.encode_rate as int,
            );
        }
        let at_host: u64 = internal_total * self.host_rate as u64 / self.encode_rate as u64;
        h2i_chunk_host + at_host as u32 + i2h_chunk_at_host + i2h_delay_at_host
    }

    /// Compute worst-case host-rate latency without instantiating the
    /// codec: sets up a throwaway pipeline around the two resamplers and
    /// drops it. `codec_roundtrip_internal` is the encoder + decoder warm-up
    /// at encode rate (e.g. `4 * 1024` for AAC-LC: 4 frames x 1024 samples).
    /// Zero where a resampler is missing.
    pub fn estimate_latency(
        host_rate: u32,
        channels: usize,
        encode_rate: u32,
        decode_rate: u32,
        codec_roundtrip_internal: u32,
        h2i: Option<BuiltResampler>,
        i2h: Option<BuiltResampler>,
    ) -> (r: u32)
        requires
            ring_fits(1, host_rate),
            encode_rate > 0,
            delay_of(host_rate, encode_rate, h2i) + codec_roundtrip_internal <= u32::MAX,
            estimated(host_rate, encode_rate, decode_rate, codec_roundtrip_internal, h2i, i2h)
                <= u32::MAX,
        ensures
            r == estimated(
                host_rate,
                encode_rate,
                decode_rate,
                codec_roundtrip_internal,
                h2i,
                i2h,
            ),
    {
        let mut probe = ResampledPipeline::new();
        if !probe.setup(host_rate, channels, 1, encode_rate, decode_rate, h2i, i2h) {
            return 0;
        }
        proof {
            lemma_round_trip_estimated(probe, decode_rate, codec_roundtrip_internal, h2i, i2h);
        }
        probe.round_trip_latency(codec_roundtrip_internal)
    }

    /// Clear all rings, then re-prime `host_output` with the preroll silence.
    pub fn reset(&mut self)
        requires
            old(self).wf(),
        ensures
            final(self).wf(),
            final(self).same_setup(&*old(self)),
            !old(self).ready ==> *final(self) == *old(self),
            old(self).ready ==> final(self).primed(),
    {
        if !self.ready {
            return;
        }
        clear_all(&mut self.host_input);
        clear_all(&mut self.internal_input);
        clear_all(&mut self.internal_output);
        prefill_all(&mut self.host_output, self.latency_host_samples as usize);
    }
}

/// A setup for want of a resampler left rings and latency as they were, and the
/// pipeline not ready.
pub open spec fn failed_setup(
    before: ResampledPipeline,
    after: ResampledPipeline,
    host_rate: u32,
    channels: usize,
    encode_rate: u32,
    decode_rate: u32,
    h2i: Option<BuiltResampler>,
) -> bool {
    &&& after == (ResampledPipeline {
        ready: false,
        host_rate,
        channels,
        encode_rate,
        decode_rate,
        h2i: after.h2i,
        i2h: None,
        h2i_chunk: after.h2i_chunk,
        i2h_chunk: 0,
        ..before
    })
    &&& after.h2i == (if host_rate == encode_rate {
        None
    } else {
        h2i
    })
}

/// A pipeline went back to its start; one that is not ready stays as it is.
pub open spec fn reset_pipeline(before: ResampledPipeline, after: ResampledPipeline) -> bool {
    &&& after.same_setup(&before)
    &&& before.ready ==> after.primed() && after.wf()
    &&& !before.ready ==> after == before
}

/// What the caller of a processor brings.
pub enum BlockEvent {
    /// The block holds fresh host samples.
    Start,
    /// The chunk last asked for on the input side, resampled.
    InputResampled { out: Vec<Vec<Sample>>, produced: usize },
    /// The chunk last asked for on the output side, resampled.
    OutputResampled { out: Vec<Vec<Sample>>, produced: usize },
}

/// What the caller of a processor is to do next.
pub enum BlockAction {
    /// Resample a chunk from the host rate to the encode rate.
    ResampleInput(Vec<Vec<Sample>>),
    /// Resample a chunk from the decode rate to the host rate.
    ResampleOutput(Vec<Vec<Sample>>),
    /// The block holds the processor's output.
    Done,
}

/// `block` has `n` samples for each of `channels` channels.
pub open spec fn block_fits(block: Seq<Vec<Sample>>, channels: nat, n: nat) -> bool {
    &&& block.len() >= channels
    &&& forall|ch: int| 0 <= ch < channels ==> n <= (#[trigger] block[ch]).len()
}

pub open spec fn event_fits(event: BlockEvent, channels: nat) -> bool {
    match event {
        BlockEvent::Start => true,
        BlockEvent::InputResampled { out, produced } => block_fits(
            out@,
            channels,
            produced as nat,
        ),
        BlockEvent::OutputResampled { out, produced } => block_fits(
            out@,
            channels,
            produced as nat,
        ),
    }
}

pub open spec fn took_event(
    before: ResampledPipeline,
    after: ResampledPipeline,
    block: Seq<Vec<Sample>>,
    n: nat,
    event: BlockEvent,
) -> bool {
    match event {
        BlockEvent::Start => pushed_block(before, after, block, n),
        BlockEvent::InputResampled { out, produced } => resampled_input(
            before,
            after,
            out@,
            produced as nat,
        ),
        BlockEvent::OutputResampled { out, produced } => resampled_output(
            before,
            after,
            out@,
            produced as nat,
        ),
    }
}

/// The last stage of a block: a chunk to resample if the output side has one,
/// else the block is filled.
pub open spec fn finished_block(
    before: ResampledPipeline,
    after: ResampledPipeline,
    block_before: Seq<Vec<Sample>>,
    block_after: Seq<Vec<Sample>>,
    n: nat,
    r: BlockAction,
) -> bool {
    exists|mid: ResampledPipeline, chunk: Option<Vec<Vec<Sample>>>|
        {
            &&& #[trigger] pumped_output(before, mid, chunk)
            &&& match chunk {
                Some(c) => {
                    &&& r == BlockAction::ResampleOutput(c)
                    &&& after == mid
                    &&& block_after == block_before
                },
                None => {
                    &&& r == BlockAction::Done
                    &&& drained_block(mid, after, block_before, block_after, n)
                },
            }
        }
}

/// The codec's input went to its output untouched.
pub open spec fn passed_internal(before: ResampledPipeline, after: ResampledPipeline) -> bool {
    &&& after.only_rings_changed(&before, false, true, true, false)
    &&& moved(
        before.internal_input@,
        after.internal_input@,
        before.internal_output@,
        after.internal_output@,
    )
}

/// The codec's input gave way to as much silence at its output.
pub open spec fn muted_internal(before: ResampledPipeline, after: ResampledPipeline) -> bool {
    &&& after.only_rings_changed(&before, false, true, true, false)
    &&& after.internal_input@.len() == before.internal_input@.len()
    &&& all_hold(after.internal_input@, Seq::empty())
    &&& extended(
        before.internal_output@,
        after.internal_output@,
        |ch: int| zeros(before.internal_input@[ch]@.len()),
    )
}

/// `host_output` grew by silence to a latency of `target`, if it was shorter.
pub open spec fn padded(before: ResampledPipeline, after: ResampledPipeline, target: u32) -> bool {
    &&& !before.ready || target <= before.latency_host_samples ==> after == before
    &&& before.ready && target > before.latency_host_samples ==> {
        &&& after == (ResampledPipeline {
            latency_host_samples: target,
            host_output: after.host_output,
            ..before
        })
        &&& extended(
            before.host_output@,
            after.host_output@,
            |ch: int| zeros((target - before.latency_host_samples) as nat),
        )
    }
}

/// A freshly primed pipeline that is padded is primed to the new latency.
pub proof fn lemma_padded_primed(a: ResampledPipeline, b: ResampledPipeline, target: u32)
    requires
        a.wf(),
        a.ready,
        a.primed(),
        padded(a, b, target),
        a.latency_host_samples <= target,
    ensures
        b.primed(),
        b.latency_host_samples == target,
{
    let l = a.latency_host_samples as nat;
    if target > l {
        let more = (target - l) as nat;
        assert forall|ch: int| 0 <= ch < b.host_output.len() implies (
        #[trigger] b.host_output@[ch])@ == zeros(target as nat) by {
            assert(a.host_output@[ch]@ == zeros(l));
            assert(zeros(l) + zeros(more) =~= zeros(target as nat));
        }
    }
}

/// A pipeline that was set up has the latency that was estimated for it.
pub proof fn lemma_round_trip_estimated(
    p: ResampledPipeline,
    decode_rate: u32,
    roundtrip: u32,
    h2i: Option<BuiltResampler>,
    i2h: Option<BuiltResampler>,
)
    requires
        p.wf(),
        p.ready,
        p.decode_rate == decode_rate,
        p.host_rate == p.encode_rate || h2i is Some,
        decode_rate == p.host_rate || i2h is Some,
        p.h2i == (if p.host_rate == p.encode_rate {
            None
        } else {
            h2i
        }),
        p.i2h == (if decode_rate == p.host_rate {
            None
        } else {
            i2h
        }),
    ensures
        p.h2i_pair().1 == delay_of(p.host_rate, p.encode_rate, h2i),
        round_trip(p, roundtrip as int) == estimated(
            p.host_rate,
            p.encode_rate,
            decode_rate,
            roundtrip,
            h2i,
            i2h,
        ),
{
    let zero = 0int * p.host_rate as int;
    assert(zero == 0) by (nonlinear_arith)
        requires
            zero == 0int * p.host_rate as int,
    ;
    if decode_rate > 0 {
        lemma_div_of0(decode_rate as int);
    }
    assert(p.h2i_pair() == (
        chunk_of(p.host_rate, p.encode_rate),
        delay_of(p.host_rate, p.encode_rate, h2i),
    ));
    assert(p.i2h_pair().1 == delay_of(decode_rate, p.host_rate, i2h));
}

/// The first `n` samples per channel of `block` went behind `host_input`; a
/// pipeline that is not ready takes nothing.
pub open spec fn pushed_block(
    before: ResampledPipeline,
    after: ResampledPipeline,
    block: Seq<Vec<Sample>>,
    n: nat,
) -> bool {
    &&& after.only_rings_changed(&before, true, false, false, false)
    &&& !before.ready ==> after == before
    &&& before.ready ==> extended(
        before.host_input@,
        after.host_input@,
        |ch: int| block[ch]@.take(n as int),
    )
}

/// `n` samples per channel of `host_output`, padded with silence, went over
/// the start of `block`; a pipeline that is not ready gives silence.
pub open spec fn drained_block(
    before: ResampledPipeline,
    after: ResampledPipeline,
    block_before: Seq<Vec<Sample>>,
    block_after: Seq<Vec<Sample>>,
    n: nat,
) -> bool {
    &&& after.only_rings_changed(&before, false, false, false, true)
    &&& !before.ready ==> {
        &&& after == before
        &&& overwritten(block_before, block_after, before.channels as nat, |ch: int| zeros(n))
    }
    &&& before.ready ==> {
        &&& drained(before.host_output@, after.host_output@, n)
        &&& overwritten(
            block_before,
            block_after,
            before.channels as nat,
            |ch: int| front(before.host_output@[ch]@, n),
        )
    }
}

/// `chunk` is the first `n` samples of each queue of `rings`.
pub open spec fn is_chunk(chunk: Seq<Vec<Sample>>, rings: Seq<VecDeque<Sample>>, n: nat) -> bool {
    &&& chunk.len() == rings.len()
    &&& forall|ch: int| 0 <= ch < chunk.len() ==> (#[trigger] chunk[ch])@ == front(rings[ch]@, n)
}

/// Everything of `from` moved behind `to`, channel by channel.
pub open spec fn moved(
    from_before: Seq<VecDeque<Sample>>,
    from_after: Seq<VecDeque<Sample>>,
    to_before: Seq<VecDeque<Sample>>,
    to_after: Seq<VecDeque<Sample>>,
) -> bool {
    &&& from_after.len() == from_before.len()
    &&& all_hold(from_after, Seq::empty())
    &&& extended(to_before, to_after, |ch: int| from_before[ch]@)
}

/// One step of the input pump: everything moves on the direct path; with a
/// resampler the next full chunk is taken out, if there is one.
pub open spec fn pumped_input(
    before: ResampledPipeline,
    after: ResampledPipeline,
    r: Option<Vec<Vec<Sample>>>,
) -> bool {
    &&& after.only_rings_changed(&before, true, true, false, false)
    &&& !before.ready ==> r is None && after == before
    &&& before.ready && before.h2i is None ==> {
        &&& r is None
        &&& moved(
            before.host_input@,
            after.host_input@,
            before.internal_input@,
            after.internal_input@,
        )
    }
    &&& before.ready && before.h2i is Some ==> {
        &&& r is Some <==> before.host_input@[0]@.len() >= before.h2i_chunk
        &&& r is None ==> after == before
        &&& r matches Some(chunk) ==> {
            &&& after.internal_input == before.internal_input
            &&& drained(before.host_input@, after.host_input@, before.h2i_chunk as nat)
            &&& is_chunk(chunk@, before.host_input@, before.h2i_chunk as nat)
        }
    }
}

/// One step of the output pump.
pub open spec fn pumped_output(
    before: ResampledPipeline,
    after: ResampledPipeline,
    r: Option<Vec<Vec<Sample>>>,
) -> bool {
    &&& after.only_rings_changed(&before, false, false, true, true)
    &&& !before.ready ==> r is None && after == before
    &&& before.ready && before.i2h is None ==> {
        &&& r is None
        &&& moved(
            before.internal_output@,
            after.internal_output@,
            before.host_output@,
            after.host_output@,
        )
    }
    &&& before.ready && before.i2h is Some ==> {
        &&& r is Some <==> before.internal_output@[0]@.len() >= before.i2h_chunk
        &&& r is None ==> after == before
        &&& r matches Some(chunk) ==> {
            &&& after.host_output == before.host_output
            &&& drained(before.internal_output@, after.internal_output@, before.i2h_chunk as nat)
            &&& is_chunk(chunk@, before.internal_output@, before.i2h_chunk as nat)
        }
    }
}

/// What the input resampler produced went behind `internal_input`.
pub open spec fn resampled_input(
    before: ResampledPipeline,
    after: ResampledPipeline,
    out: Seq<Vec<Sample>>,
    produced: nat,
) -> bool {
    &&& after.only_rings_changed(&before, false, true, false, false)
    &&& extended(
        before.internal_input@,
        after.internal_input@,
        |ch: int| out[ch]@.take(produced as int),
    )
}

/// What the output resampler produced went behind `host_output`.
pub open spec fn resampled_output(
    before: ResampledPipeline,
    after: ResampledPipeline,
    out: Seq<Vec<Sample>>,
    produced: nat,
) -> bool {
    &&& after.only_rings_changed(&before, false, false, false, true)
    &&& extended(
        before.host_output@,
        after.host_output@,
        |ch: int| out[ch]@.take(produced as int),
    )
}

/// Delay that the resampler between two rates adds, at the rate it gives.
pub open spec fn delay_of(rate_in: u32, rate_out: u32, built: Option<BuiltResampler>) -> int {
    match built {
        Some(b) if rate_in != rate_out => b.output_delay as int,
        _ => 0,
    }
}

/// Chunk that the resampler between two rates waits for, at the rate it takes.
pub open spec fn chunk_of(rate_in: u32, rate_out: u32) -> int {
    if rate_in != rate_out {
        rate_in as int / 50
    } else {
        0
    }
}

/// The host-rate latency of a codec, over the rates and resamplers around it.
pub open spec fn estimated(
    host_rate: u32,
    encode_rate: u32,
    decode_rate: u32,
    roundtrip: u32,
    h2i: Option<BuiltResampler>,
    i2h: Option<BuiltResampler>,
) -> int {
    if host_rate != encode_rate && h2i is None || decode_rate != host_rate && i2h is None {
        0
    } else {
        chunk_of(host_rate, encode_rate) + at_host_rate(
            delay_of(host_rate, encode_rate, h2i) + roundtrip,
            host_rate,
            encode_rate,
        ) + (if decode_rate == 0 {
            0
        } else {
            at_host_rate(chunk_of(decode_rate, host_rate), host_rate, decode_rate)
        }) + delay_of(decode_rate, host_rate, i2h)
    }
}

impl Default for ResampledPipeline {
    fn default() -> (r: ResampledPipeline)
        ensures
            r.wf(),
            !r.ready,
    {
        ResampledPipeline::new()
    }
}

/// Frame-by-frame position of sample `s` of channel `ch`.
pub open spec fn interleaved_index(s: int, ch: int, channels: int) -> int {
    s * channels + ch
}

/// What stands at place `i` when the first `n` samples of each queue are laid
/// out frame by frame as 16-bit integers.
pub open spec fn interleaved_value(rings: Seq<VecDeque<Sample>>, n: nat, i: int) -> int {
    quantised(front(rings[i % rings.len() as int]@, n)[i / rings.len() as int])
}

pub proof fn lemma_interleaved_index(s: int, ch: int, n: int, channels: int)
    requires
        0 <= s < n,
        0 <= ch < channels,
    ensures
        0 <= interleaved_index(s, ch, channels) < n * channels,
        interleaved_index(s, ch, channels) / channels == s,
        interleaved_index(s, ch, channels) % channels == ch,
{
    let i = interleaved_index(s, ch, channels);
    lemma_fundamental_div_mod_converse(i, channels, s, ch);
    assert(0 <= i < n * channels) by (nonlinear_arith)
        requires
            0 <= s < n,
            0 <= ch < channels,
            i == s * channels + ch,
    ;
}

proof fn lemma_rest_step(r: Seq<Sample>, s: nat, n: nat)
    requires
        s < n,
    ensures
        rest(r, s).len() > 0 ==> rest(r, s)[0] == front(r, n)[s as int],
        rest(r, s).len() == 0 ==> front(r, n)[s as int] == (Sample { bits: 0 }),
        rest(r, s).len() > 0 ==> rest(r, s).subrange(1, rest(r, s).len() as int) == rest(r, s + 1),
        rest(r, s).len() == 0 ==> rest(r, s) == rest(r, s + 1),
{
    if rest(r, s).len() > 0 {
        assert(rest(r, s).subrange(1, rest(r, s).len() as int) =~= rest(r, s + 1));
    } else {
        assert(rest(r, s) =~= rest(r, s + 1));
    }
}

/// Drain `n` samples per ring and write them packed-interleaved as i16 with
/// `clamp(-1, 1) * 32767` quantisation. Pads with zero on underflow.
pub fn drain_to_i16_interleaved(
    rings: &mut Vec<VecDeque<Sample>>,
    n: usize,
    out: &mut Vec<i16>,
)
    requires
        old(out).len() >= n * old(rings).len(),
    ensures
        drained(old(rings)@, final(rings)@, n as nat),
        final(out).len() == old(out).len(),
        forall|i: int|
            0 <= i < n * old(rings).len() ==> #[trigger] final(out)@[i] == interleaved_value(
                old(rings)@,
                n as nat,
                i,
            ),
        forall|i: int|
            n * old(rings).len() <= i < old(out).len() ==> #[trigger] final(out)@[i] == old(
                out,
            )@[i],
{
    let ghost r0 = rings@;
    let ghost o0 = out@;
    let channels: usize = rings.len();
    proof {
        assert forall|c: int| 0 <= c < r0.len() implies (#[trigger] r0[c])@ == rest(r0[c]@, 0) by {
            assert(r0[c]@ =~= rest(r0[c]@, 0));
        }
        assert(0 * channels == 0) by (nonlinear_arith);
    }
    for s in 0..n
        invariant
            channels == r0.len(),
            rings.len() == r0.len(),
            out.len() == o0.len(),
            o0.len() >= n * channels,
            forall|c: int| 0 <= c < r0.len() ==> (#[trigger] rings@[c])@ == rest(r0[c]@, s as nat),
            forall|i: int|
                0 <= i < s * channels ==> #[trigger] out@[i] == interleaved_value(r0, n as nat, i),
            forall|i: int| s * channels <= i < o0.len() ==> #[trigger] out@[i] == o0[i],
    {
        for ch in 0..channels
            invariant
                s < n,
                channels == r0.len(),
                rings.len() == r0.len(),
                out.len() == o0.len(),
                o0.len() >= n * channels,
                forall|c: int|
                    0 <= c < ch ==> (#[trigger] rings@[c])@ == rest(r0[c]@, (s + 1) as nat),
                forall|c: int|
                    ch <= c < r0.len() ==> (#[trigger] rings@[c])@ == rest(r0[c]@, s as nat),
                forall|i: int|
                    0 <= i < s * channels + ch ==> #[trigger] out@[i] == interleaved_value(
                        r0,
                        n as nat,
                        i,
                    ),
                forall|i: int| s * channels + ch <= i < o0.len() ==> #[trigger] out@[i] == o0[i],
        {
            proof {
                lemma_interleaved_index(s as int, ch as int, n as int, channels as int);
                lemma_rest_step(r0[ch as int]@, s as nat, n as nat);
                assert(s * channels <= n * channels) by (nonlinear_arith)
                    requires
                        s < n,
                        channels >= 0,
                ;
            }
            let f = match rings[ch].pop_front() {
                Some(f) => f,
                None => silence(),
            };
            out[s * channels + ch] = f.quantise();
        }
        proof {
            assert((s + 1) * channels == s * channels + channels) by (nonlinear_arith);
        }
    }
}

/// What `n` interleaved frames hold for channel `ch`.
pub open spec fn deinterleaved(src: Seq<i16>, n: nat, channels: nat, ch: int) -> Seq<Sample> {
    Seq::new(n, |s: int| dequantised(src[interleaved_index(s, ch, channels as int)]))
}

/// Inverse of `drain_to_i16_interleaved`: push interleaved i16 into the
/// rings as samples of `v / 32768`.
pub fn push_i16_interleaved(
    src: &Vec<i16>,
    n: usize,
    channels: usize,
    rings: &mut Vec<VecDeque<Sample>>,
)
    requires
        old(rings).len() >= channels,
        src.len() >= n * channels,
    ensures
        final(rings).len() == old(rings).len(),
        forall|ch: int|
            0 <= ch < channels ==> (#[trigger] final(rings)@[ch])@ == old(rings)@[ch]@
                + deinterleaved(src@, n as nat, channels as nat, ch),
        forall|ch: int|
            channels <= ch < old(rings).len() ==> final(rings)@[ch] == old(rings)@[ch],
{
    let ghost r0 = rings@;
    for ch in 0..channels
        invariant
            rings.len() == r0.len(),
            r0.len() >= channels,
            src.len() >= n * channels,
            forall|c: int|
                0 <= c < ch ==> (#[trigger] rings@[c])@ == r0[c]@ + deinterleaved(
                    src@,
                    n as nat,
                    channels as nat,
                    c,
                ),
            forall|c: int| ch <= c < r0.len() ==> rings@[c] == r0[c],
    {
        push_channel(src, n, channels, ch, &mut rings[ch]);
    }
}

/// Push the samples of one channel of `n` interleaved frames.
fn push_channel(
    src: &Vec<i16>,
    n: usize,
    channels: usize,
    ch: usize,
    ring: &mut VecDeque<Sample>,
)
    requires
        ch < channels,
        src.len() >= n * channels,
    ensures
        final(ring)@ == old(ring)@ + deinterleaved(src@, n as nat, channels as nat, ch as int),
{
    ring.reserve(n);
    let ghost before = ring@;
    proof {
        assert(before =~= before + deinterleaved(src@, 0, channels as nat, ch as int));
    }
    for s in 0..n
        invariant
            ch < channels,
            src.len() >= n * channels,
            ring@ == before + deinterleaved(src@, s as nat, channels as nat, ch as int),
    {
        proof {
            lemma_interleaved_index(s as int, ch as int, n as int, channels as int);
            assert(s * channels <= n * channels) by (nonlinear_arith)
                requires
                    s < n,
                    channels >= 0,
            ;
        }
        let f = Sample::dequantise(src[s * channels + ch]);
        ring.push_back(f);
        proof {
            assert(ring@ =~= before + deinterleaved(
                src@,
                (s + 1) as nat,
                channels as nat,
                ch as int,
            ));
        }
    }
}

/// Drain into planar buffers (no quantisation). Used by libvorbis, which
/// takes and produces floating-point samples directly.
pub fn drain_to_planar_f32(
    rings: &mut Vec<VecDeque<Sample>>,
    n: usize,
    dest: &mut Vec<Vec<Sample>>,
)
    requires
        old(dest).len() >= old(rings).len(),
        forall|ch: int| 0 <= ch < old(rings).len() ==> n <= (#[trigger] old(dest)@[ch]).len(),
    ensures
        drained(old(rings)@, final(rings)@, n as nat),
        overwritten(
            old(dest)@,
            final(dest)@,
            old(rings).len() as nat,
            |ch: int| front(old(rings)@[ch]@, n as nat),
        ),
{
    drain_into(rings, dest, n);
}

/// Push planar blocks into the rings, as far as there are both.
pub fn push_planar_f32(src: &Vec<Vec<Sample>>, rings: &mut Vec<VecDeque<Sample>>)
    ensures
        final(rings).len() == old(rings).len(),
        forall|ch: int|
            0 <= ch < old(rings).len() ==> (#[trigger] final(rings)@[ch])@ == if ch < src.len() {
                old(rings)@[ch]@ + src@[ch]@
            } else {
                old(rings)@[ch]@
            },
{
    let ghost r0 = rings@;
    let channels: usize = if src.len() < rings.len() {
        src.len()
    } else {
        rings.len()
    };
    for ch in 0..channels
        invariant
            channels <= src.len(),
            channels <= r0.len(),
            rings.len() == r0.len(),
            forall|c: int| 0 <= c < ch ==> (#[trigger] rings@[c])@ == r0[c]@ + src@[c]@,
            forall|c: int| ch <= c < r0.len() ==> rings@[c] == r0[c],
    {
        append_slice(&mut rings[ch], src[ch].as_slice(), src[ch].len());
        proof {
            assert(src@[ch as int]@.take(src@[ch as int].len() as int) =~= src@[ch as int]@);
        }
    }
}

/// Everything a channel holds, oldest first.
pub open spec fn in_flight(p: ResampledPipeline, ch: int) -> Seq<Sample> {
    p.host_output@[ch]@ + p.internal_output@[ch]@ + p.internal_input@[ch]@ + p.host_input@[ch]@
}

/// On the direct path the pumps and the untouched codec stage neither lose
/// nor reorder a sample.
pub proof fn law_direct_pumps_keep_order(
    a: ResampledPipeline,
    b: ResampledPipeline,
    c: ResampledPipeline,
    d: ResampledPipeline,
    ch: int,
)
    requires
        a.wf(),
        a.ready,
        a.h2i is None,
        a.i2h is None,
        0 <= ch < a.channels,
        pumped_input(a, b, None),
        passed_internal(b, c),
        pumped_output(c, d, None),
    ensures
        d.host_output@[ch]@ == in_flight(a, ch),
        d.internal_output@[ch]@ == Seq::<Sample>::empty(),
        d.internal_input@[ch]@ == Seq::<Sample>::empty(),
        d.host_input@[ch]@ == Seq::<Sample>::empty(),
{
    assert(d.host_output@[ch]@ == c.host_output@[ch]@ + c.internal_output@[ch]@);
    assert(c.internal_output@[ch]@ == b.internal_output@[ch]@ + b.internal_input@[ch]@);
    assert(b.internal_input@[ch]@ == a.internal_input@[ch]@ + a.host_input@[ch]@);
    assert(d.host_output@[ch]@ =~= in_flight(a, ch));
    assert(c.internal_input@[ch]@ == Seq::<Sample>::empty());
    assert(b.host_input@[ch]@ == Seq::<Sample>::empty());
}

/// Padding to one target and then to another is padding to the larger.
pub proof fn law_pad_composes(
    a: ResampledPipeline,
    b: ResampledPipeline,
    c: ResampledPipeline,
    t1: u32,
    t2: u32,
    ch: int,
)
    requires
        a.wf(),
        a.ready,
        padded(a, b, t1),
        padded(b, c, t2),
        0 <= ch < a.channels,
    ensures
        c.latency_host_samples == vstd::math::max(
            a.latency_host_samples as int,
            vstd::math::max(t1 as int, t2 as int),
        ),
        c.host_output@[ch]@ == a.host_output@[ch]@ + zeros(
            (c.latency_host_samples - a.latency_host_samples) as nat,
        ),
{
    let none = zeros(0);
    assert(a.host_output@[ch]@ + none =~= a.host_output@[ch]@);
    assert(b.host_output@[ch]@ + none =~= b.host_output@[ch]@);
    if t1 > a.latency_host_samples {
        assert(b.host_output@[ch]@ == a.host_output@[ch]@ + zeros(
            (t1 - a.latency_host_samples) as nat,
        ));
    }
    if t2 > b.latency_host_samples {
        assert(c.host_output@[ch]@ == b.host_output@[ch]@ + zeros(
            (t2 - b.latency_host_samples) as nat,
        ));
    }
    assert(c.host_output@[ch]@ =~= a.host_output@[ch]@ + zeros(
        (c.latency_host_samples - a.latency_host_samples) as nat,
    ));
}

/// What goes through 16-bit frames and back keeps its place, and within full
/// scale its value to within two steps of 1/32768.
pub proof fn law_i16_round_trip(
    before: Seq<VecDeque<Sample>>,
    pcm: Seq<i16>,
    n: nat,
    ch: int,
    s: int,
)
    requires
        0 <= ch < before.len(),
        0 <= s < n,
        pcm.len() >= n * before.len(),
        forall|i: int|
            0 <= i < n * before.len() ==> #[trigger] pcm[i] == interleaved_value(before, n, i),
    ensures
        ({
            let original = front(before[ch]@, n)[s];
            let back = deinterleaved(pcm, n, before.len(), ch)[s];
            &&& back.is_finite()
            &&& original.is_finite() && original.magnitude() <= full_scale() ==> {
                &&& back.magnitude() <= original.magnitude() <= back.magnitude() + 2 * pow2(134)
                &&& back.units() != 0 ==> back.is_negative() == original.is_negative()
            }
        }),
{
    lemma_interleaved_index(s, ch, n as int, before.len() as int);
    let i = interleaved_index(s, ch, before.len() as int);
    let original = front(before[ch]@, n)[s];
    assert(pcm[i] == quantised(original));
    lemma_dequantised(pcm[i]);
    if original.is_finite() && original.magnitude() <= full_scale() {
        law_quantise_round_trip(original, dequantised(pcm[i]));
    }
}

}
