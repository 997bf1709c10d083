//! Stereo MPX transmission for the FM broadcast simulation: the way from host
//! rate up to 192 kHz, through the composite encoder, imperfect channel and
//! decoder, and back.
//!
//! Real FM stereo composite baseband:
//! - 0-15 kHz: L+R sum (mono-compatible)
//! - 19 kHz: pilot tone (~9% modulation, FCC standard)
//! - 23-53 kHz: L-R DSBSC-modulated on a 38 kHz cosine, generated coherently
//!   from the pilot
//!
//! Internal rate is 192 kHz: fits the 0-53 kHz composite without aliasing the
//! 38 kHz subcarrier and gives clean resampler ratios from every common host
//! rate. ~5-10 ms total resampler latency. The resamplers and the composite
//! signal path work on floating point and are called from outside.

use crate::processor::pipeline::{at_host_rate, block_fits, is_chunk, ring_fits, BuiltResampler};
use crate::processor::pump::{chunk_at, pump, pumped};
use crate::processor::rings::{
    all_hold, append_block, clear_all, drain_all, drain_into, drained, extended, front, new_rings,
    overwritten, silence_blocks, zeros,
};
use crate::sample::{full_scale, pack, Sample};
use crate::rounding::{representable, rounded};
use std::collections::VecDeque;
use vstd::arithmetic::power2::*;
use vstd::prelude::*;

verus! {

pub const MPX_RATE: u32 = 192_000;

#[derive(Clone, Copy, PartialEq, Eq, Structural, Debug)]
pub enum FmReception {
    /// Encoder + channel + decoder roundtrip is a no-op (modulo numerical
    /// precision and the resampler's group delay).
    Pristine,
    /// City-grade reception: -6 dB stereo separation, mild HF noise.
    Urban,
    /// Fringe coverage: -18 dB separation, louder HF noise, slow multipath
    /// LFO on the L-R subcarrier.
    Fringe,
}

/// What a reception does to the composite, in ten-thousandths: amplitude of
/// the added noise, and gain on the L-R subcarrier.
#[derive(Clone, Copy, PartialEq, Eq, Structural, Debug)]
pub struct Impairment {
    pub noise: u32,
    pub subcarrier: u32,
}

impl FmReception {
    /// `None` where the channel is a pass-through.
    pub fn impairment(self) -> (r: Option<Impairment>)
        ensures
            r == match self {
                FmReception::Pristine => None,
                FmReception::Urban => Some(Impairment { noise: 32, subcarrier: 5000 }),
                FmReception::Fringe => Some(Impairment { noise: 316, subcarrier: 1260 }),
            },
    {
        match self {
            FmReception::Pristine => None,
            FmReception::Urban => Some(Impairment { noise: 32, subcarrier: 5000 }),
            FmReception::Fringe => Some(Impairment { noise: 316, subcarrier: 1260 }),
        }
    }
}

/// XorShift noise source of the imperfect channel.
#[derive(Clone, Copy, PartialEq, Eq, Structural, Debug)]
pub struct NoiseSource {
    pub state: u32,
}

/// One XorShift step.
pub open spec fn xorshift(x: u32) -> u32 {
    let a = x ^ (x << 13);
    let b = a ^ (a >> 17);
    b ^ (b << 5)
}

/// A step never leads to zero, nor two states to one: the sequence never
/// gets stuck.
pub proof fn law_noise_never_dies(x: u32, y: u32)
    ensures
        x != 0 ==> xorshift(x) != 0,
        xorshift(x) == xorshift(y) ==> x == y,
{
    let ax = x ^ (x << 13);
    let ay = y ^ (y << 13);
    let bx = ax ^ (ax >> 17);
    let by_ = ay ^ (ay >> 17);
    assert(x ^ (x << 13) == y ^ (y << 13) ==> x == y) by (bit_vector);
    assert(ax ^ (ax >> 17) == ay ^ (ay >> 17) ==> ax == ay) by (bit_vector);
    assert(bx ^ (bx << 5) == by_ ^ (by_ << 5) ==> bx == by_) by (bit_vector);
    assert(x != 0 ==> x ^ (x << 13) != 0) by (bit_vector);
    assert(ax != 0 ==> ax ^ (ax >> 17) != 0) by (bit_vector);
    assert(bx != 0 ==> bx ^ (bx << 5) != 0) by (bit_vector);
}

/// A state read as a signed integer.
pub open spec fn signed(x: u32) -> int {
    if x < 0x8000_0000 {
        x as int
    } else {
        x - 0x1_0000_0000
    }
}

/// The largest integer below 2^31 that has 24 significant bits.
pub const TOP_LEVEL: u32 = 0x7fff_ff80;

/// The distance from zero of a state read as a signed integer, kept below 2^31
/// where it is not negative.
pub open spec fn level(x: u32) -> nat {
    if x < 0x8000_0000 {
        if x > TOP_LEVEL {
            TOP_LEVEL as nat
        } else {
            x as nat
        }
    } else {
        (0x1_0000_0000 - x) as nat
    }
}

impl NoiseSource {
    pub fn new() -> (r: NoiseSource)
        ensures
            r.state == 0xACE1,
    {
        NoiseSource { state: 0xACE1 }
    }

    /// The next value in [-1, 1): the state as a signed integer, over 2^31. The
    /// few states that would round up to 1 give the value next below it.
    pub fn rand(&mut self) -> (r: Sample)
        ensures
            final(self).state == xorshift(old(self).state),
            r.is_finite(),
            r.is_negative() == (signed(final(self).state) < 0),
            r.magnitude() == rounded(level(final(self).state)) * pow2(118),
            -full_scale() <= r.units() < full_scale(),
    {
        let x = self.state;
        let a = x ^ (x << 13);
        let b = a ^ (a >> 17);
        let c = b ^ (b << 5);
        self.state = c;
        let negative: bool = c >= 0x8000_0000;
        let m: u64 = if negative {
            0x1_0000_0000 - c as u64
        } else if c > TOP_LEVEL {
            TOP_LEVEL as u64
        } else {
            c as u64
        };
        proof {
            assert(m == level(c));
            crate::rounding::lemma_rounded_shift(m as nat, 118);
            lemma2_to64();
            crate::rounding::lemma_rounded_representable(0x8000_0000, 1, 31);
            crate::rounding::lemma_rounded_monotone(m as nat, 0x8000_0000);
            lemma_pow2_adds(31, 118);
            lemma_pow2_strictly_increases(149, 277);
            assert(rounded(m as nat) * pow2(118) <= 0x8000_0000 * pow2(118)) by (nonlinear_arith)
                requires
                    rounded(m as nat) <= 0x8000_0000,
            ;
            if !negative {
                assert(representable(0x7fff_ff80, 0xff_ffff, 7));
                crate::rounding::lemma_rounded_representable(0x7fff_ff80, 0xff_ffff, 7);
                crate::rounding::lemma_rounded_monotone(m as nat, 0x7fff_ff80);
                lemma_pow2_pos(118);
                assert(rounded(m as nat) * pow2(118) < 0x8000_0000 * pow2(118))
                    by (nonlinear_arith)
                    requires
                        rounded(m as nat) <= 0x7fff_ff80,
                        pow2(118) > 0,
                ;
            }
        }
        let r = pack(negative, m, 118);
        proof {
            lemma_pow2_pos(149);
            assert(0x8000_0000 * pow2(118) == full_scale());
            assert(r.magnitude() <= full_scale());
        }
        r
    }
}

/// What the caller of the pipeline brings.
pub enum MpxEvent {
    /// Samples have been pushed.
    Start,
    /// The chunk last asked for, at 192 kHz.
    Upsampled { out: Vec<Vec<Sample>>, produced: usize },
    /// What was handed out last, after encoder, channel and decoder.
    Transmitted(Vec<Vec<Sample>>),
    /// The chunk last asked for, at the host rate.
    Downsampled { out: Vec<Vec<Sample>>, produced: usize },
}

/// What the caller of the pipeline is to do next.
pub enum MpxAction {
    /// Resample a chunk from the host rate to 192 kHz.
    Upsample(Vec<Vec<Sample>>),
    /// Run left and right through encoder, channel and decoder.
    Transmit(Vec<Vec<Sample>>),
    /// Resample a chunk from 192 kHz to the host rate.
    Downsample(Vec<Vec<Sample>>),
    /// Everything that can move has moved.
    Done,
}

pub struct MpxPipeline {
    pub ready: bool,
    pub host_rate: u32,
    pub reception: FmReception,
    /// `None` when the host runs at `MPX_RATE` (no resample needed).
    pub h2m: Option<BuiltResampler>,
    pub m2h: Option<BuiltResampler>,
    pub h2m_chunk: usize,
    pub m2h_chunk: usize,
    /// Left and right throughout.
    pub host_input: Vec<VecDeque<Sample>>,
    /// 192 kHz after upsample.
    pub mpx: Vec<VecDeque<Sample>>,
    /// 192 kHz after decode, before downsample.
    pub decoded: Vec<VecDeque<Sample>>,
    pub host_output: Vec<VecDeque<Sample>>,
}

/// Combined resampler-pair latency in host-rate samples: the two chunks, the
/// upsampler's delay brought to the host rate, and the downsampler's.
pub open spec fn mpx_latency(
    host_rate: u32,
    h2m: Option<BuiltResampler>,
    m2h: Option<BuiltResampler>,
) -> int {
    if host_rate == MPX_RATE || h2m is None || m2h is None {
        0
    } else {
        (if host_rate < 100 {
            1int
        } else {
            host_rate as int / 100
        }) + at_host_rate(h2m->0.output_delay as int, host_rate, MPX_RATE) + at_host_rate(
            1920,
            host_rate,
            MPX_RATE,
        ) + m2h->0.output_delay
    }
}

/// Two queues of one length.
pub open spec fn paired(rings: Seq<VecDeque<Sample>>) -> bool {
    &&& rings.len() == 2
    &&& rings[0]@.len() == rings[1]@.len()
}

/// The pipeline's rings can be asked for at all.
pub open spec fn mpx_sizes_fit(max_block_size: usize, host_rate: u32) -> bool {
    &&& ring_fits(max_block_size, host_rate)
    &&& 20 * max_block_size + 76_804 <= isize::MAX
}

impl MpxPipeline {
    pub open spec fn wf(&self) -> bool {
        self.ready ==> {
            &&& paired(self.host_input@)
            &&& paired(self.mpx@)
            &&& paired(self.decoded@)
            &&& paired(self.host_output@)
            &&& self.h2m is Some <==> self.host_rate != MPX_RATE
            &&& self.m2h is Some <==> self.host_rate != MPX_RATE
            &&& self.host_rate != MPX_RATE ==> self.h2m_chunk == (if self.host_rate < 100 {
                1int
            } else {
                self.host_rate as int / 100
            }) && self.m2h_chunk == 1920
            &&& self.host_rate == MPX_RATE ==> self.h2m_chunk == 0 && self.m2h_chunk == 0
        }
    }

    /// Rates and resamplers are those of `other`.
    pub open spec fn same_setup(&self, other: &MpxPipeline) -> bool {
        &&& self.ready == other.ready
        &&& self.host_rate == other.host_rate
        &&& self.reception == other.reception
        &&& self.h2m == other.h2m
        &&& self.m2h == other.m2h
        &&& self.h2m_chunk == other.h2m_chunk
        &&& self.m2h_chunk == other.m2h_chunk
    }

    /// Nothing is under way.
    pub open spec fn empty(&self) -> bool {
        &&& all_hold(self.host_input@, Seq::empty())
        &&& all_hold(self.mpx@, Seq::empty())
        &&& all_hold(self.decoded@, Seq::empty())
        &&& all_hold(self.host_output@, Seq::empty())
    }

    pub fn new(reception: FmReception) -> (r: MpxPipeline)
        ensures
            r.wf(),
            !r.ready,
            r.host_rate == 44_100,
            r.reception == reception,
            r.h2m is None,
            r.m2h is None,
            r.h2m_chunk == 0,
            r.m2h_chunk == 0,
    {
        MpxPipeline {
            ready: false,
            host_rate: 44_100,
            reception,
            h2m: None,
            m2h: None,
            h2m_chunk: 0,
            m2h_chunk: 0,
            host_input: Vec::new(),
            mpx: Vec::new(),
            decoded: Vec::new(),
            host_output: Vec::new(),
        }
    }

    /// Switches the channel; the caller starts a fresh one for it.
    pub fn set_reception(&mut self, reception: FmReception)
        ensures
            *final(self) == (MpxPipeline { reception, ..*old(self) }),
    {
        self.reception = reception;
    }

    /// Sets up chunks and rings for a host. `h2m` and `m2h` are the stereo
    /// resamplers built to and from 192 kHz, if the host runs at another
    /// rate; `false` where one of them is missing. Always runs stereo.
    pub fn initialize(
        &mut self,
        host_rate: u32,
        channels: usize,
        max_block_size: usize,
        h2m: Option<BuiltResampler>,
        m2h: Option<BuiltResampler>,
    ) -> (r: bool)
        requires
            mpx_sizes_fit(max_block_size, host_rate),
        ensures
            final(self).wf(),
            final(self).ready == r,
            final(self).host_rate == host_rate,
            final(self).reception == old(self).reception,
            r == (host_rate == MPX_RATE || (h2m is Some && m2h is Some)),
            r ==> {
                &&& final(self).empty()
                &&& final(self).h2m == (if host_rate == MPX_RATE {
                    None
                } else {
                    h2m
                })
                &&& final(self).m2h == (if host_rate == MPX_RATE {
                    None
                } else {
                    m2h
                })
            },
            !r ==> *final(self) == failed_mpx(*old(self), host_rate),
    {
        self.ready = false;
        self.host_rate = host_rate;
        if host_rate == MPX_RATE {
            self.h2m = None;
            self.m2h = None;
            self.h2m_chunk = 0;
            self.m2h_chunk = 0;
        } else {
            if h2m.is_none() || m2h.is_none() {
                return false;
            }
            self.h2m_chunk = chunk_at(host_rate);
            self.m2h_chunk = chunk_at(MPX_RATE);
            self.h2m = h2m;
            self.m2h = m2h;
        }
        let ring_cap: usize = max_block_size + (host_rate as usize / 10) + 1;
        let mpx_ring_cap: usize = max_block_size * 5 + 19_200 + 1;
        self.host_input = new_rings(2, ring_cap);
        self.mpx = new_rings(2, mpx_ring_cap);
        self.decoded = new_rings(2, mpx_ring_cap);
        self.host_output = new_rings(2, ring_cap);
        self.ready = true;
        true
    }

    /// Clears the rings; the caller resets the resamplers and the signal path.
    pub fn reset(&mut self)
        requires
            old(self).wf(),
        ensures
            final(self).wf(),
            final(self).same_setup(&*old(self)),
            !old(self).ready ==> *final(self) == *old(self),
            old(self).ready ==> final(self).empty(),
    {
        if !self.ready {
            return;
        }
        clear_all(&mut self.host_input);
        clear_all(&mut self.mpx);
        clear_all(&mut self.decoded);
        clear_all(&mut self.host_output);
    }

    /// Push one block of host-rate stereo samples into the pipeline.
    pub fn push_block(&mut self, block: &Vec<Vec<Sample>>, n: usize)
        requires
            old(self).wf(),
            block_fits(block@, 2, n as nat),
        ensures
            final(self).wf(),
            final(self).same_setup(&*old(self)),
            !old(self).ready ==> *final(self) == *old(self),
            old(self).ready ==> {
                &&& *final(self) == (MpxPipeline { host_input: final(self).host_input, ..*old(self) })
                &&& extended(
                    old(self).host_input@,
                    final(self).host_input@,
                    |ch: int| block@[ch]@.take(n as int),
                )
            },
    {
        if !self.ready {
            return;
        }
        append_block(&mut self.host_input, block, n);
    }

    /// Takes in what the caller brings, and says what the caller is to do
    /// next: upsample every full chunk, transmit all that is at 192 kHz,
    /// downsample every full chunk.
    pub fn pump(&mut self, event: &MpxEvent) -> (r: MpxAction)
        requires
            old(self).wf(),
            old(self).ready ==> mpx_event_fits(*event),
        ensures
            final(self).wf(),
            final(self).same_setup(&*old(self)),
            !old(self).ready ==> r == MpxAction::Done && *final(self) == *old(self),
            old(self).ready ==> stepped(*old(self), *final(self), *event, r),
    {
        if !self.ready {
            return MpxAction::Done;
        }
        let ghost c0 = *self;
        match event {
            MpxEvent::Start => {},
            MpxEvent::Upsampled { out, produced } => {
                append_block(&mut self.mpx, out, *produced);
            },
            MpxEvent::Transmitted(out) => {
                append_block(&mut self.decoded, out, out[0].len());
                proof {
                    assert(entered(c0, *self, *event));
                }
                return self.pump_down();
            },
            MpxEvent::Downsampled { out, produced } => {
                append_block(&mut self.host_output, out, *produced);
                proof {
                    assert(entered(c0, *self, *event));
                }
                return self.pump_down();
            },
        }
        let ghost c1 = *self;
        proof {
            assert(entered(c0, c1, *event));
        }
        let chunk = pump(&mut self.host_input, &mut self.mpx, self.h2m.is_some(), self.h2m_chunk);
        let ghost c2 = *self;
        proof {
            assert(pumped_up(c1, c2, chunk));
        }
        match chunk {
            Some(chunk) => {
                return MpxAction::Upsample(chunk);
            },
            None => {},
        }
        let n: usize = self.mpx[0].len();
        if n > 0 {
            return MpxAction::Transmit(drain_all(&mut self.mpx, n));
        }
        self.pump_down()
    }

    fn pump_down(&mut self) -> (r: MpxAction)
        requires
            old(self).wf(),
            old(self).ready,
        ensures
            final(self).wf(),
            final(self).same_setup(&*old(self)),
            pumped_down(*old(self), *final(self), r),
    {
        let chunk = pump(
            &mut self.decoded,
            &mut self.host_output,
            self.m2h.is_some(),
            self.m2h_chunk,
        );
        match chunk {
            Some(chunk) => MpxAction::Downsample(chunk),
            None => MpxAction::Done,
        }
    }

    /// Drain `n` host-rate stereo samples. Falls back to silence if the
    /// pipeline hasn't accumulated enough output yet.
    pub fn drain_block(&mut self, block: &mut Vec<Vec<Sample>>, n: usize)
        requires
            old(self).wf(),
            block_fits(old(block)@, 2, n as nat),
        ensures
            final(self).wf(),
            final(self).same_setup(&*old(self)),
            !old(self).ready ==> *final(self) == *old(self) && overwritten(
                old(block)@,
                final(block)@,
                2,
                |ch: int| zeros(n as nat),
            ),
            old(self).ready ==> {
                &&& *final(self) == (MpxPipeline {
                    host_output: final(self).host_output,
                    ..*old(self)
                })
                &&& drained(old(self).host_output@, final(self).host_output@, n as nat)
                &&& overwritten(
                    old(block)@,
                    final(block)@,
                    2,
                    |ch: int| front(old(self).host_output@[ch]@, n as nat),
                )
            },
    {
        if !self.ready {
            silence_blocks(block, 2, n);
            return;
        }
        drain_into(&mut self.host_output, block, n);
    }

    /// Combined resampler-pair latency in host-rate samples.
    pub fn latency_host_samples(&self) -> (r: u32)
        requires
            self.wf(),
            self.ready,
            mpx_latency(self.host_rate, self.h2m, self.m2h) <= u32::MAX,
        ensures
            r == mpx_latency(self.host_rate, self.h2m, self.m2h),
    {
        let h2m_delay: u32 = match self.h2m {
            Some(b) => b.output_delay,
            None => 0,
        };
        let m2h_delay: u32 = match self.m2h {
            Some(b) => b.output_delay,
            None => 0,
        };
        let host: u64 = self.host_rate as u64;
        proof {
            assert(0 <= h2m_delay * host <= 0xffff_ffff * 0xffff_ffff) by (nonlinear_arith)
                requires
                    0 <= h2m_delay <= 0xffff_ffff,
                    0 <= host <= 0xffff_ffff,
            ;
            assert(self.m2h_chunk * host <= 1920 * 0xffff_ffff) by (nonlinear_arith)
                requires
                    self.m2h_chunk <= 1920,
                    0 <= host <= 0xffff_ffff,
            ;
            if self.host_rate == MPX_RATE {
                assert(h2m_delay as u64 * host == 0) by (nonlinear_arith)
                    requires
                        h2m_delay == 0,
                ;
                assert(self.m2h_chunk as u64 * host == 0) by (nonlinear_arith)
                    requires
                        self.m2h_chunk == 0,
                ;
            }
        }
        let h2m_at_host: u64 = h2m_delay as u64 * host / MPX_RATE as u64;
        let m2h_chunk_at_host: u64 = self.m2h_chunk as u64 * host / MPX_RATE as u64;
        self.h2m_chunk as u32 + h2m_at_host as u32 + m2h_chunk_at_host as u32 + m2h_delay
    }

    /// Static estimate via a throwaway pipeline; zero where a resampler is
    /// missing.
    pub fn estimate_latency(
        host_rate: u32,
        h2m: Option<BuiltResampler>,
        m2h: Option<BuiltResampler>,
    ) -> (r: u32)
        requires
            mpx_sizes_fit(1, host_rate),
            mpx_latency(host_rate, h2m, m2h) <= u32::MAX,
        ensures
            r == mpx_latency(host_rate, h2m, m2h),
    {
        let mut probe = MpxPipeline::new(FmReception::Pristine);
        if !probe.initialize(host_rate, 2, 1, h2m, m2h) {
            return 0;
        }
        probe.latency_host_samples()
    }
}

pub open spec fn mpx_event_fits(event: MpxEvent) -> bool {
    match event {
        MpxEvent::Start => true,
        MpxEvent::Upsampled { out, produced } => block_fits(out@, 2, produced as nat),
        MpxEvent::Transmitted(out) => out.len() == 2 && out@[0].len() == out@[1].len(),
        MpxEvent::Downsampled { out, produced } => block_fits(out@, 2, produced as nat),
    }
}

/// What the caller brought went where it belongs.
pub open spec fn entered(before: MpxPipeline, after: MpxPipeline, event: MpxEvent) -> bool {
    match event {
        MpxEvent::Start => after == before,
        MpxEvent::Upsampled { out, produced } => {
            &&& after == (MpxPipeline { mpx: after.mpx, ..before })
            &&& extended(before.mpx@, after.mpx@, |ch: int| out@[ch]@.take(produced as int))
        },
        MpxEvent::Transmitted(out) => {
            &&& after == (MpxPipeline { decoded: after.decoded, ..before })
            &&& extended(
                before.decoded@,
                after.decoded@,
                |ch: int| out@[ch]@.take(out@[0].len() as int),
            )
        },
        MpxEvent::Downsampled { out, produced } => {
            &&& after == (MpxPipeline { host_output: after.host_output, ..before })
            &&& extended(
                before.host_output@,
                after.host_output@,
                |ch: int| out@[ch]@.take(produced as int),
            )
        },
    }
}

pub open spec fn pumped_up(
    before: MpxPipeline,
    after: MpxPipeline,
    chunk: Option<Vec<Vec<Sample>>>,
) -> bool {
    &&& after == (MpxPipeline { host_input: after.host_input, mpx: after.mpx, ..before })
    &&& pumped(
        before.host_input@,
        after.host_input@,
        before.mpx@,
        after.mpx@,
        before.h2m is Some,
        before.h2m_chunk as nat,
        chunk,
    )
}

pub open spec fn pumped_down(before: MpxPipeline, after: MpxPipeline, r: MpxAction) -> bool {
    &&& after == (MpxPipeline {
        decoded: after.decoded,
        host_output: after.host_output,
        ..before
    })
    &&& r is Downsample || r is Done
    &&& pumped(
        before.decoded@,
        after.decoded@,
        before.host_output@,
        after.host_output@,
        before.m2h is Some,
        before.m2h_chunk as nat,
        match r {
            MpxAction::Downsample(c) => Some(c),
            _ => None,
        },
    )
}

/// All that is at 192 kHz goes out to be transmitted, if there is anything;
/// else the downward side is pumped.
pub open spec fn sent(before: MpxPipeline, after: MpxPipeline, r: MpxAction) -> bool {
    let n = before.mpx@[0]@.len();
    if n > 0 {
        &&& r matches MpxAction::Transmit(out) && is_chunk(out@, before.mpx@, n)
        &&& after == (MpxPipeline { mpx: after.mpx, ..before })
        &&& drained(before.mpx@, after.mpx@, n)
    } else {
        pumped_down(before, after, r)
    }
}

/// One step of the pump.
pub open spec fn stepped(
    before: MpxPipeline,
    after: MpxPipeline,
    event: MpxEvent,
    r: MpxAction,
) -> bool {
    exists|c1: MpxPipeline|
        {
            &&& #[trigger] entered(before, c1, event)
            &&& if event is Transmitted || event is Downsampled {
                pumped_down(c1, after, r)
            } else {
                exists|c2: MpxPipeline, chunk: Option<Vec<Vec<Sample>>>|
                    {
                        &&& #[trigger] pumped_up(c1, c2, chunk)
                        &&& match chunk {
                            Some(c) => r == MpxAction::Upsample(c) && after == c2,
                            None => sent(c2, after, r),
                        }
                    }
            }
        }
}

/// The pipeline after a setup for want of a resampler: not ready, with rings,
/// chunks and resamplers as they were.
pub open spec fn failed_mpx(before: MpxPipeline, host_rate: u32) -> MpxPipeline {
    MpxPipeline { ready: false, host_rate, ..before }
}

/// `event` is the reply to `action`.
pub open spec fn answers(action: MpxAction, event: MpxEvent) -> bool {
    match action {
        MpxAction::Upsample(_) => event is Upsampled,
        MpxAction::Transmit(_) => event is Transmitted,
        MpxAction::Downsample(_) => event is Downsampled,
        MpxAction::Done => false,
    }
}

/// Step `k` of a run.
pub open spec fn steps_at(
    states: Seq<MpxPipeline>,
    events: Seq<MpxEvent>,
    actions: Seq<MpxAction>,
    k: int,
) -> bool {
    &&& states[k].wf() && states[k].ready
    &&& states[k + 1].wf() && states[k + 1].ready
    &&& stepped(states[k], states[k + 1], events[k], actions[k])
    &&& k == 0 ==> events[k] is Start
    &&& k > 0 ==> answers(actions[k - 1], events[k])
}

/// A pump from its start until it is done: each step gets the reply to the one
/// before it.
pub open spec fn pump_run(
    states: Seq<MpxPipeline>,
    events: Seq<MpxEvent>,
    actions: Seq<MpxAction>,
) -> bool {
    &&& actions.len() >= 1
    &&& events.len() == actions.len()
    &&& states.len() == actions.len() + 1
    &&& actions.last() is Done
    &&& forall|k: int|
        0 <= k < actions.len() ==> #[trigger] steps_at(states, events, actions, k)
}

/// Nothing waits to be moved up: too little for a chunk, or nothing, at the host
/// rate, and nothing at 192 kHz.
pub open spec fn up_settled(p: MpxPipeline) -> bool {
    &&& p.h2m is Some ==> p.host_input@[0]@.len() < p.h2m_chunk
    &&& p.h2m is None ==> all_hold(p.host_input@, Seq::empty())
    &&& p.mpx@[0]@.len() == 0
}

/// Nothing waits to be moved down.
pub open spec fn down_settled(p: MpxPipeline) -> bool {
    &&& p.m2h is Some ==> p.decoded@[0]@.len() < p.m2h_chunk
    &&& p.m2h is None ==> all_hold(p.decoded@, Seq::empty())
}

/// Two sets of queues hold the same.
pub open spec fn same_contents(a: Seq<VecDeque<Sample>>, b: Seq<VecDeque<Sample>>) -> bool {
    &&& a.len() == b.len()
    &&& forall|ch: int| 0 <= ch < a.len() ==> (#[trigger] a[ch])@ == b[ch]@
}

proof fn lemma_step_settles_up(
    before: MpxPipeline,
    after: MpxPipeline,
    event: MpxEvent,
    r: MpxAction,
)
    requires
        before.wf(),
        before.ready,
        after.wf(),
        stepped(before, after, event, r),
        event is Transmitted || event is Downsampled ==> up_settled(before),
        !(r is Upsample),
    ensures
        up_settled(after),
        r is Done ==> down_settled(after),
{
    let c1 = choose|c1: MpxPipeline|
        {
            &&& #[trigger] entered(before, c1, event)
            &&& if event is Transmitted || event is Downsampled {
                pumped_down(c1, after, r)
            } else {
                exists|c2: MpxPipeline, chunk: Option<Vec<Vec<Sample>>>|
                    {
                        &&& #[trigger] pumped_up(c1, c2, chunk)
                        &&& match chunk {
                            Some(c) => r == MpxAction::Upsample(c) && after == c2,
                            None => sent(c2, after, r),
                        }
                    }
            }
        };
    if event is Transmitted || event is Downsampled {
        assert(up_settled(c1));
        assert(pumped_down(c1, after, r));
    } else {
        let (c2, chunk) = choose|c2: MpxPipeline, chunk: Option<Vec<Vec<Sample>>>|
            {
                &&& #[trigger] pumped_up(c1, c2, chunk)
                &&& match chunk {
                    Some(c) => r == MpxAction::Upsample(c) && after == c2,
                    None => sent(c2, after, r),
                }
            };
        assert(sent(c2, after, r));
    }
}

proof fn lemma_run_settles_up(
    states: Seq<MpxPipeline>,
    events: Seq<MpxEvent>,
    actions: Seq<MpxAction>,
    k: int,
)
    requires
        pump_run(states, events, actions),
        0 <= k < actions.len(),
    ensures
        events[k] is Transmitted || events[k] is Downsampled ==> up_settled(states[k]),
    decreases k,
{
    assert(steps_at(states, events, actions, k));
    if k > 0 && (events[k] is Transmitted || events[k] is Downsampled) {
        lemma_run_settles_up(states, events, actions, k - 1);
        assert(steps_at(states, events, actions, k - 1));
        lemma_step_settles_up(states[k - 1], states[k], events[k - 1], actions[k - 1]);
    }
}

/// A pump moves all that can move: pumping again with nothing pushed in between
/// asks for nothing and leaves every queue as it is.
pub proof fn law_second_pump_changes_nothing(
    states: Seq<MpxPipeline>,
    events: Seq<MpxEvent>,
    actions: Seq<MpxAction>,
    after: MpxPipeline,
    r: MpxAction,
)
    requires
        pump_run(states, events, actions),
        stepped(states.last(), after, MpxEvent::Start, r),
    ensures
        r is Done,
        same_contents(after.host_input@, states.last().host_input@),
        same_contents(after.mpx@, states.last().mpx@),
        same_contents(after.decoded@, states.last().decoded@),
        same_contents(after.host_output@, states.last().host_output@),
{
    let k = actions.len() - 1;
    assert(steps_at(states, events, actions, k));
    lemma_run_settles_up(states, events, actions, k);
    lemma_step_settles_up(states[k], states[k + 1], events[k], actions[k]);
    let p = states.last();
    assert(up_settled(p) && down_settled(p));
    let c1 = choose|c1: MpxPipeline|
        {
            &&& #[trigger] entered(p, c1, MpxEvent::Start)
            &&& exists|c2: MpxPipeline, chunk: Option<Vec<Vec<Sample>>>|
                {
                    &&& #[trigger] pumped_up(c1, c2, chunk)
                    &&& match chunk {
                        Some(c) => r == MpxAction::Upsample(c) && after == c2,
                        None => sent(c2, after, r),
                    }
                }
        };
    let (c2, chunk) = choose|c2: MpxPipeline, chunk: Option<Vec<Vec<Sample>>>|
        {
            &&& #[trigger] pumped_up(c1, c2, chunk)
            &&& match chunk {
                Some(c) => r == MpxAction::Upsample(c) && after == c2,
                None => sent(c2, after, r),
            }
        };
    assert(chunk is None);
    assert forall|ch: int| 0 <= ch < p.mpx.len() implies (#[trigger] c2.mpx@[ch])@ == p.mpx@[ch]@ by {
        if p.h2m is None {
            assert(p.host_input@[ch]@ == Seq::<Sample>::empty());
            assert(p.mpx@[ch]@ + p.host_input@[ch]@ =~= p.mpx@[ch]@);
        }
    }
    assert(c2.mpx@[0]@.len() == 0);
    assert(pumped_down(c2, after, r));
    assert forall|ch: int| 0 <= ch < p.host_output.len() implies (
    #[trigger] after.host_output@[ch])@ == p.host_output@[ch]@ by {
        if p.m2h is None {
            assert(p.decoded@[ch]@ == Seq::<Sample>::empty());
            assert(p.host_output@[ch]@ + p.decoded@[ch]@ =~= p.host_output@[ch]@);
        }
    }
}

}
