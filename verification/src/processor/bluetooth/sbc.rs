//! SBC (Sub-Band Coding), the universal A2DP baseline. Internal rate
//! 44.1 kHz; max-quality preset (8 subbands, 16 blocks, joint stereo, SNR
//! allocation), bitpool 19 or 53 for Low / High.
//!
//! libsbc is called from outside: `process` hands out one frame of PCM at a
//! time and takes back what the encoder and the decoder reported.

use crate::processor::bluetooth::link::{allowance, resampler_allowance};
use crate::processor::pipeline::{
    deinterleaved, drain_to_i16_interleaved, event_fits, interleaved_value,
    push_i16_interleaved, ring_fits, BlockAction, BlockEvent,
};
use crate::processor::pump::{chunk_at, pump, pumped};
use crate::processor::rings::{
    all_hold, append_block, append_channels, append_silence_all, channel_head, channels_fit,
    clear_all, drain_channels, drained, drained_first, extended, front, new_rings, overwritten,
    prefill_all, zeros,
};
use crate::sample::Sample;
use std::collections::VecDeque;
use vstd::arithmetic::div_mod::*;
use vstd::prelude::*;

verus! {

pub const SBC_RATE: u32 = 44_100;

/// 8 subbands x 16 blocks = 128 samples / channel / frame.
pub const SBC_FRAME_SAMPLES: usize = 128;

/// Generous upper bound for one frame at bitpool 53 stereo.
pub const SBC_MAX_FRAME_BYTES: usize = 1024;

#[derive(Clone, Copy, PartialEq, Eq, Structural, Debug)]
pub enum SbcQuality {
    /// Bitpool 19, ~127 kbps stereo: cheap earbuds.
    Low,
    /// Bitpool 53, ~328 kbps stereo: modern BT default.
    High,
}

impl SbcQuality {
    pub fn bitpool(self) -> (r: u8)
        ensures
            r == match self {
                SbcQuality::Low => 19u8,
                SbcQuality::High => 53u8,
            },
    {
        match self {
            SbcQuality::Low => 19,
            SbcQuality::High => 53,
        }
    }
}

/// How the bits of a frame are shared out among the subbands.
#[derive(Clone, Copy, PartialEq, Eq, Structural, Debug)]
pub enum SbcAllocation {
    Loudness,
    Snr,
}

/// How the channels of a frame are coded.
#[derive(Clone, Copy, PartialEq, Eq, Structural, Debug)]
pub enum SbcMode {
    Mono,
    JointStereo,
}

/// What libsbc's encoder and decoder are set to; samples are little endian.
#[derive(Clone, Copy, PartialEq, Eq, Structural, Debug)]
pub struct SbcSettings {
    pub sample_rate: u32,
    pub subbands: u8,
    pub blocks: u8,
    pub allocation: SbcAllocation,
    pub mode: SbcMode,
    pub bitpool: u8,
}

/// Settings of both sides for a number of channels: 16 blocks of 8 subbands make
/// up the 128 samples of a frame.
pub fn sbc_settings(channels: usize, quality: SbcQuality) -> (r: SbcSettings)
    ensures
        r == (SbcSettings {
            sample_rate: SBC_RATE,
            subbands: 8,
            blocks: 16,
            allocation: SbcAllocation::Snr,
            mode: if channels >= 2 {
                SbcMode::JointStereo
            } else {
                SbcMode::Mono
            },
            bitpool: match quality {
                SbcQuality::Low => 19,
                SbcQuality::High => 53,
            },
        }),
        r.subbands * r.blocks == SBC_FRAME_SAMPLES,
{
    SbcSettings {
        sample_rate: SBC_RATE,
        subbands: 8,
        blocks: 16,
        allocation: SbcAllocation::Snr,
        mode: if channels >= 2 {
            SbcMode::JointStereo
        } else {
            SbcMode::Mono
        },
        bitpool: quality.bitpool(),
    }
}

/// What libsbc reported for one frame.
pub struct SbcReport {
    /// `sbc_encode`'s result and the bytes it wrote.
    pub encoded_len: i64,
    pub written: i64,
    /// `sbc_decode`'s result and the bytes of PCM it wrote; zero where
    /// nothing was encoded.
    pub consumed: i64,
    pub decoded: usize,
    /// The PCM buffer after the decoder.
    pub pcm: Vec<i16>,
}

impl SbcReport {
    /// Both calls did something.
    pub open spec fn ok(&self) -> bool {
        &&& self.encoded_len > 0
        &&& self.written > 0
        &&& self.consumed > 0
        &&& self.decoded > 0
    }

    /// Whole samples per channel that were decoded.
    pub open spec fn samples(&self, channels: nat) -> nat {
        (self.decoded / 2) as nat / channels
    }

    /// The decoded bytes stand in the buffer.
    pub open spec fn wf(&self) -> bool {
        self.decoded / 2 <= self.pcm.len()
    }
}

/// What the caller of the codec brings.
pub enum BtEvent {
    Block(BlockEvent),
    /// The frame last handed out went through libsbc.
    Coded(SbcReport),
}

/// What the caller of the codec is to do next.
pub enum BtAction {
    Block(BlockAction),
    /// Run a frame of interleaved PCM through libsbc.
    Code(Vec<i16>),
}

pub struct SbcCodec {
    pub quality: SbcQuality,
    pub sample_rate: u32,
    pub channels: usize,
    /// The host rate is not `SBC_RATE`.
    pub resampled: bool,
    pub h2c_chunk: usize,
    pub c2h_chunk: usize,
    pub host_in: Vec<VecDeque<Sample>>,
    pub sbc_in: Vec<VecDeque<Sample>>,
    pub sbc_out: Vec<VecDeque<Sample>>,
    pub host_out: Vec<VecDeque<Sample>>,
}

/// ~25 ms of resampler delay where the host runs at another rate, and 4 SBC
/// frames (128 x 4 / 44.1 = 11.6 ms) of codec warm-up.
pub open spec fn sbc_latency(host_rate: u32) -> int {
    (if host_rate != SBC_RATE {
        allowance(host_rate)
    } else {
        0
    }) + host_rate as int * 4 * 128 / 44_100
}

impl SbcCodec {
    pub open spec fn wf(&self) -> bool {
        &&& 1 <= self.channels <= 0xff
        &&& self.resampled == (self.sample_rate != SBC_RATE)
        &&& self.host_in.len() == self.channels
        &&& self.sbc_in.len() == self.channels
        &&& self.sbc_out.len() == self.channels
        &&& self.host_out.len() == self.channels
        &&& self.resampled ==> self.h2c_chunk == (if self.sample_rate < 100 {
            1int
        } else {
            self.sample_rate as int / 100
        }) && self.c2h_chunk == 441
    }

    /// The rings are as `new` leaves them.
    pub open spec fn primed(&self) -> bool {
        &&& all_hold(self.host_in@, Seq::empty())
        &&& all_hold(self.sbc_in@, Seq::empty())
        &&& all_hold(self.sbc_out@, Seq::empty())
        &&& all_hold(self.host_out@, zeros(sbc_latency(self.sample_rate) as nat))
    }

    /// Rates, channels and quality are those of `other`.
    pub open spec fn same_setup(&self, other: &SbcCodec) -> bool {
        &&& self.quality == other.quality
        &&& self.sample_rate == other.sample_rate
        &&& self.channels == other.channels
        &&& self.resampled == other.resampled
        &&& self.h2c_chunk == other.h2c_chunk
        &&& self.c2h_chunk == other.c2h_chunk
    }

    pub fn new(
        host_sample_rate: u32,
        channels: usize,
        max_block_size: usize,
        quality: SbcQuality,
    ) -> (r: SbcCodec)
        requires
            1 <= channels <= 0xff,
            ring_fits(max_block_size, host_sample_rate),
            8 * max_block_size + 2048 <= isize::MAX,
        ensures
            r.wf(),
            r.quality == quality,
            r.sample_rate == host_sample_rate,
            r.channels == channels,
            r.primed(),
    {
        let mut codec = SbcCodec {
            quality,
            sample_rate: host_sample_rate,
            channels,
            resampled: false,
            h2c_chunk: 0,
            c2h_chunk: 0,
            host_in: Vec::new(),
            sbc_in: Vec::new(),
            sbc_out: Vec::new(),
            host_out: Vec::new(),
        };
        codec.setup_resamplers(max_block_size);
        codec
    }

    /// Sizes the chunks (~10 ms, a clean cadence at every host rate) and the
    /// rings, and pre-fills the output to cover encoder warm-up.
    fn setup_resamplers(&mut self, max_block_size: usize)
        requires
            1 <= old(self).channels <= 0xff,
            !old(self).resampled,
            ring_fits(max_block_size, old(self).sample_rate),
            8 * max_block_size + 2048 <= isize::MAX,
        ensures
            final(self).wf(),
            final(self).quality == old(self).quality,
            final(self).sample_rate == old(self).sample_rate,
            final(self).channels == old(self).channels,
            final(self).primed(),
    {
        let ring_cap: usize = max_block_size + (self.sample_rate as usize / 10) + 1;
        let sbc_ring_cap: usize = max_block_size * 2 + SBC_FRAME_SAMPLES * 4;
        if self.sample_rate != SBC_RATE {
            self.resampled = true;
            self.h2c_chunk = chunk_at(self.sample_rate);
            self.c2h_chunk = chunk_at(SBC_RATE);
        }
        self.host_in = new_rings(self.channels, ring_cap);
        self.sbc_in = new_rings(self.channels, sbc_ring_cap);
        self.sbc_out = new_rings(self.channels, sbc_ring_cap);
        self.host_out = new_rings(self.channels, ring_cap);
        let prefill = SbcCodec::worst_case_latency_at(self.sample_rate, self.channels);
        prefill_all(&mut self.host_out, prefill as usize);
    }

    /// Clears the rings and re-primes the output; the caller resets the
    /// resamplers. libsbc keeps its state.
    pub fn reset(&mut self)
        requires
            old(self).wf(),
        ensures
            final(self).wf(),
            final(self).same_setup(&*old(self)),
            final(self).primed(),
    {
        clear_all(&mut self.host_in);
        clear_all(&mut self.sbc_in);
        clear_all(&mut self.sbc_out);
        let prefill = SbcCodec::worst_case_latency_at(self.sample_rate, self.channels);
        prefill_all(&mut self.host_out, prefill as usize);
    }

    /// Plays what libsbc made of a frame; silence where either call failed.
    pub fn accept_frame(&mut self, report: &SbcReport)
        requires
            old(self).wf(),
            report.wf(),
        ensures
            final(self).wf(),
            accepted_frame(*old(self), *final(self), *report),
    {
        if report.encoded_len <= 0 || report.written <= 0 || report.consumed <= 0
            || report.decoded == 0 {
            append_silence_all(&mut self.sbc_out, SBC_FRAME_SAMPLES);
            return;
        }
        let decoded_samples: usize = report.decoded / 2 / self.channels;
        proof {
            let d = report.decoded as int / 2;
            lemma_fundamental_div_mod(d, self.channels as int);
            lemma_mod_bound(d, self.channels as int);
            assert(decoded_samples * self.channels <= d) by (nonlinear_arith)
                requires
                    d == self.channels * decoded_samples + d % (self.channels as int),
                    d % (self.channels as int) >= 0,
            ;
        }
        push_i16_interleaved(&report.pcm, decoded_samples, self.channels, &mut self.sbc_out);
    }

    /// Hands out the next 128-sample frame, if there is one.
    fn next_frame(&mut self) -> (r: Option<Vec<i16>>)
        requires
            old(self).wf(),
        ensures
            final(self).wf(),
            took_frame(*old(self), *final(self), r),
    {
        if self.sbc_in[0].len() < SBC_FRAME_SAMPLES {
            return None;
        }
        let mut pcm: Vec<i16> = vec![0i16; SBC_FRAME_SAMPLES * self.channels];
        drain_to_i16_interleaved(&mut self.sbc_in, SBC_FRAME_SAMPLES, &mut pcm);
        Some(pcm)
    }

    /// The last stage of a block: pumps the output side, and drains into the
    /// block once no chunk is left to resample.
    fn finish_block(&mut self, block: &mut Vec<Vec<Sample>>, n: usize) -> (r: BtAction)
        requires
            old(self).wf(),
            channels_fit(old(block)@, old(self).channels as nat, n as nat),
        ensures
            final(self).wf(),
            finished(*old(self), *final(self), old(block)@, final(block)@, n as nat, r),
    {
        let ghost before = *self;
        let chunk = pump(&mut self.sbc_out, &mut self.host_out, self.resampled, self.c2h_chunk);
        let ghost mid = *self;
        proof {
            assert(pumped_out(before, mid, chunk));
        }
        match chunk {
            Some(chunk) => BtAction::Block(BlockAction::ResampleOutput(chunk)),
            None => {
                drain_channels(&mut self.host_out, block, n);
                BtAction::Block(BlockAction::Done)
            },
        }
    }

    /// One step of the encode -> decode roundtrip on a block: takes in what
    /// the caller brings, and says what the caller is to do next.
    pub fn process(&mut self, block: &mut Vec<Vec<Sample>>, n: usize, event: BtEvent) -> (r:
        BtAction)
        requires
            old(self).wf(),
            channels_fit(old(block)@, old(self).channels as nat, n as nat),
            bt_event_fits(event, old(self).channels as nat),
        ensures
            final(self).wf(),
            final(self).same_setup(&*old(self)),
            processed(*old(self), *final(self), old(block)@, final(block)@, n as nat, event, r),
    {
        let ghost c0 = *self;
        let mut input_side: bool = true;
        match &event {
            BtEvent::Block(BlockEvent::OutputResampled { out, produced }) => {
                append_block(&mut self.host_out, out, *produced);
                proof {
                    assert(entered(c0, *self, block@, n as nat, event));
                }
                return self.finish_block(block, n);
            },
            BtEvent::Block(BlockEvent::Start) => {
                append_channels(&mut self.host_in, block, n);
            },
            BtEvent::Block(BlockEvent::InputResampled { out, produced }) => {
                append_block(&mut self.sbc_in, out, *produced);
            },
            BtEvent::Coded(report) => {
                self.accept_frame(report);
                input_side = false;
            },
        }
        let ghost c1 = *self;
        proof {
            assert(entered(c0, c1, block@, n as nat, event));
        }
        if input_side {
            let chunk = pump(&mut self.host_in, &mut self.sbc_in, self.resampled, self.h2c_chunk);
            proof {
                assert(pumped_in(c1, *self, chunk));
            }
            match chunk {
                Some(chunk) => {
                    return BtAction::Block(BlockAction::ResampleInput(chunk));
                },
                None => {},
            }
        }
        let ghost c2 = *self;
        let frame = self.next_frame();
        proof {
            assert(took_frame(c2, *self, frame));
        }
        match frame {
            Some(pcm) => BtAction::Code(pcm),
            None => self.finish_block(block, n),
        }
    }

    /// Conservative latency budget: ~25 ms of resampler delay + 4 SBC frames
    /// of codec warm-up.
    pub fn worst_case_latency_at(host_rate: u32, channels: usize) -> (r: u32)
        ensures
            r == sbc_latency(host_rate),
    {
        let resampler_delay: u32 = if host_rate != SBC_RATE {
            resampler_allowance(host_rate)
        } else {
            0
        };
        let codec_delay: u64 = host_rate as u64 * 4 * 128 / 44_100;
        resampler_delay + codec_delay as u32
    }
}

pub open spec fn bt_event_fits(event: BtEvent, channels: nat) -> bool {
    match event {
        BtEvent::Block(e) => event_fits(e, channels),
        BtEvent::Coded(report) => report.wf(),
    }
}

/// A frame was played, or silence in its place.
pub open spec fn accepted_frame(before: SbcCodec, after: SbcCodec, report: SbcReport) -> bool {
    &&& after == (SbcCodec { sbc_out: after.sbc_out, ..before })
    &&& extended(
        before.sbc_out@,
        after.sbc_out@,
        |ch: int|
            if report.ok() {
                deinterleaved(
                    report.pcm@,
                    report.samples(before.channels as nat),
                    before.channels as nat,
                    ch,
                )
            } else {
                zeros(SBC_FRAME_SAMPLES as nat)
            },
    )
}

/// The next frame went out, quantised and interleaved, if there was one.
pub open spec fn took_frame(before: SbcCodec, after: SbcCodec, r: Option<Vec<i16>>) -> bool {
    &&& r is Some <==> before.sbc_in@[0]@.len() >= SBC_FRAME_SAMPLES
    &&& r is None ==> after == before
    &&& r matches Some(pcm) ==> {
        &&& after == (SbcCodec { sbc_in: after.sbc_in, ..before })
        &&& drained(before.sbc_in@, after.sbc_in@, SBC_FRAME_SAMPLES as nat)
        &&& pcm.len() == SBC_FRAME_SAMPLES * before.channels
        &&& forall|i: int|
            0 <= i < pcm.len() ==> #[trigger] pcm@[i] == interleaved_value(
                before.sbc_in@,
                SBC_FRAME_SAMPLES as nat,
                i,
            )
    }
}

pub open spec fn pumped_in(
    before: SbcCodec,
    after: SbcCodec,
    r: Option<Vec<Vec<Sample>>>,
) -> bool {
    &&& after == (SbcCodec { host_in: after.host_in, sbc_in: after.sbc_in, ..before })
    &&& pumped(
        before.host_in@,
        after.host_in@,
        before.sbc_in@,
        after.sbc_in@,
        before.resampled,
        before.h2c_chunk as nat,
        r,
    )
}

pub open spec fn pumped_out(
    before: SbcCodec,
    after: SbcCodec,
    r: Option<Vec<Vec<Sample>>>,
) -> bool {
    &&& after == (SbcCodec { sbc_out: after.sbc_out, host_out: after.host_out, ..before })
    &&& pumped(
        before.sbc_out@,
        after.sbc_out@,
        before.host_out@,
        after.host_out@,
        before.resampled,
        before.c2h_chunk as nat,
        r,
    )
}

/// The last stage of a block: a chunk to resample if the output side has one,
/// else the block is filled.
pub open spec fn finished(
    before: SbcCodec,
    after: SbcCodec,
    block_before: Seq<Vec<Sample>>,
    block_after: Seq<Vec<Sample>>,
    n: nat,
    r: BtAction,
) -> bool {
    exists|mid: SbcCodec, chunk: Option<Vec<Vec<Sample>>>|
        {
            &&& #[trigger] pumped_out(before, mid, chunk)
            &&& match chunk {
                Some(c) => {
                    &&& r == BtAction::Block(BlockAction::ResampleOutput(c))
                    &&& after == mid
                    &&& block_after == block_before
                },
                None => {
                    &&& r == BtAction::Block(BlockAction::Done)
                    &&& after == (SbcCodec { host_out: after.host_out, ..mid })
                    &&& drained_first(mid.host_out@, after.host_out@, block_before.len(), n)
                    &&& overwritten(
                        block_before,
                        block_after,
                        vstd::math::min(block_before.len() as int, before.channels as int) as nat,
                        |ch: int| front(mid.host_out@[ch]@, n),
                    )
                },
            }
        }
}

/// What the caller brought went where it belongs.
pub open spec fn entered(
    before: SbcCodec,
    after: SbcCodec,
    block: Seq<Vec<Sample>>,
    n: nat,
    event: BtEvent,
) -> bool {
    match event {
        BtEvent::Block(BlockEvent::Start) => {
            &&& after == (SbcCodec { host_in: after.host_in, ..before })
            &&& extended(before.host_in@, after.host_in@, |ch: int| channel_head(block, n, ch))
        },
        BtEvent::Block(BlockEvent::InputResampled { out, produced }) => {
            &&& after == (SbcCodec { sbc_in: after.sbc_in, ..before })
            &&& extended(before.sbc_in@, after.sbc_in@, |ch: int| out@[ch]@.take(produced as int))
        },
        BtEvent::Block(BlockEvent::OutputResampled { out, produced }) => {
            &&& after == (SbcCodec { host_out: after.host_out, ..before })
            &&& extended(
                before.host_out@,
                after.host_out@,
                |ch: int| out@[ch]@.take(produced as int),
            )
        },
        BtEvent::Coded(report) => accepted_frame(before, after, report),
    }
}

/// What follows once the input side is pumped dry: the next frame, or the end
/// of the block.
pub open spec fn coded(
    before: SbcCodec,
    after: SbcCodec,
    block_before: Seq<Vec<Sample>>,
    block_after: Seq<Vec<Sample>>,
    n: nat,
    r: BtAction,
) -> bool {
    exists|mid: SbcCodec, frame: Option<Vec<i16>>|
        {
            &&& #[trigger] took_frame(before, mid, frame)
            &&& match frame {
                Some(pcm) => r == BtAction::Code(pcm) && after == mid && block_after
                    == block_before,
                None => finished(mid, after, block_before, block_after, n, r),
            }
        }
}

/// One step of a block.
pub open spec fn processed(
    before: SbcCodec,
    after: SbcCodec,
    block_before: Seq<Vec<Sample>>,
    block_after: Seq<Vec<Sample>>,
    n: nat,
    event: BtEvent,
    r: BtAction,
) -> bool {
    exists|c1: SbcCodec|
        {
            &&& #[trigger] entered(before, c1, block_before, n, event)
            &&& match event {
                BtEvent::Block(BlockEvent::OutputResampled { .. }) => finished(
                    c1,
                    after,
                    block_before,
                    block_after,
                    n,
                    r,
                ),
                BtEvent::Block(_) => exists|c2: SbcCodec, chunk: Option<Vec<Vec<Sample>>>|
                    {
                        &&& #[trigger] pumped_in(c1, c2, chunk)
                        &&& match chunk {
                            Some(c) => {
                                &&& r == BtAction::Block(BlockAction::ResampleInput(c))
                                &&& after == c2
                                &&& block_after == block_before
                            },
                            None => coded(c2, after, block_before, block_after, n, r),
                        }
                    },
                BtEvent::Coded(_) => coded(c1, after, block_before, block_after, n, r),
            }
        }
}

}
