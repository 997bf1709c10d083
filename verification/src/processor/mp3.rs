//! Real-time MP3 encode -> decode via LAME + minimp3.
//!
//! Audio is resampled to 44.1 kHz internally (MPEG-1 Layer 3 only supports
//! 32 / 44.1 / 48 kHz). Encoder and decoder are wired with raw MP3 frame
//! bytes, no container. LAME auto-downsamples the bitstream at low bitrates
//! (24 kHz at 64 kbps stereo), so the decode rate is probed per bitrate.
//!
//! minimp3 is called from outside: `process` says when `dec_input` is to be
//! decoded, and takes back what one call of the decoder reported.

use crate::processor::frames::{
    frame_channel, is_staged, lemma_rest_rest, push_frame_channel, stage_channel, DecodedFrame,
};
use crate::processor::lame::{
    build, builder_at, encode_mono, encode_stereo, lame_calls, lame_setup, LameBitrate, LameCall,
    LameMode, LameQuality, LameSettings, LameVbr,
};
use crate::processor::pipeline::{
    at_host_rate, block_fits, chunk_of, delay_of, estimated, event_fits, failed_setup, finished_block,
    muted_internal, padded, passed_internal, pumped_input, reset_pipeline, ring_fits, took_event,
    BlockAction, BlockEvent, BuiltResampler, ResampledPipeline,
};
use crate::processor::rings::{all_hold, clear_all, drained, rest, same_shape};
use crate::sample::Sample;
use mp3lame_encoder::Encoder;
use std::collections::VecDeque;
use vstd::arithmetic::div_mod::*;
use vstd::prelude::*;

verus! {

pub const MP3_RATE: u32 = 44_100;

/// MPEG-1 Layer 3 frame size: 1152 samples per channel, every bitrate.
pub const MP3_FRAME_SIZE: usize = 1152;

/// First decoded frame is MDCT warm-up garbage; discard it.
pub const PREROLL_SAMPLES: usize = 1152;

/// Decoder input cap, well above 3 frames at 320 kbps stereo. Just a safety
/// net; never hit at steady state.
pub const DEC_INPUT_CAP: usize = 32_768;

/// LAME's bound for 1152 samples at 320 kbps: 7200 + 1152 * 5 / 4.
pub const MAX_OUTPUT_PER_FRAME: usize = 8640;

/// Samples at LAME's input rate from input to first usable output: 6 frames.
/// Covers LAME's 576-sample lookahead, its ~528-sample filter delay and the
/// decoder's MDCT warm-up.
pub const MP3_ROUNDTRIP: u32 = 6912;

/// Rounds of silence before the rate probe gives up, ~1.7 s.
pub const PROBE_ROUNDS: u32 = 64;

/// 2 frames at 320 kbps + 4-byte header slack. Under this minimp3 wipes its
/// state and the probe never converges.
pub const PROBE_THRESHOLD: usize = 2204;

#[derive(Clone, Copy, PartialEq, Eq, Structural, Debug)]
pub enum Mp3Mode {
    Passthrough,
    Mp3 { bitrate_kbps: u32 },
}

/// `r` is the smallest of LAME's bitrates that is not below `kbps`, or the
/// largest there is.
pub open spec fn is_snapped(kbps: u32, r: LameBitrate) -> bool {
    &&& kbps <= 320 ==> r.kbps() >= kbps
    &&& kbps > 320 ==> r.kbps() == 320
    &&& forall|b: LameBitrate| #[trigger] b.kbps() >= kbps ==> r.kbps() <= b.kbps()
}

/// Snap a free-form kbps value to LAME's constant bitrates: the closest value
/// that is not below it, or the largest there is.
pub fn bitrate_to_lame(kbps: u32) -> (r: Option<LameBitrate>)
    ensures
        r is Some,
        is_snapped(kbps, r->0),
{
    Some(
        if kbps <= 8 {
            LameBitrate::Kbps8
        } else if kbps <= 16 {
            LameBitrate::Kbps16
        } else if kbps <= 24 {
            LameBitrate::Kbps24
        } else if kbps <= 32 {
            LameBitrate::Kbps32
        } else if kbps <= 40 {
            LameBitrate::Kbps40
        } else if kbps <= 48 {
            LameBitrate::Kbps48
        } else if kbps <= 64 {
            LameBitrate::Kbps64
        } else if kbps <= 80 {
            LameBitrate::Kbps80
        } else if kbps <= 96 {
            LameBitrate::Kbps96
        } else if kbps <= 112 {
            LameBitrate::Kbps112
        } else if kbps <= 128 {
            LameBitrate::Kbps128
        } else if kbps <= 160 {
            LameBitrate::Kbps160
        } else if kbps <= 192 {
            LameBitrate::Kbps192
        } else if kbps <= 224 {
            LameBitrate::Kbps224
        } else if kbps <= 256 {
            LameBitrate::Kbps256
        } else {
            LameBitrate::Kbps320
        },
    )
}

pub open spec fn spec_lame_settings(channels: usize) -> LameSettings {
    LameSettings {
        num_channels: channels as u8,
        sample_rate: MP3_RATE,
        quality: LameQuality::Good,
        mode: LameMode::JointStereo,
        vbr: LameVbr::Off,
        write_vbr_tag: false,
    }
}

/// Streaming-grade settings. No Xing/Info header: streaming, not file output,
/// which saves one frame of warm-up silence at the start.
pub fn lame_settings(channels: usize) -> (r: LameSettings)
    requires
        channels <= 255,
    ensures
        r == spec_lame_settings(channels),
{
    LameSettings {
        num_channels: channels as u8,
        sample_rate: MP3_RATE,
        quality: LameQuality::Good,
        mode: LameMode::JointStereo,
        vbr: LameVbr::Off,
        write_vbr_tag: false,
    }
}

/// An encoder that has just been built for a bitrate.
pub open spec fn fresh_encoder(encoder: Encoder, channels: usize, bitrate: LameBitrate) -> bool {
    &&& lame_setup(encoder) == (bitrate, spec_lame_settings(channels))
    &&& lame_calls(encoder) == Seq::<LameCall>::empty()
}

/// LAME encoder with the streaming-grade settings. Shared by the production
/// encoder and the throwaway probe so they can't drift. Whether LAME can be
/// had with them is for LAME to say.
fn build_encoder(channels: usize, bitrate: LameBitrate) -> (r: Option<Encoder>)
    requires
        channels <= 255,
    ensures
        r matches Some(encoder) ==> fresh_encoder(encoder, channels, bitrate),
        channels != 1 && channels != 2 ==> r is None,
{
    match builder_at(bitrate) {
        Some(builder) => build(builder, lame_settings(channels)),
        None => None,
    }
}

/// Decoder input after `bytes` came in: the oldest give way to the cap.
pub open spec fn fed(pending: Seq<u8>, bytes: Seq<u8>) -> Seq<u8> {
    let excess = pending.len() + bytes.len() - DEC_INPUT_CAP;
    if excess <= 0 {
        pending + bytes
    } else if excess <= pending.len() {
        pending.skip(excess) + bytes
    } else {
        bytes
    }
}

/// Appends encoder output to the bytes pending decode, within the cap.
pub fn feed(pending: &mut Vec<u8>, bytes: &Vec<u8>)
    ensures
        final(pending)@ == fed(old(pending)@, bytes@),
{
    let ghost before = pending@;
    let have: usize = pending.len();
    let room: usize = if bytes.len() <= DEC_INPUT_CAP {
        DEC_INPUT_CAP - bytes.len()
    } else {
        0
    };
    if have > room {
        let cut: usize = have - room;
        drop_front(pending, cut);
        proof {
            if bytes.len() > DEC_INPUT_CAP {
                assert(before.skip(cut as int) =~= Seq::empty());
            }
        }
    }
    pending.extend_from_slice(bytes.as_slice());
    proof {
        assert(pending@ =~= fed(before, bytes@));
    }
}

/// Removes the first `n` bytes.
fn drop_front(bytes: &mut Vec<u8>, n: usize)
    requires
        n <= old(bytes).len(),
    ensures
        final(bytes)@ == old(bytes)@.skip(n as int),
{
    let ghost before = bytes@;
    let tail = bytes.split_off(n);
    *bytes = tail;
    proof {
        assert(bytes@ =~= before.skip(n as int));
    }
}

/// Finds the rate that LAME emits at for a bitrate, by encoding silence until
/// the decoder reports one.
pub struct RateProbe {
    pub encoder: Encoder,
    pub stereo: bool,
    /// Bytes pending decode.
    pub dec_input: Vec<u8>,
    pub rounds_left: u32,
}

/// What a probe needs next.
#[derive(Clone, Copy, PartialEq, Eq, Structural, Debug)]
pub enum ProbeAction {
    /// `dec_input` is to be decoded once.
    Decode,
    /// No rate was reported in time: this one is assumed.
    Settle(u32),
}

/// The bytes that came out of calls of the encoder.
pub open spec fn encoded(calls: Seq<LameCall>) -> Seq<u8>
    decreases calls.len(),
{
    if calls.len() == 0 {
        Seq::empty()
    } else {
        let earlier = encoded(calls.drop_last());
        match calls.last().bytes {
            Some(bytes) => earlier + bytes,
            None => earlier,
        }
    }
}

/// `call` feeds a frame of silence.
pub open spec fn feeds_silence(call: LameCall, stereo: bool) -> bool {
    &&& call.channels.len() == if stereo {
        2nat
    } else {
        1
    }
    &&& forall|ch: int|
        0 <= ch < call.channels.len() ==> #[trigger] call.channels[ch] == Seq::new(
            MP3_FRAME_SIZE as nat,
            |i: int| 0i16,
        )
    &&& call.capacity == MAX_OUTPUT_PER_FRAME
}

/// `calls` are what the encoder was called with since `before`: rounds of
/// silence, up to the first after which there is enough to decode.
pub open spec fn probed(before: RateProbe, after: RateProbe, calls: Seq<LameCall>) -> bool {
    &&& after.stereo == before.stereo
    &&& calls.len() == before.rounds_left - after.rounds_left
    &&& lame_setup(after.encoder) == lame_setup(before.encoder)
    &&& lame_calls(after.encoder) == lame_calls(before.encoder) + calls
    &&& after.dec_input@ == before.dec_input@ + encoded(calls)
    &&& forall|k: int| 0 <= k < calls.len() ==> feeds_silence(#[trigger] calls[k], before.stereo)
    &&& forall|k: int|
        0 < k < calls.len() ==> before.dec_input@.len() + encoded(#[trigger] calls.take(k)).len()
            < PROBE_THRESHOLD
}

proof fn lemma_probed_once_more(
    before: RateProbe,
    mid: RateProbe,
    after: RateProbe,
    calls: Seq<LameCall>,
    call: LameCall,
)
    requires
        probed(before, mid, calls),
        calls.len() > 0 ==> mid.dec_input@.len() < PROBE_THRESHOLD,
        after.stereo == mid.stereo,
        after.rounds_left == mid.rounds_left - 1,
        lame_setup(after.encoder) == lame_setup(mid.encoder),
        lame_calls(after.encoder) == lame_calls(mid.encoder).push(call),
        feeds_silence(call, before.stereo),
        after.dec_input@ == mid.dec_input@ + match call.bytes {
            Some(bytes) => bytes,
            None => Seq::empty(),
        },
    ensures
        probed(before, after, calls.push(call)),
{
    let longer = calls.push(call);
    assert(longer.drop_last() =~= calls);
    assert(lame_calls(after.encoder) =~= lame_calls(before.encoder) + longer);
    assert(after.dec_input@ =~= before.dec_input@ + encoded(longer));
    assert forall|k: int| 0 < k < longer.len() implies before.dec_input@.len() + encoded(
        #[trigger] longer.take(k),
    ).len() < PROBE_THRESHOLD by {
        if k < calls.len() {
            assert(longer.take(k) =~= calls.take(k));
        } else {
            assert(longer.take(k) =~= calls);
        }
    }
}

impl RateProbe {
    /// A probe around a throwaway encoder; `None` where LAME gives none.
    pub fn new(channels: usize, bitrate: LameBitrate) -> (r: Option<RateProbe>)
        requires
            channels <= 255,
        ensures
            r matches Some(p) ==> {
                &&& fresh_encoder(p.encoder, channels, bitrate)
                &&& p.starts(channels)
            },
            channels != 1 && channels != 2 ==> r is None,
    {
        RateProbe::around(build_encoder(channels, bitrate), channels)
    }

    /// Nothing is encoded yet.
    pub open spec fn starts(&self, channels: usize) -> bool {
        &&& self.stereo == (channels == 2)
        &&& self.dec_input@.len() == 0
        &&& self.rounds_left == PROBE_ROUNDS
    }

    /// A probe at its start, around what LAME gave.
    pub fn around(encoder: Option<Encoder>, channels: usize) -> (r: Option<RateProbe>)
        ensures
            match encoder {
                Some(encoder) => r is Some && r->0.encoder == encoder && r->0.starts(channels),
                None => r is None,
            },
    {
        match encoder {
            Some(encoder) => Some(
                RateProbe {
                    encoder,
                    stereo: channels == 2,
                    dec_input: Vec::new(),
                    rounds_left: PROBE_ROUNDS,
                },
            ),
            None => None,
        }
    }

    /// Encodes rounds of silence until there is enough to decode.
    pub fn advance(&mut self) -> (r: ProbeAction)
        ensures
            exists|calls: Seq<LameCall>| #[trigger] probed(*old(self), *final(self), calls),
            old(self).rounds_left == 0 <==> final(self).rounds_left == old(self).rounds_left,
            match r {
                ProbeAction::Decode => final(self).dec_input@.len() >= PROBE_THRESHOLD,
                ProbeAction::Settle(hz) => hz == MP3_RATE && final(self).rounds_left == 0,
            },
            old(self).rounds_left > 0 && final(self).dec_input@.len() >= PROBE_THRESHOLD ==> r
                is Decode,
            old(self).rounds_left == 0 ==> r is Settle,
    {
        let ghost before = *self;
        let ghost mut calls: Seq<LameCall> = Seq::empty();
        let silence: Vec<i16> = vec![0i16; MP3_FRAME_SIZE];
        proof {
            assert(silence@ =~= Seq::new(MP3_FRAME_SIZE as nat, |i: int| 0i16));
            assert(lame_calls(self.encoder) =~= lame_calls(before.encoder) + calls);
            assert(self.dec_input@ =~= before.dec_input@ + encoded(calls));
        }
        while self.rounds_left > 0
            invariant
                silence@ == Seq::new(MP3_FRAME_SIZE as nat, |i: int| 0i16),
                before == *old(self),
                probed(before, *self, calls),
                calls.len() > 0 ==> self.dec_input@.len() < PROBE_THRESHOLD,
            decreases self.rounds_left,
        {
            let ghost start = *self;
            let ghost earlier = calls;
            self.rounds_left = self.rounds_left - 1;
            let out = if self.stereo {
                encode_stereo(&mut self.encoder, &silence, &silence, MAX_OUTPUT_PER_FRAME)
            } else {
                encode_mono(&mut self.encoder, &silence, MAX_OUTPUT_PER_FRAME)
            };
            if let Some(bytes) = &out {
                let ghost pending = self.dec_input@;
                self.dec_input.extend_from_slice(bytes.as_slice());
                proof {
                    assert(self.dec_input@ =~= pending + bytes@);
                }
            }
            proof {
                calls = earlier.push(lame_calls(self.encoder).last());
                lemma_probed_once_more(before, start, *self, earlier, calls.last());
            }
            if self.dec_input.len() >= PROBE_THRESHOLD {
                return ProbeAction::Decode;
            }
        }
        ProbeAction::Settle(MP3_RATE)
    }

    /// Takes what one call of the decoder reported: the frame's rate, if it
    /// found one, and the bytes it is done with. Gives the rate once known.
    pub fn report(&mut self, hz: u32, frame_bytes: usize) -> (r: Option<u32>)
        ensures
            r == (if hz > 0 {
                Some(hz)
            } else {
                None
            }),
            final(self).encoder == old(self).encoder,
            final(self).stereo == old(self).stereo,
            final(self).rounds_left == old(self).rounds_left,
            final(self).dec_input@ == (if hz == 0 && frame_bytes < old(self).dec_input@.len() {
                old(self).dec_input@.skip(frame_bytes as int)
            } else {
                old(self).dec_input@
            }),
    {
        if hz > 0 {
            return Some(hz);
        }
        proof {
            assert(self.dec_input@.skip(0) =~= self.dec_input@);
        }
        if frame_bytes > 0 && frame_bytes < self.dec_input.len() {
            drop_front(&mut self.dec_input, frame_bytes);
        }
        None
    }
}

/// An open LAME encoder. The decoder that its bytes go to lives with the
/// caller.
pub struct Mp3Codec {
    pub encoder: Encoder,
    /// Rate the decoder emits at: may be lower than `MP3_RATE`, because LAME
    /// auto-downsamples the bitstream at low bitrates. Matches what Deezer
    /// streams for those tiers.
    pub output_hz: u32,
}

/// The resamplers from each rate that LAME may pick for our tiers to the
/// host's.
#[derive(Clone, Copy, PartialEq, Eq, Structural, Debug)]
pub struct OutputResamplers {
    pub from_22050: Option<BuiltResampler>,
    pub from_24000: Option<BuiltResampler>,
    pub from_32000: Option<BuiltResampler>,
    pub from_44100: Option<BuiltResampler>,
}

/// What one call of `mp3dec_decode_frame` reported.
pub struct DecodeReport {
    /// Interleaved PCM.
    pub pcm: Vec<i16>,
    /// Samples per channel, zero where no frame was decoded.
    pub samples: usize,
    pub channels: usize,
    /// Bytes the decoder is done with.
    pub frame_bytes: usize,
}

impl DecodeReport {
    pub open spec fn wf(&self) -> bool {
        &&& self.samples * self.channels <= self.pcm.len()
        &&& self.samples > 0 ==> self.channels > 0
    }

    pub open spec fn frame(&self) -> DecodedFrame {
        DecodedFrame { samples: self.samples, channels: self.channels }
    }
}

pub struct Mp3Processor {
    pub pipeline: ResampledPipeline,
    pub current_bitrate_kbps: i32,
    /// Minimum `dec_input` bytes before the decoder is called. minimp3 wipes
    /// its bit-reservoir state when it can't validate the *next* frame's
    /// sync, which makes every subsequent frame fail to decode (they
    /// reference the reservoir). Buffering ~2 frames + 4 bytes header slack
    /// avoids that; computed from the bitrate at codec-build time.
    pub min_decode_bytes: u64,
    pub codec: Option<Mp3Codec>,
    /// Encoder-emission-order bytes pending decode.
    pub dec_input: Vec<u8>,
    pub samples_to_discard: usize,
    /// The decoder may still find a frame in `dec_input`.
    pub decoding: bool,
}

/// Host-rate latency with a decoder that emits at `decode_rate`. The budget
/// is wall-clock time, independent of the output rate.
pub open spec fn natural_latency(
    host_rate: u32,
    decode_rate: u32,
    h2i: Option<BuiltResampler>,
    i2h: Option<BuiltResampler>,
) -> int {
    if decode_rate != host_rate && i2h is None {
        0
    } else {
        chunk_of(host_rate, MP3_RATE) + at_host_rate(
            delay_of(host_rate, MP3_RATE, h2i),
            host_rate,
            MP3_RATE,
        ) + at_host_rate(MP3_ROUNDTRIP as int, host_rate, MP3_RATE) + at_host_rate(
            chunk_of(decode_rate, host_rate),
            host_rate,
            decode_rate,
        ) + delay_of(decode_rate, host_rate, i2h)
    }
}

pub open spec fn max4(a: int, b: int, c: int, d: int) -> int {
    vstd::math::max(vstd::math::max(a, b), vstd::math::max(c, d))
}

/// The largest latency over every rate that LAME might pick.
pub open spec fn worst_natural_latency(
    host_rate: u32,
    h2i: Option<BuiltResampler>,
    outs: OutputResamplers,
) -> int {
    max4(
        natural_latency(host_rate, 22_050, h2i, outs.from_22050),
        natural_latency(host_rate, 24_000, h2i, outs.from_24000),
        natural_latency(host_rate, 32_000, h2i, outs.from_32000),
        natural_latency(host_rate, MP3_RATE, h2i, outs.from_44100),
    )
}

/// The largest estimate over every rate that LAME might pick.
pub open spec fn worst_estimate(
    host_rate: u32,
    h2i: Option<BuiltResampler>,
    outs: OutputResamplers,
) -> int {
    max4(
        estimated(host_rate, MP3_RATE, 22_050, MP3_ROUNDTRIP, h2i, outs.from_22050),
        estimated(host_rate, MP3_RATE, 24_000, MP3_ROUNDTRIP, h2i, outs.from_24000),
        estimated(host_rate, MP3_RATE, 32_000, MP3_ROUNDTRIP, h2i, outs.from_32000),
        estimated(host_rate, MP3_RATE, MP3_RATE, MP3_ROUNDTRIP, h2i, outs.from_44100),
    )
}

/// The resamplers' delays leave every latency in range.
pub open spec fn latency_fits(
    host_rate: u32,
    h2i: Option<BuiltResampler>,
    outs: OutputResamplers,
) -> bool {
    &&& delay_of(host_rate, MP3_RATE, h2i) + MP3_ROUNDTRIP <= u32::MAX
    &&& worst_estimate(host_rate, h2i, outs) <= u32::MAX
}

/// What a pipeline that was set up waits for never exceeds the estimate made
/// for it in advance.
pub proof fn law_estimate_covers_latency(
    host_rate: u32,
    decode_rate: u32,
    h2i: Option<BuiltResampler>,
    i2h: Option<BuiltResampler>,
)
    requires
        host_rate == MP3_RATE || h2i is Some,
        decode_rate > 0,
    ensures
        natural_latency(host_rate, decode_rate, h2i, i2h) <= estimated(
            host_rate,
            MP3_RATE,
            decode_rate,
            MP3_ROUNDTRIP,
            h2i,
            i2h,
        ),
{
    let a = delay_of(host_rate, MP3_RATE, h2i);
    let b = MP3_ROUNDTRIP as int;
    let h = host_rate as int;
    let d = MP3_RATE as int;
    assert((a + b) * h == a * h + b * h) by (nonlinear_arith);
    assert(0 <= a * h && 0 <= b * h) by (nonlinear_arith)
        requires
            a >= 0,
            b >= 0,
            h >= 0,
    ;
    assert(a * h / d + b * h / d <= (a * h + b * h) / d) by {
        lemma_fundamental_div_mod(a * h, d);
        lemma_fundamental_div_mod(b * h, d);
        lemma_fundamental_div_mod(a * h + b * h, d);
        lemma_mod_bound(a * h, d);
        lemma_mod_bound(b * h, d);
        lemma_mod_bound(a * h + b * h, d);
    }
}

/// Takes the next frame of every channel as planar 16-bit PCM.
pub fn stage_planar(rings: &mut Vec<VecDeque<Sample>>) -> (r: Vec<Vec<i16>>)
    ensures
        drained(old(rings)@, final(rings)@, MP3_FRAME_SIZE as nat),
        r.len() == old(rings).len(),
        forall|ch: int|
            0 <= ch < r.len() ==> is_staged(
                old(rings)@[ch]@,
                MP3_FRAME_SIZE as nat,
                (#[trigger] r@[ch])@,
            ),
{
    let ghost r0 = rings@;
    let channels: usize = rings.len();
    let mut r: Vec<Vec<i16>> = Vec::new();
    for ch in 0..channels
        invariant
            channels == rings.len(),
            rings.len() == r0.len(),
            r.len() == ch,
            forall|c: int| ch <= c < r0.len() ==> rings@[c] == r0[c],
            forall|c: int|
                0 <= c < ch ==> (#[trigger] rings@[c])@ == rest(r0[c]@, MP3_FRAME_SIZE as nat),
            forall|c: int|
                0 <= c < ch ==> is_staged(r0[c]@, MP3_FRAME_SIZE as nat, (#[trigger] r@[c])@),
    {
        let pcm = stage_channel(&mut rings[ch], MP3_FRAME_SIZE);
        r.push(pcm);
    }
    r
}

/// The channel of a decoded frame that channel `ch` of the host plays: its
/// own, or the first where the frame has fewer.
pub open spec fn played_channel(ch: int, frame: DecodedFrame) -> int {
    if ch < frame.channels {
        ch
    } else {
        0
    }
}

/// Bytes of one frame at a bitrate, as LAME sizes it: MPEG-2 / 2.5 rates emit
/// 576 samples a frame, MPEG-1 emits 1152.
pub open spec fn nominal_frame_bytes(bitrate_kbps: u32, decode_rate: u32) -> int {
    (if decode_rate <= 24_000 {
        576int
    } else {
        1152int
    }) * bitrate_kbps * 1000 / 8 / (decode_rate as int)
}

/// 2 full frames + 4 bytes of header slack.
pub fn decode_threshold(bitrate_kbps: u32, decode_rate: u32) -> (r: u64)
    requires
        decode_rate > 0,
    ensures
        r == 2 * (nominal_frame_bytes(bitrate_kbps, decode_rate) + 1) + 4,
{
    let frame_samples: u64 = if decode_rate <= 24_000 {
        576
    } else {
        1152
    };
    proof {
        assert(0 <= frame_samples * bitrate_kbps <= 1152 * 0xffff_ffff) by (nonlinear_arith)
            requires
                0 <= frame_samples <= 1152,
                0 <= bitrate_kbps <= 0xffff_ffff,
        ;
        let bits = frame_samples as int * bitrate_kbps as int * 1000;
        lemma_div_nonincreasing(bits / 8, decode_rate as int);
        lemma_div_pos_is_pos(bits / 8, decode_rate as int);
    }
    let nominal: u64 = frame_samples * bitrate_kbps as u64 * 1000 / 8 / decode_rate as u64;
    2 * (nominal + 1) + 4
}

/// What the caller of the processor brings.
pub enum Mp3Event {
    Block(BlockEvent),
    /// The codec that was asked for has been tried, with or without success.
    CodecTried,
    /// `dec_input` went through the decoder once.
    Decoded(DecodeReport),
}

/// What the caller of the processor is to do next.
pub enum Mp3Action {
    Block(BlockAction),
    /// Open the codec for a bitrate: `begin_codec`, the rate probe, then
    /// `finish_codec`.
    OpenCodec(u32),
    /// Decode `dec_input` once.
    Decode,
}

impl Mp3Processor {
    pub open spec fn wf(&self) -> bool {
        &&& self.pipeline.wf()
        &&& self.pipeline.ready ==> {
            &&& self.pipeline.channels == 1 || self.pipeline.channels == 2
            &&& self.pipeline.encode_rate == MP3_RATE
            &&& self.pipeline.decode_rate > 0
        }
    }

    /// No codec is open, and the next bitrate opens one.
    pub open spec fn idle(&self) -> bool {
        &&& self.codec is None
        &&& self.current_bitrate_kbps == -1
    }

    pub fn new() -> (r: Mp3Processor)
        ensures
            r.wf(),
            !r.pipeline.ready,
            r.pipeline.channels == 2,
            r.idle(),
            r.dec_input@.len() == 0,
            r.min_decode_bytes == 0,
            r.samples_to_discard == 0,
            !r.decoding,
    {
        Mp3Processor {
            pipeline: ResampledPipeline::new(),
            current_bitrate_kbps: -1,
            min_decode_bytes: 0,
            codec: None,
            dec_input: Vec::new(),
            samples_to_discard: 0,
            decoding: false,
        }
    }

    /// Sets the processor up for a host. Only mono and stereo are supported:
    /// any other channel count leaves everything as it was. The initial
    /// decode rate is 44.1 kHz; `finish_codec` changes it if LAME picks a
    /// lower rate. Pads to the worst-case rate, so later codec rebuilds never
    /// need to grow the ring mid-stream and risk an audible underrun.
    pub fn initialize(
        &mut self,
        sample_rate: u32,
        channels: usize,
        max_block_size: usize,
        h2i: Option<BuiltResampler>,
        outs: OutputResamplers,
    )
        requires
            old(self).wf(),
            ring_fits(max_block_size, sample_rate),
            latency_fits(sample_rate, h2i, outs),
        ensures
            final(self).wf(),
            channels != 1 && channels != 2 ==> *final(self) == *old(self),
            channels == 1 || channels == 2 ==> {
                let p = final(self).pipeline;
                &&& final(self).idle()
                &&& p.host_rate == sample_rate
                &&& p.channels == channels
                &&& p.ready == (sample_rate == MP3_RATE || (h2i is Some && outs.from_44100 is Some))
                &&& p.ready ==> {
                    &&& p.latency_host_samples == worst_natural_latency(sample_rate, h2i, outs)
                    &&& p.primed()
                    &&& p.set_up_for(
                        sample_rate,
                        channels,
                        MP3_RATE,
                        MP3_RATE,
                        h2i,
                        outs.from_44100,
                    )
                    &&& final(self).dec_input@.len() == 0
                    &&& !final(self).decoding
                }
                &&& !p.ready ==> failed_setup(
                    old(self).pipeline,
                    p,
                    sample_rate,
                    channels,
                    MP3_RATE,
                    MP3_RATE,
                    h2i,
                )
                &&& !p.ready ==> final(self).dec_input == old(self).dec_input
                    && final(self).decoding == old(self).decoding
                &&& final(self).min_decode_bytes == old(self).min_decode_bytes
                &&& final(self).samples_to_discard == old(self).samples_to_discard
            },
    {
        if channels != 1 && channels != 2 {
            return;
        }
        self.current_bitrate_kbps = -1;
        self.codec = None;
        if !self.pipeline.setup(
            sample_rate,
            channels,
            max_block_size,
            MP3_RATE,
            MP3_RATE,
            h2i,
            outs.from_44100,
        ) {
            return;
        }
        self.dec_input = Vec::with_capacity(DEC_INPUT_CAP);
        self.decoding = false;
        let latency = self.worst_case_natural_latency(Ghost(h2i), outs);
        self.pipeline.set_latency(latency);
    }

    /// Latency at one candidate rate, zero where its resampler is missing.
    fn latency_from(&mut self, Ghost(h2i): Ghost<Option<BuiltResampler>>, hz: u32, i2h: Option<
        BuiltResampler,
    >) -> (r: u32)
        requires
            old(self).wf(),
            old(self).pipeline.ready,
            hz > 0,
            old(self).pipeline.host_rate == MP3_RATE || h2i is Some,
            old(self).pipeline.h2i == (if old(self).pipeline.host_rate == MP3_RATE {
                None
            } else {
                h2i
            }),
            natural_latency(old(self).pipeline.host_rate, hz, h2i, i2h) <= u32::MAX,
        ensures
            r == natural_latency(old(self).pipeline.host_rate, hz, h2i, i2h),
            final(self).wf(),
            *final(self) == (Mp3Processor { pipeline: final(self).pipeline, ..*old(self) }),
            final(self).pipeline == (ResampledPipeline {
                decode_rate: hz,
                i2h: final(self).pipeline.i2h,
                i2h_chunk: final(self).pipeline.i2h_chunk,
                ..old(self).pipeline
            }),
            final(self).pipeline.i2h == (if hz == old(self).pipeline.host_rate {
                None
            } else {
                i2h
            }),
    {
        if !self.pipeline.setup_i2h(hz, i2h) {
            return 0;
        }
        proof {
            let p = self.pipeline;
            let zero = 0int * p.host_rate as int;
            assert(zero == 0) by (nonlinear_arith)
                requires
                    zero == 0int * p.host_rate as int,
            ;
            lemma_div_of0(hz as int);
            lemma_div_of0(MP3_RATE as int);
            assert(p.h2i_pair() == (
                chunk_of(p.host_rate, MP3_RATE),
                delay_of(p.host_rate, MP3_RATE, h2i),
            ));
            assert(p.i2h_pair() == (
                at_host_rate(chunk_of(hz, p.host_rate), p.host_rate, hz),
                delay_of(hz, p.host_rate, i2h),
            ));
        }
        self.compute_natural_latency()
    }

    /// Pipeline delay for the active decode rate.
    fn compute_natural_latency(&self) -> (r: u32)
        requires
            self.pipeline.wf(),
            self.pipeline.h2i_pair().0 + at_host_rate(
                self.pipeline.h2i_pair().1,
                self.pipeline.host_rate,
                MP3_RATE,
            ) + at_host_rate(MP3_ROUNDTRIP as int, self.pipeline.host_rate, MP3_RATE)
                + self.pipeline.i2h_pair().0 + self.pipeline.i2h_pair().1 <= u32::MAX,
        ensures
            r == self.pipeline.h2i_pair().0 + at_host_rate(
                self.pipeline.h2i_pair().1,
                self.pipeline.host_rate,
                MP3_RATE,
            ) + at_host_rate(MP3_ROUNDTRIP as int, self.pipeline.host_rate, MP3_RATE)
                + self.pipeline.i2h_pair().0 + self.pipeline.i2h_pair().1,
    {
        let host_rate: u64 = self.pipeline.host_rate as u64;
        let (h2i_chunk_host, h2i_delay_internal) = self.pipeline.h2i_latency_pair();
        let (i2h_chunk_at_host, i2h_delay_at_host) = self.pipeline.i2h_latency_pair();
        proof {
            assert(0 <= h2i_delay_internal * host_rate <= 0xffff_ffff * 0xffff_ffff)
                by (nonlinear_arith)
                requires
                    0 <= h2i_delay_internal <= 0xffff_ffff,
                    0 <= host_rate <= 0xffff_ffff,
            ;
            assert(MP3_ROUNDTRIP * host_rate <= 6912 * 0xffff_ffff) by (nonlinear_arith)
                requires
                    MP3_ROUNDTRIP == 6912,
                    0 <= host_rate <= 0xffff_ffff,
            ;
        }
        let h2i_delay_at_host: u64 = h2i_delay_internal as u64 * host_rate / MP3_RATE as u64;
        let lame_at_host: u64 = MP3_ROUNDTRIP as u64 * host_rate / MP3_RATE as u64;
        (h2i_chunk_host as u64 + h2i_delay_at_host + lame_at_host + i2h_chunk_at_host as u64
            + i2h_delay_at_host as u64) as u32
    }

    /// Max latency across every decode rate LAME might pick for our tiers.
    /// Reported latency stays fixed at this value regardless of the active
    /// bitrate, so bitrate switches don't re-tick host delay compensation.
    fn worst_case_natural_latency(
        &mut self,
        Ghost(h2i): Ghost<Option<BuiltResampler>>,
        outs: OutputResamplers,
    ) -> (r: u32)
        requires
            old(self).wf(),
            old(self).pipeline.ready,
            old(self).pipeline.decode_rate == MP3_RATE,
            old(self).pipeline.host_rate == MP3_RATE || h2i is Some,
            old(self).pipeline.h2i == (if old(self).pipeline.host_rate == MP3_RATE {
                None
            } else {
                h2i
            }),
            old(self).pipeline.i2h == (if old(self).pipeline.host_rate == MP3_RATE {
                None
            } else {
                outs.from_44100
            }),
            latency_fits(old(self).pipeline.host_rate, h2i, outs),
        ensures
            r == worst_natural_latency(old(self).pipeline.host_rate, h2i, outs),
            final(self).wf(),
            *final(self) == *old(self),
    {
        let ghost host = self.pipeline.host_rate;
        proof {
            law_estimate_covers_latency(host, 22_050, h2i, outs.from_22050);
            law_estimate_covers_latency(host, 24_000, h2i, outs.from_24000);
            law_estimate_covers_latency(host, 32_000, h2i, outs.from_32000);
            law_estimate_covers_latency(host, MP3_RATE, h2i, outs.from_44100);
        }
        let a = self.latency_from(Ghost(h2i), 22_050, outs.from_22050);
        let b = self.latency_from(Ghost(h2i), 24_000, outs.from_24000);
        let c = self.latency_from(Ghost(h2i), 32_000, outs.from_32000);
        let d = self.latency_from(Ghost(h2i), MP3_RATE, outs.from_44100);
        let ab: u32 = if a > b {
            a
        } else {
            b
        };
        let cd: u32 = if c > d {
            c
        } else {
            d
        };
        if ab > cd {
            ab
        } else {
            cd
        }
    }

    pub fn pad_output_to(&mut self, target: u32)
        requires
            old(self).wf(),
        ensures
            final(self).wf(),
            *final(self) == (Mp3Processor { pipeline: final(self).pipeline, ..*old(self) }),
            padded(old(self).pipeline, final(self).pipeline, target),
    {
        self.pipeline.pad_output_to(target);
    }

    /// Static estimate for the lazy-init path: the largest over every
    /// possible LAME output rate.
    pub fn worst_case_latency_at(
        host_rate: u32,
        channels: usize,
        h2i: Option<BuiltResampler>,
        outs: OutputResamplers,
    ) -> (r: u32)
        requires
            ring_fits(1, host_rate),
            latency_fits(host_rate, h2i, outs),
        ensures
            r == worst_estimate(host_rate, h2i, outs),
    {
        let a = ResampledPipeline::estimate_latency(
            host_rate,
            channels,
            MP3_RATE,
            22_050,
            MP3_ROUNDTRIP,
            h2i,
            outs.from_22050,
        );
        let b = ResampledPipeline::estimate_latency(
            host_rate,
            channels,
            MP3_RATE,
            24_000,
            MP3_ROUNDTRIP,
            h2i,
            outs.from_24000,
        );
        let c = ResampledPipeline::estimate_latency(
            host_rate,
            channels,
            MP3_RATE,
            32_000,
            MP3_ROUNDTRIP,
            h2i,
            outs.from_32000,
        );
        let d = ResampledPipeline::estimate_latency(
            host_rate,
            channels,
            MP3_RATE,
            MP3_RATE,
            MP3_ROUNDTRIP,
            h2i,
            outs.from_44100,
        );
        let ab: u32 = if a > b {
            a
        } else {
            b
        };
        let cd: u32 = if c > d {
            c
        } else {
            d
        };
        if ab > cd {
            ab
        } else {
            cd
        }
    }

    pub fn reset(&mut self)
        requires
            old(self).wf(),
        ensures
            final(self).wf(),
            reset_processor(*old(self), *final(self)),
    {
        if !self.pipeline.ready {
            return;
        }
        self.codec = None;
        self.current_bitrate_kbps = -1;
        self.dec_input.clear();
        self.decoding = false;
        self.pipeline.reset();
    }

    pub fn latency_samples(&self) -> (r: u32)
        ensures
            r == if self.pipeline.ready {
                self.pipeline.latency_host_samples
            } else {
                0
            },
    {
        if self.pipeline.ready {
            self.pipeline.latency_host_samples
        } else {
            0
        }
    }

    pub open spec fn spec_needs_codec(&self, bitrate_kbps: u32) -> bool {
        !(self.codec is Some && self.current_bitrate_kbps == bitrate_kbps)
    }

    /// No codec is open for this bitrate.
    #[verifier::when_used_as_spec(spec_needs_codec)]
    pub fn needs_codec(&self, bitrate_kbps: u32) -> (r: bool)
        requires
            bitrate_kbps <= i32::MAX,
        ensures
            r == self.spec_needs_codec(bitrate_kbps),
    {
        !(self.codec.is_some() && self.current_bitrate_kbps == bitrate_kbps as i32)
    }

    /// Lets the codec go, and starts the rate probe for a new one. Without a
    /// probe there will be no codec.
    pub fn begin_codec(&mut self, bitrate_kbps: u32) -> (r: Option<RateProbe>)
        requires
            old(self).wf(),
            old(self).pipeline.ready,
        ensures
            final(self).wf(),
            begun_codec(*old(self), *final(self), bitrate_kbps, r),
    {
        let probe = match bitrate_to_lame(bitrate_kbps) {
            Some(bitrate) => RateProbe::new(self.pipeline.channels, bitrate),
            None => None,
        };
        self.adopt_probe(probe)
    }

    /// Lets the codec go for the probe that was had, if one was, and hands that
    /// on.
    pub fn adopt_probe(&mut self, probe: Option<RateProbe>) -> (r: Option<RateProbe>)
        ensures
            r == probe,
            *final(self) == match probe {
                Some(_) => Mp3Processor { codec: None, ..*old(self) },
                None => without_codec(*old(self)),
            },
    {
        self.codec = None;
        if probe.is_none() {
            self.current_bitrate_kbps = -1;
            self.min_decode_bytes = 0;
        }
        probe
    }

    /// Opens the encoder once the decoder's rate is known. A rate change
    /// (e.g. Deezer Basic to Standard) swaps the output resampler for `i2h`
    /// and flushes what is in flight at the *old* rate: a brief silence
    /// glitch, which encoder re-priming would cause anyway.
    pub fn finish_codec(&mut self, bitrate_kbps: u32, output_hz: u32, i2h: Option<BuiltResampler>)
        requires
            old(self).wf(),
            old(self).pipeline.ready,
            bitrate_kbps <= i32::MAX,
            output_hz > 0,
        ensures
            final(self).wf(),
            finished_codec(*old(self), *final(self), bitrate_kbps, output_hz, i2h),
    {
        let encoder = match bitrate_to_lame(bitrate_kbps) {
            Some(bitrate) => build_encoder(self.pipeline.channels, bitrate),
            None => None,
        };
        self.adopt_encoder(encoder, bitrate_kbps, output_hz, i2h);
    }

    /// Takes on the encoder that LAME gave for a bitrate; without one there is
    /// no codec.
    pub fn adopt_encoder(
        &mut self,
        encoder: Option<Encoder>,
        bitrate_kbps: u32,
        output_hz: u32,
        i2h: Option<BuiltResampler>,
    )
        requires
            old(self).wf(),
            bitrate_kbps <= i32::MAX,
            output_hz > 0,
        ensures
            final(self).wf(),
            match encoder {
                Some(encoder) => {
                    &&& final(self).codec == Some(Mp3Codec { encoder, output_hz })
                    &&& opened_for(*old(self), *final(self), bitrate_kbps, output_hz, i2h)
                },
                None => *final(self) == without_codec(*old(self)),
            },
    {
        let encoder = match encoder {
            Some(encoder) => encoder,
            None => {
                self.codec = None;
                self.current_bitrate_kbps = -1;
                self.min_decode_bytes = 0;
                return;
            },
        };
        self.codec = Some(Mp3Codec { encoder, output_hz });
        self.current_bitrate_kbps = bitrate_kbps as i32;
        if output_hz != self.pipeline.decode_rate {
            clear_all(&mut self.pipeline.internal_output);
            let _ = self.pipeline.setup_i2h(output_hz, i2h);
        }
        self.min_decode_bytes = decode_threshold(bitrate_kbps, self.pipeline.decode_rate);
        self.samples_to_discard = PREROLL_SAMPLES;
        self.dec_input.clear();
        self.decoding = false;
    }

    /// Encodes the next frame and adds what comes out to `dec_input`.
    fn encode_next(&mut self)
        requires
            old(self).wf(),
            old(self).pipeline.ready,
            old(self).codec is Some,
        ensures
            final(self).wf(),
            encoded_frame(*old(self), *final(self)),
    {
        let ghost before = *self;
        let pcm = stage_planar(&mut self.pipeline.internal_input);
        let mut codec = match self.codec.take() {
            Some(codec) => codec,
            None => {
                return;
            },
        };
        assert(pcm@[0].len() == MP3_FRAME_SIZE);
        let out = if pcm.len() == 2 {
            assert(pcm@[1].len() == MP3_FRAME_SIZE);
            encode_stereo(&mut codec.encoder, &pcm[0], &pcm[1], MAX_OUTPUT_PER_FRAME)
        } else {
            encode_mono(&mut codec.encoder, &pcm[0], MAX_OUTPUT_PER_FRAME)
        };
        let ghost call = lame_calls(codec.encoder).last();
        self.codec = Some(codec);
        if let Some(bytes) = &out {
            if bytes.len() > 0 {
                feed(&mut self.dec_input, bytes);
            }
        }
        proof {
            assert(is_encoded(before, *self, call));
        }
    }

    /// Encodes frames until the decoder has enough to go on. Says whether
    /// `dec_input` is to be decoded; if not, every whole frame at the codec's
    /// input has been encoded.
    pub fn advance(&mut self) -> (r: bool)
        requires
            old(self).wf(),
            old(self).pipeline.ready,
            old(self).codec is Some,
        ensures
            final(self).wf(),
            advanced(*old(self), *final(self), r),
    {
        let ghost before = *self;
        let ghost input = before.pipeline.internal_input@;
        let ghost mut taken: nat = 0;
        proof {
            assert forall|ch: int| 0 <= ch < input.len() implies (#[trigger] input[ch])@ == rest(
                input[ch]@,
                0,
            ) by {
                assert(input[ch]@ =~= rest(input[ch]@, 0));
            }
        }
        if self.decoding {
            if self.dec_input.len() as u64 >= self.min_decode_bytes {
                proof {
                    assert(frame_by_frame(seq![before]));
                    assert(took_frames(before, *self, 0));
                }
                return true;
            }
            self.decoding = false;
        }
        let ghost mut steps: Seq<Mp3Processor> = seq![*self];
        proof {
            assert(frame_by_frame(steps));
        }
        while self.pipeline.internal_input[0].len() >= MP3_FRAME_SIZE
            invariant
                self.wf(),
                self.pipeline.ready,
                self.codec is Some,
                before == *old(self),
                before.wf(),
                before.pipeline.ready,
                before.codec is Some,
                !(before.decoding && before.dec_input@.len() >= before.min_decode_bytes),
                input == before.pipeline.internal_input@,
                !self.decoding,
                took_frames(before, *self, taken),
                steps.len() == taken + 1,
                steps.first() == (Mp3Processor { decoding: steps.first().decoding, ..before }),
                steps.last() == *self,
                frame_by_frame(steps),
                taken > 0 ==> self.dec_input@.len() < self.min_decode_bytes,
            decreases self.pipeline.internal_input@[0]@.len(),
        {
            self.encode_next();
            proof {
                assert forall|ch: int| 0 <= ch < input.len() implies rest(
                    rest((#[trigger] input[ch])@, taken * MP3_FRAME_SIZE as nat),
                    MP3_FRAME_SIZE as nat,
                ) == rest(input[ch]@, (taken + 1) * MP3_FRAME_SIZE as nat) by {
                    lemma_rest_rest(
                        input[ch]@,
                        taken * MP3_FRAME_SIZE as nat,
                        MP3_FRAME_SIZE as nat,
                    );
                }
                lemma_frame_pushed(steps, *self);
                steps = steps.push(*self);
                taken = taken + 1;
                assert(took_frames(before, *self, taken));
            }
            if self.dec_input.len() as u64 >= self.min_decode_bytes {
                self.decoding = true;
                proof {
                    assert(took_frames(before, *self, taken));
                }
                return true;
            }
        }
        proof {
            let n = input[0]@.len() as int;
            assert(self.pipeline.internal_input@[0]@.len() == n - taken * MP3_FRAME_SIZE);
            lemma_fundamental_div_mod_converse(
                n,
                MP3_FRAME_SIZE as int,
                taken as int,
                n - taken * MP3_FRAME_SIZE,
            );
        }
        false
    }

    /// Takes what one call of the decoder reported. A frame goes to the
    /// output, less the preroll; a report without a frame only skips the junk
    /// before the next sync. Nothing consumed, or an incomplete frame at the
    /// end, ends decoding until there are more bytes.
    pub fn accept_decode(&mut self, report: &DecodeReport)
        requires
            old(self).wf(),
            old(self).pipeline.ready,
            report.wf(),
        ensures
            final(self).wf(),
            accepted(*old(self), *final(self), *report),
    {
        let pre_len: usize = self.dec_input.len();
        if report.frame_bytes == 0 || (report.samples == 0 && report.frame_bytes >= pre_len) {
            self.decoding = false;
            return;
        }
        let gone: usize = if report.frame_bytes < pre_len {
            report.frame_bytes
        } else {
            pre_len
        };
        drop_front(&mut self.dec_input, gone);
        if report.samples > 0 {
            self.push_decoded(report);
        }
    }

    fn push_decoded(&mut self, report: &DecodeReport)
        requires
            old(self).wf(),
            old(self).pipeline.ready,
            report.wf(),
            report.samples > 0,
        ensures
            final(self).wf(),
            *final(self) == (Mp3Processor {
                pipeline: final(self).pipeline,
                samples_to_discard: final(self).samples_to_discard,
                ..*old(self)
            }),
            played(*old(self), *final(self), *report),
    {
        let ghost before = *self;
        let frame = DecodedFrame { samples: report.samples, channels: report.channels };
        let skip: usize = if self.samples_to_discard < frame.samples {
            self.samples_to_discard
        } else {
            frame.samples
        };
        self.samples_to_discard = self.samples_to_discard - skip;
        let channels: usize = self.pipeline.channels;
        for ch in 0..channels
            invariant
                self.wf(),
                before.wf(),
                self.pipeline.ready,
                before.pipeline.ready,
                channels == before.pipeline.channels,
                frame == report.frame(),
                report.wf(),
                report.samples > 0,
                skip <= frame.samples,
                skip == before.samples_to_discard - self.samples_to_discard,
                *self == (Mp3Processor {
                    pipeline: self.pipeline,
                    samples_to_discard: self.samples_to_discard,
                    ..before
                }),
                self.pipeline.only_rings_changed(&before.pipeline, false, false, true, false),
                forall|c: int|
                    ch <= c < channels ==> self.pipeline.internal_output@[c]
                        == before.pipeline.internal_output@[c],
                forall|c: int|
                    0 <= c < ch ==> (#[trigger] self.pipeline.internal_output@[c])@
                        == before.pipeline.internal_output@[c]@ + frame_channel(
                        report.pcm@,
                        frame,
                        skip as nat,
                        played_channel(c, frame),
                    ),
        {
            let src: usize = if ch < frame.channels {
                ch
            } else {
                0
            };
            push_frame_channel(
                &mut self.pipeline.internal_output[ch],
                &report.pcm,
                frame,
                skip,
                src,
            );
        }
    }

    /// The codec stage: passes through, asks for a codec, replaces the input
    /// by silence where there is none, or pumps. `None` says that the stage is
    /// done.
    fn code(&mut self, mode: Mp3Mode, tried: bool) -> (r: Option<Mp3Action>)
        requires
            old(self).wf(),
            old(self).pipeline.ready,
            mode matches Mp3Mode::Mp3 { bitrate_kbps } ==> bitrate_kbps <= i32::MAX,
        ensures
            final(self).wf(),
            coded(*old(self), *final(self), mode, tried, r),
    {
        match mode {
            Mp3Mode::Passthrough => {
                self.pipeline.pass_internal();
                None
            },
            Mp3Mode::Mp3 { bitrate_kbps } => {
                if !tried && self.needs_codec(bitrate_kbps) {
                    return Some(Mp3Action::OpenCodec(bitrate_kbps));
                }
                if self.codec.is_none() {
                    self.pipeline.mute_internal();
                    return None;
                }
                if self.advance() {
                    Some(Mp3Action::Decode)
                } else {
                    None
                }
            },
        }
    }

    /// One step of a block: takes in what the caller brings, and says what the
    /// caller is to do next. A processor that is not ready leaves the block as
    /// it is.
    pub fn process(
        &mut self,
        block: &mut Vec<Vec<Sample>>,
        n_samples: usize,
        event: Mp3Event,
        mode: Mp3Mode,
    ) -> (r: Mp3Action)
        requires
            old(self).wf(),
            old(self).pipeline.ready ==> block_fits(
                old(block)@,
                old(self).pipeline.channels as nat,
                n_samples as nat,
            ) && mp3_event_fits(event, old(self).pipeline.channels as nat),
            mode matches Mp3Mode::Mp3 { bitrate_kbps } ==> bitrate_kbps <= i32::MAX,
        ensures
            final(self).wf(),
            same_shape(old(block)@, final(block)@),
            final(self).pipeline.same_setup(&old(self).pipeline),
            processed(
                *old(self),
                *final(self),
                old(block)@,
                final(block)@,
                n_samples as nat,
                event,
                mode,
                r,
            ),
    {
        if !self.pipeline.ready {
            return Mp3Action::Block(BlockAction::Done);
        }
        let ghost c0 = *self;
        let mut tried: bool = false;
        match event {
            Mp3Event::Block(e) => {
                let input_side = self.pipeline.take_event(block, n_samples, &e);
                let ghost c1 = *self;
                if !input_side {
                    return Mp3Action::Block(self.pipeline.finish_block(block, n_samples));
                }
                let chunk = self.pipeline.pump_host_to_internal();
                proof {
                    assert(took_event(c0.pipeline, c1.pipeline, old(block)@, n_samples as nat, e));
                    assert(pumped_input(c1.pipeline, self.pipeline, chunk));
                }
                match chunk {
                    Some(chunk) => {
                        return Mp3Action::Block(BlockAction::ResampleInput(chunk));
                    },
                    None => {},
                }
            },
            Mp3Event::CodecTried => {
                tried = true;
            },
            Mp3Event::Decoded(report) => {
                self.accept_decode(&report);
                tried = true;
            },
        }
        let ghost c2 = *self;
        let todo = self.code(mode, tried);
        proof {
            assert(entered(c0, c2, block@, n_samples as nat, event));
            assert(coded_after(c2, *self, mode, event, todo));
        }
        match todo {
            Some(action) => action,
            None => Mp3Action::Block(self.pipeline.finish_block(block, n_samples)),
        }
    }
}

pub open spec fn mp3_event_fits(event: Mp3Event, channels: nat) -> bool {
    match event {
        Mp3Event::Block(e) => event_fits(e, channels),
        Mp3Event::CodecTried => true,
        Mp3Event::Decoded(report) => report.wf(),
    }
}

/// The codec is gone, the queue empty and the pipeline back at its start; a
/// processor that is not ready stays as it is.
pub open spec fn reset_processor(before: Mp3Processor, after: Mp3Processor) -> bool {
    &&& reset_pipeline(before.pipeline, after.pipeline)
    &&& before.pipeline.ready ==> {
        &&& after.dec_input@.len() == 0
        &&& after == (Mp3Processor {
            pipeline: after.pipeline,
            codec: None,
            current_bitrate_kbps: (-1) as i32,
            dec_input: after.dec_input,
            decoding: false,
            ..before
        })
    }
    &&& !before.pipeline.ready ==> after == before
}

/// The processor without a codec, and none to come before the next bitrate.
pub open spec fn without_codec(before: Mp3Processor) -> Mp3Processor {
    Mp3Processor {
        codec: None,
        current_bitrate_kbps: (-1) as i32,
        min_decode_bytes: 0,
        ..before
    }
}

/// The codec is gone; a probe for its successor is at its start, or there will
/// be none.
pub open spec fn begun_codec(
    before: Mp3Processor,
    after: Mp3Processor,
    bitrate_kbps: u32,
    r: Option<RateProbe>,
) -> bool {
    match r {
        None => after == without_codec(before),
        Some(probe) => {
            &&& after == (Mp3Processor { codec: None, ..before })
            &&& exists|bitrate: LameBitrate|
                #[trigger] is_snapped(bitrate_kbps, bitrate) && fresh_encoder(
                    probe.encoder,
                    before.pipeline.channels,
                    bitrate,
                )
            &&& probe.starts(before.pipeline.channels)
        },
    }
}

/// A codec that decodes at `output_hz` has just been opened for a bitrate: a
/// frame of warm-up is to be discarded, and what was in flight at another rate is
/// gone.
pub open spec fn opened_for(
    before: Mp3Processor,
    after: Mp3Processor,
    bitrate_kbps: u32,
    output_hz: u32,
    i2h: Option<BuiltResampler>,
) -> bool {
    &&& after.current_bitrate_kbps == bitrate_kbps
    &&& after.min_decode_bytes == 2 * (nominal_frame_bytes(bitrate_kbps, output_hz) + 1) + 4
    &&& after.samples_to_discard == PREROLL_SAMPLES
    &&& after.dec_input@.len() == 0
    &&& !after.decoding
    &&& output_hz == before.pipeline.decode_rate ==> after.pipeline == before.pipeline
    &&& output_hz != before.pipeline.decode_rate ==> {
        &&& all_hold(after.pipeline.internal_output@, Seq::empty())
        &&& after.pipeline.i2h == (if output_hz == before.pipeline.host_rate {
            None
        } else {
            i2h
        })
        &&& after.pipeline == (ResampledPipeline {
            decode_rate: output_hz,
            i2h: after.pipeline.i2h,
            i2h_chunk: after.pipeline.i2h_chunk,
            internal_output: after.pipeline.internal_output,
            ..before.pipeline
        })
    }
}

/// The codec of `after` is open for the bitrate and rate, or none is.
pub open spec fn finished_codec(
    before: Mp3Processor,
    after: Mp3Processor,
    bitrate_kbps: u32,
    output_hz: u32,
    i2h: Option<BuiltResampler>,
) -> bool {
    match after.codec {
        None => after == without_codec(before),
        Some(codec) => {
            &&& codec.output_hz == output_hz
            &&& exists|bitrate: LameBitrate|
                #[trigger] is_snapped(bitrate_kbps, bitrate) && fresh_encoder(
                    codec.encoder,
                    before.pipeline.channels,
                    bitrate,
                )
            &&& opened_for(before, after, bitrate_kbps, output_hz, i2h)
        },
    }
}

/// `call` feeds the next frame of every channel to the encoder; what comes out
/// joins the bytes pending decode.
pub open spec fn is_encoded(before: Mp3Processor, after: Mp3Processor, call: LameCall) -> bool {
    let channels = before.pipeline.channels;
    &&& call.channels.len() == channels
    &&& forall|ch: int|
        0 <= ch < channels ==> is_staged(
            before.pipeline.internal_input@[ch]@,
            MP3_FRAME_SIZE as nat,
            #[trigger] call.channels[ch],
        )
    &&& call.capacity == MAX_OUTPUT_PER_FRAME
    &&& lame_setup(after.codec->0.encoder) == lame_setup(before.codec->0.encoder)
    &&& lame_calls(after.codec->0.encoder) == lame_calls(before.codec->0.encoder).push(call)
    &&& after.dec_input@ == match call.bytes {
        Some(bytes) if bytes.len() > 0 => fed(before.dec_input@, bytes),
        _ => before.dec_input@,
    }
}

/// One frame was encoded.
pub open spec fn encoded_frame(before: Mp3Processor, after: Mp3Processor) -> bool {
    &&& after == (Mp3Processor {
        pipeline: after.pipeline,
        codec: after.codec,
        dec_input: after.dec_input,
        ..before
    })
    &&& before.codec is Some
    &&& after.codec is Some
    &&& after.codec->0.output_hz == before.codec->0.output_hz
    &&& after.pipeline.only_rings_changed(&before.pipeline, false, true, false, false)
    &&& drained(
        before.pipeline.internal_input@,
        after.pipeline.internal_input@,
        MP3_FRAME_SIZE as nat,
    )
    &&& exists|call: LameCall| #[trigger] is_encoded(before, after, call)
}

/// From place `k` to the next, one more frame is encoded.
pub open spec fn encodes_at(steps: Seq<Mp3Processor>, k: int) -> bool {
    encoded_frame(steps[k], steps[k + 1])
}

/// Each processor is the one before it with one more frame encoded, up to the
/// first that has enough to decode.
pub open spec fn frame_by_frame(steps: Seq<Mp3Processor>) -> bool {
    &&& forall|k: int| 0 <= k < steps.len() - 1 ==> #[trigger] encodes_at(steps, k)
    &&& forall|k: int|
        0 < k < steps.len() - 1 ==> (#[trigger] steps[k]).dec_input@.len()
            < steps[k].min_decode_bytes
}

proof fn lemma_frame_pushed(steps: Seq<Mp3Processor>, next: Mp3Processor)
    requires
        steps.len() > 0,
        frame_by_frame(steps),
        steps.len() > 1 ==> steps.last().dec_input@.len() < steps.last().min_decode_bytes,
        encoded_frame(steps.last(), next),
    ensures
        frame_by_frame(steps.push(next)),
{
    let longer = steps.push(next);
    assert forall|k: int| 0 <= k < longer.len() - 1 implies #[trigger] encodes_at(longer, k) by {
        if k < steps.len() - 1 {
            assert(encodes_at(steps, k));
        } else {
            assert(longer[k] == steps.last());
        }
    }
    assert forall|k: int| 0 < k < longer.len() - 1 implies (#[trigger] longer[k]).dec_input@.len()
        < longer[k].min_decode_bytes by {
        assert(longer[k] == steps[k]);
    }
}

/// `taken` frames went from the codec's input to the encoder.
pub open spec fn took_frames(before: Mp3Processor, after: Mp3Processor, taken: nat) -> bool {
    &&& after == (Mp3Processor {
        pipeline: after.pipeline,
        codec: after.codec,
        dec_input: after.dec_input,
        decoding: after.decoding,
        ..before
    })
    &&& after.codec is Some
    &&& after.codec->0.output_hz == before.codec->0.output_hz
    &&& after.pipeline.only_rings_changed(&before.pipeline, false, true, false, false)
    &&& taken * MP3_FRAME_SIZE <= before.pipeline.internal_input@[0]@.len()
    &&& drained(
        before.pipeline.internal_input@,
        after.pipeline.internal_input@,
        taken * MP3_FRAME_SIZE as nat,
    )
    &&& exists|steps: Seq<Mp3Processor>|
        {
            &&& steps.len() == taken + 1
            &&& steps.first() == (Mp3Processor { decoding: steps.first().decoding, ..before })
            &&& after == (Mp3Processor { decoding: after.decoding, ..steps.last() })
            &&& #[trigger] frame_by_frame(steps)
        }
}

/// Frames were encoded until the decoder has enough, or none is left and it has
/// not.
pub open spec fn advanced(before: Mp3Processor, after: Mp3Processor, r: bool) -> bool {
    let frames = before.pipeline.internal_input@[0]@.len() / MP3_FRAME_SIZE as nat;
    let enough = before.decoding && before.dec_input@.len() >= before.min_decode_bytes;
    &&& after.decoding == r
    &&& enough ==> r && after == before
    &&& r ==> after.dec_input@.len() >= after.min_decode_bytes && exists|taken: nat|
        #[trigger] took_frames(before, after, taken) && (enough || taken >= 1)
    &&& !r ==> took_frames(before, after, frames) && (frames > 0 ==> after.dec_input@.len()
        < after.min_decode_bytes)
}

/// A decoded frame went to the output, less the preroll still to discard.
pub open spec fn played(before: Mp3Processor, after: Mp3Processor, report: DecodeReport) -> bool {
    let skip = before.samples_to_discard - after.samples_to_discard;
    &&& after.samples_to_discard == if before.samples_to_discard < report.samples {
        0
    } else {
        before.samples_to_discard - report.samples
    }
    &&& after.pipeline.only_rings_changed(&before.pipeline, false, false, true, false)
    &&& after.pipeline.internal_output.len() == before.pipeline.internal_output.len()
    &&& forall|ch: int|
        0 <= ch < before.pipeline.channels ==> (#[trigger] after.pipeline.internal_output@[ch])@
            == before.pipeline.internal_output@[ch]@ + frame_channel(
            report.pcm@,
            report.frame(),
            skip as nat,
            played_channel(ch, report.frame()),
        )
}

/// One report of the decoder was taken in.
pub open spec fn accepted(before: Mp3Processor, after: Mp3Processor, report: DecodeReport) -> bool {
    let pre = before.dec_input@.len();
    if report.frame_bytes == 0 || (report.samples == 0 && report.frame_bytes >= pre) {
        after == (Mp3Processor { decoding: false, ..before })
    } else {
        &&& after.dec_input@ == before.dec_input@.skip(
            vstd::math::min(report.frame_bytes as int, pre as int),
        )
        &&& after == (Mp3Processor {
            pipeline: after.pipeline,
            dec_input: after.dec_input,
            samples_to_discard: after.samples_to_discard,
            ..before
        })
        &&& report.samples == 0 ==> after.pipeline == before.pipeline && after.samples_to_discard
            == before.samples_to_discard
        &&& report.samples > 0 ==> played(before, after, report)
    }
}

/// The codec stage of one step.
pub open spec fn coded(
    before: Mp3Processor,
    after: Mp3Processor,
    mode: Mp3Mode,
    tried: bool,
    r: Option<Mp3Action>,
) -> bool {
    match mode {
        Mp3Mode::Passthrough => {
            &&& r is None
            &&& after == (Mp3Processor { pipeline: after.pipeline, ..before })
            &&& passed_internal(before.pipeline, after.pipeline)
        },
        Mp3Mode::Mp3 { bitrate_kbps } => {
            if !tried && before.needs_codec(bitrate_kbps) {
                r == Some(Mp3Action::OpenCodec(bitrate_kbps)) && after == before
            } else if before.codec is None {
                &&& r is None
                &&& after == (Mp3Processor { pipeline: after.pipeline, ..before })
                &&& muted_internal(before.pipeline, after.pipeline)
            } else {
                &&& r == (if after.decoding {
                    Some(Mp3Action::Decode)
                } else {
                    None
                })
                &&& advanced(before, after, after.decoding)
            }
        },
    }
}

/// The codec stage of a step that began with `event`: after a block event an
/// open codec is asked for first.
pub open spec fn coded_after(
    before: Mp3Processor,
    after: Mp3Processor,
    mode: Mp3Mode,
    event: Mp3Event,
    r: Option<Mp3Action>,
) -> bool {
    coded(before, after, mode, !(event is Block), r)
}

/// The processor `c` around another pipeline.
pub open spec fn around(c: Mp3Processor, p: ResampledPipeline) -> Mp3Processor {
    Mp3Processor { pipeline: p, ..c }
}

/// What an event leads to before the codec stage runs.
pub open spec fn entered(
    before: Mp3Processor,
    after: Mp3Processor,
    block: Seq<Vec<Sample>>,
    n: nat,
    event: Mp3Event,
) -> bool {
    match event {
        Mp3Event::Block(e) => {
            &&& !(e is OutputResampled)
            &&& after == around(before, after.pipeline)
            &&& exists|p1: ResampledPipeline|
                #[trigger] took_event(before.pipeline, p1, block, n, e) && pumped_input(
                    p1,
                    after.pipeline,
                    None,
                )
        },
        Mp3Event::CodecTried => after == before,
        Mp3Event::Decoded(report) => accepted(before, after, report),
    }
}

/// One step of a block: an outcome before the codec stage (an untouched
/// block, a chunk to resample), or the codec stage and what follows from it.
pub open spec fn processed(
    before: Mp3Processor,
    after: Mp3Processor,
    block_before: Seq<Vec<Sample>>,
    block_after: Seq<Vec<Sample>>,
    n: nat,
    event: Mp3Event,
    mode: Mp3Mode,
    r: Mp3Action,
) -> bool {
    &&& !before.pipeline.ready ==> {
        &&& r == Mp3Action::Block(BlockAction::Done)
        &&& after == before
        &&& block_after == block_before
    }
    &&& before.pipeline.ready ==> {
        ||| early(before, after, block_before, block_after, n, event, r)
        ||| exists|c2: Mp3Processor, c3: Mp3Processor, todo: Option<Mp3Action>|
            {
                &&& #[trigger] coded_after(c2, c3, mode, event, todo)
                &&& entered(before, c2, block_before, n, event)
                &&& match todo {
                    Some(action) => r == action && after == c3 && block_after == block_before,
                    None => {
                        &&& after == around(c3, after.pipeline)
                        &&& r is Block
                        &&& finished_block(
                            c3.pipeline,
                            after.pipeline,
                            block_before,
                            block_after,
                            n,
                            r->Block_0,
                        )
                    },
                }
            }
    }
}

/// A step that ends before the codec stage.
pub open spec fn early(
    before: Mp3Processor,
    after: Mp3Processor,
    block_before: Seq<Vec<Sample>>,
    block_after: Seq<Vec<Sample>>,
    n: nat,
    event: Mp3Event,
    r: Mp3Action,
) -> bool {
    &&& event is Block
    &&& r is Block
    &&& after == around(before, after.pipeline)
    &&& exists|p1: ResampledPipeline|
        {
            &&& #[trigger] took_event(before.pipeline, p1, block_before, n, event->Block_0)
            &&& if event->Block_0 is OutputResampled {
                finished_block(
                    p1,
                    after.pipeline,
                    block_before,
                    block_after,
                    n,
                    r->Block_0,
                )
            } else {
                &&& r->Block_0 is ResampleInput
                &&& pumped_input(p1, after.pipeline, Some(r->Block_0->ResampleInput_0))
                &&& block_after == block_before
            }
        }
}

impl Default for Mp3Processor {
    fn default() -> (r: Mp3Processor)
        ensures
            r.wf(),
            !r.pipeline.ready,
    {
        Mp3Processor::new()
    }
}

}
