//! LC3, the Bluetooth LE Audio (5.2+) standard, via the `lc3-codec` crate.
//! 10 ms frames at 48 kHz.
//!
//! | Preset    | Channels | kbps/channel | frame bytes/ch |
//! | --------- | -------- | ------------ | -------------- |
//! | Low64     | mono     | 64           | 80             |
//! | High160   | stereo   | 80           | 100            |

use crate::processor::bluetooth::lc3_calls::{
    decode_frame, decoder_channels, encode_frame, encoder_channels, lc3_decoder_calls,
    lc3_encoder_calls, open_decoder, open_encoder, Lc3DecodeCall, Lc3EncodeCall,
};
use crate::processor::bluetooth::link::{allowance, resampler_allowance};
use crate::processor::frames::{is_staged, lemma_rest_rest, stage_channel};
use crate::processor::pipeline::{event_fits, ring_fits, BlockAction, BlockEvent};
use crate::processor::pump::{chunk_at, pump, pumped};
use crate::processor::rings::{
    all_hold, append_block, append_channels, append_silence, channel_head, channels_fit, clear_all,
    drain_channels, drained, drained_first, extended, front, new_rings, overwritten, prefill_all,
    rest, zeros,
};
use crate::sample::{dequantised, half, sum, Sample};
use lc3_codec::decoder::lc3_decoder::Lc3Decoder;
use lc3_codec::encoder::lc3_encoder::Lc3Encoder;
use std::collections::VecDeque;
use vstd::arithmetic::div_mod::*;
use vstd::prelude::*;

verus! {

pub const LC3_RATE: u32 = 48_000;

/// 10 ms at 48 kHz.
pub const LC3_FRAME_SAMPLES: usize = 480;

#[derive(Clone, Copy, PartialEq, Eq, Structural, Debug)]
pub enum Lc3Quality {
    /// 64 kbps mono, LE Audio low-power. Stereo input is summed before encode
    /// and duplicated back to L=R after decode.
    Low64,
    /// 80 kbps x 2 = 160 kbps stereo, LE Audio high-quality.
    High160,
}

impl Lc3Quality {
    pub open spec fn spec_channels(self) -> usize {
        match self {
            Lc3Quality::Low64 => 1,
            Lc3Quality::High160 => 2,
        }
    }

    #[verifier::when_used_as_spec(spec_channels)]
    pub fn channels(self) -> (r: usize)
        ensures
            r == self.spec_channels(),
    {
        match self {
            Lc3Quality::Low64 => 1,
            Lc3Quality::High160 => 2,
        }
    }

    pub open spec fn spec_frame_bytes(self) -> usize {
        match self {
            Lc3Quality::Low64 => 80,
            Lc3Quality::High160 => 100,
        }
    }

    /// The bitrate follows from the output buffer's length: 64 and 80 kbps
    /// over 10 ms.
    #[verifier::when_used_as_spec(spec_frame_bytes)]
    pub fn frame_bytes_per_channel(self) -> (r: usize)
        ensures
            r == self.spec_frame_bytes(),
    {
        match self {
            Lc3Quality::Low64 => 80,
            Lc3Quality::High160 => 100,
        }
    }
}

pub struct Lc3Codec {
    pub encoder: Lc3Encoder<'static>,
    pub decoder: Lc3Decoder<'static>,
    pub quality: Lc3Quality,
    pub sample_rate: u32,
    pub host_channels: usize,
    pub codec_channels: usize,
    /// The host rate is not `LC3_RATE`.
    pub resampled: bool,
    pub h2c_chunk: usize,
    pub c2h_chunk: usize,
    pub host_in: Vec<VecDeque<Sample>>,
    /// Host channels at 48 kHz, on their way in.
    pub to_codec: Vec<VecDeque<Sample>>,
    /// Codec channels at 48 kHz, before encode.
    pub codec_in: Vec<VecDeque<Sample>>,
    pub codec_out: Vec<VecDeque<Sample>>,
    /// Host channels at 48 kHz, on their way out.
    pub to_host: Vec<VecDeque<Sample>>,
    pub host_out: Vec<VecDeque<Sample>>,
}

/// ~25 ms of resampler delay where the host runs at another rate, and 4 LC3
/// frames (40 ms) of warm-up.
pub open spec fn lc3_latency(host_rate: u32) -> int {
    (if host_rate != LC3_RATE {
        allowance(host_rate)
    } else {
        0
    }) + host_rate as int * 4 * 480 / 48_000
}

/// The mean of two channels; where the second runs short, the first alone.
pub open spec fn folded(l: Seq<Sample>, r: Seq<Sample>) -> Seq<Sample> {
    Seq::new(
        l.len(),
        |s: int|
            half(
                sum(
                    l[s],
                    if s < r.len() {
                        r[s]
                    } else {
                        l[s]
                    },
                ),
            ),
    )
}

/// What host channels give codec channel `ch`: the mean of the first two for
/// a mono codec, else the channel itself or the last there is.
pub open spec fn fed_channel(
    host: Seq<VecDeque<Sample>>,
    codec_channels: nat,
    ch: int,
) -> Seq<Sample> {
    if codec_channels == 1 && host.len() >= 2 {
        folded(host[0]@, host[1]@)
    } else {
        host[vstd::math::min(ch, host.len() - 1)]@
    }
}

/// What codec channels give host channel `ch`: the channel itself or the last
/// there is. A mono codec plays the same on every channel.
pub open spec fn played_channel(
    codec: Seq<VecDeque<Sample>>,
    ch: int,
) -> Seq<Sample> {
    front(codec[vstd::math::min(ch, codec.len() - 1)]@, codec[0]@.len())
}

/// What a decoded frame sounds like; silence where there is none.
pub open spec fn heard(decoded: Option<Seq<i16>>) -> Seq<Sample> {
    match decoded {
        Some(pcm) => Seq::new(LC3_FRAME_SAMPLES as nat, |s: int| dequantised(pcm[s])),
        None => zeros(LC3_FRAME_SAMPLES as nat),
    }
}

/// Plays a decoded frame, or silence in its place.
pub fn play_frame(ring: &mut VecDeque<Sample>, decoded: Option<&Vec<i16>>)
    requires
        decoded matches Some(pcm) ==> pcm.len() == LC3_FRAME_SAMPLES,
    ensures
        final(ring)@ == old(ring)@ + heard(
            match decoded {
                Some(pcm) => Some(pcm@),
                None => None,
            },
        ),
{
    match decoded {
        None => append_silence(ring, LC3_FRAME_SAMPLES),
        Some(pcm) => {
            ring.reserve(LC3_FRAME_SAMPLES);
            let ghost before = ring@;
            proof {
                assert(before =~= before + heard(Some(pcm@)).take(0));
            }
            for s in 0..LC3_FRAME_SAMPLES
                invariant
                    pcm.len() == LC3_FRAME_SAMPLES,
                    ring@ == before + heard(Some(pcm@)).take(s as int),
            {
                ring.push_back(Sample::dequantise(pcm[s]));
                proof {
                    assert(ring@ =~= before + heard(Some(pcm@)).take(s + 1));
                }
            }
            proof {
                assert(heard(Some(pcm@)).take(LC3_FRAME_SAMPLES as int) =~= heard(Some(pcm@)));
            }
        },
    }
}

/// Puts the mean of two queues behind a third.
pub fn fold_down(ring: &mut VecDeque<Sample>, l: &VecDeque<Sample>, r: &VecDeque<Sample>)
    ensures
        final(ring)@ == old(ring)@ + folded(l@, r@),
{
    let n: usize = l.len();
    ring.reserve(n);
    let ghost before = ring@;
    proof {
        assert(before =~= before + folded(l@, r@).take(0));
    }
    for s in 0..n
        invariant
            n == l@.len(),
            ring@ == before + folded(l@, r@).take(s as int),
    {
        let other = if s < r.len() {
            r[s]
        } else {
            l[s]
        };
        ring.push_back(l[s].plus(other).halve());
        proof {
            assert(ring@ =~= before + folded(l@, r@).take(s + 1));
        }
    }
    proof {
        assert(folded(l@, r@).take(n as int) =~= folded(l@, r@));
    }
}

/// Puts the first `n` samples of one queue behind another, without taking
/// them.
fn copy_queue(ring: &mut VecDeque<Sample>, src: &VecDeque<Sample>, n: usize)
    requires
        n <= src@.len(),
    ensures
        final(ring)@ == old(ring)@ + src@.take(n as int),
{
    ring.reserve(n);
    let ghost before = ring@;
    proof {
        assert(before =~= before + src@.take(0));
    }
    for s in 0..n
        invariant
            n <= src@.len(),
            ring@ == before + src@.take(s as int),
    {
        ring.push_back(src[s]);
        proof {
            assert(ring@ =~= before + src@.take(s + 1));
        }
    }
}

impl Lc3Codec {
    pub open spec fn wf(&self) -> bool {
        &&& self.shaped()
        &&& all_hold(self.codec_out@, Seq::empty())
    }

    /// `wf`, save for what the codec's output holds while a block is under way.
    pub open spec fn shaped(&self) -> bool {
        &&& 1 <= self.host_channels
        &&& self.codec_channels == self.quality.channels()
        &&& encoder_channels(self.encoder) == self.codec_channels
        &&& decoder_channels(self.decoder) == self.codec_channels
        &&& self.resampled == (self.sample_rate != LC3_RATE)
        &&& self.host_in.len() == self.host_channels
        &&& self.to_codec.len() == self.host_channels
        &&& self.codec_in.len() == self.codec_channels
        &&& self.codec_out.len() == self.codec_channels
        &&& self.to_host.len() == self.host_channels
        &&& self.host_out.len() == self.host_channels
        &&& self.resampled ==> self.h2c_chunk == (if self.sample_rate < 100 {
            1int
        } else {
            self.sample_rate as int / 100
        }) && self.c2h_chunk == 480
    }

    /// Everything but what the queues hold is that of `other`.
    pub open spec fn same_setup(&self, other: &Lc3Codec) -> bool {
        &&& self.quality == other.quality
        &&& self.sample_rate == other.sample_rate
        &&& self.host_channels == other.host_channels
        &&& self.codec_channels == other.codec_channels
        &&& self.resampled == other.resampled
        &&& self.h2c_chunk == other.h2c_chunk
        &&& self.c2h_chunk == other.c2h_chunk
    }

    /// The codec has not been called yet.
    pub open spec fn unused(&self) -> bool {
        &&& lc3_encoder_calls(self.encoder) == Seq::<Lc3EncodeCall>::empty()
        &&& lc3_decoder_calls(self.decoder) == Seq::<Lc3DecodeCall>::empty()
    }

    /// The rings are as `new` leaves them.
    pub open spec fn primed(&self) -> bool {
        &&& all_hold(self.host_in@, Seq::empty())
        &&& all_hold(self.codec_in@, Seq::empty())
        &&& all_hold(self.codec_out@, Seq::empty())
        &&& all_hold(self.host_out@, zeros(lc3_latency(self.sample_rate) as nat))
    }

    pub fn new(
        host_sample_rate: u32,
        host_channels: usize,
        max_block_size: usize,
        quality: Lc3Quality,
    ) -> (r: Lc3Codec)
        requires
            1 <= host_channels,
            ring_fits(max_block_size, host_sample_rate),
            8 * max_block_size + 7680 <= isize::MAX,
        ensures
            r.wf(),
            r.quality == quality,
            r.sample_rate == host_sample_rate,
            r.host_channels == host_channels,
            r.primed(),
            r.unused(),
    {
        let codec_channels = quality.channels();
        let mut codec = Lc3Codec {
            encoder: open_encoder(codec_channels),
            decoder: open_decoder(codec_channels),
            quality,
            sample_rate: host_sample_rate,
            host_channels,
            codec_channels,
            resampled: false,
            h2c_chunk: 0,
            c2h_chunk: 0,
            host_in: Vec::new(),
            to_codec: Vec::new(),
            codec_in: Vec::new(),
            codec_out: Vec::new(),
            to_host: Vec::new(),
            host_out: Vec::new(),
        };
        codec.setup_resamplers(max_block_size);
        codec
    }

    /// Sizes the chunks (~10 ms) and the rings, and pre-fills the output. The
    /// resamplers run at the host's channels: mono fold-down happens *after*
    /// resampling, at the encoder boundary.
    fn setup_resamplers(&mut self, max_block_size: usize)
        requires
            1 <= old(self).host_channels,
            old(self).codec_channels == old(self).quality.channels(),
            encoder_channels(old(self).encoder) == old(self).codec_channels,
            decoder_channels(old(self).decoder) == old(self).codec_channels,
            !old(self).resampled,
            ring_fits(max_block_size, old(self).sample_rate),
            8 * max_block_size + 7680 <= isize::MAX,
        ensures
            final(self).wf(),
            final(self).quality == old(self).quality,
            final(self).sample_rate == old(self).sample_rate,
            final(self).host_channels == old(self).host_channels,
            final(self).primed(),
            final(self).encoder == old(self).encoder,
            final(self).decoder == old(self).decoder,
    {
        let ring_cap: usize = max_block_size + (self.sample_rate as usize / 10) + 1;
        let codec_ring_cap: usize = max_block_size * 2 + 1920;
        if self.sample_rate != LC3_RATE {
            self.resampled = true;
            self.h2c_chunk = chunk_at(self.sample_rate);
            self.c2h_chunk = chunk_at(LC3_RATE);
        }
        self.host_in = new_rings(self.host_channels, ring_cap);
        self.codec_in = new_rings(self.codec_channels, codec_ring_cap);
        self.codec_out = new_rings(self.codec_channels, codec_ring_cap);
        self.host_out = new_rings(self.host_channels, ring_cap);
        let intermediate_cap: usize = if ring_cap > codec_ring_cap {
            ring_cap
        } else {
            codec_ring_cap
        };
        self.to_codec = new_rings(self.host_channels, intermediate_cap);
        self.to_host = new_rings(self.host_channels, intermediate_cap);
        let prefill = Lc3Codec::worst_case_latency_at(self.sample_rate, self.host_channels);
        prefill_all(&mut self.host_out, prefill as usize);
    }

    /// Clears the rings and re-primes the output; the caller resets the
    /// resamplers. The codec keeps its state.
    pub fn reset(&mut self)
        requires
            old(self).wf(),
        ensures
            final(self).wf(),
            final(self).same_setup(&*old(self)),
            final(self).encoder == old(self).encoder,
            final(self).decoder == old(self).decoder,
            final(self).primed(),
    {
        clear_all(&mut self.host_in);
        clear_all(&mut self.codec_in);
        clear_all(&mut self.codec_out);
        let prefill = Lc3Codec::worst_case_latency_at(self.sample_rate, self.host_channels);
        prefill_all(&mut self.host_out, prefill as usize);
    }

    /// Host channels at 48 kHz to codec channels at 48 kHz.
    fn route_in(&mut self)
        requires
            old(self).wf(),
        ensures
            final(self).wf(),
            routed_in(*old(self), *final(self)),
    {
        let ghost before = *self;
        if self.codec_channels == 1 && self.host_channels >= 2 {
            fold_down(&mut self.codec_in[0], &self.to_codec[0], &self.to_codec[1]);
        } else {
            let last: usize = self.host_channels - 1;
            let codec_channels: usize = self.codec_channels;
            for ch in 0..codec_channels
                invariant
                    codec_channels == before.codec_channels,
                    before.wf(),
                    *self == (Lc3Codec { codec_in: self.codec_in, ..before }),
                    self.codec_in.len() == before.codec_in.len(),
                    last == before.host_channels - 1,
                    !(before.codec_channels == 1 && before.host_channels >= 2),
                    forall|c: int|
                        ch <= c < before.codec_channels ==> self.codec_in@[c]
                            == before.codec_in@[c],
                    forall|c: int|
                        0 <= c < ch ==> (#[trigger] self.codec_in@[c])@ == before.codec_in@[c]@
                            + fed_channel(before.to_codec@, before.codec_channels as nat, c),
            {
                let src: usize = if ch < last {
                    ch
                } else {
                    last
                };
                let n: usize = self.to_codec[src].len();
                copy_queue(&mut self.codec_in[ch], &self.to_codec[src], n);
                proof {
                    assert(before.to_codec@[src as int]@.take(n as int)
                        =~= before.to_codec@[src as int]@);
                }
            }
        }
        clear_all(&mut self.to_codec);
    }

    /// Codec channels at 48 kHz to host channels at 48 kHz.
    fn route_out(&mut self)
        requires
            old(self).shaped(),
            same_lengths(old(self).codec_out@),
        ensures
            final(self).wf(),
            routed_out(*old(self), *final(self)),
    {
        let ghost before = *self;
        clear_all(&mut self.to_host);
        let n: usize = self.codec_out[0].len();
        let last: usize = self.codec_channels - 1;
        let host_channels: usize = self.host_channels;
        for ch in 0..host_channels
            invariant
                host_channels == before.host_channels,
                before.shaped(),
                same_lengths(before.codec_out@),
                *self == (Lc3Codec { to_host: self.to_host, ..before }),
                self.to_host.len() == before.host_channels,
                n == before.codec_out@[0]@.len(),
                last == before.codec_channels - 1,
                forall|c: int|
                    ch <= c < before.host_channels ==> (#[trigger] self.to_host@[c])@
                        == Seq::<Sample>::empty(),
                forall|c: int|
                    0 <= c < ch ==> (#[trigger] self.to_host@[c])@ == played_channel(
                        before.codec_out@,
                        c,
                    ),
        {
            let src: usize = if ch < last {
                ch
            } else {
                last
            };
            proof {
                assert(before.codec_out@[src as int]@.len() == n);
            }
            copy_queue(&mut self.to_host[ch], &self.codec_out[src], n);
            proof {
                assert(Seq::<Sample>::empty() + before.codec_out@[src as int]@.take(n as int)
                    =~= before.codec_out@[src as int]@.take(n as int));
            }
        }
        clear_all(&mut self.codec_out);
    }

    /// Runs one frame of one channel through the codec.
    fn code_channel(&mut self, ch: usize)
        requires
            old(self).shaped(),
            ch < old(self).codec_channels,
        ensures
            final(self).shaped(),
            coded_channel(*old(self), *final(self), ch as int),
    {
        let ghost before = *self;
        let pcm = stage_channel(&mut self.codec_in[ch], LC3_FRAME_SAMPLES);
        let mut encoded: Vec<u8> = vec![0u8; self.quality.frame_bytes_per_channel()];
        let mut decoded: Vec<i16> = vec![0i16; LC3_FRAME_SAMPLES];
        let ok = encode_frame(&mut self.encoder, ch, &pcm, &mut encoded) && decode_frame(
            &mut self.decoder,
            16,
            ch,
            &encoded,
            &mut decoded,
        );
        let ghost outcome: Option<Seq<i16>> = if ok {
            Some(decoded@)
        } else {
            None
        };
        if ok {
            play_frame(&mut self.codec_out[ch], Some(&decoded));
        } else {
            play_frame(&mut self.codec_out[ch], None);
        }
        proof {
            assert(is_coded(before, *self, ch as int, pcm@, encoded@, outcome));
        }
    }

    /// Runs one frame of every channel through the codec.
    fn code_round(
        &mut self,
        Ghost(codecs): Ghost<Seq<Lc3Codec>>,
        Ghost(taken): Ghost<nat>,
    ) -> (r: Ghost<Seq<Lc3Codec>>)
        requires
            old(self).shaped(),
            codecs.len() == codecs[0].codec_channels * taken + 1,
            codecs[0].codec_channels == old(self).codec_channels,
            codecs.last() == *old(self),
            channel_by_channel(codecs),
        ensures
            final(self).shaped(),
            only_codec_changed(*old(self), *final(self)),
            drained(old(self).codec_in@, final(self).codec_in@, LC3_FRAME_SAMPLES as nat),
            forall|c: int|
                0 <= c < old(self).codec_channels ==> (#[trigger] final(self).codec_out@[c])@.len()
                    == old(self).codec_out@[c]@.len() + LC3_FRAME_SAMPLES,
            r@.len() == codecs.len() + old(self).codec_channels,
            r@[0] == codecs[0],
            r@.last() == *final(self),
            channel_by_channel(r@),
    {
        let ghost start = *self;
        let ghost mut longer = codecs;
        let codec_channels: usize = self.codec_channels;
        for ch in 0..codec_channels
            invariant
                codec_channels == start.codec_channels,
                self.shaped(),
                start.shaped(),
                only_codec_changed(start, *self),
                codecs.len() == codecs[0].codec_channels * taken + 1,
                codecs[0].codec_channels == codec_channels,
                longer.len() == codecs.len() + ch,
                longer[0] == codecs[0],
                longer.last() == *self,
                channel_by_channel(longer),
                forall|c: int|
                    0 <= c < ch ==> (#[trigger] self.codec_in@[c])@ == rest(
                        start.codec_in@[c]@,
                        LC3_FRAME_SAMPLES as nat,
                    ),
                forall|c: int|
                    ch <= c < start.codec_channels ==> (#[trigger] self.codec_in@[c])@
                        == start.codec_in@[c]@,
                forall|c: int|
                    0 <= c < ch ==> (#[trigger] self.codec_out@[c])@.len()
                        == start.codec_out@[c]@.len() + LC3_FRAME_SAMPLES,
                forall|c: int|
                    ch <= c < start.codec_channels ==> (#[trigger] self.codec_out@[c])@.len()
                        == start.codec_out@[c]@.len(),
        {
            self.code_channel(ch);
            proof {
                lemma_channel_pushed(longer, *self, taken, ch as int);
                longer = longer.push(*self);
            }
        }
        Ghost(longer)
    }

    /// Drains the codec's input one frame at a time.
    fn pump_codec(&mut self)
        requires
            old(self).wf(),
        ensures
            final(self).shaped(),
            pumped_codec(*old(self), *final(self)),
    {
        let ghost before = *self;
        let ghost input = before.codec_in@;
        let ghost mut taken: nat = 0;
        let ghost mut codecs: Seq<Lc3Codec> = seq![before];
        proof {
            assert forall|ch: int| 0 <= ch < input.len() implies (#[trigger] input[ch])@ == rest(
                input[ch]@,
                0,
            ) by {
                assert(input[ch]@ =~= rest(input[ch]@, 0));
            }
        }
        while self.codec_in[0].len() >= LC3_FRAME_SAMPLES
            invariant
                self.shaped(),
                before.wf(),
                input == before.codec_in@,
                only_codec_changed(before, *self),
                taken * LC3_FRAME_SAMPLES <= input[0]@.len(),
                codecs.len() == before.codec_channels * taken + 1,
                codecs.first() == before,
                codecs.last() == *self,
                channel_by_channel(codecs),
                drained(input, self.codec_in@, taken * LC3_FRAME_SAMPLES as nat),
                forall|c: int|
                    0 <= c < before.codec_channels ==> (#[trigger] self.codec_out@[c])@.len()
                        == taken * LC3_FRAME_SAMPLES,
            decreases self.codec_in@[0]@.len(),
        {
            let ghost start = *self;
            let more = self.code_round(Ghost(codecs), Ghost(taken));
            proof {
                codecs = more@;
            }
            proof {
                let n = taken * LC3_FRAME_SAMPLES as nat;
                assert forall|ch: int| 0 <= ch < input.len() implies (
                #[trigger] self.codec_in@[ch])@ == rest(
                    input[ch]@,
                    (taken + 1) * LC3_FRAME_SAMPLES as nat,
                ) by {
                    lemma_rest_rest(input[ch]@, n, LC3_FRAME_SAMPLES as nat);
                    assert(start.codec_in@[ch]@ == rest(input[ch]@, n));
                }
                assert forall|c: int| 0 <= c < before.codec_channels implies (
                #[trigger] self.codec_out@[c])@.len() == (taken + 1) * LC3_FRAME_SAMPLES by {
                    assert(start.codec_out@[c]@.len() == taken * LC3_FRAME_SAMPLES);
                }
                assert(before.codec_channels * (taken + 1) == before.codec_channels * taken
                    + before.codec_channels) by (nonlinear_arith);
                taken = taken + 1;
            }
        }
        proof {
            let n = input[0]@.len() as int;
            assert(self.codec_in@[0]@.len() == n - taken * LC3_FRAME_SAMPLES);
            lemma_fundamental_div_mod_converse(
                n,
                LC3_FRAME_SAMPLES as int,
                taken as int,
                n - taken * LC3_FRAME_SAMPLES,
            );
        }
    }

    /// The codec stage: host channels in, codec, host channels out.
    fn code(&mut self)
        requires
            old(self).wf(),
        ensures
            final(self).wf(),
            coded(*old(self), *final(self)),
    {
        self.route_in();
        let ghost a = *self;
        self.pump_codec();
        let ghost b = *self;
        proof {
            assert(routed_in(*old(self), a) && pumped_codec(a, b));
        }
        self.route_out();
    }

    /// The last stage of a block: pumps the output side, and drains into the
    /// block once no chunk is left to resample. A tail shorter than a chunk is
    /// dropped; at steady state there is none.
    fn finish_block(&mut self, block: &mut Vec<Vec<Sample>>, n: usize) -> (r: BlockAction)
        requires
            old(self).wf(),
            channels_fit(old(block)@, old(self).host_channels as nat, n as nat),
        ensures
            final(self).wf(),
            finished(*old(self), *final(self), old(block)@, final(block)@, n as nat, r),
    {
        let ghost before = *self;
        let chunk = pump(&mut self.to_host, &mut self.host_out, self.resampled, self.c2h_chunk);
        let ghost mid = *self;
        proof {
            assert(pumped_out(before, mid, chunk));
        }
        match chunk {
            Some(chunk) => BlockAction::ResampleOutput(chunk),
            None => {
                clear_all(&mut self.to_host);
                drain_channels(&mut self.host_out, block, n);
                BlockAction::Done
            },
        }
    }

    /// One step of the encode -> decode roundtrip on a block: takes in what
    /// the caller brings, and says what the caller is to do next.
    pub fn process(&mut self, block: &mut Vec<Vec<Sample>>, n: usize, event: BlockEvent) -> (r:
        BlockAction)
        requires
            old(self).wf(),
            channels_fit(old(block)@, old(self).host_channels as nat, n as nat),
            event_fits(event, old(self).host_channels as nat),
        ensures
            final(self).wf(),
            final(self).same_setup(&*old(self)),
            processed(*old(self), *final(self), old(block)@, final(block)@, n as nat, event, r),
    {
        let ghost c0 = *self;
        match &event {
            BlockEvent::OutputResampled { out, produced } => {
                append_block(&mut self.host_out, out, *produced);
                proof {
                    assert(entered(c0, *self, block@, n as nat, event));
                }
                return self.finish_block(block, n);
            },
            BlockEvent::Start => {
                clear_all(&mut self.to_codec);
                append_channels(&mut self.host_in, block, n);
            },
            BlockEvent::InputResampled { out, produced } => {
                append_block(&mut self.to_codec, out, *produced);
            },
        }
        let ghost c1 = *self;
        proof {
            assert(entered(c0, c1, block@, n as nat, event));
        }
        let chunk = pump(&mut self.host_in, &mut self.to_codec, self.resampled, self.h2c_chunk);
        let ghost c2 = *self;
        proof {
            assert(pumped_in(c1, c2, chunk));
        }
        match chunk {
            Some(chunk) => {
                return BlockAction::ResampleInput(chunk);
            },
            None => {},
        }
        self.code();
        proof {
            assert(coded(c2, *self));
        }
        self.finish_block(block, n)
    }

    /// ~25 ms resampler at non-48k hosts + 4 LC3 frames (~40 ms) warm-up.
    pub fn worst_case_latency_at(host_rate: u32, channels: usize) -> (r: u32)
        ensures
            r == lc3_latency(host_rate),
    {
        let resampler_delay: u32 = if host_rate != LC3_RATE {
            resampler_allowance(host_rate)
        } else {
            0
        };
        let codec_delay: u64 = host_rate as u64 * 4 * 480 / 48_000;
        resampler_delay + codec_delay as u32
    }
}

/// All queues hold equally many samples.
pub open spec fn same_lengths(rings: Seq<VecDeque<Sample>>) -> bool {
    forall|ch: int| 0 <= ch < rings.len() ==> (#[trigger] rings[ch])@.len() == rings[0]@.len()
}

/// The host channels went to the codec's input, folded down for a mono codec.
pub open spec fn routed_in(before: Lc3Codec, after: Lc3Codec) -> bool {
    &&& after == (Lc3Codec { to_codec: after.to_codec, codec_in: after.codec_in, ..before })
    &&& all_hold(after.to_codec@, Seq::empty())
    &&& extended(
        before.codec_in@,
        after.codec_in@,
        |ch: int| fed_channel(before.to_codec@, before.codec_channels as nat, ch),
    )
}

/// The codec's output went to the host channels.
pub open spec fn routed_out(before: Lc3Codec, after: Lc3Codec) -> bool {
    &&& after == (Lc3Codec { to_host: after.to_host, codec_out: after.codec_out, ..before })
    &&& forall|ch: int|
        0 <= ch < before.host_channels ==> (#[trigger] after.to_host@[ch])@ == played_channel(
            before.codec_out@,
            ch,
        )
}

/// Only the codec and the queues on its two sides have changed.
pub open spec fn only_codec_changed(before: Lc3Codec, after: Lc3Codec) -> bool {
    after == (Lc3Codec {
        encoder: after.encoder,
        decoder: after.decoder,
        codec_in: after.codec_in,
        codec_out: after.codec_out,
        ..before
    })
}

/// `pcm` is the next frame of channel `ch`; the encoder made `bytes` of it, the
/// decoder was handed those and made `decoded` of them, and that is played.
pub open spec fn is_coded(
    before: Lc3Codec,
    after: Lc3Codec,
    ch: int,
    pcm: Seq<i16>,
    bytes: Seq<u8>,
    decoded: Option<Seq<i16>>,
) -> bool {
    &&& is_staged(before.codec_in@[ch]@, LC3_FRAME_SAMPLES as nat, pcm)
    &&& bytes.len() == before.quality.frame_bytes_per_channel()
    &&& lc3_encoder_calls(after.encoder) == lc3_encoder_calls(before.encoder).push(
        Lc3EncodeCall { channel: ch, samples: pcm, bytes },
    )
    &&& lc3_decoder_calls(after.decoder) == lc3_decoder_calls(before.decoder).push(
        Lc3DecodeCall { channel: ch, bytes, samples: decoded },
    )
    &&& after.codec_out@[ch]@ == before.codec_out@[ch]@ + heard(decoded)
}

/// One frame left channel `ch` of the codec's input, and one came out on the
/// other side.
pub open spec fn coded_channel(before: Lc3Codec, after: Lc3Codec, ch: int) -> bool {
    &&& only_codec_changed(before, after)
    &&& after.codec_in@ == before.codec_in@.update(ch, after.codec_in@[ch])
    &&& after.codec_in@[ch]@ == rest(before.codec_in@[ch]@, LC3_FRAME_SAMPLES as nat)
    &&& after.codec_out@ == before.codec_out@.update(ch, after.codec_out@[ch])
    &&& exists|pcm: Seq<i16>, bytes: Seq<u8>, decoded: Option<Seq<i16>>|
        #[trigger] is_coded(before, after, ch, pcm, bytes, decoded)
}

/// From place `k` to the next, one more frame is coded.
pub open spec fn codes_at(codecs: Seq<Lc3Codec>, k: int) -> bool {
    coded_channel(codecs[k], codecs[k + 1], k % codecs[0].codec_channels as int)
}

/// Each codec is the one before it with one more frame coded, channel after
/// channel.
pub open spec fn channel_by_channel(codecs: Seq<Lc3Codec>) -> bool {
    forall|k: int| 0 <= k < codecs.len() - 1 ==> #[trigger] codes_at(codecs, k)
}

proof fn lemma_channel_pushed(codecs: Seq<Lc3Codec>, next: Lc3Codec, taken: nat, ch: int)
    requires
        codecs.len() == codecs[0].codec_channels * taken + 1 + ch,
        0 <= ch < codecs[0].codec_channels,
        channel_by_channel(codecs),
        coded_channel(codecs.last(), next, ch),
    ensures
        channel_by_channel(codecs.push(next)),
{
    let longer = codecs.push(next);
    let channels = codecs[0].codec_channels as int;
    let at = codecs.len() - 1;
    assert(at == taken * channels + ch) by (nonlinear_arith)
        requires
            at == channels * taken + ch,
    ;
    lemma_fundamental_div_mod_converse(at, channels, taken as int, ch);
    assert forall|k: int| 0 <= k < longer.len() - 1 implies #[trigger] codes_at(longer, k) by {
        if k < at {
            assert(codes_at(codecs, k));
        } else {
            assert(longer[k] == codecs.last());
        }
    }
}

/// Every whole frame went through the codec, channel after channel: as many
/// samples came out of each channel as went in.
pub open spec fn pumped_codec(before: Lc3Codec, after: Lc3Codec) -> bool {
    let whole = (before.codec_in@[0]@.len() / LC3_FRAME_SAMPLES as nat) * LC3_FRAME_SAMPLES as nat;
    &&& only_codec_changed(before, after)
    &&& drained(before.codec_in@, after.codec_in@, whole)
    &&& forall|ch: int|
        0 <= ch < before.codec_channels ==> (#[trigger] after.codec_out@[ch])@.len() == whole
    &&& exists|codecs: Seq<Lc3Codec>|
        {
            &&& codecs.len() == before.codec_channels * (before.codec_in@[0]@.len()
                / LC3_FRAME_SAMPLES as nat) + 1
            &&& codecs.first() == before
            &&& codecs.last() == after
            &&& #[trigger] channel_by_channel(codecs)
        }
}

/// The codec stage of a block.
pub open spec fn coded(before: Lc3Codec, after: Lc3Codec) -> bool {
    exists|a: Lc3Codec, b: Lc3Codec|
        #[trigger] routed_in(before, a) && #[trigger] pumped_codec(a, b) && routed_out(b, after)
}

pub open spec fn pumped_in(
    before: Lc3Codec,
    after: Lc3Codec,
    r: Option<Vec<Vec<Sample>>>,
) -> bool {
    &&& after == (Lc3Codec { host_in: after.host_in, to_codec: after.to_codec, ..before })
    &&& pumped(
        before.host_in@,
        after.host_in@,
        before.to_codec@,
        after.to_codec@,
        before.resampled,
        before.h2c_chunk as nat,
        r,
    )
}

pub open spec fn pumped_out(
    before: Lc3Codec,
    after: Lc3Codec,
    r: Option<Vec<Vec<Sample>>>,
) -> bool {
    &&& after == (Lc3Codec { to_host: after.to_host, host_out: after.host_out, ..before })
    &&& pumped(
        before.to_host@,
        after.to_host@,
        before.host_out@,
        after.host_out@,
        before.resampled,
        before.c2h_chunk as nat,
        r,
    )
}

/// The last stage of a block: a chunk to resample if the output side has one,
/// else the block is filled.
pub open spec fn finished(
    before: Lc3Codec,
    after: Lc3Codec,
    block_before: Seq<Vec<Sample>>,
    block_after: Seq<Vec<Sample>>,
    n: nat,
    r: BlockAction,
) -> bool {
    exists|mid: Lc3Codec, chunk: Option<Vec<Vec<Sample>>>|
        {
            &&& #[trigger] pumped_out(before, mid, chunk)
            &&& match chunk {
                Some(c) => {
                    &&& r == BlockAction::ResampleOutput(c)
                    &&& after == mid
                    &&& block_after == block_before
                },
                None => {
                    &&& r == BlockAction::Done
                    &&& after == (Lc3Codec {
                        to_host: after.to_host,
                        host_out: after.host_out,
                        ..mid
                    })
                    &&& all_hold(after.to_host@, Seq::empty())
                    &&& drained_first(mid.host_out@, after.host_out@, block_before.len(), n)
                    &&& overwritten(
                        block_before,
                        block_after,
                        vstd::math::min(block_before.len() as int, before.host_channels as int) as nat,
                        |ch: int| front(mid.host_out@[ch]@, n),
                    )
                },
            }
        }
}

/// What the caller brought went where it belongs.
pub open spec fn entered(
    before: Lc3Codec,
    after: Lc3Codec,
    block: Seq<Vec<Sample>>,
    n: nat,
    event: BlockEvent,
) -> bool {
    match event {
        BlockEvent::Start => {
            &&& after == (Lc3Codec { host_in: after.host_in, to_codec: after.to_codec, ..before })
            &&& all_hold(after.to_codec@, Seq::empty())
            &&& extended(before.host_in@, after.host_in@, |ch: int| channel_head(block, n, ch))
        },
        BlockEvent::InputResampled { out, produced } => {
            &&& after == (Lc3Codec { to_codec: after.to_codec, ..before })
            &&& extended(
                before.to_codec@,
                after.to_codec@,
                |ch: int| out@[ch]@.take(produced as int),
            )
        },
        BlockEvent::OutputResampled { out, produced } => {
            &&& after == (Lc3Codec { host_out: after.host_out, ..before })
            &&& extended(
                before.host_out@,
                after.host_out@,
                |ch: int| out@[ch]@.take(produced as int),
            )
        },
    }
}

/// One step of a block.
pub open spec fn processed(
    before: Lc3Codec,
    after: Lc3Codec,
    block_before: Seq<Vec<Sample>>,
    block_after: Seq<Vec<Sample>>,
    n: nat,
    event: BlockEvent,
    r: BlockAction,
) -> bool {
    exists|c1: Lc3Codec|
        {
            &&& #[trigger] entered(before, c1, block_before, n, event)
            &&& if event is OutputResampled {
                finished(c1, after, block_before, block_after, n, r)
            } else {
                exists|c2: Lc3Codec, chunk: Option<Vec<Vec<Sample>>>|
                    {
                        &&& #[trigger] pumped_in(c1, c2, chunk)
                        &&& match chunk {
                            Some(c) => {
                                &&& r == BlockAction::ResampleInput(c)
                                &&& after == c2
                                &&& block_after == block_before
                            },
                            None => exists|c3: Lc3Codec|
                                #[trigger] coded(c2, c3) && finished(
                                    c3,
                                    after,
                                    block_before,
                                    block_after,
                                    n,
                                    r,
                                ),
                        }
                    }
            }
        }
}

/// The low-power preset plays the same on every host channel.
pub proof fn law_low64_is_the_same_on_every_channel(
    before: Lc3Codec,
    after: Lc3Codec,
    a: int,
    b: int,
)
    requires
        before.shaped(),
        before.quality == Lc3Quality::Low64,
        routed_out(before, after),
        0 <= a < before.host_channels,
        0 <= b < before.host_channels,
    ensures
        after.to_host@[a]@ == after.to_host@[b]@,
{
    assert(vstd::math::min(a, 0) == vstd::math::min(b, 0));
}

/// On a stereo host the high-quality preset keeps the channels apart: each
/// codec channel is fed from, and plays on, the host channel of its own.
pub proof fn law_high160_keeps_channels_apart(
    before: Lc3Codec,
    fed: Lc3Codec,
    coded: Lc3Codec,
    after: Lc3Codec,
    ch: int,
)
    requires
        before.wf(),
        before.quality == Lc3Quality::High160,
        before.host_channels == 2,
        routed_in(before, fed),
        pumped_codec(fed, coded),
        coded.shaped(),
        routed_out(coded, after),
        0 <= ch < 2,
    ensures
        fed.codec_in@[ch]@ == before.codec_in@[ch]@ + before.to_codec@[ch]@,
        after.to_host@[ch]@ == coded.codec_out@[ch]@,
{
    assert(fed.codec_in@[ch]@ == before.codec_in@[ch]@ + fed_channel(before.to_codec@, 2, ch));
    assert(after.to_host@[ch]@ == played_channel(coded.codec_out@, ch));
    assert(coded.codec_out@[ch]@.len() == coded.codec_out@[0]@.len());
    assert(coded.codec_out@[ch]@.take(coded.codec_out@[ch]@.len() as int)
        =~= coded.codec_out@[ch]@);
}

}
