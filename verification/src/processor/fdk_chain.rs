//! The encode -> decode chain that the three FDK-AAC families share: frame
//! staging, the streaming encoder, the packet decoder, and the hand-over of
//! decoded frames.
//!
//! Always runs at 44.1 kHz internally (matches Spotify / YouTube Music mobile
//! / Apple Music), on interleaved 16-bit PCM. Bitrate changes rebuild the
//! encoder/decoder pair.

use crate::processor::fdk::{
    decode_frame, decoder_calls, encode, encoder_calls, encoder_settings, fill, open_decoder,
    open_encoder, wrote_packet, AacProfile, ChannelLayout, DecodeCall, EncodeCall, EncodeStep,
    EncoderSettings,
};
use crate::processor::frames::{
    frame_channel, lemma_front_rest, lemma_rest_rest, push_frame_channel,
    take_sample, DecodedFrame,
};
use crate::processor::pipeline::{
    block_fits, delay_of, drain_to_i16_interleaved, drained_block, estimated, event_fits, failed_setup,
    finished_block, in_flight, interleaved_value, law_direct_pumps_keep_order,
    lemma_round_trip_estimated, muted_internal, padded, passed_internal, pumped_input, pumped_output,
    reset_pipeline, ring_fits, round_trip,
    took_event, BlockAction, BlockEvent, BuiltResampler, ResampledPipeline,
};
use crate::processor::rings::{drained, front, rest, same_shape};
use crate::sample::{half, quantised, sum, Sample};
use fdk_aac::dec::Decoder;
use fdk_aac::enc::Encoder;
use std::collections::VecDeque;
use vstd::arithmetic::div_mod::*;
use vstd::prelude::*;
use vstd::slice::slice_subrange;

verus! {

pub const AAC_RATE: u32 = 44_100;

/// Generous upper bound for one ADTS packet at 320 kbps stereo.
pub const MAX_PACKET_BYTES: usize = 8192;

/// Bytes the decoder buffers. Each frame it hands out takes at least one.
pub const DECODER_BUFFER_BYTES: usize = 32_768;

/// The value that a frame folded down to one channel has at place `s`: the
/// channels' mean, quantised.
pub open spec fn mono_value(rings: Seq<VecDeque<Sample>>, n: nat, s: int) -> int {
    if rings.len() == 1 {
        quantised(front(rings[0]@, n)[s])
    } else {
        quantised(half(sum(front(rings[0]@, n)[s], front(rings[1]@, n)[s])))
    }
}

/// Sums the channels of the next `n` samples down to one, and quantises.
pub fn stage_mono_frame(rings: &mut Vec<VecDeque<Sample>>, n: usize, pcm: &mut Vec<i16>)
    requires
        old(rings).len() == 1 || old(rings).len() == 2,
        old(pcm).len() >= n,
    ensures
        drained(old(rings)@, final(rings)@, n as nat),
        final(pcm).len() == old(pcm).len(),
        forall|s: int|
            0 <= s < n ==> #[trigger] final(pcm)@[s] == mono_value(old(rings)@, n as nat, s),
        forall|s: int| n <= s < old(pcm).len() ==> #[trigger] final(pcm)@[s] == old(pcm)@[s],
{
    let ghost r0 = rings@;
    let ghost p0 = pcm@;
    proof {
        assert forall|c: int| 0 <= c < r0.len() implies (#[trigger] r0[c])@ == rest(r0[c]@, 0) by {
            assert(r0[c]@ =~= rest(r0[c]@, 0));
        }
    }
    for s in 0..n
        invariant
            rings.len() == r0.len(),
            r0.len() == 1 || r0.len() == 2,
            pcm.len() == p0.len(),
            p0.len() >= n,
            forall|c: int| 0 <= c < r0.len() ==> (#[trigger] rings@[c])@ == rest(r0[c]@, s as nat),
            forall|i: int| 0 <= i < s ==> #[trigger] pcm@[i] == mono_value(r0, n as nat, i),
            forall|i: int| s <= i < p0.len() ==> #[trigger] pcm@[i] == p0[i],
    {
        proof {
            assert forall|c: int| 0 <= c < r0.len() implies rest(
                rest((#[trigger] r0[c])@, s as nat),
                1,
            ) == rest(r0[c]@, (s + 1) as nat) by {
                lemma_rest_rest(r0[c]@, s as nat, 1);
            }
            lemma_front_rest(r0[0]@, s as nat, n as nat);
        }
        let first = take_sample(&mut rings[0]);
        let mixed = if rings.len() == 1 {
            first
        } else {
            proof {
                lemma_front_rest(r0[1]@, s as nat, n as nat);
            }
            let second = take_sample(&mut rings[1]);
            first.plus(second).halve()
        };
        pcm[s] = mixed.quantise();
    }
}

/// The channel of a decoded frame that channel `ch` of the host plays, if any.
pub open spec fn source_channel(
    ch: int,
    host_channels: nat,
    frame: DecodedFrame,
    duplicate_mono: bool,
) -> Option<int> {
    if duplicate_mono && frame.channels == 1 && host_channels > 1 {
        Some(0)
    } else if ch < frame.channels {
        Some(ch)
    } else {
        None
    }
}

/// What a decoded frame adds to channel `ch`, its first `skip` samples left
/// out.
pub open spec fn decoded_tail(
    pcm: Seq<i16>,
    frame: DecodedFrame,
    skip: nat,
    ch: int,
    host_channels: nat,
    duplicate_mono: bool,
) -> Seq<Sample> {
    match source_channel(ch, host_channels, frame, duplicate_mono) {
        Some(src) => frame_channel(pcm, frame, skip, src),
        None => Seq::empty(),
    }
}

/// Hands a decoded frame over to the output queues. The first samples after
/// an encoder start are warm-up garbage: `discard` counts those still to be
/// dropped. With `duplicate_mono` a one-channel frame goes to every channel.
pub fn accept_frame(
    rings: &mut Vec<VecDeque<Sample>>,
    discard: &mut usize,
    pcm: &Vec<i16>,
    frame: DecodedFrame,
    duplicate_mono: bool,
)
    requires
        frame.samples * frame.channels <= pcm.len(),
    ensures
        *final(discard) == if *old(discard) < frame.samples {
            0
        } else {
            *old(discard) - frame.samples
        },
        final(rings).len() == old(rings).len(),
        forall|ch: int|
            0 <= ch < old(rings).len() ==> (#[trigger] final(rings)@[ch])@ == old(rings)@[ch]@
                + decoded_tail(
                pcm@,
                frame,
                (*old(discard) - *final(discard)) as nat,
                ch,
                old(rings).len() as nat,
                duplicate_mono,
            ),
{
    let ghost r0 = rings@;
    let ghost d0 = *discard;
    let skip: usize = if *discard < frame.samples {
        *discard
    } else {
        frame.samples
    };
    *discard = *discard - skip;
    let host_channels: usize = rings.len();
    let copies: bool = duplicate_mono && frame.channels == 1 && host_channels > 1;
    for ch in 0..host_channels
        invariant
            skip == d0 - *discard,
            skip <= frame.samples,
            frame.samples * frame.channels <= pcm.len(),
            host_channels == r0.len(),
            rings.len() == r0.len(),
            copies == (duplicate_mono && frame.channels == 1 && host_channels > 1),
            forall|c: int| ch <= c < r0.len() ==> rings@[c] == r0[c],
            forall|c: int|
                0 <= c < ch ==> (#[trigger] rings@[c])@ == r0[c]@ + decoded_tail(
                    pcm@,
                    frame,
                    skip as nat,
                    c,
                    r0.len(),
                    duplicate_mono,
                ),
    {
        if copies {
            push_frame_channel(&mut rings[ch], pcm, frame, skip, 0);
        } else if ch < frame.channels {
            push_frame_channel(&mut rings[ch], pcm, frame, skip, ch);
        } else {
            proof {
                assert(r0[ch as int]@ =~= r0[ch as int]@ + Seq::<Sample>::empty());
            }
        }
    }
}

/// What to do once the encoder has been called.
#[derive(Clone, Copy, PartialEq, Eq, Structural, Debug)]
pub enum EncodeDecision {
    /// Give up on the rest of the frame.
    Stop,
    /// Offer the samples that are left.
    Feed,
    /// Decode a packet of this many bytes, then offer what is left.
    Decode(usize),
}

/// fdk-aac is streaming: it may take several calls to consume one frame. An
/// error, or a call that did nothing, ends the frame.
pub fn after_encode(step: Option<EncodeStep>) -> (r: EncodeDecision)
    ensures
        r == (match step {
            None => EncodeDecision::Stop,
            Some(s) => if s.output_size > 0 {
                EncodeDecision::Decode(s.output_size)
            } else if s.input_consumed > 0 {
                EncodeDecision::Feed
            } else {
                EncodeDecision::Stop
            },
        }),
{
    match step {
        None => EncodeDecision::Stop,
        Some(s) => {
            if s.output_size > 0 {
                EncodeDecision::Decode(s.output_size)
            } else if s.input_consumed > 0 {
                EncodeDecision::Feed
            } else {
                EncodeDecision::Stop
            }
        },
    }
}

/// An encoder and the decoder that it talks to.
pub struct FdkCodec {
    pub encoder: Encoder,
    pub decoder: Decoder,
}

/// The contents of the queues.
pub open spec fn contents(rings: Seq<VecDeque<Sample>>) -> Seq<Seq<Sample>> {
    Seq::new(rings.len(), |ch: int| rings[ch]@)
}

/// What the decoder's frames go into: the PCM buffer, the output queues, and
/// the count of samples still to be dropped.
pub struct Playing {
    pub pcm: Seq<i16>,
    pub queues: Seq<Seq<Sample>>,
    pub discard: nat,
}

/// A call of the decoder, and the hand-over of its frame if it gave one.
pub open spec fn after_reply(p: Playing, reply: DecodeCall, duplicate_mono: bool) -> Playing {
    match reply {
        DecodeCall::Fill(_) => p,
        DecodeCall::Frame { frame: None, pcm } => Playing { pcm, ..p },
        DecodeCall::Frame { frame: Some(frame), pcm } => {
            let skip = if p.discard < frame.samples {
                p.discard
            } else {
                frame.samples as nat
            };
            Playing {
                pcm,
                queues: Seq::new(
                    p.queues.len(),
                    |ch: int|
                        p.queues[ch] + decoded_tail(
                            pcm,
                            frame,
                            skip,
                            ch,
                            p.queues.len(),
                            duplicate_mono,
                        ),
                ),
                discard: (p.discard - skip) as nat,
            }
        },
    }
}

/// Calls of the decoder, one after another.
pub open spec fn after_replies(
    p: Playing,
    replies: Seq<DecodeCall>,
    duplicate_mono: bool,
) -> Playing
    decreases replies.len(),
{
    if replies.len() == 0 {
        p
    } else {
        after_reply(
            after_replies(p, replies.drop_last(), duplicate_mono),
            replies.last(),
            duplicate_mono,
        )
    }
}

/// The calls of the decoder that one packet leads to: the packet is handed
/// over, and frames are asked for until there is none.
pub open spec fn is_packet_run(packet: Seq<u8>, replies: Seq<DecodeCall>) -> bool {
    &&& replies.len() >= 2
    &&& replies[0] == DecodeCall::Fill(packet)
    &&& forall|i: int|
        1 <= i < replies.len() ==> (#[trigger] replies[i]) is Frame && (i < replies.len() - 1
            ==> replies[i]->frame is Some)
    &&& replies.last()->frame is None || replies.len() == 1 + DECODER_BUFFER_BYTES
}

/// One call of the encoder, and the calls of the decoder that followed it.
pub struct Turn {
    pub call: EncodeCall,
    pub replies: Seq<DecodeCall>,
}

/// Where the coding of a frame stands.
pub struct Coding {
    pub playing: Playing,
    /// Samples that the encoder has taken.
    pub consumed: int,
    /// What is left of the frame is given up.
    pub ended: bool,
}

/// A frame whose coding starts.
pub open spec fn coding_of(
    pcm: Seq<i16>,
    rings: Seq<VecDeque<Sample>>,
    discard: usize,
) -> Coding {
    Coding {
        playing: Playing { pcm, queues: contents(rings), discard: discard as nat },
        consumed: 0,
        ended: false,
    }
}

/// `turn` is what comes next: what is left of the frame is offered, and a packet
/// that comes out goes to the decoder.
pub open spec fn turn_follows(c: Coding, turn: Turn, frame_samples: nat) -> bool {
    &&& !c.ended
    &&& c.consumed < frame_samples
    &&& turn.call.offered == c.playing.pcm.subrange(c.consumed, frame_samples as int)
    &&& turn.call.packet.len() == match turn.call.step {
        Some(step) => step.output_size as int,
        None => 0,
    }
    &&& if turn.call.packet.len() > 0 {
        is_packet_run(turn.call.packet, turn.replies)
    } else {
        turn.replies.len() == 0
    }
}

/// An error ends the frame, and so does a call that did nothing.
pub open spec fn after_turn(c: Coding, turn: Turn, duplicate_mono: bool) -> Coding {
    let playing = after_replies(c.playing, turn.replies, duplicate_mono);
    match turn.call.step {
        None => Coding { playing, ended: true, ..c },
        Some(step) => Coding {
            playing,
            consumed: c.consumed + step.input_consumed,
            ended: step.input_consumed == 0 && step.output_size == 0,
        },
    }
}

/// Turns, one after another.
pub open spec fn after_turns(c: Coding, turns: Seq<Turn>, duplicate_mono: bool) -> Coding
    decreases turns.len(),
{
    if turns.len() == 0 {
        c
    } else {
        after_turn(after_turns(c, turns.drop_last(), duplicate_mono), turns.last(), duplicate_mono)
    }
}

/// Each of the turns is what came next.
pub open spec fn all_follow(
    c: Coding,
    turns: Seq<Turn>,
    frame_samples: nat,
    duplicate_mono: bool,
) -> bool {
    forall|k: int|
        0 <= k < turns.len() ==> turn_follows(
            after_turns(c, turns.take(k), duplicate_mono),
            #[trigger] turns[k],
            frame_samples,
        )
}

/// The encoder's part of the turns.
pub open spec fn calls_of(turns: Seq<Turn>) -> Seq<EncodeCall> {
    Seq::new(turns.len(), |k: int| turns[k].call)
}

/// The decoder's part of the turns.
pub open spec fn replies_of(turns: Seq<Turn>) -> Seq<DecodeCall>
    decreases turns.len(),
{
    if turns.len() == 0 {
        Seq::empty()
    } else {
        replies_of(turns.drop_last()) + turns.last().replies
    }
}

/// What the pair's two handles have answered has grown by the turns.
pub open spec fn answered(before: FdkCodec, after: FdkCodec, turns: Seq<Turn>) -> bool {
    &&& encoder_settings(after.encoder) == encoder_settings(before.encoder)
    &&& encoder_calls(after.encoder) == encoder_calls(before.encoder) + calls_of(turns)
    &&& decoder_calls(after.decoder) == decoder_calls(before.decoder) + replies_of(turns)
}

/// The turns code a frame of `frame_samples` values to its end.
pub open spec fn codes_frame(
    before: FdkCodec,
    after: FdkCodec,
    start: Coding,
    end: Playing,
    frame_samples: nat,
    duplicate_mono: bool,
    turns: Seq<Turn>,
) -> bool {
    let c = after_turns(start, turns, duplicate_mono);
    &&& all_follow(start, turns, frame_samples, duplicate_mono)
    &&& c.ended || c.consumed >= frame_samples
    &&& c.playing == end
    &&& answered(before, after, turns)
}

/// The bytes handed to the decoder.
pub open spec fn filled(replies: Seq<DecodeCall>) -> Seq<u8>
    decreases replies.len(),
{
    if replies.len() == 0 {
        Seq::empty()
    } else {
        let earlier = filled(replies.drop_last());
        match replies.last() {
            DecodeCall::Fill(bytes) => earlier + bytes,
            _ => earlier,
        }
    }
}

/// The bytes that the encoder wrote.
pub open spec fn written(calls: Seq<EncodeCall>) -> Seq<u8>
    decreases calls.len(),
{
    if calls.len() == 0 {
        Seq::empty()
    } else {
        written(calls.drop_last()) + calls.last().packet
    }
}

proof fn lemma_filled_joins(a: Seq<DecodeCall>, b: Seq<DecodeCall>)
    ensures
        filled(a + b) == filled(a) + filled(b),
    decreases b.len(),
{
    if b.len() == 0 {
        assert(a + b =~= a);
        assert(filled(a) + filled(b) =~= filled(a));
    } else {
        lemma_filled_joins(a, b.drop_last());
        assert((a + b).drop_last() =~= a + b.drop_last());
        assert(filled(a + b) =~= filled(a) + filled(b));
    }
}

proof fn lemma_run_fills_packet(packet: Seq<u8>, replies: Seq<DecodeCall>, n: nat)
    requires
        is_packet_run(packet, replies),
        1 <= n <= replies.len(),
    ensures
        filled(replies.take(n as int)) == packet,
    decreases n,
{
    let some = replies.take(n as int);
    assert(some.drop_last() =~= replies.take(n - 1));
    assert(some.last() == replies[n - 1]);
    if n == 1 {
        assert(filled(some.drop_last()) == Seq::<u8>::empty());
        assert(filled(some) =~= packet);
    } else {
        lemma_run_fills_packet(packet, replies, (n - 1) as nat);
        assert(replies[n - 1] is Frame);
    }
}

/// Every byte that the encoder wrote while a frame was coded went to the
/// decoder, in order and once.
pub proof fn law_packets_reach_the_decoder(
    start: Coding,
    turns: Seq<Turn>,
    frame_samples: nat,
    duplicate_mono: bool,
)
    requires
        all_follow(start, turns, frame_samples, duplicate_mono),
    ensures
        filled(replies_of(turns)) == written(calls_of(turns)),
    decreases turns.len(),
{
    let calls = calls_of(turns);
    if turns.len() > 0 {
        let earlier = turns.drop_last();
        let turn = turns.last();
        assert(calls.drop_last() =~= calls_of(earlier));
        assert forall|k: int| 0 <= k < earlier.len() implies turn_follows(
            after_turns(start, earlier.take(k), duplicate_mono),
            #[trigger] earlier[k],
            frame_samples,
        ) by {
            assert(earlier.take(k) =~= turns.take(k));
            assert(earlier[k] == turns[k]);
        }
        law_packets_reach_the_decoder(start, earlier, frame_samples, duplicate_mono);
        lemma_filled_joins(replies_of(earlier), turn.replies);
        assert(turn == turns[turns.len() - 1]);
        assert(calls[turns.len() - 1] == turn.call);
        if turn.call.packet.len() > 0 {
            lemma_run_fills_packet(turn.call.packet, turn.replies, turn.replies.len());
            assert(turn.replies.take(turn.replies.len() as int) =~= turn.replies);
        } else {
            assert(turn.replies =~= Seq::<DecodeCall>::empty());
            assert(turn.call.packet =~= Seq::<u8>::empty());
        }
    }
}

proof fn lemma_replies_only_append(
    p: Playing,
    replies: Seq<DecodeCall>,
    duplicate_mono: bool,
    ch: int,
)
    requires
        0 <= ch < p.queues.len(),
    ensures
        after_replies(p, replies, duplicate_mono).queues.len() == p.queues.len(),
        p.queues[ch].is_prefix_of(after_replies(p, replies, duplicate_mono).queues[ch]),
        after_replies(p, replies, duplicate_mono).discard <= p.discard,
    decreases replies.len(),
{
    if replies.len() > 0 {
        lemma_replies_only_append(p, replies.drop_last(), duplicate_mono, ch);
    }
}

/// Coding a frame never takes back what has come out already, and never raises
/// the count of samples still to be dropped.
pub proof fn law_coding_only_appends(
    start: Coding,
    turns: Seq<Turn>,
    duplicate_mono: bool,
    ch: int,
)
    requires
        0 <= ch < start.playing.queues.len(),
    ensures
        after_turns(start, turns, duplicate_mono).playing.queues.len()
            == start.playing.queues.len(),
        start.playing.queues[ch].is_prefix_of(
            after_turns(start, turns, duplicate_mono).playing.queues[ch],
        ),
        after_turns(start, turns, duplicate_mono).playing.discard <= start.playing.discard,
    decreases turns.len(),
{
    if turns.len() > 0 {
        law_coding_only_appends(start, turns.drop_last(), duplicate_mono, ch);
        lemma_replies_only_append(
            after_turns(start, turns.drop_last(), duplicate_mono).playing,
            turns.last().replies,
            duplicate_mono,
            ch,
        );
    }
}

proof fn lemma_after_turns_push(c: Coding, turns: Seq<Turn>, turn: Turn, duplicate_mono: bool)
    ensures
        after_turns(c, turns.push(turn), duplicate_mono) == after_turn(
            after_turns(c, turns, duplicate_mono),
            turn,
            duplicate_mono,
        ),
        calls_of(turns.push(turn)) == calls_of(turns).push(turn.call),
        replies_of(turns.push(turn)) == replies_of(turns) + turn.replies,
{
    assert(turns.push(turn).drop_last() =~= turns);
    assert(calls_of(turns.push(turn)) =~= calls_of(turns).push(turn.call));
}

proof fn lemma_all_follow_push(
    c: Coding,
    turns: Seq<Turn>,
    turn: Turn,
    frame_samples: nat,
    duplicate_mono: bool,
)
    requires
        all_follow(c, turns, frame_samples, duplicate_mono),
        turn_follows(after_turns(c, turns, duplicate_mono), turn, frame_samples),
    ensures
        all_follow(c, turns.push(turn), frame_samples, duplicate_mono),
{
    let longer = turns.push(turn);
    assert forall|k: int| 0 <= k < longer.len() implies turn_follows(
        after_turns(c, longer.take(k), duplicate_mono),
        #[trigger] longer[k],
        frame_samples,
    ) by {
        if k < turns.len() {
            assert(longer.take(k) =~= turns.take(k));
            assert(longer[k] == turns[k]);
        } else {
            assert(longer.take(k) =~= turns);
        }
    }
}

impl FdkCodec {
    /// Opens the pair; `None` where the encoder refuses the settings.
    fn new(settings: EncoderSettings) -> (r: Option<FdkCodec>)
        ensures
            r matches Some(codec) ==> fresh_codec(codec, settings),
    {
        FdkCodec::around(open_encoder(settings))
    }

    /// The pair around what FDK-AAC gave: an encoder gets a fresh decoder.
    pub fn around(encoder: Option<Encoder>) -> (r: Option<FdkCodec>)
        ensures
            match encoder {
                Some(encoder) => r is Some && r->0.encoder == encoder && decoder_calls(
                    r->0.decoder,
                ) == Seq::<DecodeCall>::empty(),
                None => r is None,
            },
    {
        match encoder {
            Some(encoder) => Some(FdkCodec { encoder, decoder: open_decoder() }),
            None => None,
        }
    }

    /// Hands a packet to the decoder and takes out every frame that it
    /// completes.
    fn decode_packet(
        &mut self,
        packet: &[u8],
        pcm: &mut Vec<i16>,
        rings: &mut Vec<VecDeque<Sample>>,
        discard: &mut usize,
        duplicate_mono: bool,
    ) -> (r: Ghost<Seq<DecodeCall>>)
        requires
            packet@.len() <= u32::MAX,
            old(pcm).len() <= i32::MAX,
        ensures
            final(pcm).len() == old(pcm).len(),
            final(rings).len() == old(rings).len(),
            is_packet_run(packet@, r@),
            final(self).encoder == old(self).encoder,
            decoder_calls(final(self).decoder) == decoder_calls(old(self).decoder) + r@,
            after_replies(
                Playing {
                    pcm: old(pcm)@,
                    queues: contents(old(rings)@),
                    discard: *old(discard) as nat,
                },
                r@,
                duplicate_mono,
            ) == (Playing {
                pcm: final(pcm)@,
                queues: contents(final(rings)@),
                discard: *final(discard) as nat,
            }),
    {
        let ghost start = Playing {
            pcm: pcm@,
            queues: contents(rings@),
            discard: *discard as nat,
        };
        let ghost len = pcm.len();
        let ghost count = rings.len();
        let ghost calls = decoder_calls(self.decoder);
        let ghost encoder = self.encoder;
        let _ = fill(&mut self.decoder, packet);
        let ghost mut replies: Seq<DecodeCall> = seq![DecodeCall::Fill(packet@)];
        proof {
            assert(replies.drop_last() =~= Seq::<DecodeCall>::empty());
            assert(after_replies(start, replies, duplicate_mono) == start) by {
                reveal_with_fuel(after_replies, 2);
            }
            assert(decoder_calls(self.decoder) =~= calls + replies);
        }
        let mut frames: usize = 0;
        let mut more: bool = true;
        while more && frames < DECODER_BUFFER_BYTES
            invariant
                frames <= DECODER_BUFFER_BYTES,
                pcm.len() == len,
                len <= i32::MAX,
                rings.len() == count,
                self.encoder == encoder,
                replies.len() == frames + 1,
                replies[0] == DecodeCall::Fill(packet@),
                forall|i: int|
                    1 <= i < replies.len() ==> (#[trigger] replies[i]) is Frame && (i
                        < replies.len() - 1 ==> replies[i]->frame is Some),
                frames > 0 ==> more == (replies.last()->frame is Some),
                frames == 0 ==> more,
                decoder_calls(self.decoder) == calls + replies,
                after_replies(start, replies, duplicate_mono) == (Playing {
                    pcm: pcm@,
                    queues: contents(rings@),
                    discard: *discard as nat,
                }),
            decreases DECODER_BUFFER_BYTES - frames,
        {
            let ghost before = rings@;
            let ghost dropped = *discard;
            let ghost earlier = replies;
            let got = decode_frame(&mut self.decoder, pcm);
            proof {
                replies = replies.push(DecodeCall::Frame { frame: got, pcm: pcm@ });
                assert(replies.drop_last() =~= earlier);
                assert(calls + replies =~= (calls + earlier).push(replies.last()));
            }
            match got {
                Some(frame) => {
                    accept_frame(rings, discard, pcm, frame, duplicate_mono);
                    proof {
                        let p = after_replies(start, earlier, duplicate_mono);
                        assert(contents(rings@) =~= after_reply(
                            p,
                            replies.last(),
                            duplicate_mono,
                        ).queues);
                    }
                },
                None => {
                    more = false;
                },
            }
            frames = frames + 1;
        }
        Ghost(replies)
    }

    /// Runs one staged frame of `frame_samples` values through the encoder,
    /// and each packet it gives through the decoder.
    fn code_frame(
        &mut self,
        frame_samples: usize,
        pcm: &mut Vec<i16>,
        packet: &mut Vec<u8>,
        rings: &mut Vec<VecDeque<Sample>>,
        discard: &mut usize,
        duplicate_mono: bool,
    ) -> (r: Ghost<Seq<Turn>>)
        requires
            frame_samples <= old(pcm).len() <= i32::MAX,
            old(packet).len() <= i32::MAX,
        ensures
            final(pcm).len() == old(pcm).len(),
            final(packet).len() == old(packet).len(),
            final(rings).len() == old(rings).len(),
            codes_frame(
                *old(self),
                *final(self),
                coding_of(old(pcm)@, old(rings)@, *old(discard)),
                coding_of(final(pcm)@, final(rings)@, *final(discard)).playing,
                frame_samples as nat,
                duplicate_mono,
                r@,
            ),
    {
        let ghost start = coding_of(pcm@, rings@, *discard);
        let ghost codec = *self;
        let ghost pcm_len = pcm.len();
        let ghost packet_len = packet.len();
        let ghost count = rings.len();
        let ghost mut turns: Seq<Turn> = Seq::empty();
        let mut consumed: usize = 0;
        // The last call wrote without taking anything: the next one cannot.
        let mut stalled: bool = false;
        let mut ended: bool = false;
        proof {
            assert(calls_of(turns) =~= Seq::<EncodeCall>::empty());
            assert(encoder_calls(self.encoder) =~= encoder_calls(codec.encoder) + calls_of(turns));
            assert(decoder_calls(self.decoder) =~= decoder_calls(codec.decoder) + replies_of(
                turns,
            ));
        }
        while !ended && consumed < frame_samples
            invariant
                consumed <= pcm_len,
                frame_samples <= pcm_len <= i32::MAX,
                pcm.len() == pcm_len,
                packet.len() == packet_len,
                packet_len <= i32::MAX,
                rings.len() == count,
                        all_follow(start, turns, frame_samples as nat, duplicate_mono),
                answered(codec, *self, turns),
                ended == after_turns(start, turns, duplicate_mono).ended,
                !ended ==> consumed == after_turns(start, turns, duplicate_mono).consumed,
                stalled ==> wrote_packet(encoder_calls(self.encoder)),
                consumed <= frame_samples,
                after_turns(start, turns, duplicate_mono).playing == coding_of(
                    pcm@,
                    rings@,
                    *discard,
                ).playing,
            decreases
                    (if ended {
                        0int
                    } else {
                        1int
                    }),
                    pcm_len - consumed,
                    (if stalled {
                        0int
                    } else {
                        1int
                    }),
        {
            let ghost c0 = after_turns(start, turns, duplicate_mono);
            let ghost earlier = turns;
            let ghost mid = *self;
            let offered = slice_subrange(pcm.as_slice(), consumed, frame_samples);
            proof {
                assert(offered@ =~= pcm@.subrange(consumed as int, frame_samples as int));
            }
            let step = encode(&mut self.encoder, offered, packet);
            let ghost call = encoder_calls(self.encoder).last();
            let ghost mut replies: Seq<DecodeCall> = Seq::empty();
            let taken: usize = match step {
                Some(s) => s.input_consumed,
                None => 0,
            };
            let decision = after_encode(step);
            if let EncodeDecision::Decode(len) = decision {
                let bytes = slice_subrange(packet.as_slice(), 0, len);
                proof {
                    assert(bytes@ =~= call.packet);
                }
                let run = self.decode_packet(bytes, pcm, rings, discard, duplicate_mono);
                proof {
                    replies = run@;
                }
            }
            proof {
                let turn = Turn { call, replies };
                assert(call.step == step);
                assert(turn_follows(c0, turn, frame_samples as nat));
                lemma_all_follow_push(start, earlier, turn, frame_samples as nat, duplicate_mono);
                lemma_after_turns_push(start, earlier, turn, duplicate_mono);
                turns = earlier.push(turn);
                assert(encoder_calls(self.encoder) =~= encoder_calls(codec.encoder) + calls_of(
                    turns,
                ));
                assert(decoder_calls(self.decoder) =~= decoder_calls(codec.decoder) + replies_of(
                    turns,
                ));
            }
            ended = match decision {
                EncodeDecision::Stop => true,
                _ => false,
            };
            stalled = taken == 0 && !ended;
            consumed = consumed + taken;
        }
        Ghost(turns)
    }
}

/// A pair that has just been opened.
pub open spec fn fresh_codec(codec: FdkCodec, settings: EncoderSettings) -> bool {
    &&& encoder_settings(codec.encoder) == settings
    &&& encoder_calls(codec.encoder) == Seq::<EncodeCall>::empty()
    &&& decoder_calls(codec.decoder) == Seq::<DecodeCall>::empty()
}

/// The three stream families and what sets them apart.
#[derive(Clone, Copy, PartialEq, Eq, Structural, Debug)]
pub enum FdkFamily {
    AacLc,
    HeAacV1,
    HeAacV2,
}

impl FdkFamily {
    pub open spec fn spec_frame_size(self) -> usize {
        match self {
            FdkFamily::AacLc => 1024,
            FdkFamily::HeAacV1 => 2048,
            FdkFamily::HeAacV2 => 2048,
        }
    }

    /// Samples per channel of one frame.
    #[verifier::when_used_as_spec(spec_frame_size)]
    pub fn frame_size(self) -> (r: usize)
        ensures
            r == self.spec_frame_size(),
    {
        match self {
            FdkFamily::AacLc => 1024,
            FdkFamily::HeAacV1 => 2048,
            FdkFamily::HeAacV2 => 2048,
        }
    }

    pub open spec fn spec_roundtrip(self) -> u32 {
        match self {
            FdkFamily::AacLc => 4096,
            FdkFamily::HeAacV1 => 10_240,
            FdkFamily::HeAacV2 => 12_288,
        }
    }

    /// Samples at the internal rate from input to first usable output.
    /// AAC-LC: the encoder needs ~2 frames in for its first packet
    /// (lookahead), the decoder needs 2 packets to start, the first frame is
    /// MDCT warm-up garbage: 4 frames. Band replication adds one, parametric
    /// stereo another.
    #[verifier::when_used_as_spec(spec_roundtrip)]
    pub fn roundtrip(self) -> (r: u32)
        ensures
            r == self.spec_roundtrip(),
    {
        match self {
            FdkFamily::AacLc => 4 * 1024,
            FdkFamily::HeAacV1 => 5 * 2048,
            FdkFamily::HeAacV2 => 6 * 2048,
        }
    }

    pub open spec fn spec_profile(self, channels: usize) -> AacProfile {
        match self {
            FdkFamily::AacLc => AacProfile::LowComplexity,
            FdkFamily::HeAacV1 => AacProfile::HighEfficiency,
            FdkFamily::HeAacV2 => if channels == 1 {
                AacProfile::HighEfficiency
            } else {
                AacProfile::HighEfficiencyV2
            },
        }
    }

    /// Parametric stereo only makes sense for stereo input; HE-AAC v2 falls
    /// back to v1 for mono.
    #[verifier::when_used_as_spec(spec_profile)]
    pub fn profile(self, channels: usize) -> (r: AacProfile)
        ensures
            r == self.spec_profile(channels),
    {
        match self {
            FdkFamily::AacLc => AacProfile::LowComplexity,
            FdkFamily::HeAacV1 => AacProfile::HighEfficiency,
            FdkFamily::HeAacV2 => if channels == 1 {
                AacProfile::HighEfficiency
            } else {
                AacProfile::HighEfficiencyV2
            },
        }
    }

    pub open spec fn spec_settings(self, channels: usize, bitrate_kbps: u32) -> EncoderSettings {
        EncoderSettings {
            bitrate_bps: (bitrate_kbps * 1000) as u32,
            sample_rate: AAC_RATE,
            layout: if channels == 1 {
                ChannelLayout::Mono
            } else {
                ChannelLayout::Stereo
            },
            profile: self.profile(channels),
        }
    }

    /// Encoder settings for a bitrate and a number of encoded channels.
    pub fn settings(self, channels: usize, bitrate_kbps: u32) -> (r: EncoderSettings)
        requires
            bitrate_kbps * 1000 <= u32::MAX,
        ensures
            r == self.spec_settings(channels, bitrate_kbps),
    {
        EncoderSettings {
            bitrate_bps: bitrate_kbps * 1000,
            sample_rate: AAC_RATE,
            layout: if channels == 1 {
                ChannelLayout::Mono
            } else {
                ChannelLayout::Stereo
            },
            profile: self.profile(channels),
        }
    }
}

/// What a chain does with the samples at its codec's input.
#[derive(Clone, Copy, PartialEq, Eq, Structural, Debug)]
pub enum ChainMode {
    Passthrough,
    /// `mono` forces one-channel encode regardless of host channels.
    Coded { bitrate_kbps: u32, mono: bool },
}

/// One FDK-AAC family behind a resampled pipeline.
pub struct FdkChain {
    pub family: FdkFamily,
    pub pipeline: ResampledPipeline,
    /// `ensure_codec` keys on (bitrate, mono); switching either rebuilds.
    pub current_bitrate_kbps: i32,
    pub current_mono: bool,
    pub codec: Option<FdkCodec>,
    pub pcm_i16: Vec<i16>,
    pub packet: Vec<u8>,
    pub samples_to_discard: usize,
}

/// The resamplers' delays leave the latency of `family` in range.
pub open spec fn chain_latency_fits(
    family: FdkFamily,
    host_rate: u32,
    h2i: Option<BuiltResampler>,
    i2h: Option<BuiltResampler>,
) -> bool {
    &&& delay_of(host_rate, AAC_RATE, h2i) + family.roundtrip() <= u32::MAX
    &&& chain_latency(family, host_rate, h2i, i2h) <= u32::MAX
}

/// Host-rate latency of `family`.
pub open spec fn chain_latency(
    family: FdkFamily,
    host_rate: u32,
    h2i: Option<BuiltResampler>,
    i2h: Option<BuiltResampler>,
) -> int {
    estimated(host_rate, AAC_RATE, AAC_RATE, family.roundtrip(), h2i, i2h)
}

impl FdkChain {
    pub open spec fn wf(&self) -> bool {
        &&& self.pipeline.wf()
        &&& self.pipeline.ready ==> {
            &&& self.pipeline.channels == 1 || self.pipeline.channels == 2
            &&& self.pcm_i16.len() == self.family.frame_size() * self.pipeline.channels
            &&& self.packet.len() == MAX_PACKET_BYTES
        }
    }

    /// No codec is open, and the next call of `ensure_codec` opens one.
    pub open spec fn idle(&self) -> bool {
        &&& self.codec is None
        &&& self.current_bitrate_kbps == -1
        &&& !self.current_mono
    }

    /// Values in one staged frame.
    pub open spec fn frame_values(&self) -> nat {
        if self.current_mono {
            self.family.frame_size() as nat
        } else {
            self.family.frame_size() as nat * self.pipeline.channels as nat
        }
    }

    /// A one-channel frame goes to every channel of the host.
    pub open spec fn duplicates_mono(&self) -> bool {
        self.family is AacLc
    }

    pub fn new(family: FdkFamily) -> (r: FdkChain)
        ensures
            r.wf(),
            r.family == family,
            !r.pipeline.ready,
            r.pipeline.channels == 2,
            r.idle(),
            r.samples_to_discard == 0,
    {
        FdkChain {
            family,
            pipeline: ResampledPipeline::new(),
            current_bitrate_kbps: -1,
            current_mono: false,
            codec: None,
            pcm_i16: Vec::new(),
            packet: Vec::new(),
            samples_to_discard: 0,
        }
    }

    /// Sets the chain up for a host. Only mono and stereo are supported: any
    /// other channel count leaves everything as it was.
    pub fn initialize(
        &mut self,
        sample_rate: u32,
        channels: usize,
        max_block_size: usize,
        h2i: Option<BuiltResampler>,
        i2h: Option<BuiltResampler>,
    )
        requires
            old(self).wf(),
            ring_fits(max_block_size, sample_rate),
            chain_latency_fits(old(self).family, sample_rate, h2i, i2h),
        ensures
            final(self).wf(),
            final(self).family == old(self).family,
            channels != 1 && channels != 2 ==> *final(self) == *old(self),
            channels == 1 || channels == 2 ==> {
                &&& final(self).idle()
                &&& final(self).samples_to_discard == old(self).samples_to_discard
                &&& final(self).pipeline.host_rate == sample_rate
                &&& final(self).pipeline.channels == channels
                &&& final(self).pipeline.ready == (sample_rate == AAC_RATE || (h2i is Some
                    && i2h is Some))
                &&& !final(self).pipeline.ready ==> failed_setup(
                    old(self).pipeline,
                    final(self).pipeline,
                    sample_rate,
                    channels,
                    AAC_RATE,
                    AAC_RATE,
                    h2i,
                )
                &&& final(self).pipeline.ready ==> {
                    &&& final(self).pipeline.latency_host_samples == chain_latency(
                        old(self).family,
                        sample_rate,
                        h2i,
                        i2h,
                    )
                    &&& final(self).pipeline.primed()
                    &&& final(self).pipeline.encode_rate == AAC_RATE
                    &&& final(self).pipeline.decode_rate == AAC_RATE
                    &&& final(self).pipeline.set_up_for(
                        sample_rate,
                        channels,
                        AAC_RATE,
                        AAC_RATE,
                        h2i,
                        i2h,
                    )
                }
            },
    {
        if channels != 1 && channels != 2 {
            return;
        }
        self.current_bitrate_kbps = -1;
        self.current_mono = false;
        self.codec = None;
        if !self.pipeline.setup(
            sample_rate,
            channels,
            max_block_size,
            AAC_RATE,
            AAC_RATE,
            h2i,
            i2h,
        ) {
            return;
        }
        self.pcm_i16 = vec![0i16; self.family.frame_size() * channels];
        self.packet = vec![0u8; MAX_PACKET_BYTES];
        proof {
            lemma_round_trip_estimated(
                self.pipeline,
                AAC_RATE,
                self.family.roundtrip(),
                h2i,
                i2h,
            );
        }
        let latency = self.compute_natural_latency();
        self.pipeline.set_latency(latency);
    }

    fn compute_natural_latency(&self) -> (r: u32)
        requires
            self.pipeline.wf(),
            self.pipeline.encode_rate == AAC_RATE,
            self.pipeline.h2i_pair().1 + self.family.roundtrip() <= u32::MAX,
            round_trip(self.pipeline, self.family.roundtrip() as int) <= u32::MAX,
        ensures
            r == round_trip(self.pipeline, self.family.roundtrip() as int),
    {
        self.pipeline.round_trip_latency(self.family.roundtrip())
    }

    pub fn pad_output_to(&mut self, target: u32)
        requires
            old(self).wf(),
        ensures
            final(self).wf(),
            *final(self) == (FdkChain { pipeline: final(self).pipeline, ..*old(self) }),
            padded(old(self).pipeline, final(self).pipeline, target),
    {
        self.pipeline.pad_output_to(target);
    }

    /// Static estimate, from the resamplers alone.
    pub fn worst_case_latency_at(
        family: FdkFamily,
        host_rate: u32,
        channels: usize,
        h2i: Option<BuiltResampler>,
        i2h: Option<BuiltResampler>,
    ) -> (r: u32)
        requires
            ring_fits(1, host_rate),
            chain_latency_fits(family, host_rate, h2i, i2h),
        ensures
            r == chain_latency(family, host_rate, h2i, i2h),
    {
        ResampledPipeline::estimate_latency(
            host_rate,
            channels,
            AAC_RATE,
            AAC_RATE,
            family.roundtrip(),
            h2i,
            i2h,
        )
    }

    pub fn reset(&mut self)
        requires
            old(self).wf(),
        ensures
            final(self).wf(),
            reset_chain(*old(self), *final(self)),
    {
        if !self.pipeline.ready {
            return;
        }
        self.codec = None;
        self.current_bitrate_kbps = -1;
        self.current_mono = false;
        self.pipeline.reset();
    }

    pub fn latency_samples(&self) -> (r: u32)
        ensures
            r == if self.pipeline.ready {
                self.pipeline.latency_host_samples
            } else {
                0
            },
    {
        if self.pipeline.ready {
            self.pipeline.latency_host_samples
        } else {
            0
        }
    }

    /// Opens the encoder/decoder pair for a bitrate and channel mode, unless
    /// it is open already. Whether a fresh pair could be opened is for
    /// FDK-AAC to say.
    pub fn ensure_codec(&mut self, bitrate_kbps: u32, mono: bool)
        requires
            bitrate_kbps * 1000 <= u32::MAX,
        ensures
            ensured_codec(*old(self), *final(self), bitrate_kbps, mono),
            old(self).wf() ==> final(self).wf(),
    {
        let target_kbps: i32 = bitrate_kbps as i32;
        if self.current_bitrate_kbps == target_kbps && self.current_mono == mono
            && self.codec.is_some() {
            return;
        }
        let codec_channels: usize = if mono {
            1
        } else {
            self.pipeline.channels
        };
        let codec = FdkCodec::new(self.family.settings(codec_channels, bitrate_kbps));
        self.adopt_codec(codec, bitrate_kbps, mono);
    }

    /// Takes on the pair that FDK-AAC gave for a bitrate and channel mode;
    /// without one there is no codec.
    pub fn adopt_codec(&mut self, codec: Option<FdkCodec>, bitrate_kbps: u32, mono: bool)
        requires
            bitrate_kbps <= i32::MAX,
        ensures
            *final(self) == adopted_codec(*old(self), codec, bitrate_kbps, mono),
    {
        self.codec = codec;
        if self.codec.is_some() {
            self.current_bitrate_kbps = bitrate_kbps as i32;
            self.current_mono = mono;
            self.samples_to_discard = self.family.frame_size();
        } else {
            self.current_bitrate_kbps = -1;
        }
    }

    /// Takes the next frame off the codec's input as interleaved PCM; in mono
    /// mode as the channels' mean.
    fn stage_frame(&mut self)
        requires
            old(self).wf(),
            old(self).pipeline.ready,
        ensures
            final(self).wf(),
            *final(self) == (FdkChain {
                pipeline: final(self).pipeline,
                pcm_i16: final(self).pcm_i16,
                ..*old(self)
            }),
            final(self).pipeline.only_rings_changed(
                &old(self).pipeline,
                false,
                true,
                false,
                false,
            ),
            staged(*old(self), *final(self)),
    {
        let frame: usize = self.family.frame_size();
        if self.current_mono {
            stage_mono_frame(&mut self.pipeline.internal_input, frame, &mut self.pcm_i16);
        } else {
            drain_to_i16_interleaved(&mut self.pipeline.internal_input, frame, &mut self.pcm_i16);
        }
    }

    /// Codes the next frame.
    fn code_next(&mut self)
        requires
            old(self).wf(),
            old(self).pipeline.ready,
            old(self).codec is Some,
        ensures
            final(self).wf(),
            coded_frame(*old(self), *final(self)),
    {
        let ghost before = *self;
        let frame: usize = self.family.frame_size();
        let frame_samples: usize = if self.current_mono {
            frame
        } else {
            frame * self.pipeline.channels
        };
        let duplicate_mono: bool = match self.family {
            FdkFamily::AacLc => true,
            _ => false,
        };
        self.stage_frame();
        let ghost ready = *self;
        let ghost mut turns: Seq<Turn> = Seq::empty();
        if let Some(codec) = &mut self.codec {
            let made = codec.code_frame(
                frame_samples,
                &mut self.pcm_i16,
                &mut self.packet,
                &mut self.pipeline.internal_output,
                &mut self.samples_to_discard,
                duplicate_mono,
            );
            proof {
                turns = made@;
            }
        }
        proof {
            assert(staged(before, ready));
            assert(codes_frame(
                before.codec->0,
                self.codec->0,
                coding_of(
                    ready.pcm_i16@,
                    ready.pipeline.internal_output@,
                    ready.samples_to_discard,
                ),
                coding_of(
                    self.pcm_i16@,
                    self.pipeline.internal_output@,
                    self.samples_to_discard,
                ).playing,
                before.frame_values(),
                before.duplicates_mono(),
                turns,
            ));
        }
    }

    /// Drains the codec's input one frame at a time. Mono mode sums L+R
    /// before encoding and duplicates the mono decode back to L = R,
    /// reproducing the real artifact spectrum of mono AAC (full bit budget
    /// per channel) instead of stereo at the same bitrate where L = R.
    pub fn pump_codec(&mut self)
        requires
            old(self).wf(),
            old(self).pipeline.ready,
        ensures
            final(self).wf(),
            pumped_codec(*old(self), *final(self)),
    {
        let ghost before = *self;
        let frame: usize = self.family.frame_size();
        if self.codec.is_none() {
            return;
        }
        let ghost mut chains: Seq<FdkChain> = seq![before];
        proof {
            assert forall|ch: int| 0 <= ch < before.pipeline.channels implies (
            #[trigger] before.pipeline.internal_input@[ch])@ == rest(
                before.pipeline.internal_input@[ch]@,
                0,
            ) by {
                assert(before.pipeline.internal_input@[ch]@ =~= rest(
                    before.pipeline.internal_input@[ch]@,
                    0,
                ));
            }
        }
        while self.pipeline.internal_input[0].len() >= frame
            invariant
                self.wf(),
                self.pipeline.ready,
                self.codec is Some,
                before.wf(),
                before.pipeline.ready,
                frame == before.family.frame_size(),
                frame > 0,
                self.family == before.family,
                self.current_bitrate_kbps == before.current_bitrate_kbps,
                self.current_mono == before.current_mono,
                self.pipeline.only_rings_changed(&before.pipeline, false, true, true, false),
                chains.len() >= 1,
                chains.first() == before,
                chains.last() == *self,
                frame_by_frame(chains),
                drained(
                    before.pipeline.internal_input@,
                    self.pipeline.internal_input@,
                    ((chains.len() - 1) * frame) as nat,
                ),
                (chains.len() - 1) * frame <= before.pipeline.internal_input@[0]@.len(),
            decreases self.pipeline.internal_input@[0]@.len(),
        {
            let ghost start = *self;
            let ghost taken = (chains.len() - 1) as nat;
            self.code_next();
            proof {
                assert forall|ch: int| 0 <= ch < before.pipeline.channels implies rest(
                    rest((#[trigger] before.pipeline.internal_input@[ch])@, taken * frame as nat),
                    frame as nat,
                ) == rest(
                    before.pipeline.internal_input@[ch]@,
                    (taken + 1) * frame as nat,
                ) by {
                    lemma_rest_rest(
                        before.pipeline.internal_input@[ch]@,
                        taken * frame as nat,
                        frame as nat,
                    );
                    assert((taken + 1) * frame == taken * frame + frame) by (nonlinear_arith);
                }
                assert((taken + 1) * frame == taken * frame + frame) by (nonlinear_arith);
                let earlier = chains;
                chains = earlier.push(*self);
                assert forall|k: int| 0 <= k < chains.len() - 1 implies #[trigger] codes_at(
                    chains,
                    k,
                ) by {
                    if k < earlier.len() - 1 {
                        assert(codes_at(earlier, k));
                    } else {
                        assert(chains[k] == start);
                    }
                }
            }
        }
        proof {
            let n = before.pipeline.internal_input@[0]@.len() as int;
            let taken = chains.len() - 1;
            assert(self.pipeline.internal_input@[0]@.len() == n - taken * frame);
            lemma_fundamental_div_mod_converse(n, frame as int, taken, n - taken * frame);
        }
    }

    /// Runs what waits at the codec's input through to its output.
    pub fn run_codec(&mut self, mode: ChainMode)
        requires
            old(self).wf(),
            old(self).pipeline.ready,
            mode matches ChainMode::Coded { bitrate_kbps, .. } ==> bitrate_kbps * 1000 <= u32::MAX,
        ensures
            final(self).wf(),
            ran_codec(*old(self), *final(self), mode),
    {
        match mode {
            ChainMode::Passthrough => {
                self.pipeline.pass_internal();
            },
            ChainMode::Coded { bitrate_kbps, mono } => {
                let ghost before = *self;
                self.ensure_codec(bitrate_kbps, mono);
                let ghost ensured = *self;
                proof {
                    assert(ensured_codec(before, ensured, bitrate_kbps, mono));
                }
                if self.codec.is_some() {
                    self.pump_codec();
                } else {
                    self.pipeline.mute_internal();
                }
            },
        }
    }

    /// One step of a block: takes in what the caller brings, and says what the
    /// caller is to do next. A chain that is not ready leaves the block as it
    /// is.
    pub fn process(
        &mut self,
        block: &mut Vec<Vec<Sample>>,
        n_samples: usize,
        event: BlockEvent,
        mode: ChainMode,
    ) -> (r: BlockAction)
        requires
            old(self).wf(),
            old(self).pipeline.ready ==> block_fits(
                old(block)@,
                old(self).pipeline.channels as nat,
                n_samples as nat,
            ) && event_fits(event, old(self).pipeline.channels as nat),
            mode matches ChainMode::Coded { bitrate_kbps, .. } ==> bitrate_kbps * 1000 <= u32::MAX,
        ensures
            final(self).wf(),
            same_shape(old(block)@, final(block)@),
            final(self).family == old(self).family,
            final(self).pipeline.same_setup(&old(self).pipeline),
            processed(
                *old(self),
                *final(self),
                old(block)@,
                final(block)@,
                n_samples as nat,
                event,
                mode,
                r,
            ),
    {
        if !self.pipeline.ready {
            return BlockAction::Done;
        }
        let ghost c0 = *self;
        let input_side = self.pipeline.take_event(block, n_samples, &event);
        let ghost c1 = *self;
        proof {
            assert(took_event(c0.pipeline, c1.pipeline, block@, n_samples as nat, event));
        }
        if input_side {
            let chunk = self.pipeline.pump_host_to_internal();
            proof {
                assert(pumped_input(c1.pipeline, self.pipeline, chunk));
            }
            match chunk {
                Some(chunk) => {
                    return BlockAction::ResampleInput(chunk);
                },
                None => {},
            }
            let ghost c2 = *self;
            self.run_codec(mode);
            proof {
                assert(ran_codec(c2, *self, mode));
            }
        }
        self.pipeline.finish_block(block, n_samples)
    }
}

/// The codec is gone and the pipeline back at its start; a chain that is not
/// ready stays as it is.
pub open spec fn reset_chain(before: FdkChain, after: FdkChain) -> bool {
    &&& reset_pipeline(before.pipeline, after.pipeline)
    &&& before.pipeline.ready ==> after == (FdkChain {
        pipeline: after.pipeline,
        codec: None,
        current_bitrate_kbps: (-1) as i32,
        current_mono: false,
        ..before
    })
    &&& !before.pipeline.ready ==> after == before
}

/// The chain around a pair for (bitrate, mono), with a frame of warm-up to
/// discard, or without any.
pub open spec fn adopted_codec(
    before: FdkChain,
    codec: Option<FdkCodec>,
    bitrate_kbps: u32,
    mono: bool,
) -> FdkChain {
    match codec {
        Some(_) => FdkChain {
            codec,
            current_bitrate_kbps: bitrate_kbps as i32,
            current_mono: mono,
            samples_to_discard: before.family.frame_size(),
            ..before
        },
        None => FdkChain { codec: None, current_bitrate_kbps: (-1) as i32, ..before },
    }
}

/// The codec of `after` is open for (bitrate, mono) if it is open at all; one
/// that was open for them already stays, a fresh one starts with a frame of
/// warm-up to discard.
pub open spec fn ensured_codec(
    before: FdkChain,
    after: FdkChain,
    bitrate_kbps: u32,
    mono: bool,
) -> bool {
    let kept = before.current_bitrate_kbps == bitrate_kbps && before.current_mono == mono
        && before.codec is Some;
    &&& kept ==> after == before
    &&& !kept ==> after == adopted_codec(before, after.codec, bitrate_kbps, mono)
    &&& !kept && after.codec is Some ==> fresh_codec(
        after.codec->0,
        before.family.spec_settings(
            if mono {
                1
            } else {
                before.pipeline.channels
            },
            bitrate_kbps,
        ),
    )
}

/// One frame left the codec's input and stands in the PCM buffer, in mono mode
/// in front of what the buffer held there.
pub open spec fn staged(before: FdkChain, after: FdkChain) -> bool {
    let frame = before.family.frame_size();
    let channels = before.pipeline.channels;
    let input = before.pipeline.internal_input@;
    &&& drained(input, after.pipeline.internal_input@, frame as nat)
    &&& before.current_mono ==> forall|s: int|
        0 <= s < frame ==> #[trigger] after.pcm_i16@[s] == mono_value(input, frame as nat, s)
    &&& !before.current_mono ==> forall|i: int|
        0 <= i < frame * channels ==> #[trigger] after.pcm_i16@[i] == interleaved_value(
            input,
            frame as nat,
            i,
        )
    &&& after.pcm_i16@.len() == before.pcm_i16@.len()
    &&& forall|i: int|
        before.frame_values() <= i < before.pcm_i16@.len() ==> #[trigger] after.pcm_i16@[i]
            == before.pcm_i16@[i]
}

/// One frame was staged and coded.
pub open spec fn coded_frame(before: FdkChain, after: FdkChain) -> bool {
    &&& before.codec is Some
    &&& after.codec is Some
    &&& after.family == before.family
    &&& after.current_bitrate_kbps == before.current_bitrate_kbps
    &&& after.current_mono == before.current_mono
    &&& after.pipeline.only_rings_changed(&before.pipeline, false, true, true, false)
    &&& exists|ready: FdkChain, turns: Seq<Turn>|
        {
            &&& staged(before, ready)
            &&& ready.samples_to_discard == before.samples_to_discard
            &&& ready.pipeline.internal_output@ == before.pipeline.internal_output@
            &&& after.pipeline.internal_input@ == ready.pipeline.internal_input@
            &&& #[trigger] codes_frame(
                before.codec->0,
                after.codec->0,
                coding_of(
                    ready.pcm_i16@,
                    ready.pipeline.internal_output@,
                    ready.samples_to_discard,
                ),
                coding_of(
                    after.pcm_i16@,
                    after.pipeline.internal_output@,
                    after.samples_to_discard,
                ).playing,
                before.frame_values(),
                before.duplicates_mono(),
                turns,
            )
        }
}

/// From place `k` to the next, one more frame is coded.
pub open spec fn codes_at(chains: Seq<FdkChain>, k: int) -> bool {
    coded_frame(chains[k], chains[k + 1])
}

/// Each chain is the one before it with one more frame coded.
pub open spec fn frame_by_frame(chains: Seq<FdkChain>) -> bool {
    forall|k: int| 0 <= k < chains.len() - 1 ==> #[trigger] codes_at(chains, k)
}

/// Every whole frame left the codec's input, and was coded.
pub open spec fn pumped_codec(before: FdkChain, after: FdkChain) -> bool {
    let frame = before.family.frame_size() as nat;
    let input = before.pipeline.internal_input@;
    &&& before.codec is None ==> after == before
    &&& before.codec is Some ==> {
        &&& after.family == before.family
        &&& after.current_bitrate_kbps == before.current_bitrate_kbps
        &&& after.current_mono == before.current_mono
        &&& after.codec is Some
        &&& after.pipeline.only_rings_changed(&before.pipeline, false, true, true, false)
        &&& after.pipeline.internal_output.len() == before.pipeline.internal_output.len()
        &&& drained(
            input,
            after.pipeline.internal_input@,
            (input[0]@.len() / frame) * frame,
        )
        &&& exists|chains: Seq<FdkChain>|
            {
                &&& chains.len() == input[0]@.len() / frame + 1
                &&& chains.first() == before
                &&& chains.last() == after
                &&& #[trigger] frame_by_frame(chains)
            }
    }
}

/// The codec stage of one block. Without an open codec as much silence comes
/// out as went in.
pub open spec fn ran_codec(before: FdkChain, after: FdkChain, mode: ChainMode) -> bool {
    match mode {
        ChainMode::Passthrough => {
            &&& after == (FdkChain { pipeline: after.pipeline, ..before })
            &&& passed_internal(before.pipeline, after.pipeline)
        },
        ChainMode::Coded { bitrate_kbps, mono } => exists|mid: FdkChain|
            {
                &&& #[trigger] ensured_codec(before, mid, bitrate_kbps, mono)
                &&& mid.codec is Some ==> pumped_codec(mid, after)
                &&& mid.codec is None ==> after == (FdkChain { pipeline: after.pipeline, ..mid })
                    && muted_internal(mid.pipeline, after.pipeline)
            },
    }
}

/// The chain `c` around another pipeline.
pub open spec fn around(c: FdkChain, p: ResampledPipeline) -> FdkChain {
    FdkChain { pipeline: p, ..c }
}

/// One step of a block, stage by stage.
pub open spec fn processed(
    before: FdkChain,
    after: FdkChain,
    block_before: Seq<Vec<Sample>>,
    block_after: Seq<Vec<Sample>>,
    n: nat,
    event: BlockEvent,
    mode: ChainMode,
    r: BlockAction,
) -> bool {
    &&& !before.pipeline.ready ==> {
        &&& r == BlockAction::Done
        &&& after == before
        &&& block_after == block_before
    }
    &&& before.pipeline.ready ==> exists|p1: ResampledPipeline|
        {
            &&& #[trigger] took_event(before.pipeline, p1, block_before, n, event)
            &&& event is OutputResampled ==> {
                &&& after == around(before, after.pipeline)
                &&& finished_block(p1, after.pipeline, block_before, block_after, n, r)
            }
            &&& !(event is OutputResampled) ==> input_side(
                around(before, p1),
                after,
                block_before,
                block_after,
                n,
                mode,
                r,
            )
        }
}

/// The part of a step that starts at the input side: a chunk to resample if
/// there is one, else the codec runs and the block is finished.
pub open spec fn input_side(
    before: FdkChain,
    after: FdkChain,
    block_before: Seq<Vec<Sample>>,
    block_after: Seq<Vec<Sample>>,
    n: nat,
    mode: ChainMode,
    r: BlockAction,
) -> bool {
    exists|p2: ResampledPipeline, chunk: Option<Vec<Vec<Sample>>>|
        {
            &&& #[trigger] pumped_input(before.pipeline, p2, chunk)
            &&& match chunk {
                Some(c) => {
                    &&& r == BlockAction::ResampleInput(c)
                    &&& after == around(before, p2)
                    &&& block_after == block_before
                },
                None => exists|coded: FdkChain|
                    {
                        &&& #[trigger] ran_codec(around(before, p2), coded, mode)
                        &&& after == around(coded, after.pipeline)
                        &&& finished_block(
                            coded.pipeline,
                            after.pipeline,
                            block_before,
                            block_after,
                            n,
                            r,
                        )
                    },
            }
        }
}

/// With matching rates and the codec passed through, a chain is a plain delay
/// line: samples come out in the order they went in.
pub proof fn law_passthrough_is_a_delay_line(
    before: FdkChain,
    after: FdkChain,
    block_before: Seq<Vec<Sample>>,
    block_after: Seq<Vec<Sample>>,
    n: nat,
    r: BlockAction,
    ch: int,
)
    requires
        before.wf(),
        before.pipeline.ready,
        before.pipeline.h2i is None,
        before.pipeline.i2h is None,
        block_fits(block_before, before.pipeline.channels as nat, n),
        processed(
            before,
            after,
            block_before,
            block_after,
            n,
            BlockEvent::Start,
            ChainMode::Passthrough,
            r,
        ),
        0 <= ch < before.pipeline.channels,
    ensures
        r == BlockAction::Done,
        block_after[ch]@ == front(
            in_flight(before.pipeline, ch) + block_before[ch]@.take(n as int),
            n,
        ) + block_before[ch]@.skip(n as int),
        in_flight(after.pipeline, ch) == rest(
            in_flight(before.pipeline, ch) + block_before[ch]@.take(n as int),
            n,
        ),
{
    let p0 = before.pipeline;
    let p1 = choose|p1: ResampledPipeline|
        {
            &&& #[trigger] took_event(p0, p1, block_before, n, BlockEvent::Start)
            &&& input_side(
                around(before, p1),
                after,
                block_before,
                block_after,
                n,
                ChainMode::Passthrough,
                r,
            )
        };
    let (p2, chunk) = choose|p2: ResampledPipeline, chunk: Option<Vec<Vec<Sample>>>|
        {
            &&& #[trigger] pumped_input(p1, p2, chunk)
            &&& match chunk {
                Some(c) => {
                    &&& r == BlockAction::ResampleInput(c)
                    &&& after == around(around(before, p1), p2)
                    &&& block_after == block_before
                },
                None => exists|coded: FdkChain|
                    {
                        &&& #[trigger] ran_codec(
                            around(around(before, p1), p2),
                            coded,
                            ChainMode::Passthrough,
                        )
                        &&& after == around(coded, after.pipeline)
                        &&& finished_block(
                            coded.pipeline,
                            after.pipeline,
                            block_before,
                            block_after,
                            n,
                            r,
                        )
                    },
            }
        };
    assert(chunk is None);
    let coded = choose|coded: FdkChain|
        {
            &&& #[trigger] ran_codec(
                around(around(before, p1), p2),
                coded,
                ChainMode::Passthrough,
            )
            &&& after == around(coded, after.pipeline)
            &&& finished_block(
                coded.pipeline,
                after.pipeline,
                block_before,
                block_after,
                n,
                r,
            )
        };
    let p3 = coded.pipeline;
    assert(passed_internal(p2, p3));
    let (p4, out) = choose|p4: ResampledPipeline, out: Option<Vec<Vec<Sample>>>|
        {
            &&& #[trigger] pumped_output(p3, p4, out)
            &&& match out {
                Some(c) => {
                    &&& r == BlockAction::ResampleOutput(c)
                    &&& after.pipeline == p4
                    &&& block_after == block_before
                },
                None => {
                    &&& r == BlockAction::Done
                    &&& drained_block(p4, after.pipeline, block_before, block_after, n)
                },
            }
        };
    assert(out is None);
    law_direct_pumps_keep_order(p1, p2, p3, p4, ch);
    let all = in_flight(p0, ch) + block_before[ch]@.take(n as int);
    assert(p1.host_input@[ch]@ == p0.host_input@[ch]@ + block_before[ch]@.take(n as int));
    assert(in_flight(p1, ch) =~= all);
    let p5 = after.pipeline;
    assert(p5.host_output@[ch]@ == rest(p4.host_output@[ch]@, n));
    assert(in_flight(p5, ch) =~= rest(all, n));
    assert(front(all, n).len() == n);
}

/// A frame that the call gave, if any, has one channel.
pub open spec fn gives_one_channel(call: DecodeCall) -> bool {
    match call {
        DecodeCall::Frame { frame: Some(frame), .. } => frame.channels == 1,
        _ => true,
    }
}

/// Every frame that the calls gave has one channel, as frames of a mono stream
/// have.
pub open spec fn one_channel(calls: Seq<DecodeCall>) -> bool {
    forall|i: int| 0 <= i < calls.len() ==> gives_one_channel(#[trigger] calls[i])
}

proof fn lemma_one_channel_splits(a: Seq<DecodeCall>, b: Seq<DecodeCall>)
    requires
        one_channel(a + b),
    ensures
        one_channel(a),
        one_channel(b),
{
    assert forall|i: int| 0 <= i < a.len() implies gives_one_channel(#[trigger] a[i]) by {
        assert((a + b)[i] == a[i]);
    }
    assert forall|i: int| 0 <= i < b.len() implies gives_one_channel(#[trigger] b[i]) by {
        assert((a + b)[a.len() + i] == b[i]);
    }
}

proof fn lemma_mono_replies(p: Playing, replies: Seq<DecodeCall>) -> (tail: Seq<Sample>)
    requires
        p.queues.len() == 2,
        one_channel(replies),
    ensures
        after_replies(p, replies, true).queues.len() == 2,
        after_replies(p, replies, true).queues[0] == p.queues[0] + tail,
        after_replies(p, replies, true).queues[1] == p.queues[1] + tail,
    decreases replies.len(),
{
    if replies.len() == 0 {
        assert(p.queues[0] + Seq::<Sample>::empty() =~= p.queues[0]);
        assert(p.queues[1] + Seq::<Sample>::empty() =~= p.queues[1]);
        Seq::empty()
    } else {
        assert(replies =~= replies.drop_last() + seq![replies.last()]);
        lemma_one_channel_splits(replies.drop_last(), seq![replies.last()]);
        let earlier = lemma_mono_replies(p, replies.drop_last());
        let q = after_replies(p, replies.drop_last(), true);
        assert(gives_one_channel(replies[replies.len() - 1]));
        let more = match replies.last() {
            DecodeCall::Frame { frame: Some(frame), pcm } => frame_channel(
                pcm,
                frame,
                if q.discard < frame.samples {
                    q.discard
                } else {
                    frame.samples as nat
                },
                0,
            ),
            _ => Seq::empty(),
        };
        let end = after_reply(q, replies.last(), true);
        assert(end.queues[0] =~= p.queues[0] + (earlier + more));
        assert(end.queues[1] =~= p.queues[1] + (earlier + more));
        earlier + more
    }
}

pub proof fn lemma_mono_turns(start: Coding, turns: Seq<Turn>) -> (tail: Seq<Sample>)
    requires
        start.playing.queues.len() == 2,
        one_channel(replies_of(turns)),
    ensures
        after_turns(start, turns, true).playing.queues.len() == 2,
        after_turns(start, turns, true).playing.queues[0] == start.playing.queues[0] + tail,
        after_turns(start, turns, true).playing.queues[1] == start.playing.queues[1] + tail,
    decreases turns.len(),
{
    let q = start.playing.queues;
    if turns.len() == 0 {
        assert(q[0] + Seq::<Sample>::empty() =~= q[0]);
        assert(q[1] + Seq::<Sample>::empty() =~= q[1]);
        Seq::empty()
    } else {
        lemma_one_channel_splits(replies_of(turns.drop_last()), turns.last().replies);
        let earlier = lemma_mono_turns(start, turns.drop_last());
        let more = lemma_mono_replies(
            after_turns(start, turns.drop_last(), true).playing,
            turns.last().replies,
        );
        assert((q[0] + earlier) + more =~= q[0] + (earlier + more));
        assert((q[1] + earlier) + more =~= q[1] + (earlier + more));
        earlier + more
    }
}

proof fn lemma_mono_frame(before: FdkChain, after: FdkChain) -> (tail: Seq<Sample>)
    requires
        coded_frame(before, after),
        before.family is AacLc,
        before.pipeline.internal_output.len() == 2,
        one_channel(decoder_calls(after.codec->0.decoder)),
    ensures
        one_channel(decoder_calls(before.codec->0.decoder)),
        after.pipeline.internal_output.len() == 2,
        after.pipeline.internal_output@[0]@ == before.pipeline.internal_output@[0]@ + tail,
        after.pipeline.internal_output@[1]@ == before.pipeline.internal_output@[1]@ + tail,
{
    let (ready, turns) = choose|ready: FdkChain, turns: Seq<Turn>|
        {
            &&& staged(before, ready)
            &&& ready.samples_to_discard == before.samples_to_discard
            &&& ready.pipeline.internal_output@ == before.pipeline.internal_output@
            &&& after.pipeline.internal_input@ == ready.pipeline.internal_input@
            &&& #[trigger] codes_frame(
                before.codec->0,
                after.codec->0,
                coding_of(
                    ready.pcm_i16@,
                    ready.pipeline.internal_output@,
                    ready.samples_to_discard,
                ),
                coding_of(
                    after.pcm_i16@,
                    after.pipeline.internal_output@,
                    after.samples_to_discard,
                ).playing,
                before.frame_values(),
                before.duplicates_mono(),
                turns,
            )
        };
    lemma_one_channel_splits(decoder_calls(before.codec->0.decoder), replies_of(turns));
    let start = coding_of(
        ready.pcm_i16@,
        ready.pipeline.internal_output@,
        ready.samples_to_discard,
    );
    let tail = lemma_mono_turns(start, turns);
    let end = contents(after.pipeline.internal_output@);
    assert(end == after_turns(start, turns, true).playing.queues);
    assert(end[0] == after.pipeline.internal_output@[0]@);
    assert(end[1] == after.pipeline.internal_output@[1]@);
    tail
}

proof fn lemma_mono_frames(chains: Seq<FdkChain>, k: int) -> (tail: Seq<Sample>)
    requires
        0 <= k < chains.len(),
        frame_by_frame(chains),
        chains[0].family is AacLc,
        chains[0].pipeline.internal_output.len() == 2,
        one_channel(decoder_calls(chains.last().codec->0.decoder)),
        one_channel(decoder_calls(chains[k].codec->0.decoder)),
    ensures
        chains[k].family is AacLc,
        chains[k].pipeline.internal_output.len() == 2,
        chains[k].pipeline.internal_output@[0]@ == chains[0].pipeline.internal_output@[0]@ + tail,
        chains[k].pipeline.internal_output@[1]@ == chains[0].pipeline.internal_output@[1]@ + tail,
    decreases k,
{
    let q0 = chains[0].pipeline.internal_output@[0]@;
    let q1 = chains[0].pipeline.internal_output@[1]@;
    if k == 0 {
        assert(q0 + Seq::<Sample>::empty() =~= q0);
        assert(q1 + Seq::<Sample>::empty() =~= q1);
        Seq::empty()
    } else {
        assert(codes_at(chains, k - 1));
        let before = chains[k - 1];
        let after = chains[k];
        lemma_calls_grow(before, after);
        let earlier = lemma_mono_frames(chains, k - 1);
        let more = lemma_mono_frame(before, after);
        assert((q0 + earlier) + more =~= q0 + (earlier + more));
        assert((q1 + earlier) + more =~= q1 + (earlier + more));
        earlier + more
    }
}

proof fn lemma_calls_grow(before: FdkChain, after: FdkChain)
    requires
        coded_frame(before, after),
        one_channel(decoder_calls(after.codec->0.decoder)),
    ensures
        one_channel(decoder_calls(before.codec->0.decoder)),
{
    let (ready, turns) = choose|ready: FdkChain, turns: Seq<Turn>|
        {
            &&& staged(before, ready)
            &&& #[trigger] codes_frame(
                before.codec->0,
                after.codec->0,
                coding_of(
                    ready.pcm_i16@,
                    ready.pipeline.internal_output@,
                    ready.samples_to_discard,
                ),
                coding_of(
                    after.pcm_i16@,
                    after.pipeline.internal_output@,
                    after.samples_to_discard,
                ).playing,
                before.frame_values(),
                before.duplicates_mono(),
                turns,
            )
        };
    lemma_one_channel_splits(decoder_calls(before.codec->0.decoder), replies_of(turns));
}

/// A mono tier on a stereo host plays the same on both channels: as the decoder
/// gives one-channel frames, what a pump adds to the two is equal in number and
/// value. What is left at the input is less than a frame.
pub proof fn law_mono_plays_alike_on_both(before: FdkChain, after: FdkChain)
    requires
        before.wf(),
        before.pipeline.ready,
        before.pipeline.channels == 2,
        before.codec is Some,
        before.family is AacLc,
        before.current_mono,
        before.pipeline.internal_input@[0]@.len() == before.pipeline.internal_input@[1]@.len(),
        pumped_codec(before, after),
        one_channel(decoder_calls(after.codec->0.decoder)),
    ensures
        exists|tail: Seq<Sample>|
            {
                &&& #[trigger] (before.pipeline.internal_output@[0]@ + tail)
                    == after.pipeline.internal_output@[0]@
                &&& before.pipeline.internal_output@[1]@ + tail
                    == after.pipeline.internal_output@[1]@
            },
        forall|ch: int|
            0 <= ch < 2 ==> (#[trigger] after.pipeline.internal_input@[ch])@
                == before.pipeline.internal_input@[ch]@.skip(
                before.pipeline.internal_input@[ch]@.len()
                    - before.pipeline.internal_input@[ch]@.len() % 1024,
            ),
{
    let input = before.pipeline.internal_input@;
    let frame = before.family.frame_size() as nat;
    let chains = choose|chains: Seq<FdkChain>|
        {
            &&& chains.len() == input[0]@.len() / frame + 1
            &&& chains.first() == before
            &&& chains.last() == after
            &&& #[trigger] frame_by_frame(chains)
        };
    let tail = lemma_mono_frames(chains, chains.len() - 1);
    assert(before.pipeline.internal_output@[0]@ + tail == after.pipeline.internal_output@[0]@);
    let n = input[0]@.len() as int;
    lemma_fundamental_div_mod(n, 1024);
    lemma_mod_bound(n, 1024);
    assert((n / 1024) * 1024 == n - n % 1024);
    assert forall|ch: int| 0 <= ch < 2 implies (#[trigger] after.pipeline.internal_input@[ch])@
        == input[ch]@.skip(input[ch]@.len() - input[ch]@.len() % 1024) by {
        assert(input[ch]@.len() == n);
    }
}

/// The chain `c` with other queues at the codec's input.
pub open spec fn fed_with(c: FdkChain, input: Vec<VecDeque<Sample>>) -> FdkChain {
    around(c, ResampledPipeline { internal_input: input, ..c.pipeline })
}

/// Two pairs of queues have the same mean, sample by sample, for `n` samples.
pub open spec fn same_mean(
    a: Seq<VecDeque<Sample>>,
    b: Seq<VecDeque<Sample>>,
    n: nat,
) -> bool {
    forall|s: int| 0 <= s < n ==> #[trigger] mean_at(a, n, s) == mean_at(b, n, s)
}

/// The mean of two channels at place `s`.
pub open spec fn mean_at(rings: Seq<VecDeque<Sample>>, n: nat, s: int) -> Sample {
    half(sum(front(rings[0]@, n)[s], front(rings[1]@, n)[s]))
}

/// In mono mode only the mean of the two channels counts: with other samples at
/// the input that have the same mean for the length of a frame, coding a frame
/// makes the same calls and has the same outcome.
pub proof fn law_mono_depends_on_the_mean_alone(
    before: FdkChain,
    after: FdkChain,
    input: Vec<VecDeque<Sample>>,
    left: Vec<VecDeque<Sample>>,
)
    requires
        before.wf(),
        before.pipeline.ready,
        before.current_mono,
        before.pipeline.channels == 2,
        input.len() == 2,
        same_mean(before.pipeline.internal_input@, input@, before.family.frame_size() as nat),
        drained(input@, left@, before.family.frame_size() as nat),
        coded_frame(before, after),
    ensures
        coded_frame(fed_with(before, input), fed_with(after, left)),
{
    let frame = before.family.frame_size();
    let old_input = before.pipeline.internal_input@;
    let other = fed_with(before, input);
    let (ready, turns) = choose|ready: FdkChain, turns: Seq<Turn>|
        {
            &&& staged(before, ready)
            &&& ready.samples_to_discard == before.samples_to_discard
            &&& ready.pipeline.internal_output@ == before.pipeline.internal_output@
            &&& after.pipeline.internal_input@ == ready.pipeline.internal_input@
            &&& #[trigger] codes_frame(
                before.codec->0,
                after.codec->0,
                coding_of(
                    ready.pcm_i16@,
                    ready.pipeline.internal_output@,
                    ready.samples_to_discard,
                ),
                coding_of(
                    after.pcm_i16@,
                    after.pipeline.internal_output@,
                    after.samples_to_discard,
                ).playing,
                before.frame_values(),
                before.duplicates_mono(),
                turns,
            )
        };
    let other_ready = fed_with(ready, left);
    assert(staged(other, other_ready)) by {
        assert forall|s: int| 0 <= s < frame implies #[trigger] other_ready.pcm_i16@[s]
            == mono_value(input@, frame as nat, s) by {
            assert(ready.pcm_i16@[s] == mono_value(old_input, frame as nat, s));
            assert(mean_at(old_input, frame as nat, s) == mean_at(input@, frame as nat, s));
        }
    }
    let end = fed_with(after, left);
    assert(codes_frame(
        other.codec->0,
        end.codec->0,
        coding_of(
            other_ready.pcm_i16@,
            other_ready.pipeline.internal_output@,
            other_ready.samples_to_discard,
        ),
        coding_of(end.pcm_i16@, end.pipeline.internal_output@, end.samples_to_discard).playing,
        other.frame_values(),
        other.duplicates_mono(),
        turns,
    ));
}

}
