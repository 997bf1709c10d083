//! The AAC families: what the encoder gets, and which decoded samples are heard
//! on which channel.

use crate::processor::fdk::{decoder_calls, encoder_calls, encoder_settings, DecodeCall};
use crate::processor::fdk_chain::{
    after_replies, after_reply, after_turns, around, codes_at, codes_frame, coded_frame, coding_of,
    contents, ensured_codec, frame_by_frame, gives_one_channel, input_side, lemma_mono_turns,
    mean_at, one_channel, processed, pumped_codec, ran_codec, replies_of, staged, turn_follows,
    ChainMode, Coding, FdkChain, Playing, Turn,
};
use crate::processor::frames::DecodedFrame;
use crate::processor::pipeline::{
    block_fits, drained_block, finished_block, interleaved_index, lemma_interleaved_index,
    muted_internal, pumped_input, pumped_output, took_event, BlockAction, BlockEvent,
    ResampledPipeline,
};
use crate::processor::rings::front;
use crate::sample::{dequantised, full_scale, lemma_dequantised, quantised, Sample};
use vstd::arithmetic::power2::*;
use vstd::prelude::*;

verus! {

/// `s` is the 16-bit value `v` over 32768.
pub open spec fn plays(s: Sample, v: i16) -> bool {
    s.is_finite() && s.units() * 32_768 == v * full_scale()
}

pub proof fn lemma_plays(v: i16)
    ensures
        plays(dequantised(v), v),
{
    lemma_dequantised(v);
    lemma2_to64();
    lemma_pow2_adds(15, 134);
    let u = dequantised(v).units();
    assert(u * 32_768 == v * (32_768 * pow2(134))) by (nonlinear_arith)
        requires
            u == v * pow2(134),
    ;
}

/// Channel `ch` of the frames that the decoder gave, one after another.
pub open spec fn stream(calls: Seq<DecodeCall>, ch: int) -> Seq<i16>
    decreases calls.len(),
{
    if calls.len() == 0 {
        Seq::empty()
    } else {
        stream(calls.drop_last(), ch) + match calls.last() {
            DecodeCall::Frame { frame: Some(frame), pcm } => Seq::new(
                frame.samples as nat,
                |s: int| pcm[s * frame.channels + ch],
            ),
            _ => Seq::empty(),
        }
    }
}

/// Every frame that the calls gave has `channels` channels.
pub open spec fn all_have(calls: Seq<DecodeCall>, channels: nat) -> bool {
    forall|i: int| 0 <= i < calls.len() ==> has(#[trigger] calls[i], channels)
}

pub open spec fn has(call: DecodeCall, channels: nat) -> bool {
    match call {
        DecodeCall::Frame { frame: Some(frame), .. } => frame.channels == channels,
        _ => true,
    }
}

/// What is left of a stream once its first `discard` samples are dropped, as it
/// sounds.
spec fn kept(values: Seq<i16>, discard: nat) -> Seq<Sample> {
    let skip = vstd::math::min(discard as int, values.len() as int);
    Seq::new((values.len() - skip) as nat, |i: int| dequantised(values[skip + i]))
}

spec fn left(values: Seq<i16>, discard: nat) -> nat {
    (discard - vstd::math::min(discard as int, values.len() as int)) as nat
}

proof fn lemma_stream_joins(a: Seq<DecodeCall>, b: Seq<DecodeCall>, ch: int)
    ensures
        stream(a + b, ch) == stream(a, ch) + stream(b, ch),
    decreases b.len(),
{
    if b.len() == 0 {
        assert(a + b =~= a);
        assert(stream(a, ch) + stream(b, ch) =~= stream(a, ch));
    } else {
        assert((a + b).drop_last() =~= a + b.drop_last());
        lemma_stream_joins(a, b.drop_last(), ch);
        assert(stream(a + b, ch) =~= stream(a, ch) + stream(b, ch));
    }
}

proof fn lemma_kept_joins(a: Seq<i16>, b: Seq<i16>, discard: nat)
    ensures
        kept(a + b, discard) == kept(a, discard) + kept(b, left(a, discard)),
        left(a + b, discard) == left(b, left(a, discard)),
{
    assert(kept(a + b, discard) =~= kept(a, discard) + kept(b, left(a, discard)));
}

proof fn lemma_kept_behind(queue: Seq<Sample>, a: Seq<i16>, b: Seq<i16>, discard: nat)
    ensures
        (queue + kept(a, discard)) + kept(b, left(a, discard)) == queue + kept(a + b, discard),
        left(a + b, discard) == left(b, left(a, discard)),
{
    lemma_kept_joins(a, b, discard);
    assert((queue + kept(a, discard)) + kept(b, left(a, discard)) =~= queue + (kept(a, discard)
        + kept(b, left(a, discard))));
}

proof fn lemma_all_have_splits(a: Seq<DecodeCall>, b: Seq<DecodeCall>, channels: nat)
    requires
        all_have(a + b, channels),
    ensures
        all_have(a, channels),
        all_have(b, channels),
{
    assert forall|i: int| 0 <= i < a.len() implies has(#[trigger] a[i], channels) by {
        assert((a + b)[i] == a[i]);
    }
    assert forall|i: int| 0 <= i < b.len() implies has(#[trigger] b[i], channels) by {
        assert((a + b)[a.len() + i] == b[i]);
    }
}

/// A frame with as many channels as the host plays each of them on the host
/// channel of its own: sample `s` past the warm-up is the value at that place of
/// the interleaved PCM, over 32768. What was waiting before stays in front.
pub proof fn law_frame_plays_channel_by_channel(
    p: Playing,
    frame: DecodedFrame,
    pcm: Seq<i16>,
    duplicate_mono: bool,
    ch: int,
    s: int,
)
    requires
        p.queues.len() <= frame.channels,
        0 <= ch < p.queues.len(),
        0 <= s,
        p.discard + s < frame.samples,
    ensures
        ({
            let after = after_reply(
                p,
                DecodeCall::Frame { frame: Some(frame), pcm },
                duplicate_mono,
            );
            let old_len = p.queues[ch].len() as int;
            &&& after.queues.len() == p.queues.len()
            &&& after.queues[ch].len() == old_len + frame.samples - p.discard
            &&& after.queues[ch].take(old_len) == p.queues[ch]
            &&& plays(after.queues[ch][old_len + s], pcm[(p.discard + s) * frame.channels + ch])
            &&& after.discard == 0
        }),
{
    let after = after_reply(p, DecodeCall::Frame { frame: Some(frame), pcm }, duplicate_mono);
    lemma_plays(pcm[(p.discard + s) * frame.channels + ch]);
    assert(after.queues[ch].take(p.queues[ch].len() as int) =~= p.queues[ch]);
}

/// A frame all of which is warm-up is not heard, and shortens the warm-up by itself;
/// a reply without a frame changes nothing that is heard.
pub proof fn law_warm_up_is_not_heard(
    p: Playing,
    frame: DecodedFrame,
    pcm: Seq<i16>,
    duplicate_mono: bool,
    ch: int,
)
    requires
        0 <= ch < p.queues.len(),
        frame.samples <= p.discard,
    ensures
        ({
            let after = after_reply(
                p,
                DecodeCall::Frame { frame: Some(frame), pcm },
                duplicate_mono,
            );
            after.queues[ch] == p.queues[ch] && after.discard + frame.samples == p.discard
        }),
        after_reply(p, DecodeCall::Frame { frame: None, pcm }, duplicate_mono).queues == p.queues,
        after_reply(p, DecodeCall::Frame { frame: None, pcm }, duplicate_mono).discard
            == p.discard,
{
    let after = after_reply(p, DecodeCall::Frame { frame: Some(frame), pcm }, duplicate_mono);
    assert(after.queues[ch] =~= p.queues[ch]);
}

/// A codec that was opened has one frame of its family ahead of it that is not heard:
/// 1024 samples for AAC-LC, twice as many with spectral band replication. A codec
/// that is kept goes on where it was.
pub proof fn law_new_codec_discards_one_frame(
    before: FdkChain,
    after: FdkChain,
    bitrate_kbps: u32,
    mono: bool,
)
    requires
        ensured_codec(before, after, bitrate_kbps, mono),
    ensures
        ({
            let kept = before.codec is Some && before.current_bitrate_kbps == bitrate_kbps
                && before.current_mono == mono;
            &&& kept ==> after == before
            &&& !kept && after.codec is Some ==> {
                &&& after.samples_to_discard == (if after.family is AacLc {
                    1024int
                } else {
                    2048int
                })
                &&& encoder_calls(after.codec->0.encoder).len() == 0
                &&& decoder_calls(after.codec->0.decoder).len() == 0
            }
            &&& after.pipeline == before.pipeline
            &&& after.family == before.family
        }),
{
}

/// Frames that agree on every channel but one sound the same on the others and
/// differ on that one: a channel is heard on its own side only.
pub proof fn law_channels_do_not_mix(
    p: Playing,
    frame: DecodedFrame,
    a: Seq<i16>,
    b: Seq<i16>,
    duplicate_mono: bool,
    changed: int,
    ch: int,
    s: int,
)
    requires
        frame.channels == p.queues.len(),
        p.discard == 0,
        0 <= changed < frame.channels,
        0 <= ch < frame.channels,
        0 <= s < frame.samples,
        a.len() == b.len(),
        forall|i: int, c: int|
            0 <= i < frame.samples && 0 <= c < frame.channels && c != changed ==> #[trigger] a[i
                * frame.channels + c] == b[i * frame.channels + c],
        a[s * frame.channels + changed] != b[s * frame.channels + changed],
    ensures
        ({
            let x = after_reply(
                p,
                DecodeCall::Frame { frame: Some(frame), pcm: a },
                duplicate_mono,
            ).queues[ch];
            let y = after_reply(
                p,
                DecodeCall::Frame { frame: Some(frame), pcm: b },
                duplicate_mono,
            ).queues[ch];
            if ch == changed {
                x != y
            } else {
                x == y
            }
        }),
{
    let x = after_reply(
        p,
        DecodeCall::Frame { frame: Some(frame), pcm: a },
        duplicate_mono,
    ).queues[ch];
    let y = after_reply(
        p,
        DecodeCall::Frame { frame: Some(frame), pcm: b },
        duplicate_mono,
    ).queues[ch];
    let at = p.queues[ch].len() as int + s;
    if ch == changed {
        law_frame_plays_channel_by_channel(p, frame, a, duplicate_mono, ch, s);
        law_frame_plays_channel_by_channel(p, frame, b, duplicate_mono, ch, s);
        let va = a[s * frame.channels + ch];
        let vb = b[s * frame.channels + ch];
        lemma_pow2_pos(149);
        if x[at] == y[at] {
            assert(va == vb) by (nonlinear_arith)
                requires
                    va * full_scale() == vb * full_scale(),
                    full_scale() > 0,
            ;
        }
    } else {
        assert forall|k: int| 0 <= k < x.len() implies #[trigger] x[k] == y[k] by {
            let i = k - p.queues[ch].len();
            if i >= 0 {
                assert(a[i * frame.channels + ch] == b[i * frame.channels + ch]);
            }
        }
        assert(x =~= y);
    }
}

proof fn lemma_replies_play_the_stream(
    p: Playing,
    replies: Seq<DecodeCall>,
    duplicate_mono: bool,
    ch: int,
)
    requires
        all_have(replies, p.queues.len()),
        0 <= ch < p.queues.len(),
    ensures
        ({
            let after = after_replies(p, replies, duplicate_mono);
            &&& after.queues.len() == p.queues.len()
            &&& after.queues[ch] == p.queues[ch] + kept(stream(replies, ch), p.discard)
            &&& after.discard == left(stream(replies, ch), p.discard)
        }),
    decreases replies.len(),
{
    let after = after_replies(p, replies, duplicate_mono);
    if replies.len() == 0 {
        assert(after.queues[ch] =~= p.queues[ch] + kept(stream(replies, ch), p.discard));
    } else {
        assert(replies =~= replies.drop_last() + seq![replies.last()]);
        lemma_all_have_splits(replies.drop_last(), seq![replies.last()], p.queues.len());
        lemma_replies_play_the_stream(p, replies.drop_last(), duplicate_mono, ch);
        let q = after_replies(p, replies.drop_last(), duplicate_mono);
        assert(has(replies[replies.len() - 1], p.queues.len()));
        let earlier = stream(replies.drop_last(), ch);
        let more = match replies.last() {
            DecodeCall::Frame { frame: Some(frame), pcm } => Seq::new(
                frame.samples as nat,
                |s: int| pcm[s * frame.channels + ch],
            ),
            _ => Seq::empty(),
        };
        lemma_kept_joins(earlier, more, p.discard);
        assert(after.queues[ch] =~= q.queues[ch] + kept(more, q.discard));
        assert(after.queues[ch] =~= p.queues[ch] + (kept(earlier, p.discard) + kept(
            more,
            q.discard,
        )));
    }
}

proof fn lemma_turns_play_the_stream(
    start: Coding,
    turns: Seq<Turn>,
    duplicate_mono: bool,
    ch: int,
)
    requires
        all_have(replies_of(turns), start.playing.queues.len()),
        0 <= ch < start.playing.queues.len(),
    ensures
        ({
            let after = after_turns(start, turns, duplicate_mono).playing;
            let values = stream(replies_of(turns), ch);
            &&& after.queues.len() == start.playing.queues.len()
            &&& after.queues[ch] == start.playing.queues[ch] + kept(values, start.playing.discard)
            &&& after.discard == left(values, start.playing.discard)
        }),
    decreases turns.len(),
{
    let p = start.playing;
    if turns.len() == 0 {
        assert(p.queues[ch] =~= p.queues[ch] + kept(stream(replies_of(turns), ch), p.discard));
    } else {
        let a = replies_of(turns.drop_last());
        let b = turns.last().replies;
        lemma_all_have_splits(a, b, p.queues.len());
        lemma_turns_play_the_stream(start, turns.drop_last(), duplicate_mono, ch);
        let q = after_turns(start, turns.drop_last(), duplicate_mono).playing;
        lemma_replies_play_the_stream(q, b, duplicate_mono, ch);
        lemma_stream_joins(a, b, ch);
        lemma_kept_joins(stream(a, ch), stream(b, ch), p.discard);
        assert((p.queues[ch] + kept(stream(a, ch), p.discard)) + kept(stream(b, ch), q.discard)
            =~= p.queues[ch] + (kept(stream(a, ch), p.discard) + kept(stream(b, ch), q.discard)));
    }
}

/// The calls that the decoder of `after` has answered since `before`.
pub open spec fn new_calls(before: FdkChain, after: FdkChain) -> Seq<DecodeCall> {
    decoder_calls(after.codec->0.decoder).skip(
        decoder_calls(before.codec->0.decoder).len() as int,
    )
}

proof fn lemma_frame_parts(before: FdkChain, after: FdkChain) -> (r: (FdkChain, Seq<Turn>))
    requires
        coded_frame(before, after),
    ensures
        staged(before, r.0),
        r.0.samples_to_discard == before.samples_to_discard,
        r.0.pipeline.internal_output@ == before.pipeline.internal_output@,
        codes_frame(
            before.codec->0,
            after.codec->0,
            coding_of(r.0.pcm_i16@, r.0.pipeline.internal_output@, r.0.samples_to_discard),
            coding_of(
                after.pcm_i16@,
                after.pipeline.internal_output@,
                after.samples_to_discard,
            ).playing,
            before.frame_values(),
            before.duplicates_mono(),
            r.1,
        ),
        decoder_calls(after.codec->0.decoder) == decoder_calls(before.codec->0.decoder)
            + replies_of(r.1),
{
    let (ready, turns) = choose|ready: FdkChain, turns: Seq<Turn>|
        {
            &&& staged(before, ready)
            &&& ready.samples_to_discard == before.samples_to_discard
            &&& ready.pipeline.internal_output@ == before.pipeline.internal_output@
            &&& after.pipeline.internal_input@ == ready.pipeline.internal_input@
            &&& #[trigger] codes_frame(
                before.codec->0,
                after.codec->0,
                coding_of(
                    ready.pcm_i16@,
                    ready.pipeline.internal_output@,
                    ready.samples_to_discard,
                ),
                coding_of(
                    after.pcm_i16@,
                    after.pipeline.internal_output@,
                    after.samples_to_discard,
                ).playing,
                before.frame_values(),
                before.duplicates_mono(),
                turns,
            )
        };
    (ready, turns)
}

proof fn lemma_frame_plays_the_stream(before: FdkChain, after: FdkChain, ch: int)
    requires
        coded_frame(before, after),
        all_have(new_calls(before, after), before.pipeline.internal_output.len() as nat),
        0 <= ch < before.pipeline.internal_output.len(),
    ensures
        decoder_calls(after.codec->0.decoder) == decoder_calls(before.codec->0.decoder)
            + new_calls(before, after),
        after.pipeline.internal_output.len() == before.pipeline.internal_output.len(),
        after.pipeline.internal_output@[ch]@ == before.pipeline.internal_output@[ch]@ + kept(
            stream(new_calls(before, after), ch),
            before.samples_to_discard as nat,
        ),
        after.samples_to_discard == left(
            stream(new_calls(before, after), ch),
            before.samples_to_discard as nat,
        ),
{
    let (ready, turns) = lemma_frame_parts(before, after);
    assert(new_calls(before, after) =~= replies_of(turns));
    let start = coding_of(
        ready.pcm_i16@,
        ready.pipeline.internal_output@,
        ready.samples_to_discard,
    );
    lemma_turns_play_the_stream(start, turns, before.duplicates_mono(), ch);
    let end = contents(after.pipeline.internal_output@);
    assert(end == after_turns(start, turns, before.duplicates_mono()).playing.queues);
    assert(end[ch] == after.pipeline.internal_output@[ch]@);
}

proof fn lemma_frames_play_the_stream(chains: Seq<FdkChain>, k: int, ch: int)
    requires
        0 <= k < chains.len(),
        frame_by_frame(chains),
        all_have(
            new_calls(chains[0], chains[k]),
            chains[0].pipeline.internal_output.len() as nat,
        ),
        0 <= ch < chains[0].pipeline.internal_output.len(),
    ensures
        decoder_calls(chains[k].codec->0.decoder) == decoder_calls(chains[0].codec->0.decoder)
            + new_calls(chains[0], chains[k]),
        chains[k].pipeline.internal_output.len() == chains[0].pipeline.internal_output.len(),
        chains[k].pipeline.internal_output@[ch]@ == chains[0].pipeline.internal_output@[ch]@
            + kept(
            stream(new_calls(chains[0], chains[k]), ch),
            chains[0].samples_to_discard as nat,
        ),
        chains[k].samples_to_discard == left(
            stream(new_calls(chains[0], chains[k]), ch),
            chains[0].samples_to_discard as nat,
        ),
    decreases k,
{
    let first = chains[0];
    let d0 = decoder_calls(first.codec->0.decoder);
    let queue = first.pipeline.internal_output@[ch]@;
    let discard = first.samples_to_discard as nat;
    if k == 0 {
        assert(new_calls(first, first) =~= Seq::<DecodeCall>::empty());
        assert(d0 =~= d0 + new_calls(first, first));
        assert(queue =~= queue + kept(stream(new_calls(first, first), ch), discard));
    } else {
        assert(codes_at(chains, k - 1));
        let before = chains[k - 1];
        let after = chains[k];
        lemma_prefix(chains, k - 1);
        lemma_prefix(chains, k);
        lemma_calls_join(first, before, after);
        let a = new_calls(first, before);
        let b = new_calls(before, after);
        lemma_all_have_splits(a, b, first.pipeline.internal_output.len() as nat);
        lemma_frames_play_the_stream(chains, k - 1, ch);
        lemma_frame_plays_the_stream(before, after, ch);
        lemma_stream_joins(a, b, ch);
        lemma_kept_behind(queue, stream(a, ch), stream(b, ch), discard);
    }
}

proof fn lemma_calls_join(first: FdkChain, before: FdkChain, after: FdkChain)
    requires
        coded_frame(before, after),
        decoder_calls(before.codec->0.decoder) == decoder_calls(first.codec->0.decoder)
            + new_calls(first, before),
    ensures
        new_calls(first, after) == new_calls(first, before) + new_calls(before, after),
{
    let (_, turns) = lemma_frame_parts(before, after);
    assert(new_calls(before, after) =~= replies_of(turns));
    assert(new_calls(first, after) =~= new_calls(first, before) + new_calls(before, after));
}

proof fn lemma_prefix(chains: Seq<FdkChain>, k: int)
    requires
        0 <= k < chains.len(),
        frame_by_frame(chains),
    ensures
        decoder_calls(chains[k].codec->0.decoder) == decoder_calls(chains[0].codec->0.decoder)
            + new_calls(chains[0], chains[k]),
    decreases k,
{
    let d0 = decoder_calls(chains[0].codec->0.decoder);
    if k > 0 {
        lemma_prefix(chains, k - 1);
        assert(codes_at(chains, k - 1));
        let (_, turns) = lemma_frame_parts(chains[k - 1], chains[k]);
        assert(new_calls(chains[0], chains[k]) =~= new_calls(chains[0], chains[k - 1])
            + replies_of(turns));
        assert(decoder_calls(chains[k].codec->0.decoder) =~= d0 + new_calls(chains[0], chains[k]));
    } else {
        assert(d0 =~= d0 + new_calls(chains[0], chains[0]));
    }
}

/// What a pump adds to a channel is that channel of the decoded stream, less the
/// warm-up still to be dropped: the `i`-th sample added is the value at place
/// `discard + i` of the stream, over 32768.
pub proof fn law_pump_plays_the_decoded_stream(
    before: FdkChain,
    after: FdkChain,
    ch: int,
    i: int,
)
    requires
        before.wf(),
        before.pipeline.ready,
        before.codec is Some,
        pumped_codec(before, after),
        all_have(new_calls(before, after), before.pipeline.channels as nat),
        0 <= ch < before.pipeline.channels,
        0 <= i,
        before.samples_to_discard + i < stream(new_calls(before, after), ch).len(),
    ensures
        ({
            let values = stream(new_calls(before, after), ch);
            let old_queue = before.pipeline.internal_output@[ch]@;
            let queue = after.pipeline.internal_output@[ch]@;
            &&& queue.len() == old_queue.len() + values.len() - before.samples_to_discard
            &&& queue.take(old_queue.len() as int) == old_queue
            &&& plays(queue[old_queue.len() + i], values[before.samples_to_discard + i])
            &&& after.samples_to_discard == 0
        }),
{
    let frame = before.family.frame_size() as nat;
    let input = before.pipeline.internal_input@;
    let chains = choose|chains: Seq<FdkChain>|
        {
            &&& chains.len() == input[0]@.len() / frame + 1
            &&& chains.first() == before
            &&& chains.last() == after
            &&& #[trigger] frame_by_frame(chains)
        };
    lemma_frames_play_the_stream(chains, chains.len() - 1, ch);
    let values = stream(new_calls(before, after), ch);
    let old_queue = before.pipeline.internal_output@[ch]@;
    let queue = after.pipeline.internal_output@[ch]@;
    lemma_plays(values[before.samples_to_discard + i]);
    assert(queue.take(old_queue.len() as int) =~= old_queue);
}

/// In stereo the encoder is offered the next frame of every channel, interleaved:
/// the value at `s * channels + ch` is sample `s` of channel `ch`.
pub proof fn law_encoder_gets_the_channels_interleaved(
    before: FdkChain,
    after: FdkChain,
    ch: int,
    s: int,
)
    requires
        before.wf(),
        before.pipeline.ready,
        !before.current_mono,
        coded_frame(before, after),
        before.pipeline.internal_input@[ch]@.len() >= before.family.frame_size(),
        0 <= ch < before.pipeline.channels,
        0 <= s < before.family.frame_size(),
    ensures
        ({
            let old_calls = encoder_calls(before.codec->0.encoder);
            let calls = encoder_calls(after.codec->0.encoder);
            &&& calls.len() > old_calls.len()
            &&& calls[old_calls.len() as int].offered[s * before.pipeline.channels + ch]
                == quantised(before.pipeline.internal_input@[ch]@[s])
        }),
{
    let (ready, turns) = lemma_frame_parts(before, after);
    let start = coding_of(
        ready.pcm_i16@,
        ready.pipeline.internal_output@,
        ready.samples_to_discard,
    );
    let channels = before.pipeline.channels as int;
    let frame = before.family.frame_size() as int;
    assert(frame * channels > 0) by (nonlinear_arith)
        requires
            frame > 0,
            channels > 0,
    ;
    if turns.len() == 0 {
        assert(after_turns(start, turns, before.duplicates_mono()) == start);
    }
    assert(turn_follows(
        after_turns(start, turns.take(0), before.duplicates_mono()),
        turns[0],
        before.frame_values(),
    ));
    assert(after_turns(start, turns.take(0), before.duplicates_mono()) == start);
    lemma_interleaved_index(s, ch, frame, channels);
    let i = interleaved_index(s, ch, channels);
    assert(ready.pcm_i16@[i] == quantised(before.pipeline.internal_input@[ch]@[s]));
    assert(turns[0].call.offered[i] == ready.pcm_i16@[i]);
    let old_calls = encoder_calls(before.codec->0.encoder);
    assert(encoder_calls(after.codec->0.encoder)[old_calls.len() as int] == turns[0].call);
}

/// In mono the encoder is offered the mean of the two channels.
pub proof fn law_mono_encoder_gets_the_mean(before: FdkChain, after: FdkChain, s: int)
    requires
        before.wf(),
        before.pipeline.ready,
        before.current_mono,
        before.pipeline.channels == 2,
        coded_frame(before, after),
        0 <= s < before.family.frame_size(),
    ensures
        ({
            let old_calls = encoder_calls(before.codec->0.encoder);
            let calls = encoder_calls(after.codec->0.encoder);
            let frame = before.family.frame_size() as nat;
            &&& calls.len() > old_calls.len()
            &&& calls[old_calls.len() as int].offered.len() == frame
            &&& calls[old_calls.len() as int].offered[s] == quantised(
                mean_at(before.pipeline.internal_input@, frame, s),
            )
        }),
{
    let (ready, turns) = lemma_frame_parts(before, after);
    let start = coding_of(
        ready.pcm_i16@,
        ready.pipeline.internal_output@,
        ready.samples_to_discard,
    );
    if turns.len() == 0 {
        assert(after_turns(start, turns, before.duplicates_mono()) == start);
    }
    assert(turn_follows(
        after_turns(start, turns.take(0), before.duplicates_mono()),
        turns[0],
        before.frame_values(),
    ));
    assert(after_turns(start, turns.take(0), before.duplicates_mono()) == start);
    assert(turns[0].call.offered[s] == ready.pcm_i16@[s]);
    let old_calls = encoder_calls(before.codec->0.encoder);
    assert(encoder_calls(after.codec->0.encoder)[old_calls.len() as int] == turns[0].call);
}

proof fn lemma_second_queue_idle(p: Playing, replies: Seq<DecodeCall>)
    requires
        p.queues.len() == 2,
        all_have(replies, 1),
    ensures
        after_replies(p, replies, false).queues.len() == 2,
        after_replies(p, replies, false).queues[1] == p.queues[1],
    decreases replies.len(),
{
    if replies.len() > 0 {
        assert(replies =~= replies.drop_last() + seq![replies.last()]);
        lemma_all_have_splits(replies.drop_last(), seq![replies.last()], 1);
        lemma_second_queue_idle(p, replies.drop_last());
        assert(has(replies[replies.len() - 1], 1));
        let q = after_replies(p, replies.drop_last(), false);
        assert(after_reply(q, replies.last(), false).queues[1] =~= q.queues[1]);
    }
}

proof fn lemma_second_queue_idle_over_turns(start: Coding, turns: Seq<Turn>)
    requires
        start.playing.queues.len() == 2,
        all_have(replies_of(turns), 1),
    ensures
        after_turns(start, turns, false).playing.queues.len() == 2,
        after_turns(start, turns, false).playing.queues[1] == start.playing.queues[1],
    decreases turns.len(),
{
    if turns.len() > 0 {
        lemma_all_have_splits(replies_of(turns.drop_last()), turns.last().replies, 1);
        lemma_second_queue_idle_over_turns(start, turns.drop_last());
        lemma_second_queue_idle(
            after_turns(start, turns.drop_last(), false).playing,
            turns.last().replies,
        );
    }
}

/// A one-channel frame on a stereo host: plain AAC plays it on both channels, the
/// high-efficiency families on the first alone.
pub proof fn law_one_channel_frames(before: FdkChain, after: FdkChain)
    requires
        coded_frame(before, after),
        before.pipeline.internal_output.len() == 2,
        all_have(new_calls(before, after), 1),
    ensures
        before.family is AacLc ==> exists|tail: Seq<Sample>|
            {
                &&& #[trigger] (before.pipeline.internal_output@[0]@ + tail)
                    == after.pipeline.internal_output@[0]@
                &&& before.pipeline.internal_output@[1]@ + tail
                    == after.pipeline.internal_output@[1]@
            },
        !(before.family is AacLc) ==> after.pipeline.internal_output@[1]@
            == before.pipeline.internal_output@[1]@,
{
    let (ready, turns) = lemma_frame_parts(before, after);
    assert(new_calls(before, after) =~= replies_of(turns));
    let start = coding_of(
        ready.pcm_i16@,
        ready.pipeline.internal_output@,
        ready.samples_to_discard,
    );
    let end = contents(after.pipeline.internal_output@);
    assert(end == after_turns(start, turns, before.duplicates_mono()).playing.queues);
    if before.family is AacLc {
        assert(one_channel(replies_of(turns))) by {
            let calls = replies_of(turns);
            assert forall|i: int| 0 <= i < calls.len() implies gives_one_channel(
                #[trigger] calls[i],
            ) by {
                assert(has(calls[i], 1));
            }
        }
        let tail = lemma_mono_turns(start, turns);
        assert(end[0] == before.pipeline.internal_output@[0]@ + tail);
        assert(end[1] == before.pipeline.internal_output@[1]@ + tail);
    } else {
        lemma_second_queue_idle_over_turns(start, turns);
        assert(end[1] == after.pipeline.internal_output@[1]@);
    }
}

/// The encoder of an open codec has the settings of its bitrate, channel mode and
/// family.
pub open spec fn is_tuned(c: FdkChain) -> bool {
    c.codec matches Some(codec) ==> {
        let settings = encoder_settings(codec.encoder);
        let one = c.current_mono || c.pipeline.channels == 1;
        &&& settings.bitrate_bps == 1000 * c.current_bitrate_kbps
        &&& settings.sample_rate == 44_100
        &&& settings.layout is Mono <==> one
        &&& c.family is AacLc ==> settings.profile is LowComplexity
        &&& c.family is HeAacV1 ==> settings.profile is HighEfficiency
        &&& c.family is HeAacV2 && one ==> settings.profile is HighEfficiency
        &&& c.family is HeAacV2 && !one ==> settings.profile is HighEfficiencyV2
    }
}

proof fn lemma_frames_keep_tuning(chains: Seq<FdkChain>, k: int)
    requires
        0 <= k < chains.len(),
        frame_by_frame(chains),
        is_tuned(chains[0]),
    ensures
        is_tuned(chains[k]),
    decreases k,
{
    if k > 0 {
        lemma_frames_keep_tuning(chains, k - 1);
        assert(codes_at(chains, k - 1));
        let (_, turns) = lemma_frame_parts(chains[k - 1], chains[k]);
    }
}

/// The step of a coded block in which the codec runs.
pub open spec fn codec_ran(event: BlockEvent, r: BlockAction) -> bool {
    !(event is OutputResampled) && !(r is ResampleInput)
}

pub proof fn lemma_coded_part(
    before: FdkChain,
    after: FdkChain,
    b0: Seq<Vec<Sample>>,
    b1: Seq<Vec<Sample>>,
    n: nat,
    event: BlockEvent,
    mode: ChainMode,
    r: BlockAction,
) -> (parts: (FdkChain, FdkChain))
    requires
        before.pipeline.ready,
        processed(before, after, b0, b1, n, event, mode, r),
        codec_ran(event, r),
    ensures
        ran_codec(parts.0, parts.1, mode),
        parts.0 == around(before, parts.0.pipeline),
        parts.0.pipeline.same_setup(&before.pipeline),
        parts.0.pipeline.internal_output == before.pipeline.internal_output,
        parts.0.pipeline.host_output == before.pipeline.host_output,
        after == around(parts.1, after.pipeline),
        finished_block(parts.1.pipeline, after.pipeline, b0, b1, n, r),
        exists|p1: ResampledPipeline|
            #[trigger] took_event(before.pipeline, p1, b0, n, event) && pumped_input(
                p1,
                parts.0.pipeline,
                None,
            ),
{
    let p1 = choose|p1: ResampledPipeline|
        {
            &&& #[trigger] took_event(before.pipeline, p1, b0, n, event)
            &&& input_side(around(before, p1), after, b0, b1, n, mode, r)
        };
    let c1 = around(before, p1);
    let (p2, chunk) = choose|p2: ResampledPipeline, chunk: Option<Vec<Vec<Sample>>>|
        {
            &&& #[trigger] pumped_input(c1.pipeline, p2, chunk)
            &&& match chunk {
                Some(c) => {
                    &&& r == BlockAction::ResampleInput(c)
                    &&& after == around(c1, p2)
                    &&& b1 == b0
                },
                None => exists|coded: FdkChain|
                    {
                        &&& #[trigger] ran_codec(around(c1, p2), coded, mode)
                        &&& after == around(coded, after.pipeline)
                        &&& finished_block(coded.pipeline, after.pipeline, b0, b1, n, r)
                    },
            }
        };
    assert(chunk is None);
    let coded = choose|coded: FdkChain|
        {
            &&& #[trigger] ran_codec(around(c1, p2), coded, mode)
            &&& after == around(coded, after.pipeline)
            &&& finished_block(coded.pipeline, after.pipeline, b0, b1, n, r)
        };
    (around(c1, p2), coded)
}

/// A block is coded at the bitrate and in the channel mode asked for, by an
/// encoder with the settings of both.
pub proof fn law_block_is_coded_as_asked(
    before: FdkChain,
    after: FdkChain,
    b0: Seq<Vec<Sample>>,
    b1: Seq<Vec<Sample>>,
    n: nat,
    event: BlockEvent,
    bitrate_kbps: u32,
    mono: bool,
    r: BlockAction,
)
    requires
        before.wf(),
        before.pipeline.ready,
        is_tuned(before),
        bitrate_kbps * 1000 <= u32::MAX,
        processed(
            before,
            after,
            b0,
            b1,
            n,
            event,
            ChainMode::Coded { bitrate_kbps, mono },
            r,
        ),
        codec_ran(event, r),
    ensures
        is_tuned(after),
        after.codec is Some ==> after.current_bitrate_kbps == bitrate_kbps && after.current_mono
            == mono,
{
    let mode = ChainMode::Coded { bitrate_kbps, mono };
    let (start, coded) = lemma_coded_part(before, after, b0, b1, n, event, mode, r);
    let mid = choose|mid: FdkChain|
        {
            &&& #[trigger] ensured_codec(start, mid, bitrate_kbps, mono)
            &&& mid.codec is Some ==> pumped_codec(mid, coded)
            &&& mid.codec is None ==> coded == (FdkChain { pipeline: coded.pipeline, ..mid })
                && muted_internal(mid.pipeline, coded.pipeline)
        };
    if mid.codec is Some {
        assert(is_tuned(mid));
        let frame = mid.family.frame_size() as nat;
        let chains = choose|chains: Seq<FdkChain>|
            {
                &&& chains.len() == mid.pipeline.internal_input@[0]@.len() / frame + 1
                &&& chains.first() == mid
                &&& chains.last() == coded
                &&& #[trigger] frame_by_frame(chains)
            };
        lemma_frames_keep_tuning(chains, chains.len() - 1);
        assert(after.pipeline.channels == coded.pipeline.channels);
    }
}

/// At 44.1 kHz what a block hears, followed by what is left for the blocks after
/// it, is what was waiting, followed by the decoded stream of its channel less
/// the warm-up, value by value over 32768.
pub proof fn law_block_plays_the_decoded_stream(
    before: FdkChain,
    after: FdkChain,
    b0: Seq<Vec<Sample>>,
    b1: Seq<Vec<Sample>>,
    n: nat,
    bitrate_kbps: u32,
    mono: bool,
    r: BlockAction,
    ch: int,
    i: int,
)
    requires
        before.wf(),
        before.pipeline.ready,
        before.pipeline.h2i is None,
        before.pipeline.i2h is None,
        before.codec is Some,
        before.current_bitrate_kbps == bitrate_kbps,
        before.current_mono == mono,
        block_fits(b0, before.pipeline.channels as nat, n),
        processed(
            before,
            after,
            b0,
            b1,
            n,
            BlockEvent::Start,
            ChainMode::Coded { bitrate_kbps, mono },
            r,
        ),
        all_have(new_calls(before, after), before.pipeline.channels as nat),
        0 <= ch < before.pipeline.channels,
        0 <= i,
        before.samples_to_discard + i < stream(new_calls(before, after), ch).len(),
        before.pipeline.host_output@[ch]@.len() + before.pipeline.internal_output@[ch]@.len()
            + stream(new_calls(before, after), ch).len() >= n + before.samples_to_discard,
    ensures
        r is Done,
        ({
            let values = stream(new_calls(before, after), ch);
            let waiting = before.pipeline.host_output@[ch]@
                + before.pipeline.internal_output@[ch]@;
            let heard = b1[ch]@.take(n as int) + after.pipeline.host_output@[ch]@;
            &&& heard.take(waiting.len() as int) == waiting
            &&& plays(heard[waiting.len() + i], values[before.samples_to_discard + i])
        }),
{
    let mode = ChainMode::Coded { bitrate_kbps, mono };
    let p0 = before.pipeline;
    let p1 = choose|p1: ResampledPipeline|
        {
            &&& #[trigger] took_event(p0, p1, b0, n, BlockEvent::Start)
            &&& input_side(around(before, p1), after, b0, b1, n, mode, r)
        };
    assert(p1.h2i is None);
    assert(!(r is ResampleInput)) by {
        let c1 = around(before, p1);
        let (p2, chunk) = choose|p2: ResampledPipeline, chunk: Option<Vec<Vec<Sample>>>|
            {
                &&& #[trigger] pumped_input(c1.pipeline, p2, chunk)
                &&& match chunk {
                    Some(c) => {
                        &&& r == BlockAction::ResampleInput(c)
                        &&& after == around(c1, p2)
                        &&& b1 == b0
                    },
                    None => exists|coded: FdkChain|
                        {
                            &&& #[trigger] ran_codec(around(c1, p2), coded, mode)
                            &&& after == around(coded, after.pipeline)
                            &&& finished_block(coded.pipeline, after.pipeline, b0, b1, n, r)
                        },
                }
            };
        assert(chunk is None);
        let coded = choose|coded: FdkChain|
            {
                &&& #[trigger] ran_codec(around(c1, p2), coded, mode)
                &&& after == around(coded, after.pipeline)
                &&& finished_block(coded.pipeline, after.pipeline, b0, b1, n, r)
            };
    }
    let (start, coded) = lemma_coded_part(
        before,
        after,
        b0,
        b1,
        n,
        BlockEvent::Start,
        mode,
        r,
    );
    let mid = choose|mid: FdkChain|
        {
            &&& #[trigger] ensured_codec(start, mid, bitrate_kbps, mono)
            &&& mid.codec is Some ==> pumped_codec(mid, coded)
            &&& mid.codec is None ==> coded == (FdkChain { pipeline: coded.pipeline, ..mid })
                && muted_internal(mid.pipeline, coded.pipeline)
        };
    assert(mid == start);
    assert(new_calls(start, coded) == new_calls(before, after));
    assert(start.wf()) by {
        let q1 = choose|q1: ResampledPipeline|
            #[trigger] took_event(before.pipeline, q1, b0, n, BlockEvent::Start) && pumped_input(
                q1,
                start.pipeline,
                None,
            );
        assert(q1.h2i is None);
    }
    law_pump_plays_the_decoded_stream(start, coded, ch, i);
    let (p4, out) = choose|p4: ResampledPipeline, out: Option<Vec<Vec<Sample>>>|
        {
            &&& #[trigger] pumped_output(coded.pipeline, p4, out)
            &&& match out {
                Some(c) => {
                    &&& r == BlockAction::ResampleOutput(c)
                    &&& after.pipeline == p4
                    &&& b1 == b0
                },
                None => {
                    &&& r == BlockAction::Done
                    &&& drained_block(p4, after.pipeline, b0, b1, n)
                },
            }
        };
    assert(out is None);
    let waiting = p0.host_output@[ch]@ + p0.internal_output@[ch]@;
    let queue = coded.pipeline.internal_output@[ch]@;
    assert(p4.host_output@[ch]@ == p0.host_output@[ch]@ + queue);
    assert(b1[ch]@ == front(p4.host_output@[ch]@, n) + b0[ch]@.skip(n as int));
    let old_len = p0.internal_output@[ch]@.len() as int;
    assert(queue.take(old_len) == p0.internal_output@[ch]@);
    let heard = b1[ch]@.take(n as int) + after.pipeline.host_output@[ch]@;
    assert(p4.host_output@[ch]@.len() >= n);
    assert(heard =~= p4.host_output@[ch]@);
    assert(heard.take(waiting.len() as int) =~= waiting) by {
        assert forall|k: int| 0 <= k < waiting.len() implies #[trigger] heard[k] == waiting[k] by {
            if k >= p0.host_output@[ch]@.len() {
                let j = k - p0.host_output@[ch]@.len();
                assert(queue.take(old_len)[j] == queue[j]);
            }
        }
    }
    assert(heard[waiting.len() + i] == queue[old_len + i]);
}

}
