//! Opus: what libopus gets, what is heard of its frames, and at which bitrate.

use crate::laws::pipeline::{
    at, law_events_enter_channel_by_channel, law_input_moves_channel_by_channel,
};
use crate::processor::opus::{
    accepted_frame, entered, frame_fits, processed, pumped_codec, OpusAction, OpusEvent, OpusMode,
    OpusOutcome, OpusProcessor,
};
use crate::processor::pipeline::{
    block_fits, lemma_interleaved_index, pumped_input, took_event, BlockEvent, ResampledPipeline,
};
use crate::sample::Sample;
use vstd::prelude::*;

verus! {

/// A frame for libopus holds 960 samples per channel, interleaved: sample `s` of
/// channel `ch` stands at `s * channels + ch` and is the `s`-th that waited on that
/// channel. They leave the queue, and the rest stays.
pub proof fn law_opus_gets_the_channels_interleaved(
    before: OpusProcessor,
    after: OpusProcessor,
    bitrate_kbps: u32,
    frame: Vec<Sample>,
    ch: int,
    s: int,
)
    requires
        before.wf(),
        before.pipeline.ready,
        pumped_codec(before, after, OpusMode::Opus { bitrate_kbps }, Some(frame)),
        0 <= ch < before.pipeline.channels,
        at(before.pipeline.internal_input, ch).len() >= 960,
        0 <= s < 960,
    ensures
        frame.len() == 960 * before.pipeline.channels,
        frame@[s * before.pipeline.channels + ch] == at(before.pipeline.internal_input, ch)[s],
        at(after.pipeline.internal_input, ch) == at(before.pipeline.internal_input, ch).skip(960),
        after.pipeline.internal_output == before.pipeline.internal_output,
{
    lemma_interleaved_index(s, ch, 960, before.pipeline.channels as int);
    let i = s * before.pipeline.channels + ch;
    assert(frame@[i] == crate::processor::frames::interleaved_sample(
        before.pipeline.internal_input@,
        960,
        i,
    ));
}

/// A frame is heard channel by channel: sample `s` of host channel `ch` is what
/// stands at `s * channels + ch` of the decoded frame. An encoder that failed
/// leaves 20 ms of silence, one that gave no packet the frame itself.
pub proof fn law_opus_frame_plays_channel_by_channel(
    before: OpusProcessor,
    after: OpusProcessor,
    frame: Seq<Sample>,
    outcome: OpusOutcome,
    ch: int,
    s: int,
)
    requires
        before.wf(),
        before.pipeline.ready,
        frame_fits(frame, outcome, before.pipeline.channels as nat),
        accepted_frame(before, after, frame, outcome),
        0 <= ch < before.pipeline.channels,
        0 <= s < 960,
    ensures
        ({
            let old_queue = at(before.pipeline.internal_output, ch);
            let queue = at(after.pipeline.internal_output, ch);
            let place = s * before.pipeline.channels + ch;
            &&& queue.len() == old_queue.len() + 960
            &&& queue.take(old_queue.len() as int) == old_queue
            &&& match outcome {
                OpusOutcome::EncodeFailed => queue[old_queue.len() + s].bits == 0,
                OpusOutcome::NoPacket => queue[old_queue.len() + s] == frame[place],
                OpusOutcome::Decoded(decoded) => queue[old_queue.len() + s] == decoded@[place],
            }
        }),
{
    lemma_interleaved_index(s, ch, 960, before.pipeline.channels as int);
    assert(at(after.pipeline.internal_output, ch).take(
        at(before.pipeline.internal_output, ch).len() as int,
    ) =~= at(before.pipeline.internal_output, ch));
}

/// The first frame of a block on a host at 48 kHz: channel `ch` of it is what waited
/// on host channel `ch`, and the block's own samples of that channel behind it.
pub proof fn law_opus_block_is_coded_channel_by_channel(
    before: OpusProcessor,
    after: OpusProcessor,
    b0: Seq<Vec<Sample>>,
    b1: Seq<Vec<Sample>>,
    n: nat,
    bitrate_kbps: u32,
    frame: Vec<Sample>,
    ch: int,
    s: int,
)
    requires
        before.wf(),
        before.pipeline.ready,
        before.pipeline.host_rate == 48_000,
        block_fits(b0, before.pipeline.channels as nat, n),
        processed(
            before,
            after,
            b0,
            b1,
            n,
            OpusEvent::Block(BlockEvent::Start),
            OpusMode::Opus { bitrate_kbps },
            OpusAction::Code(frame),
        ),
        0 <= ch < before.pipeline.channels,
        at(before.pipeline.host_input, ch).len() == at(before.pipeline.host_input, 0).len(),
        0 <= s < 960,
        at(before.pipeline.internal_input, ch).len() + at(before.pipeline.host_input, ch).len() + n
            >= 960,
    ensures
        b1 == b0,
        before.current_bitrate_bps == bitrate_kbps * 1000,
        frame@[s * before.pipeline.channels + ch] == (at(before.pipeline.internal_input, ch) + at(
            before.pipeline.host_input,
            ch,
        ) + b0[ch]@.take(n as int))[s],
{
    let mode = OpusMode::Opus { bitrate_kbps };
    let event = OpusEvent::Block(BlockEvent::Start);
    let r = OpusAction::Code(frame);
    let (c2, c3, f) = choose|c2: OpusProcessor, c3: OpusProcessor, f: Option<Vec<Sample>>|
        {
            &&& #[trigger] pumped_codec(c2, c3, mode, f)
            &&& entered(before, c2, b0, n, event)
            &&& match f {
                Some(f) => r == OpusAction::Code(f) && after == c3 && b1 == b0,
                None => r is Block,
            }
        };
    let p1 = choose|p1: ResampledPipeline|
        #[trigger] took_event(before.pipeline, p1, b0, n, BlockEvent::Start) && pumped_input(
            p1,
            c2.pipeline,
            None,
        );
    law_events_enter_channel_by_channel(before.pipeline, p1, b0, n, BlockEvent::Start, ch);
    law_events_enter_channel_by_channel(before.pipeline, p1, b0, n, BlockEvent::Start, 0);
    assert(b0[ch].len() >= n && b0[0].len() >= n);
    law_input_moves_channel_by_channel(p1, c2.pipeline, None, ch);
    let q = at(c2.pipeline.internal_input, ch);
    assert(q + at(c2.pipeline.host_input, ch) =~= q);
    assert(q =~= at(before.pipeline.internal_input, ch) + at(before.pipeline.host_input, ch)
        + b0[ch]@.take(n as int));
    assert(c2.wf());
    law_opus_gets_the_channels_interleaved(c2, c3, bitrate_kbps, frame, ch, s);
}

/// A block at another bitrate than the encoder's asks for the new one, a thousand
/// times the kilobits, before anything is taken; the reply is noted where the
/// encoder accepted it and only there.
pub proof fn law_opus_bitrate_is_set_first(
    before: OpusProcessor,
    after: OpusProcessor,
    b0: Seq<Vec<Sample>>,
    b1: Seq<Vec<Sample>>,
    n: nat,
    event: OpusEvent,
    bitrate_kbps: u32,
    r: OpusAction,
)
    requires
        before.wf(),
        before.pipeline.ready,
        bitrate_kbps * 1000 <= i32::MAX,
        processed(before, after, b0, b1, n, event, OpusMode::Opus { bitrate_kbps }, r),
    ensures
        r matches OpusAction::SetBitrate(bps) ==> bps == 1000 * bitrate_kbps && after == before
            && b1 == b0,
        event == OpusEvent::Block(BlockEvent::Start) ==> (r is SetBitrate
            <==> before.current_bitrate_bps != 1000 * bitrate_kbps),
        event matches OpusEvent::BitrateTried { bps, accepted } ==> {
            &&& accepted ==> after.current_bitrate_bps == bps
            &&& !accepted ==> after.current_bitrate_bps == before.current_bitrate_bps
        },
        !(event is BitrateTried) ==> after.current_bitrate_bps == before.current_bitrate_bps,
{
}

}
