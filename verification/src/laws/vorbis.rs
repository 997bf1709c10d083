//! Vorbis: what libvorbis gets, and what is heard of what it gives back.

use crate::laws::pipeline::{
    at, law_events_enter_channel_by_channel, law_input_moves_channel_by_channel,
    law_output_moves_channel_by_channel,
};
use crate::processor::pipeline::{
    block_fits, finished_block, pumped_input, took_event, BlockAction, BlockEvent,
    ResampledPipeline,
};
use crate::processor::rings::front;
use crate::processor::vorbis::{
    accepted_run, accepted_runs, around, coded_after, entered, played_through, processed, run_fits,
    vorbis_event_fits, VorbisAction, VorbisEvent, VorbisMode, VorbisProcessor,
};
use crate::sample::Sample;
use vstd::prelude::*;

verus! {

/// libvorbis gets everything that waits, each channel as a channel of its own: on a
/// host at 44.1 kHz what was there, and the block's own samples behind it.
pub proof fn law_vorbis_gets_channel_by_channel(
    before: VorbisProcessor,
    after: VorbisProcessor,
    b0: Seq<Vec<Sample>>,
    b1: Seq<Vec<Sample>>,
    n: nat,
    bitrate_kbps: u32,
    pending: Vec<Vec<Sample>>,
    ch: int,
)
    requires
        before.wf(),
        before.pipeline.ready,
        before.pipeline.host_rate == 44_100,
        block_fits(b0, before.pipeline.channels as nat, n),
        processed(
            before,
            after,
            b0,
            b1,
            n,
            VorbisEvent::Block(BlockEvent::Start),
            VorbisMode::Vorbis { bitrate_kbps },
            VorbisAction::Code(pending),
        ),
        0 <= ch < before.pipeline.channels,
        at(before.pipeline.host_input, ch).len() == at(before.pipeline.host_input, 0).len(),
        at(before.pipeline.internal_input, ch).len() == at(
            before.pipeline.internal_input,
            0,
        ).len(),
    ensures
        b1 == b0,
        before.codec_open,
        before.current_bitrate_kbps == bitrate_kbps,
        pending.len() == before.pipeline.channels,
        pending@[ch]@ == at(before.pipeline.internal_input, ch) + at(
            before.pipeline.host_input,
            ch,
        ) + b0[ch]@.take(n as int),
        at(after.pipeline.internal_input, ch).len() == 0,
        after.pipeline.internal_output == before.pipeline.internal_output,
{
    let mode = VorbisMode::Vorbis { bitrate_kbps };
    let event = VorbisEvent::Block(BlockEvent::Start);
    let r = VorbisAction::Code(pending);
    let (c2, c3, todo) = choose|
        c2: VorbisProcessor,
        c3: VorbisProcessor,
        todo: Option<VorbisAction>,
    |
        {
            &&& #[trigger] coded_after(c2, c3, mode, event, todo)
            &&& entered(before, c2, b0, n, event, mode)
            &&& match todo {
                Some(action) => r == action && after == c3 && b1 == b0,
                None => r is Block,
            }
        };
    let p1 = choose|p1: ResampledPipeline|
        #[trigger] took_event(before.pipeline, p1, b0, n, BlockEvent::Start) && pumped_input(
            p1,
            c2.pipeline,
            None,
        );
    law_events_enter_channel_by_channel(before.pipeline, p1, b0, n, BlockEvent::Start, ch);
    law_events_enter_channel_by_channel(before.pipeline, p1, b0, n, BlockEvent::Start, 0);
    assert(b0[ch].len() >= n && b0[0].len() >= n);
    law_input_moves_channel_by_channel(p1, c2.pipeline, None, ch);
    law_input_moves_channel_by_channel(p1, c2.pipeline, None, 0);
    let q = at(c2.pipeline.internal_input, ch);
    assert(q + at(c2.pipeline.host_input, ch) =~= q);
    let q0 = at(c2.pipeline.internal_input, 0);
    assert(q0 + at(c2.pipeline.host_input, 0) =~= q0);
    assert(q =~= at(before.pipeline.internal_input, ch) + at(before.pipeline.host_input, ch)
        + b0[ch]@.take(n as int));
    assert(pending@[ch]@ == front(q, q0.len()));
    assert(front(q, q0.len()) =~= q);
    assert(c3.pipeline.internal_input@[ch]@ == crate::processor::rings::rest(q, q0.len()));
}

/// A run is heard channel by channel, once the warm-up still to come has been
/// dropped from its front on every channel alike.
pub proof fn law_vorbis_run_plays_channel_by_channel(
    before: VorbisProcessor,
    after: VorbisProcessor,
    run: Seq<Vec<Sample>>,
    ch: int,
    s: int,
)
    requires
        before.wf(),
        before.pipeline.ready,
        run_fits(run, before.pipeline.channels as nat),
        accepted_run(before, after, run),
        0 <= ch < before.pipeline.channels,
        0 <= s,
        before.samples_to_discard + s < run[0].len(),
    ensures
        ({
            let old_queue = at(before.pipeline.internal_output, ch);
            let queue = at(after.pipeline.internal_output, ch);
            &&& queue.len() == old_queue.len() + run[0].len() - before.samples_to_discard
            &&& queue.take(old_queue.len() as int) == old_queue
            &&& queue[old_queue.len() + s] == run[ch]@[before.samples_to_discard + s]
            &&& after.samples_to_discard == 0
        }),
{
    assert(at(after.pipeline.internal_output, ch).take(
        at(before.pipeline.internal_output, ch).len() as int,
    ) =~= at(before.pipeline.internal_output, ch));
    assert(run[ch].len() == run[0].len());
}

/// A run all of which is warm-up is not heard, and shortens the warm-up by itself.
pub proof fn law_vorbis_warm_up_is_not_heard(
    before: VorbisProcessor,
    after: VorbisProcessor,
    run: Seq<Vec<Sample>>,
    ch: int,
)
    requires
        before.wf(),
        before.pipeline.ready,
        run_fits(run, before.pipeline.channels as nat),
        accepted_run(before, after, run),
        0 <= ch < before.pipeline.channels,
        run[0].len() <= before.samples_to_discard,
    ensures
        at(after.pipeline.internal_output, ch) == at(before.pipeline.internal_output, ch),
        after.samples_to_discard + run[0].len() == before.samples_to_discard,
{
    assert(run[ch].len() == run[0].len());
    assert(at(after.pipeline.internal_output, ch) =~= at(before.pipeline.internal_output, ch));
}

/// What comes back from libvorbis in one run, with no warm-up left, fills the block
/// on a host at 44.1 kHz: channel `ch` hears channel `ch` of the run, behind what
/// waited there.
pub proof fn law_vorbis_block_plays_channel_by_channel(
    before: VorbisProcessor,
    after: VorbisProcessor,
    b0: Seq<Vec<Sample>>,
    b1: Seq<Vec<Sample>>,
    n: nat,
    mode: VorbisMode,
    runs: Vec<Vec<Vec<Sample>>>,
    r: VorbisAction,
    ch: int,
)
    requires
        before.wf(),
        before.pipeline.ready,
        before.pipeline.host_rate == 44_100,
        before.pipeline.decode_rate == 44_100,
        before.samples_to_discard == 0,
        block_fits(b0, before.pipeline.channels as nat, n),
        runs.len() == 1,
        vorbis_event_fits(VorbisEvent::Coded(runs), before.pipeline.channels as nat),
        processed(before, after, b0, b1, n, VorbisEvent::Coded(runs), mode, r),
        0 <= ch < before.pipeline.channels,
        at(before.pipeline.internal_output, ch).len() == at(
            before.pipeline.internal_output,
            0,
        ).len(),
        at(before.pipeline.host_output, ch).len() + at(before.pipeline.internal_output, ch).len()
            + runs@[0]@[0].len() >= n,
    ensures
        r == VorbisAction::Block(BlockAction::Done),
        b1[ch]@.take(n as int) + at(after.pipeline.host_output, ch) == at(
            before.pipeline.host_output,
            ch,
        ) + at(before.pipeline.internal_output, ch) + runs@[0]@[ch]@,
{
    let event = VorbisEvent::Coded(runs);
    let c1 = choose|c1: VorbisProcessor|
        {
            &&& #[trigger] accepted_runs(before, c1, runs@)
            &&& after == around(c1, after.pipeline)
            &&& finished_block(c1.pipeline, after.pipeline, b0, b1, n, r->Block_0)
        };
    let states = choose|states: Seq<VorbisProcessor>|
        {
            &&& #[trigger] played_through(states, runs@, runs@.len())
            &&& states.first() == before
            &&& states.last() == c1
        };
    assert(accepted_run(states[0], states[1], runs@[0]@));
    assert(run_fits(runs@[0]@, before.pipeline.channels as nat));
    assert(runs@[0]@[ch].len() == runs@[0]@[0].len());
    let run = runs@[0]@;
    assert(run[ch]@.skip(0) =~= run[ch]@);
    assert(run[0]@.skip(0) =~= run[0]@);
    assert(c1.pipeline.internal_output@[ch]@ == before.pipeline.internal_output@[ch]@ + run[ch]@);
    assert(c1.pipeline.internal_output@[0]@ == before.pipeline.internal_output@[0]@ + run[0]@);
    law_output_moves_channel_by_channel(
        c1.pipeline,
        after.pipeline,
        b0,
        b1,
        n,
        r->Block_0,
        ch,
    );
    let ready = at(c1.pipeline.host_output, ch) + at(c1.pipeline.internal_output, ch);
    assert(ready =~= at(before.pipeline.host_output, ch) + at(before.pipeline.internal_output, ch)
        + run[ch]@);
}

/// A block asks for a codec at its own bitrate unless that is the one open; what
/// opened has 1024 samples of warm-up ahead of it.
pub proof fn law_vorbis_block_runs_at_its_bitrate(
    before: VorbisProcessor,
    after: VorbisProcessor,
    b0: Seq<Vec<Sample>>,
    b1: Seq<Vec<Sample>>,
    n: nat,
    event: VorbisEvent,
    bitrate_kbps: u32,
    r: VorbisAction,
)
    requires
        before.wf(),
        before.pipeline.ready,
        bitrate_kbps <= i32::MAX,
        processed(before, after, b0, b1, n, event, VorbisMode::Vorbis { bitrate_kbps }, r),
    ensures
        r matches VorbisAction::OpenCodec(kbps) ==> kbps == bitrate_kbps && event is Block && b1
            == b0,
        event is Block && r is Code ==> before.codec_open && before.current_bitrate_kbps
            == bitrate_kbps,
        event matches VorbisEvent::CodecTried { opened } ==> {
            &&& after.codec_open == opened
            &&& opened ==> after.current_bitrate_kbps == bitrate_kbps && after.samples_to_discard
                == 1024
            &&& !opened ==> after.current_bitrate_kbps == -1
        },
{
}

}
