//! The mono tiers: both host channels sound alike.

use crate::laws::aac::lemma_coded_part;
use crate::laws::pipeline::{
    at, law_codec_stages_keep_lengths, law_events_enter_channel_by_channel,
    law_input_moves_channel_by_channel, law_output_moves_channel_by_channel,
};
use crate::processor::fdk::decoder_calls;
use crate::processor::fdk_chain::{
    ensured_codec, input_side, law_mono_plays_alike_on_both, one_channel, processed, pumped_codec,
    around, ChainMode, FdkChain,
};
use crate::processor::pipeline::{
    block_fits, event_fits, finished_block, muted_internal, pumped_input, took_event, BlockAction,
    BlockEvent, ResampledPipeline,
};
use crate::sample::Sample;
use vstd::prelude::*;

verus! {

/// What waits to be heard is the same on both channels, and as much waits to be
/// coded on the one as on the other.
pub open spec fn alike(p: ResampledPipeline) -> bool {
    &&& at(p.host_output, 0) == at(p.host_output, 1)
    &&& at(p.internal_output, 0) == at(p.internal_output, 1)
    &&& at(p.host_input, 0).len() == at(p.host_input, 1).len()
    &&& at(p.internal_input, 0).len() == at(p.internal_input, 1).len()
}

/// A resampler that gets the same on both channels gives the same on both.
pub open spec fn replies_alike(event: BlockEvent) -> bool {
    event matches BlockEvent::OutputResampled { out, produced } ==> out@[0]@.take(
        produced as int,
    ) == out@[1]@.take(produced as int)
}

proof fn lemma_event_keeps_alike(
    before: ResampledPipeline,
    after: ResampledPipeline,
    b0: Seq<Vec<Sample>>,
    n: nat,
    event: BlockEvent,
)
    requires
        before.wf(),
        before.ready,
        before.channels == 2,
        alike(before),
        block_fits(b0, 2, n),
        event_fits(event, 2),
        replies_alike(event),
        took_event(before, after, b0, n, event),
    ensures
        after.wf(),
        after.ready,
        after.channels == 2,
        alike(after),
{
    law_events_enter_channel_by_channel(before, after, b0, n, event, 0);
    law_events_enter_channel_by_channel(before, after, b0, n, event, 1);
    assert(b0[0].len() >= n && b0[1].len() >= n);
    if let BlockEvent::InputResampled { out, produced } = event {
        assert(out@[0].len() >= produced && out@[1].len() >= produced);
    }
}

proof fn lemma_finish_keeps_alike(
    before: ResampledPipeline,
    after: ResampledPipeline,
    b0: Seq<Vec<Sample>>,
    b1: Seq<Vec<Sample>>,
    n: nat,
    r: BlockAction,
)
    requires
        before.wf(),
        before.ready,
        before.channels == 2,
        alike(before),
        block_fits(b0, 2, n),
        finished_block(before, after, b0, b1, n, r),
    ensures
        at(after.host_output, 0) == at(after.host_output, 1),
        at(after.internal_output, 0) == at(after.internal_output, 1),
        at(after.host_input, 0).len() == at(after.host_input, 1).len(),
        at(after.internal_input, 0).len() == at(after.internal_input, 1).len(),
        r is Done ==> b1[0]@.take(n as int) == b1[1]@.take(n as int),
        r matches BlockAction::ResampleOutput(c) ==> c@[0]@ == c@[1]@,
{
    law_output_moves_channel_by_channel(before, after, b0, b1, n, r, 0);
    law_output_moves_channel_by_channel(before, after, b0, b1, n, r, 1);
    let (mid, chunk) = choose|mid: ResampledPipeline, chunk: Option<Vec<Vec<Sample>>>|
        {
            &&& #[trigger] crate::processor::pipeline::pumped_output(before, mid, chunk)
            &&& match chunk {
                Some(c) => {
                    &&& r == BlockAction::ResampleOutput(c)
                    &&& after == mid
                    &&& b1 == b0
                },
                None => {
                    &&& r == BlockAction::Done
                    &&& crate::processor::pipeline::drained_block(mid, after, b0, b1, n)
                },
            }
        };
    match r {
        BlockAction::ResampleOutput(c) => {
            let q = at(before.internal_output, 0);
            assert(c@[0]@ =~= q.take(c@[0]@.len() as int));
            assert(c@[1]@ =~= q.take(c@[0]@.len() as int));
            assert(at(after.internal_output, 0) =~= q.skip(c@[0]@.len() as int));
            assert(at(after.internal_output, 1) =~= q.skip(c@[0]@.len() as int));
        },
        _ => {
            let ready = at(before.host_output, 0) + (if before.i2h is None {
                at(before.internal_output, 0)
            } else {
                Seq::empty()
            });
            assert(b0[0].len() >= n && b0[1].len() >= n);
            if before.i2h is None {
                assert(mid.internal_output@[0]@ == Seq::<Sample>::empty());
                assert(mid.internal_output@[1]@ == Seq::<Sample>::empty());
            }
            if ready.len() >= n {
                assert(b1[0]@.take(n as int) =~= ready.take(n as int));
                assert(b1[1]@.take(n as int) =~= ready.take(n as int));
                assert(at(after.host_output, 0) =~= ready.skip(n as int));
                assert(at(after.host_output, 1) =~= ready.skip(n as int));
            } else {
                assert(at(after.host_output, 0) =~= at(after.host_output, 1));
                let x = b1[0]@.take(n as int);
                let y = b1[1]@.take(n as int);
                assert forall|s: int| 0 <= s < n implies #[trigger] x[s] == y[s] by {
                    if s < ready.len() {
                        assert(b1[0]@.take(ready.len() as int)[s] == ready[s]);
                        assert(b1[1]@.take(ready.len() as int)[s] == ready[s]);
                    } else {
                        assert(b1[0]@[s].bits == 0 && b1[1]@[s].bits == 0);
                    }
                }
                assert(x =~= y);
            }
        },
    }
}

proof fn lemma_input_keeps_alike(
    before: ResampledPipeline,
    after: ResampledPipeline,
    chunk: Option<Vec<Vec<Sample>>>,
)
    requires
        before.wf(),
        before.ready,
        before.channels == 2,
        alike(before),
        pumped_input(before, after, chunk),
    ensures
        after.wf(),
        after.ready,
        after.channels == 2,
        alike(after),
{
    law_input_moves_channel_by_channel(before, after, chunk, 0);
    law_input_moves_channel_by_channel(before, after, chunk, 1);
    assert(after.host_input@[0]@.len() == after.host_input@[1]@.len());
}

/// A step on a mono tier plays the same on both host channels, whatever the two
/// channels of the input hold, as long as the decoder gives frames of one channel:
/// with a codec, without one, and with resamplers on both sides.
pub proof fn law_mono_block_sounds_alike(
    before: FdkChain,
    after: FdkChain,
    b0: Seq<Vec<Sample>>,
    b1: Seq<Vec<Sample>>,
    n: nat,
    event: BlockEvent,
    bitrate_kbps: u32,
    r: BlockAction,
)
    requires
        before.wf(),
        before.family is AacLc,
        before.pipeline.ready,
        before.pipeline.channels == 2,
        alike(before.pipeline),
        block_fits(b0, 2, n),
        event_fits(event, 2),
        replies_alike(event),
        bitrate_kbps <= i32::MAX,
        processed(
            before,
            after,
            b0,
            b1,
            n,
            event,
            ChainMode::Coded { bitrate_kbps, mono: true },
            r,
        ),
        after.codec matches Some(codec) ==> one_channel(decoder_calls(codec.decoder)),
    ensures
        alike(after.pipeline),
        r is Done ==> b1[0]@.take(n as int) == b1[1]@.take(n as int),
        r matches BlockAction::ResampleOutput(c) ==> c@[0]@ == c@[1]@,
{
    let mode = ChainMode::Coded { bitrate_kbps, mono: true };
    if event is OutputResampled {
        let p1 = choose|p1: ResampledPipeline|
            #[trigger] took_event(before.pipeline, p1, b0, n, event) && finished_block(
                p1,
                after.pipeline,
                b0,
                b1,
                n,
                r,
            );
        lemma_event_keeps_alike(before.pipeline, p1, b0, n, event);
        lemma_finish_keeps_alike(p1, after.pipeline, b0, b1, n, r);
    } else if r is ResampleInput {
        lemma_chunk_keeps_alike(before, after, b0, b1, n, event, mode, r);
    } else {
        let (start, coded) = lemma_coded_part(before, after, b0, b1, n, event, mode, r);
        let p1 = choose|p1: ResampledPipeline|
            #[trigger] took_event(before.pipeline, p1, b0, n, event) && pumped_input(
                p1,
                start.pipeline,
                None,
            );
        lemma_event_keeps_alike(before.pipeline, p1, b0, n, event);
        lemma_input_keeps_alike(p1, start.pipeline, None);
        let mid = choose|mid: FdkChain|
            {
                &&& #[trigger] ensured_codec(start, mid, bitrate_kbps, true)
                &&& mid.codec is Some ==> pumped_codec(mid, coded)
                &&& mid.codec is None ==> coded == (FdkChain { pipeline: coded.pipeline, ..mid })
                    && muted_internal(mid.pipeline, coded.pipeline)
            };
        assert(mid.pipeline == start.pipeline);
        if mid.codec is Some {
            assert(mid.wf());
            law_mono_plays_alike_on_both(mid, coded);
            let tail = choose|tail: Seq<Sample>|
                {
                    &&& #[trigger] (mid.pipeline.internal_output@[0]@ + tail)
                        == coded.pipeline.internal_output@[0]@
                    &&& mid.pipeline.internal_output@[1]@ + tail
                        == coded.pipeline.internal_output@[1]@
                };
            assert(coded.pipeline.internal_input@[0]@.len()
                == coded.pipeline.internal_input@[1]@.len());
        } else {
            law_codec_stages_keep_lengths(mid.pipeline, coded.pipeline, 0);
            law_codec_stages_keep_lengths(mid.pipeline, coded.pipeline, 1);
            lemma_same_silence(mid.pipeline, coded.pipeline);
        }
        lemma_finish_keeps_alike(coded.pipeline, after.pipeline, b0, b1, n, r);
    }
}

proof fn lemma_same_silence(before: ResampledPipeline, after: ResampledPipeline)
    requires
        before.wf(),
        before.ready,
        before.channels == 2,
        alike(before),
        muted_internal(before, after),
    ensures
        at(after.internal_output, 0) == at(after.internal_output, 1),
{
    assert(after.internal_output@[0]@ == before.internal_output@[0]@
        + crate::processor::rings::zeros(before.internal_input@[0]@.len()));
    assert(after.internal_output@[1]@ == before.internal_output@[1]@
        + crate::processor::rings::zeros(before.internal_input@[1]@.len()));
}

proof fn lemma_chunk_keeps_alike(
    before: FdkChain,
    after: FdkChain,
    b0: Seq<Vec<Sample>>,
    b1: Seq<Vec<Sample>>,
    n: nat,
    event: BlockEvent,
    mode: ChainMode,
    r: BlockAction,
)
    requires
        before.wf(),
        before.pipeline.ready,
        before.pipeline.channels == 2,
        alike(before.pipeline),
        block_fits(b0, 2, n),
        event_fits(event, 2),
        !(event is OutputResampled),
        r is ResampleInput,
        processed(before, after, b0, b1, n, event, mode, r),
    ensures
        alike(after.pipeline),
{
    let p1 = choose|p1: ResampledPipeline|
        {
            &&& #[trigger] took_event(before.pipeline, p1, b0, n, event)
            &&& input_side(around(before, p1), after, b0, b1, n, mode, r)
        };
    lemma_event_keeps_alike(before.pipeline, p1, b0, n, event);
    let c1 = around(before, p1);
    let (p2, chunk) = choose|p2: ResampledPipeline, chunk: Option<Vec<Vec<Sample>>>|
        {
            &&& #[trigger] pumped_input(c1.pipeline, p2, chunk)
            &&& match chunk {
                Some(c) => {
                    &&& r == BlockAction::ResampleInput(c)
                    &&& after == around(c1, p2)
                    &&& b1 == b0
                },
                None => exists|coded: FdkChain|
                    {
                        &&& #[trigger] crate::processor::fdk_chain::ran_codec(
                            around(c1, p2),
                            coded,
                            mode,
                        )
                        &&& after == around(coded, after.pipeline)
                        &&& finished_block(coded.pipeline, after.pipeline, b0, b1, n, r)
                    },
            }
        };
    lemma_input_keeps_alike(p1, p2, chunk);
}

}
