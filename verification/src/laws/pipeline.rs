//! The pipeline around a codec: every sample stays on its channel and in order.

use crate::processor::pipeline::{
    block_fits, drained_block, finished_block, muted_internal, passed_internal, pumped_input,
    pumped_output, took_event, BlockAction, BlockEvent, ResampledPipeline,
};
use crate::processor::rings::{front, rest};
use crate::sample::Sample;
use std::collections::VecDeque;
use vstd::prelude::*;

verus! {

/// What waits in a queue.
pub open spec fn at(rings: Vec<VecDeque<Sample>>, ch: int) -> Seq<Sample> {
    rings@[ch]@
}

/// A fresh block goes behind what waits at the host rate, a resampled chunk behind
/// what waits on its side of the codec: each on its own channel, and nothing else
/// moves.
pub proof fn law_events_enter_channel_by_channel(
    before: ResampledPipeline,
    after: ResampledPipeline,
    block: Seq<Vec<Sample>>,
    n: nat,
    event: BlockEvent,
    ch: int,
)
    requires
        before.wf(),
        before.ready,
        took_event(before, after, block, n, event),
        0 <= ch < before.channels,
    ensures
        at(after.host_input, ch) == at(before.host_input, ch) + match event {
            BlockEvent::Start => block[ch]@.take(n as int),
            _ => Seq::empty(),
        },
        at(after.internal_input, ch) == at(before.internal_input, ch) + match event {
            BlockEvent::InputResampled { out, produced } => out@[ch]@.take(produced as int),
            _ => Seq::empty(),
        },
        at(after.internal_output, ch) == at(before.internal_output, ch),
        at(after.host_output, ch) == at(before.host_output, ch) + match event {
            BlockEvent::OutputResampled { out, produced } => out@[ch]@.take(produced as int),
            _ => Seq::empty(),
        },
{
    assert(at(before.host_input, ch) + Seq::<Sample>::empty() =~= at(before.host_input, ch));
    assert(at(before.internal_input, ch) + Seq::<Sample>::empty() =~= at(
        before.internal_input,
        ch,
    ));
    assert(at(before.host_output, ch) + Seq::<Sample>::empty() =~= at(before.host_output, ch));
}

/// On the way to the codec nothing is lost, reordered or moved to another channel:
/// a chunk for the resampler, 20 ms long, is the front of what waited, and without
/// one all of it goes on.
pub proof fn law_input_moves_channel_by_channel(
    before: ResampledPipeline,
    after: ResampledPipeline,
    chunk: Option<Vec<Vec<Sample>>>,
    ch: int,
)
    requires
        before.wf(),
        before.ready,
        pumped_input(before, after, chunk),
        0 <= ch < before.channels,
        at(before.host_input, ch).len() == at(before.host_input, 0).len(),
    ensures
        chunk matches Some(c) ==> {
            &&& c@[ch]@.len() == before.host_rate as int / 50
            &&& c@[ch]@ + at(after.host_input, ch) == at(before.host_input, ch)
            &&& at(after.internal_input, ch) == at(before.internal_input, ch)
        },
        chunk is None ==> at(after.internal_input, ch) + at(after.host_input, ch) == at(
            before.internal_input,
            ch,
        ) + at(before.host_input, ch),
        chunk is None && before.host_rate == before.encode_rate ==> at(
            after.host_input,
            ch,
        ).len() == 0,
        at(after.internal_output, ch) == at(before.internal_output, ch),
        at(after.host_output, ch) == at(before.host_output, ch),
{
    let q = at(before.host_input, ch);
    match chunk {
        Some(c) => {
            let k = before.h2i_chunk as nat;
            assert(c@[ch]@ == front(q, k));
            assert(at(after.host_input, ch) == rest(q, k));
            assert(front(q, k) + rest(q, k) =~= q);
        },
        None => {
            if before.h2i is None {
                assert(at(after.host_input, ch) == Seq::<Sample>::empty());
                assert(at(after.internal_input, ch) == at(before.internal_input, ch) + q);
                assert(at(after.internal_input, ch) + Seq::<Sample>::empty() =~= at(
                    after.internal_input,
                    ch,
                ));
            }
        },
    }
}

/// On the way out, nothing is lost, reordered or moved to another channel: a chunk
/// for the resampler is the front of the codec's output; once there is none, the
/// block gets the front of what waits at the host rate, and the rest stays.
pub proof fn law_output_moves_channel_by_channel(
    before: ResampledPipeline,
    after: ResampledPipeline,
    b0: Seq<Vec<Sample>>,
    b1: Seq<Vec<Sample>>,
    n: nat,
    r: BlockAction,
    ch: int,
)
    requires
        before.wf(),
        before.ready,
        block_fits(b0, before.channels as nat, n),
        finished_block(before, after, b0, b1, n, r),
        0 <= ch < before.channels,
        at(before.internal_output, ch).len() == at(before.internal_output, 0).len(),
    ensures
        r is ResampleOutput || r is Done,
        before.decode_rate == before.host_rate ==> r is Done,
        r matches BlockAction::ResampleOutput(c) ==> {
            &&& c@[ch]@.len() == before.decode_rate as int / 50
            &&& c@[ch]@ + at(after.internal_output, ch) == at(before.internal_output, ch)
            &&& at(after.host_output, ch) == at(before.host_output, ch)
            &&& b1 == b0
        },
        r is Done ==> {
            let ready = at(before.host_output, ch) + (if before.i2h is None {
                at(before.internal_output, ch)
            } else {
                Seq::empty()
            });
            &&& ready.len() >= n ==> b1[ch]@.take(n as int) + at(after.host_output, ch) == ready
            &&& ready.len() < n ==> {
                &&& at(after.host_output, ch).len() == 0
                &&& b1[ch]@.take(ready.len() as int) == ready
                &&& forall|s: int| ready.len() <= s < n ==> #[trigger] b1[ch]@[s].bits == 0
            }
            &&& b1[ch]@.skip(n as int) == b0[ch]@.skip(n as int)
            &&& b1[ch].len() == b0[ch].len()
        },
{
    let (mid, chunk) = choose|mid: ResampledPipeline, chunk: Option<Vec<Vec<Sample>>>|
        {
            &&& #[trigger] pumped_output(before, mid, chunk)
            &&& match chunk {
                Some(c) => {
                    &&& r == BlockAction::ResampleOutput(c)
                    &&& after == mid
                    &&& b1 == b0
                },
                None => {
                    &&& r == BlockAction::Done
                    &&& drained_block(mid, after, b0, b1, n)
                },
            }
        };
    let q = at(before.internal_output, ch);
    match chunk {
        Some(c) => {
            let k = before.i2h_chunk as nat;
            assert(c@[ch]@ == front(q, k));
            assert(at(after.internal_output, ch) == rest(q, k));
            assert(front(q, k) + rest(q, k) =~= q);
        },
        None => {
            let ready = at(before.host_output, ch) + (if before.i2h is None {
                q
            } else {
                Seq::empty()
            });
            assert(at(mid.host_output, ch) =~= ready);
            assert(at(after.host_output, ch) == rest(ready, n));
            assert(b1[ch]@ == front(ready, n) + b0[ch]@.skip(n as int));
            assert(b0[ch].len() >= n);
            assert(b1[ch]@.skip(n as int) =~= b0[ch]@.skip(n as int));
            if ready.len() >= n {
                assert(b1[ch]@.take(n as int) =~= front(ready, n));
                assert(front(ready, n) + rest(ready, n) =~= ready);
            } else {
                assert(b1[ch]@.take(ready.len() as int) =~= ready);
            }
        },
    }
}

/// Passing through hands everything over channel by channel; muting hands over as
/// much silence.
pub proof fn law_codec_stages_keep_lengths(
    before: ResampledPipeline,
    after: ResampledPipeline,
    ch: int,
)
    requires
        before.wf(),
        before.ready,
        0 <= ch < before.channels,
    ensures
        passed_internal(before, after) ==> {
            &&& at(after.internal_output, ch) == at(before.internal_output, ch) + at(
                before.internal_input,
                ch,
            )
            &&& at(after.internal_input, ch).len() == 0
        },
        muted_internal(before, after) ==> {
            let old_len = at(before.internal_output, ch).len();
            let added = at(before.internal_input, ch).len();
            &&& at(after.internal_output, ch).len() == old_len + added
            &&& at(after.internal_output, ch).take(old_len as int) == at(
                before.internal_output,
                ch,
            )
            &&& forall|s: int|
                old_len <= s < old_len + added ==> (#[trigger] at(
                    after.internal_output,
                    ch,
                )[s]).bits == 0
            &&& at(after.internal_input, ch).len() == 0
        },
{
    if muted_internal(before, after) {
        assert(at(after.internal_output, ch).take(at(before.internal_output, ch).len() as int)
            =~= at(before.internal_output, ch));
        assert(at(after.internal_input, ch) == Seq::<Sample>::empty());
    }
    if passed_internal(before, after) {
        assert(after.internal_input@[ch]@ == Seq::<Sample>::empty());
    }
}

}
