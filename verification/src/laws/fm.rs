//! FM radio: left stays left and right stays right, all the way through the MPX
//! stage and the delay.

use crate::laws::pipeline::at;
use crate::processor::fm_mpx::{
    entered, mpx_event_fits, pumped_down, pumped_up, sent, stepped, MpxAction, MpxEvent,
    MpxPipeline, MPX_RATE,
};
use crate::processor::fm_radio::{
    conditioned, is_clipped, law_delay_is_exact, mpx_stepped, processed, FmAction, FmEvent,
    FmRadioMode, FmRadioProcessor, FmRadioVariant, CLIP_CEILING_BITS,
};
use crate::processor::pipeline::block_fits;
use crate::processor::rings::{front, rest};
use crate::sample::Sample;
use vstd::prelude::*;

verus! {

/// What a reply brings to a channel at 192 kHz, before the composite encoder.
pub open spec fn brought_up(event: MpxEvent, ch: int) -> Seq<Sample> {
    match event {
        MpxEvent::Upsampled { out, produced } => out@[ch]@.take(produced as int),
        _ => Seq::empty(),
    }
}

/// What a reply brings to a channel at 192 kHz, after the decoder.
pub open spec fn brought_back(event: MpxEvent, ch: int) -> Seq<Sample> {
    match event {
        MpxEvent::Transmitted(out) => out@[ch]@,
        _ => Seq::empty(),
    }
}

/// What a reply brings to a channel at the host rate.
pub open spec fn brought_down(event: MpxEvent, ch: int) -> Seq<Sample> {
    match event {
        MpxEvent::Downsampled { out, produced } => out@[ch]@.take(produced as int),
        _ => Seq::empty(),
    }
}

/// What waits of one channel, stage by stage.
pub struct Lane {
    pub host_input: Seq<Sample>,
    pub mpx: Seq<Sample>,
    pub decoded: Seq<Sample>,
    pub host_output: Seq<Sample>,
}

pub open spec fn lane(p: MpxPipeline, ch: int) -> Lane {
    Lane {
        host_input: at(p.host_input, ch),
        mpx: at(p.mpx, ch),
        decoded: at(p.decoded, ch),
        host_output: at(p.host_output, ch),
    }
}

proof fn lemma_down(before: MpxPipeline, after: MpxPipeline, r: MpxAction, ch: int)
    requires
        before.wf(),
        before.ready,
        pumped_down(before, after, r),
        0 <= ch < 2,
    ensures
        lane(after, ch).host_input == lane(before, ch).host_input,
        lane(after, ch).mpx == lane(before, ch).mpx,
        r is Downsample || r is Done,
        before.m2h is None ==> r is Done,
        r matches MpxAction::Downsample(c) ==> {
            &&& c@.len() == 2
            &&& c@[ch]@ + lane(after, ch).decoded == lane(before, ch).decoded
            &&& c@[ch].len() == before.m2h_chunk
            &&& lane(after, ch).host_output == lane(before, ch).host_output
        },
        r is Done && before.m2h is Some ==> lane(after, ch) == lane(before, ch),
        r is Done && before.m2h is None ==> {
            &&& lane(after, ch).decoded == Seq::<Sample>::empty()
            &&& lane(after, ch).host_output == lane(before, ch).host_output + lane(
                before,
                ch,
            ).decoded
        },
{
    if let MpxAction::Downsample(c) = r {
        let q = lane(before, ch).decoded;
        let k = before.m2h_chunk as nat;
        assert(q.len() >= k);
        assert(c@[ch]@ == front(q, k));
        assert(at(after.decoded, ch) == rest(q, k));
        assert(front(q, k) + rest(q, k) =~= q);
    } else if before.m2h is None {
        assert(after.decoded@[ch]@ == Seq::<Sample>::empty());
    }
}

proof fn lemma_up(
    before: MpxPipeline,
    after: MpxPipeline,
    chunk: Option<Vec<Vec<Sample>>>,
    ch: int,
)
    requires
        before.wf(),
        before.ready,
        pumped_up(before, after, chunk),
        0 <= ch < 2,
    ensures
        after.wf(),
        lane(after, ch).decoded == lane(before, ch).decoded,
        lane(after, ch).host_output == lane(before, ch).host_output,
        before.h2m is None ==> chunk is None,
        chunk matches Some(c) ==> {
            &&& c@.len() == 2
            &&& c@[ch]@ + lane(after, ch).host_input == lane(before, ch).host_input
            &&& c@[ch].len() == before.h2m_chunk
            &&& lane(after, ch).mpx == lane(before, ch).mpx
        },
        chunk is None && before.h2m is Some ==> lane(after, ch) == lane(before, ch),
        chunk is None && before.h2m is None ==> {
            &&& lane(after, ch).host_input == Seq::<Sample>::empty()
            &&& lane(after, ch).mpx == lane(before, ch).mpx + lane(before, ch).host_input
        },
{
    assert(after.mpx@.len() == 2 && after.host_input@.len() == 2);
    assert(after.mpx@[0]@.len() == after.mpx@[1]@.len());
    assert(after.host_input@[0]@.len() == after.host_input@[1]@.len());
    match chunk {
        Some(c) => {
            let q = lane(before, ch).host_input;
            let k = before.h2m_chunk as nat;
            assert(q.len() >= k);
            assert(c@[ch]@ == front(q, k));
            assert(at(after.host_input, ch) == rest(q, k));
            assert(front(q, k) + rest(q, k) =~= q);
        },
        None => {
            if before.h2m is None {
                assert(after.host_input@[ch]@ == Seq::<Sample>::empty());
            }
        },
    }
}

proof fn lemma_entered(before: MpxPipeline, after: MpxPipeline, event: MpxEvent, ch: int)
    requires
        before.wf(),
        before.ready,
        mpx_event_fits(event),
        entered(before, after, event),
        0 <= ch < 2,
    ensures
        after.wf(),
        after.ready,
        lane(after, ch) == (Lane {
            host_input: lane(before, ch).host_input,
            mpx: lane(before, ch).mpx + brought_up(event, ch),
            decoded: lane(before, ch).decoded + brought_back(event, ch),
            host_output: lane(before, ch).host_output + brought_down(event, ch),
        }),
        after.h2m == before.h2m,
        after.m2h == before.m2h,
        after.h2m_chunk == before.h2m_chunk,
        after.m2h_chunk == before.m2h_chunk,
{
    let l = lane(before, ch);
    assert(l.mpx + Seq::<Sample>::empty() =~= l.mpx);
    assert(l.decoded + Seq::<Sample>::empty() =~= l.decoded);
    assert(l.host_output + Seq::<Sample>::empty() =~= l.host_output);
    if let MpxEvent::Transmitted(out) = event {
        assert(out@[ch]@.take(out@[0].len() as int) =~= out@[ch]@);
        assert(after.decoded@[0]@.len() == after.decoded@[1]@.len());
        assert(after.decoded@[ch]@ == l.decoded + out@[ch]@);
    } else if let MpxEvent::Upsampled { out, produced } = event {
        assert(out@[0].len() >= produced && out@[1].len() >= produced);
        assert(after.mpx@[0]@.len() == after.mpx@[1]@.len());
    } else if let MpxEvent::Downsampled { out, produced } = event {
        assert(out@[0].len() >= produced && out@[1].len() >= produced);
        assert(after.host_output@[0]@.len() == after.host_output@[1]@.len());
    }
}

/// Work handed out by the MPX stage holds, on each channel, exactly what that
/// channel had waiting, in order, and what it does not take stays behind: a chunk
/// to upsample from what came at the host rate, all that is at 192 kHz to be
/// transmitted, a chunk of the decoded samples to downsample.
pub proof fn law_mpx_hands_out_channel_by_channel(
    before: MpxPipeline,
    after: MpxPipeline,
    event: MpxEvent,
    r: MpxAction,
    ch: int,
)
    requires
        before.wf(),
        before.ready,
        mpx_event_fits(event),
        stepped(before, after, event, r),
        0 <= ch < 2,
    ensures
        r matches MpxAction::Upsample(c) ==> {
            &&& before.host_rate >= 100 ==> c@[ch].len() == before.host_rate as int / 100
            &&& c@[ch]@ + at(after.host_input, ch) == at(before.host_input, ch)
            &&& at(after.mpx, ch) == at(before.mpx, ch) + brought_up(event, ch)
            &&& at(after.decoded, ch) == at(before.decoded, ch)
            &&& at(after.host_output, ch) == at(before.host_output, ch)
        },
        r matches MpxAction::Transmit(c) ==> {
            let up = at(before.mpx, ch) + brought_up(event, ch);
            &&& c@.len() == 2
            &&& c@[ch]@ + at(after.host_input, ch) == up + at(before.host_input, ch)
            &&& before.host_rate == MPX_RATE ==> at(after.host_input, ch).len() == 0
            &&& before.host_rate != MPX_RATE ==> c@[ch]@ == up
            &&& at(after.mpx, ch).len() == 0
            &&& at(after.decoded, ch) == at(before.decoded, ch)
            &&& at(after.host_output, ch) == at(before.host_output, ch)
        },
        r matches MpxAction::Downsample(c) ==> {
            &&& c@[ch].len() == 1920
            &&& c@[ch]@ + at(after.decoded, ch) == at(before.decoded, ch) + brought_back(event, ch)
            &&& at(after.host_output, ch) == at(before.host_output, ch) + brought_down(event, ch)
            &&& at(after.host_input, ch) == at(before.host_input, ch)
        },
        r is Done ==> {
            let down = at(before.host_output, ch) + brought_down(event, ch);
            let back = at(before.decoded, ch) + brought_back(event, ch);
            &&& at(after.host_output, ch) + at(after.decoded, ch) == down + back
            &&& before.host_rate == MPX_RATE ==> at(after.decoded, ch).len() == 0
            &&& before.host_rate != MPX_RATE ==> at(after.host_output, ch) == down
        },
{
    let e = Seq::<Sample>::empty();
    let c1 = choose|c1: MpxPipeline|
        {
            &&& #[trigger] entered(before, c1, event)
            &&& if event is Transmitted || event is Downsampled {
                pumped_down(c1, after, r)
            } else {
                exists|c2: MpxPipeline, chunk: Option<Vec<Vec<Sample>>>|
                    {
                        &&& #[trigger] pumped_up(c1, c2, chunk)
                        &&& match chunk {
                            Some(c) => r == MpxAction::Upsample(c) && after == c2,
                            None => sent(c2, after, r),
                        }
                    }
            }
        };
    lemma_entered(before, c1, event, ch);
    let l = lane(before, ch);
    assert(l.decoded + e =~= l.decoded);
    assert(l.host_output + e =~= l.host_output);
    if event is Transmitted || event is Downsampled {
        lemma_down(c1, after, r, ch);
        assert(lane(after, ch).host_output + e =~= lane(after, ch).host_output);
    } else {
        let (c2, chunk) = choose|c2: MpxPipeline, chunk: Option<Vec<Vec<Sample>>>|
            {
                &&& #[trigger] pumped_up(c1, c2, chunk)
                &&& match chunk {
                    Some(c) => r == MpxAction::Upsample(c) && after == c2,
                    None => sent(c2, after, r),
                }
            };
        lemma_up(c1, c2, chunk, ch);
        if chunk is None {
            let k = c2.mpx@[0]@.len();
            if k > 0 {
                let c = r->Transmit_0;
                let q = lane(c2, ch).mpx;
                assert(q.len() == k);
                assert(c@[ch]@ == front(q, k));
                assert(c@[ch]@ =~= q);
                assert(after.mpx@[ch]@ == rest(q, k));
                assert(q + e =~= q);
            } else {
                lemma_down(c2, after, r, ch);
                assert(lane(after, ch).host_output + e =~= lane(after, ch).host_output);
                assert(lane(c2, ch).mpx.len() == 0);
            }
        }
    }
}

/// What goes on to de-emphasis on a channel is the front of what came out of the
/// MPX stage on that channel, padded with silence where that is too short; what
/// it does not take stays behind.
pub proof fn law_finish_gets_channel_by_channel(
    before: FmRadioProcessor,
    after: FmRadioProcessor,
    event: MpxEvent,
    n: nat,
    r: FmAction,
    ch: int,
)
    requires
        before.wf(),
        before.ready,
        mpx_event_fits(event),
        mpx_stepped(before, after, event, n, r),
        0 <= ch < 2,
    ensures
        r is Finish || r is Mpx,
        r matches FmAction::Finish(post) ==> {
            let down = at(before.mpx.host_output, ch) + brought_down(event, ch);
            let queue = if before.sample_rate == MPX_RATE {
                down + at(before.mpx.decoded, ch) + brought_back(event, ch)
            } else {
                down
            };
            &&& post@.len() == 2
            &&& post@[ch].len() == n
            &&& queue.len() >= n ==> post@[ch]@ + at(after.mpx.host_output, ch) == queue
            &&& queue.len() < n ==> {
                &&& post@[ch]@.take(queue.len() as int) == queue
                &&& forall|s: int| queue.len() <= s < n ==> #[trigger] post@[ch]@[s].bits == 0
                &&& at(after.mpx.host_output, ch).len() == 0
            }
        },
{
    let (mid, action) = choose|mid: MpxPipeline, action: MpxAction|
        {
            &&& #[trigger] stepped(before.mpx, mid, event, action)
            &&& if action is Done {
                &&& r is Finish
                &&& after.mpx == (MpxPipeline { host_output: after.mpx.host_output, ..mid })
                &&& crate::processor::rings::drained(
                    mid.host_output@,
                    after.mpx.host_output@,
                    n,
                )
                &&& r->Finish_0.len() == 2
                &&& forall|ch: int|
                    0 <= ch < 2 ==> (#[trigger] r->Finish_0@[ch])@ == front(
                        mid.host_output@[ch]@,
                        n,
                    )
            } else {
                &&& r == FmAction::Mpx(action)
                &&& after.mpx == mid
            }
        };
    law_mpx_hands_out_channel_by_channel(before.mpx, mid, event, action, ch);
    if action is Done {
        let post = r->Finish_0;
        let e = Seq::<Sample>::empty();
        let down = at(before.mpx.host_output, ch) + brought_down(event, ch);
        let queue = if before.sample_rate == MPX_RATE {
            down + at(before.mpx.decoded, ch) + brought_back(event, ch)
        } else {
            down
        };
        let q = at(mid.host_output, ch);
        assert(q + at(mid.decoded, ch) == down + (at(before.mpx.decoded, ch) + brought_back(
            event,
            ch,
        )));
        if before.sample_rate == MPX_RATE {
            assert(q + at(mid.decoded, ch) =~= q);
        }
        assert(q =~= queue);
        assert(post@[ch]@ == front(q, n));
        lemma_mid_has_two(before.mpx, mid, event, action);
        assert(at(after.mpx.host_output, ch) == rest(q, n));
        if queue.len() >= n {
            assert(front(q, n) + rest(q, n) =~= q);
        } else {
            assert(post@[ch]@.take(queue.len() as int) =~= queue);
        }
    }
}

proof fn lemma_mid_has_two(
    before: MpxPipeline,
    after: MpxPipeline,
    event: MpxEvent,
    r: MpxAction,
)
    requires
        before.wf(),
        before.ready,
        mpx_event_fits(event),
        stepped(before, after, event, r),
    ensures
        after.host_output@.len() == 2,
        after.decoded@.len() == 2,
{
    let c1 = choose|c1: MpxPipeline|
        {
            &&& #[trigger] entered(before, c1, event)
            &&& if event is Transmitted || event is Downsampled {
                pumped_down(c1, after, r)
            } else {
                exists|c2: MpxPipeline, chunk: Option<Vec<Vec<Sample>>>|
                    {
                        &&& #[trigger] pumped_up(c1, c2, chunk)
                        &&& match chunk {
                            Some(c) => r == MpxAction::Upsample(c) && after == c2,
                            None => sent(c2, after, r),
                        }
                    }
            }
        };
    lemma_entered(before, c1, event, 0);
}

/// Two receivers that have the same waiting on a channel, and get the same on it,
/// hand the same on it to de-emphasis, whatever is on the other channel.
pub proof fn law_fm_channel_stands_alone(
    before_a: FmRadioProcessor,
    after_a: FmRadioProcessor,
    event_a: MpxEvent,
    a: Vec<Vec<Sample>>,
    before_b: FmRadioProcessor,
    after_b: FmRadioProcessor,
    event_b: MpxEvent,
    b: Vec<Vec<Sample>>,
    n: nat,
    ch: int,
)
    requires
        before_a.wf(),
        before_a.ready,
        before_b.wf(),
        before_b.ready,
        before_a.sample_rate == before_b.sample_rate,
        mpx_event_fits(event_a),
        mpx_event_fits(event_b),
        mpx_stepped(before_a, after_a, event_a, n, FmAction::Finish(a)),
        mpx_stepped(before_b, after_b, event_b, n, FmAction::Finish(b)),
        0 <= ch < 2,
        at(before_a.mpx.decoded, ch) == at(before_b.mpx.decoded, ch),
        at(before_a.mpx.host_output, ch) == at(before_b.mpx.host_output, ch),
        brought_back(event_a, ch) == brought_back(event_b, ch),
        brought_down(event_a, ch) == brought_down(event_b, ch),
    ensures
        a@[ch]@ == b@[ch]@,
{
    law_finish_gets_channel_by_channel(before_a, after_a, event_a, n, FmAction::Finish(a), ch);
    law_finish_gets_channel_by_channel(before_b, after_b, event_b, n, FmAction::Finish(b), ch);
    let down = at(before_a.mpx.host_output, ch) + brought_down(event_a, ch);
    let queue = if before_a.sample_rate == MPX_RATE {
        down + at(before_a.mpx.decoded, ch) + brought_back(event_a, ch)
    } else {
        down
    };
    if queue.len() >= n {
        assert(a@[ch]@ =~= queue.take(n as int));
        assert(b@[ch]@ =~= queue.take(n as int));
    } else {
        assert forall|s: int| 0 <= s < n implies #[trigger] a@[ch]@[s] == b@[ch]@[s] by {
            if s < queue.len() {
                assert(a@[ch]@.take(queue.len() as int)[s] == queue[s]);
                assert(b@[ch]@.take(queue.len() as int)[s] == queue[s]);
            }
        }
        assert(a@[ch]@ =~= b@[ch]@);
    }
}

/// A block at 192 kHz whose transmission leaves the samples as they are: what was
/// conditioned on a channel is transmitted on that channel and goes on to
/// de-emphasis on that channel, in order; what comes back from there is heard on
/// that channel, one delay line later.
pub proof fn law_undisturbed_block_keeps_left_and_right(
    p0: FmRadioProcessor,
    p1: FmRadioProcessor,
    p2: FmRadioProcessor,
    p3: FmRadioProcessor,
    b0: Seq<Vec<Sample>>,
    b3: Seq<Vec<Sample>>,
    n: nat,
    mode: FmRadioMode,
    pre: Vec<Vec<Sample>>,
    r1: FmAction,
    back: Vec<Vec<Sample>>,
    r2: FmAction,
    out: Vec<Vec<Sample>>,
    r3: FmAction,
    ch: int,
)
    requires
        p0.wf(),
        p0.ready,
        p0.sample_rate == MPX_RATE,
        p0.mpx.empty(),
        p1.wf(),
        p2.wf(),
        n > 0,
        block_fits(b0, p0.channels as nat, n),
        block_fits(pre@, 2, n),
        processed(p0, p1, b0, b0, n, FmEvent::Conditioned(pre), mode, r1),
        back@.len() == 2,
        r1 matches FmAction::Mpx(MpxAction::Transmit(sent)) ==> back@[0]@ == sent@[0]@ && back@[1]@
            == sent@[1]@,
        mpx_event_fits(MpxEvent::Transmitted(back)),
        processed(
            p1,
            p2,
            b0,
            b0,
            n,
            FmEvent::Mpx(MpxEvent::Transmitted(back)),
            mode,
            r2,
        ),
        block_fits(out@, 2, n),
        processed(p2, p3, b0, b3, n, FmEvent::Finished(out), mode, r3),
        0 <= ch < 2,
    ensures
        r1 matches FmAction::Mpx(MpxAction::Transmit(sent)) && sent@[ch]@ == pre@[ch]@.take(
            n as int,
        ),
        r2 matches FmAction::Finish(post) && post@[ch]@ == pre@[ch]@.take(n as int),
        r3 is Done,
        ch < p0.channels ==> forall|s: int|
            0 <= s < n ==> #[trigger] b3[ch]@[s] == if s < p0.delay_len {
                p0.delay@[ch]@[s]
            } else {
                out@[ch]@[s - p0.delay_len]
            },
{
    let e = Seq::<Sample>::empty();
    let c1 = choose|c1: FmRadioProcessor|
        #[trigger] conditioned(p0, c1, pre@, n) && mpx_stepped(c1, p1, MpxEvent::Start, n, r1);
    assert(p0.mpx.host_input@[0]@ == e && p0.mpx.host_input@[1]@ == e);
    assert(c1.mpx.host_input@[0]@ == e + pre@[0]@.take(n as int));
    assert(c1.mpx.host_input@[1]@ == e + pre@[1]@.take(n as int));
    assert(pre@[0].len() >= n && pre@[1].len() >= n);
    assert(c1.wf());
    assert(p0.mpx.mpx@[0]@ == e && p0.mpx.mpx@[ch]@ == e);
    assert(p0.mpx.decoded@[ch]@ == e && p0.mpx.host_output@[ch]@ == e);
    lemma_first_action(c1, p1, n, r1);
    let (mid, action) = choose|mid: MpxPipeline, action: MpxAction|
        {
            &&& #[trigger] stepped(c1.mpx, mid, MpxEvent::Start, action)
            &&& if action is Done {
                r1 is Finish
            } else {
                &&& r1 == FmAction::Mpx(action)
                &&& p1.mpx == mid
            }
        };
    law_mpx_hands_out_channel_by_channel(c1.mpx, mid, MpxEvent::Start, action, ch);
    let sent = action->Transmit_0;
    assert(sent@[ch]@ + e =~= sent@[ch]@);
    assert(e + e + (e + pre@[ch]@.take(n as int)) =~= pre@[ch]@.take(n as int));
    assert(at(p1.mpx.host_input, ch) =~= e);
    assert(sent@[ch]@ =~= pre@[ch]@.take(n as int));
    assert(at(p1.mpx.decoded, ch) == e && at(p1.mpx.host_output, ch) == e);
    assert(back@[ch]@ == sent@[ch]@);
    let event = MpxEvent::Transmitted(back);
    law_finish_gets_channel_by_channel(p1, p2, event, n, r2, ch);
    lemma_transmitted_at_mpx_rate_finishes(p1, p2, back, n, r2);
    let post = r2->Finish_0;
    assert(e + e + e + back@[ch]@ =~= back@[ch]@);
    assert(post@[ch]@ =~= pre@[ch]@.take(n as int));
    assert(p2.delay == p0.delay && p2.delay_len == p0.delay_len && p2.channels == p0.channels);
    if ch < p0.channels {
        assert forall|s: int| 0 <= s < n implies #[trigger] b3[ch]@[s] == if s < p0.delay_len {
            p0.delay@[ch]@[s]
        } else {
            out@[ch]@[s - p0.delay_len]
        } by {
            law_delay_is_exact(p2, p3, out@, b0, b3, n, ch, s);
        }
    }
}

proof fn lemma_first_action(
    before: FmRadioProcessor,
    after: FmRadioProcessor,
    n: nat,
    r: FmAction,
)
    requires
        before.wf(),
        before.ready,
        before.sample_rate == MPX_RATE,
        mpx_stepped(before, after, MpxEvent::Start, n, r),
        at(before.mpx.host_input, 0).len() > 0,
    ensures
        r is Mpx,
        r->Mpx_0 is Transmit,
{
    let (mid, action) = choose|mid: MpxPipeline, action: MpxAction|
        {
            &&& #[trigger] stepped(before.mpx, mid, MpxEvent::Start, action)
            &&& if action is Done {
                r is Finish
            } else {
                r == FmAction::Mpx(action)
            }
        };
    let p = before.mpx;
    let event = MpxEvent::Start;
    let (c2, chunk) = choose|c2: MpxPipeline, chunk: Option<Vec<Vec<Sample>>>|
        {
            &&& #[trigger] pumped_up(p, c2, chunk)
            &&& match chunk {
                Some(c) => action == MpxAction::Upsample(c) && mid == c2,
                None => sent(c2, mid, action),
            }
        };
    lemma_up(p, c2, chunk, 0);
}

proof fn lemma_transmitted_at_mpx_rate_finishes(
    before: FmRadioProcessor,
    after: FmRadioProcessor,
    back: Vec<Vec<Sample>>,
    n: nat,
    r: FmAction,
)
    requires
        before.wf(),
        before.ready,
        before.sample_rate == MPX_RATE,
        mpx_event_fits(MpxEvent::Transmitted(back)),
        mpx_stepped(before, after, MpxEvent::Transmitted(back), n, r),
    ensures
        r is Finish,
{
    let event = MpxEvent::Transmitted(back);
    let (mid, action) = choose|mid: MpxPipeline, action: MpxAction|
        {
            &&& #[trigger] stepped(before.mpx, mid, event, action)
            &&& if action is Done {
                r is Finish
            } else {
                r == FmAction::Mpx(action)
            }
        };
    let c1 = choose|c1: MpxPipeline|
        #[trigger] entered(before.mpx, c1, event) && pumped_down(c1, mid, action);
    lemma_entered(before.mpx, c1, event, 0);
    lemma_down(c1, mid, action, 0);
}

/// A block on a variant leaves the chain set up for exactly that variant, with its
/// reception on the channel, and says to rebuild only where it was another.
pub proof fn law_chain_follows_the_variant(
    before: FmRadioProcessor,
    after: FmRadioProcessor,
    b0: Seq<Vec<Sample>>,
    b1: Seq<Vec<Sample>>,
    n: nat,
    variant: FmRadioVariant,
    r: FmAction,
)
    requires
        before.ready,
        before.current_variant matches Some(v) ==> before.mpx.reception == v.reception,
        processed(before, after, b0, b1, n, FmEvent::Start, FmRadioMode::FmRadio { variant }, r),
    ensures
        after.current_variant == Some(variant),
        after.mpx.reception == variant.reception,
        after.delay == before.delay,
        at(after.mpx.host_input, 0) == at(before.mpx.host_input, 0),
        at(after.mpx.host_input, 1) == at(before.mpx.host_input, 1),
        r matches FmAction::Condition { rebuild } && (!rebuild <==> before.current_variant == Some(
            variant,
        )),
        b1 == b0,
{
}

/// The clipper neither swaps its two points nor leaves one out: on a signal that
/// stays within the ceiling it gives the mean of the sample and the middle point,
/// and on a steady one the sample itself.
pub proof fn law_clipper_is_transparent_below_the_ceiling(prev: Sample, x: Sample, r: Sample)
    requires
        is_clipped(prev, x, r),
        x.is_finite(),
        x.magnitude() <= (Sample { bits: CLIP_CEILING_BITS }).magnitude(),
        crate::sample::half(crate::sample::sum(prev, x)).is_finite(),
        crate::sample::half(crate::sample::sum(prev, x)).magnitude() <= (Sample {
            bits: CLIP_CEILING_BITS,
        }).magnitude(),
    ensures
        r == crate::sample::half(
            crate::sample::sum(crate::sample::half(crate::sample::sum(prev, x)), x),
        ),
{
}

}
