//! SBC: what libsbc gets, and what is heard of what it gives back.

use crate::laws::aac::{lemma_plays, plays};
use crate::laws::pipeline::at;
use crate::processor::bluetooth::sbc::{
    accepted_frame, coded, entered, finished, processed, pumped_in, pumped_out, took_frame,
    BtAction, BtEvent, SbcCodec, SbcReport,
};
use crate::processor::pipeline::{block_fits, lemma_interleaved_index, BlockAction, BlockEvent};
use crate::processor::rings::{front, rest};
use crate::sample::{quantised, Sample};
use vstd::arithmetic::div_mod::*;
use vstd::prelude::*;

verus! {

/// A frame for libsbc holds 128 samples per channel, interleaved: at
/// `s * channels + ch` the `s`-th that waited on channel `ch`, in 16 bits.
pub proof fn law_sbc_gets_the_channels_interleaved(
    before: SbcCodec,
    after: SbcCodec,
    pcm: Vec<i16>,
    ch: int,
    s: int,
)
    requires
        before.wf(),
        took_frame(before, after, Some(pcm)),
        0 <= ch < before.channels,
        at(before.sbc_in, ch).len() >= 128,
        0 <= s < 128,
    ensures
        pcm.len() == 128 * before.channels,
        pcm@[s * before.channels + ch] == quantised(at(before.sbc_in, ch)[s]),
        at(after.sbc_in, ch) == at(before.sbc_in, ch).skip(128),
        after.sbc_out == before.sbc_out,
{
    lemma_interleaved_index(s, ch, 128, before.channels as int);
    let i = s * before.channels + ch;
    assert(pcm@[i] == crate::processor::pipeline::interleaved_value(before.sbc_in@, 128, i));
}

/// A frame that both calls made something of is heard channel by channel: sample
/// `s` of channel `ch` is what stands at `s * channels + ch` of the decoded PCM,
/// over 32768. Otherwise 128 samples of silence are heard.
pub proof fn law_sbc_frame_plays_channel_by_channel(
    before: SbcCodec,
    after: SbcCodec,
    report: SbcReport,
    ch: int,
    s: int,
)
    requires
        before.wf(),
        report.wf(),
        accepted_frame(before, after, report),
        0 <= ch < before.channels,
        0 <= s,
    ensures
        ({
            let old_queue = at(before.sbc_out, ch);
            let queue = at(after.sbc_out, ch);
            let failed = report.encoded_len <= 0 || report.written <= 0 || report.consumed <= 0
                || report.decoded == 0;
            &&& queue.take(old_queue.len() as int) == old_queue
            &&& failed ==> queue.len() == old_queue.len() + 128 && (s < 128 ==> queue[
            old_queue.len() + s].bits == 0)
            &&& !failed ==> {
                &&& queue.len() == old_queue.len() + (report.decoded as int / 2) / (
                before.channels as int)
                &&& (s + 1) * before.channels <= report.decoded as int / 2 ==> plays(
                    queue[old_queue.len() + s],
                    report.pcm@[s * before.channels + ch],
                )
            }
        }),
{
    let old_queue = at(before.sbc_out, ch);
    let queue = at(after.sbc_out, ch);
    assert(queue.take(old_queue.len() as int) =~= old_queue);
    if report.ok() && (s + 1) * before.channels <= report.decoded as int / 2 {
        let d = report.decoded as int / 2;
        let c = before.channels as int;
        lemma_fundamental_div_mod(d, c);
        lemma_mod_bound(d, c);
        let m = d / c;
        assert(s < m) by (nonlinear_arith)
            requires
                (s + 1) * c <= d,
                d == c * m + d % c,
                d % c < c,
                c > 0,
        ;
        lemma_plays(report.pcm@[s * before.channels + ch]);
    }
}

/// On a host at 44.1 kHz, a block's samples go behind those that wait on the same
/// channel, and the frame handed out is the front of that.
pub proof fn law_sbc_block_is_coded_channel_by_channel(
    before: SbcCodec,
    after: SbcCodec,
    b0: Seq<Vec<Sample>>,
    b1: Seq<Vec<Sample>>,
    n: nat,
    pcm: Vec<i16>,
    ch: int,
    s: int,
)
    requires
        before.wf(),
        before.sample_rate == 44_100,
        block_fits(b0, before.channels as nat, n),
        processed(
            before,
            after,
            b0,
            b1,
            n,
            BtEvent::Block(BlockEvent::Start),
            BtAction::Code(pcm),
        ),
        0 <= ch < before.channels,
        0 <= s < 128,
        at(before.sbc_in, ch).len() + at(before.host_in, ch).len() + n >= 128,
    ensures
        b1 == b0,
        pcm@[s * before.channels + ch] == quantised(
            (at(before.sbc_in, ch) + at(before.host_in, ch) + b0[ch]@.take(n as int))[s],
        ),
{
    let event = BtEvent::Block(BlockEvent::Start);
    let r = BtAction::Code(pcm);
    let c1 = choose|c1: SbcCodec|
        {
            &&& #[trigger] entered(before, c1, b0, n, event)
            &&& exists|c2: SbcCodec, chunk: Option<Vec<Vec<Sample>>>|
                {
                    &&& #[trigger] pumped_in(c1, c2, chunk)
                    &&& match chunk {
                        Some(c) => {
                            &&& r == BtAction::Block(BlockAction::ResampleInput(c))
                            &&& after == c2
                            &&& b1 == b0
                        },
                        None => coded(c2, after, b0, b1, n, r),
                    }
                }
        };
    let (c2, chunk) = choose|c2: SbcCodec, chunk: Option<Vec<Vec<Sample>>>|
        {
            &&& #[trigger] pumped_in(c1, c2, chunk)
            &&& match chunk {
                Some(c) => {
                    &&& r == BtAction::Block(BlockAction::ResampleInput(c))
                    &&& after == c2
                    &&& b1 == b0
                },
                None => coded(c2, after, b0, b1, n, r),
            }
        };
    let (mid, frame) = choose|mid: SbcCodec, frame: Option<Vec<i16>>|
        {
            &&& #[trigger] took_frame(c2, mid, frame)
            &&& match frame {
                Some(f) => r == BtAction::Code(f) && after == mid && b1 == b0,
                None => finished(mid, after, b0, b1, n, r),
            }
        };
    assert(c1.host_in@[ch]@ == before.host_in@[ch]@ + b0[ch]@.take(n as int));
    assert(c2.sbc_in@[ch]@ == before.sbc_in@[ch]@ + c1.host_in@[ch]@);
    assert(b0[ch].len() >= n);
    assert(at(c2.sbc_in, ch) =~= at(before.sbc_in, ch) + at(before.host_in, ch) + b0[ch]@.take(
        n as int,
    ));
    law_sbc_gets_the_channels_interleaved(c2, mid, pcm, ch, s);
}

/// Once nothing is left to code, on a host at 44.1 kHz the block gets the front of
/// what waits on the same channel, and the rest stays.
pub proof fn law_sbc_block_is_filled_channel_by_channel(
    before: SbcCodec,
    after: SbcCodec,
    b0: Seq<Vec<Sample>>,
    b1: Seq<Vec<Sample>>,
    n: nat,
    r: BtAction,
    ch: int,
)
    requires
        before.wf(),
        before.sample_rate == 44_100,
        block_fits(b0, before.channels as nat, n),
        finished(before, after, b0, b1, n, r),
        0 <= ch < before.channels,
        at(before.host_out, ch).len() + at(before.sbc_out, ch).len() >= n,
    ensures
        r == BtAction::Block(BlockAction::Done),
        b1[ch]@.take(n as int) + at(after.host_out, ch) == at(before.host_out, ch) + at(
            before.sbc_out,
            ch,
        ),
        at(after.sbc_out, ch).len() == 0,
{
    let (mid, chunk) = choose|mid: SbcCodec, chunk: Option<Vec<Vec<Sample>>>|
        {
            &&& #[trigger] pumped_out(before, mid, chunk)
            &&& match chunk {
                Some(c) => {
                    &&& r == BtAction::Block(BlockAction::ResampleOutput(c))
                    &&& after == mid
                    &&& b1 == b0
                },
                None => {
                    &&& r == BtAction::Block(BlockAction::Done)
                    &&& after == (SbcCodec { host_out: after.host_out, ..mid })
                    &&& crate::processor::rings::drained_first(
                        mid.host_out@,
                        after.host_out@,
                        b0.len(),
                        n,
                    )
                    &&& crate::processor::rings::overwritten(
                        b0,
                        b1,
                        vstd::math::min(b0.len() as int, before.channels as int) as nat,
                        |ch: int| front(mid.host_out@[ch]@, n),
                    )
                },
            }
        };
    let q = at(mid.host_out, ch);
    assert(mid.host_out@[ch]@ == before.host_out@[ch]@ + before.sbc_out@[ch]@);
    assert(mid.sbc_out@[ch]@ == Seq::<Sample>::empty());
    assert(b1[ch]@ == front(q, n) + b0[ch]@.skip(n as int));
    assert(after.host_out@[ch]@ == rest(q, n));
    assert(b1[ch]@.take(n as int) =~= q.take(n as int));
    assert(q.take(n as int) + q.skip(n as int) =~= q);
}

/// What comes in goes behind what waits on the same channel: a fresh block at the
/// host's side, a resampled chunk on its side of the codec.
pub proof fn law_sbc_takes_in_channel_by_channel(
    before: SbcCodec,
    after: SbcCodec,
    b0: Seq<Vec<Sample>>,
    n: nat,
    event: BlockEvent,
    ch: int,
)
    requires
        before.wf(),
        block_fits(b0, before.channels as nat, n),
        entered(before, after, b0, n, BtEvent::Block(event)),
        0 <= ch < before.channels,
    ensures
        event is Start ==> {
            &&& at(after.host_in, ch) == at(before.host_in, ch) + b0[ch]@.take(n as int)
            &&& after.host_out == before.host_out
        },
        event matches BlockEvent::InputResampled { out, produced } ==> {
            &&& at(after.sbc_in, ch) == at(before.sbc_in, ch) + out@[ch]@.take(
                produced as int,
            )
            &&& after.host_in == before.host_in
            &&& after.host_out == before.host_out
        },
        event matches BlockEvent::OutputResampled { out, produced } ==> {
            &&& at(after.host_out, ch) == at(before.host_out, ch) + out@[ch]@.take(
                produced as int,
            )
            &&& after.host_in == before.host_in
            &&& after.sbc_in == before.sbc_in
        },
{
}

/// What is handed out to be resampled, 10 ms of it, is the front of what waits on
/// the same channel, and the rest stays; at the codec's own rate all of it goes on.
pub proof fn law_sbc_moves_channel_by_channel(
    before: SbcCodec,
    after_in: SbcCodec,
    chunk_in: Option<Vec<Vec<Sample>>>,
    after_out: SbcCodec,
    chunk_out: Option<Vec<Vec<Sample>>>,
    ch: int,
)
    requires
        before.wf(),
        pumped_in(before, after_in, chunk_in),
        pumped_out(before, after_out, chunk_out),
        0 <= ch < before.channels,
        at(before.host_in, ch).len() == at(before.host_in, 0).len(),
        at(before.sbc_out, ch).len() == at(before.sbc_out, 0).len(),
    ensures
        chunk_in matches Some(c) ==> {
            &&& before.sample_rate >= 100 ==> c@[ch].len() == before.sample_rate as int / 100
            &&& c@[ch]@ + at(after_in.host_in, ch) == at(before.host_in, ch)
            &&& at(after_in.sbc_in, ch) == at(before.sbc_in, ch)
        },
        !before.resampled ==> chunk_in is None && at(after_in.sbc_in, ch) == at(
            before.sbc_in,
            ch,
        ) + at(before.host_in, ch) && at(after_in.host_in, ch).len() == 0,
        chunk_out matches Some(c) ==> {
            &&& c@[ch].len() == 441
            &&& c@[ch]@ + at(after_out.sbc_out, ch) == at(before.sbc_out, ch)
            &&& at(after_out.host_out, ch) == at(before.host_out, ch)
        },
        !before.resampled ==> chunk_out is None && at(after_out.host_out, ch) == at(
            before.host_out,
            ch,
        ) + at(before.sbc_out, ch) && at(after_out.sbc_out, ch).len() == 0,
{
    if let Some(c) = chunk_in {
        let q = at(before.host_in, ch);
        let k = before.h2c_chunk as nat;
        assert(c@[ch]@ == front(q, k));
        assert(at(after_in.host_in, ch) == rest(q, k));
        assert(front(q, k) + rest(q, k) =~= q);
    }
    if let Some(c) = chunk_out {
        let q = at(before.sbc_out, ch);
        let k = before.c2h_chunk as nat;
        assert(c@[ch]@ == front(q, k));
        assert(at(after_out.sbc_out, ch) == rest(q, k));
        assert(front(q, k) + rest(q, k) =~= q);
    }
    if !before.resampled {
        assert(after_in.host_in@[ch]@ == Seq::<Sample>::empty());
        assert(after_out.sbc_out@[ch]@ == Seq::<Sample>::empty());
    }
}

}
