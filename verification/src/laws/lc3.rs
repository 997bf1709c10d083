//! LC3: what the codec gets on which channel, and what is heard of it.

use crate::laws::aac::{lemma_plays, plays};
use crate::laws::pipeline::at;
use crate::processor::bluetooth::lc3::{
    coded_channel, entered, fed_channel, finished, folded, is_coded, played_channel, pumped_in,
    pumped_out, routed_in, routed_out, same_lengths, Lc3Codec,
};
use crate::processor::bluetooth::lc3_calls::{lc3_decoder_calls, lc3_encoder_calls};
use crate::processor::pipeline::{block_fits, BlockAction, BlockEvent};
use crate::processor::rings::{front, rest};
use crate::sample::{half, quantised, sum, Sample};
use vstd::prelude::*;

verus! {

/// One frame: the encoder gets the next 480 samples of a channel as that channel,
/// in 16 bits, and gives as many bytes as the preset's bitrate makes in 10 ms; the
/// decoder gets just those bytes, as the same channel; what it gives is heard on
/// that channel, and silence where it gives nothing. No other channel is touched.
pub proof fn law_lc3_channel_is_coded_by_itself(
    before: Lc3Codec,
    after: Lc3Codec,
    ch: int,
    other: int,
    s: int,
)
    requires
        before.shaped(),
        coded_channel(before, after, ch),
        0 <= ch < before.codec_channels,
        at(before.codec_in, ch).len() >= 480,
        0 <= s < 480,
    ensures
        ({
            let enc = lc3_encoder_calls(after.encoder).last();
            let dec = lc3_decoder_calls(after.decoder).last();
            let old_queue = at(before.codec_out, ch);
            let queue = at(after.codec_out, ch);
            &&& lc3_encoder_calls(after.encoder).len() == lc3_encoder_calls(before.encoder).len()
                + 1
            &&& lc3_decoder_calls(after.decoder).len() == lc3_decoder_calls(before.decoder).len()
                + 1
            &&& enc.channel == ch
            &&& enc.samples.len() == 480
            &&& enc.samples[s] == quantised(at(before.codec_in, ch)[s])
            &&& before.quality is Low64 ==> enc.bytes.len() * 8 * 100 == 64_000
            &&& before.quality is High160 ==> enc.bytes.len() * 8 * 100 == 80_000
            &&& dec.channel == ch
            &&& dec.bytes == enc.bytes
            &&& queue.len() == old_queue.len() + 480
            &&& queue.take(old_queue.len() as int) == old_queue
            &&& match dec.samples {
                Some(pcm) => plays(queue[old_queue.len() + s], pcm[s]),
                None => queue[old_queue.len() + s].bits == 0,
            }
            &&& at(after.codec_in, ch) == at(before.codec_in, ch).skip(480)
            &&& 0 <= other < before.codec_channels && other != ch ==> {
                &&& at(after.codec_in, other) == at(before.codec_in, other)
                &&& at(after.codec_out, other) == at(before.codec_out, other)
            }
        }),
{
    let (pcm, bytes, decoded) = choose|
        pcm: Seq<i16>,
        bytes: Seq<u8>,
        decoded: Option<Seq<i16>>,
    |
        #[trigger] is_coded(before, after, ch, pcm, bytes, decoded);
    let old_queue = at(before.codec_out, ch);
    assert(at(after.codec_out, ch).take(old_queue.len() as int) =~= old_queue);
    if let Some(d) = decoded {
        lemma_plays(d[s]);
    }
    assert(pcm[s] == quantised(front(before.codec_in@[ch]@, 480)[s]));
}

/// The low-power preset on a stereo host codes the mean of left and right, so that
/// neither is lost: sample by sample, half of their sum.
pub proof fn law_low64_codes_the_mean(before: Lc3Codec, after: Lc3Codec, s: int)
    requires
        before.wf(),
        before.quality is Low64,
        before.host_channels == 2,
        routed_in(before, after),
        at(before.to_codec, 0).len() == at(before.to_codec, 1).len(),
        0 <= s < at(before.to_codec, 0).len(),
    ensures
        ({
            let old_queue = at(before.codec_in, 0);
            let queue = at(after.codec_in, 0);
            &&& queue.len() == old_queue.len() + at(before.to_codec, 0).len()
            &&& queue.take(old_queue.len() as int) == old_queue
            &&& queue[old_queue.len() + s] == half(
                sum(at(before.to_codec, 0)[s], at(before.to_codec, 1)[s]),
            )
        }),
{
    assert(after.codec_in@[0]@ == before.codec_in@[0]@ + folded(
        before.to_codec@[0]@,
        before.to_codec@[1]@,
    ));
    assert(at(after.codec_in, 0).take(at(before.codec_in, 0).len() as int) =~= at(
        before.codec_in,
        0,
    ));
}

/// A mono host's one channel is what every codec channel gets, and the host hears
/// the codec's first.
pub proof fn law_mono_host_feeds_every_codec_channel(before: Lc3Codec, after: Lc3Codec, ch: int)
    requires
        before.wf(),
        before.host_channels == 1,
        routed_in(before, after),
        0 <= ch < before.codec_channels,
    ensures
        at(after.codec_in, ch) == at(before.codec_in, ch) + at(before.to_codec, 0),
{
    assert(after.codec_in@[ch]@ == before.codec_in@[ch]@ + fed_channel(
        before.to_codec@,
        before.codec_channels as nat,
        ch,
    ));
}

/// What the codec gave on a channel goes to that host channel, whole and in order;
/// a mono codec's one channel goes to both.
pub proof fn law_lc3_is_heard_channel_by_channel(before: Lc3Codec, after: Lc3Codec, ch: int)
    requires
        before.shaped(),
        same_lengths(before.codec_out@),
        routed_out(before, after),
        0 <= ch < before.host_channels,
    ensures
        before.quality is Low64 ==> at(after.to_host, ch) == at(before.codec_out, 0),
        before.quality is High160 && ch < 2 ==> at(after.to_host, ch) == at(before.codec_out, ch),
{
    assert(after.to_host@[ch]@ == played_channel(before.codec_out@, ch));
    let src = vstd::math::min(ch, before.codec_out@.len() - 1);
    let q = before.codec_out@[src]@;
    assert(q.len() == before.codec_out@[0]@.len());
    assert(front(q, q.len()) =~= q);
}

/// On a host at 48 kHz the block gets the front of what waits on the same channel,
/// and the rest stays.
pub proof fn law_lc3_block_is_filled_channel_by_channel(
    before: Lc3Codec,
    after: Lc3Codec,
    b0: Seq<Vec<Sample>>,
    b1: Seq<Vec<Sample>>,
    n: nat,
    r: BlockAction,
    ch: int,
)
    requires
        before.wf(),
        before.sample_rate == 48_000,
        block_fits(b0, before.host_channels as nat, n),
        finished(before, after, b0, b1, n, r),
        0 <= ch < before.host_channels,
        at(before.host_out, ch).len() + at(before.to_host, ch).len() >= n,
    ensures
        r is Done,
        b1[ch]@.take(n as int) + at(after.host_out, ch) == at(before.host_out, ch) + at(
            before.to_host,
            ch,
        ),
{
    let (mid, chunk) = choose|mid: Lc3Codec, chunk: Option<Vec<Vec<Sample>>>|
        {
            &&& #[trigger] pumped_out(before, mid, chunk)
            &&& match chunk {
                Some(c) => {
                    &&& r == BlockAction::ResampleOutput(c)
                    &&& after == mid
                    &&& b1 == b0
                },
                None => {
                    &&& r == BlockAction::Done
                    &&& after == (Lc3Codec {
                        to_host: after.to_host,
                        host_out: after.host_out,
                        ..mid
                    })
                    &&& crate::processor::rings::drained_first(
                        mid.host_out@,
                        after.host_out@,
                        b0.len(),
                        n,
                    )
                    &&& crate::processor::rings::overwritten(
                        b0,
                        b1,
                        vstd::math::min(b0.len() as int, before.host_channels as int) as nat,
                        |ch: int| front(mid.host_out@[ch]@, n),
                    )
                },
            }
        };
    let q = at(mid.host_out, ch);
    assert(mid.host_out@[ch]@ == before.host_out@[ch]@ + before.to_host@[ch]@);
    assert(b1[ch]@ == front(q, n) + b0[ch]@.skip(n as int));
    assert(after.host_out@[ch]@ == rest(q, n));
    assert(b1[ch]@.take(n as int) =~= q.take(n as int));
    assert(q.take(n as int) + q.skip(n as int) =~= q);
}

/// What comes in goes behind what waits on the same channel: a fresh block at the
/// host's side, a resampled chunk on its side of the codec.
pub proof fn law_lc3_takes_in_channel_by_channel(
    before: Lc3Codec,
    after: Lc3Codec,
    b0: Seq<Vec<Sample>>,
    n: nat,
    event: BlockEvent,
    ch: int,
)
    requires
        before.wf(),
        block_fits(b0, before.host_channels as nat, n),
        entered(before, after, b0, n, event),
        0 <= ch < before.host_channels,
    ensures
        event is Start ==> {
            &&& at(after.host_in, ch) == at(before.host_in, ch) + b0[ch]@.take(n as int)
            &&& after.host_out == before.host_out
        },
        event matches BlockEvent::InputResampled { out, produced } ==> {
            &&& at(after.to_codec, ch) == at(before.to_codec, ch) + out@[ch]@.take(
                produced as int,
            )
            &&& after.host_in == before.host_in
            &&& after.host_out == before.host_out
        },
        event matches BlockEvent::OutputResampled { out, produced } ==> {
            &&& at(after.host_out, ch) == at(before.host_out, ch) + out@[ch]@.take(
                produced as int,
            )
            &&& after.host_in == before.host_in
            &&& after.to_codec == before.to_codec
        },
{
}

/// What is handed out to be resampled, 10 ms of it, is the front of what waits on
/// the same channel, and the rest stays; at the codec's own rate all of it goes on.
pub proof fn law_lc3_moves_channel_by_channel(
    before: Lc3Codec,
    after_in: Lc3Codec,
    chunk_in: Option<Vec<Vec<Sample>>>,
    after_out: Lc3Codec,
    chunk_out: Option<Vec<Vec<Sample>>>,
    ch: int,
)
    requires
        before.wf(),
        pumped_in(before, after_in, chunk_in),
        pumped_out(before, after_out, chunk_out),
        0 <= ch < before.host_channels,
        at(before.host_in, ch).len() == at(before.host_in, 0).len(),
        at(before.to_host, ch).len() == at(before.to_host, 0).len(),
    ensures
        chunk_in matches Some(c) ==> {
            &&& before.sample_rate >= 100 ==> c@[ch].len() == before.sample_rate as int / 100
            &&& c@[ch]@ + at(after_in.host_in, ch) == at(before.host_in, ch)
            &&& at(after_in.to_codec, ch) == at(before.to_codec, ch)
        },
        !before.resampled ==> chunk_in is None && at(after_in.to_codec, ch) == at(
            before.to_codec,
            ch,
        ) + at(before.host_in, ch) && at(after_in.host_in, ch).len() == 0,
        chunk_out matches Some(c) ==> {
            &&& c@[ch].len() == 480
            &&& c@[ch]@ + at(after_out.to_host, ch) == at(before.to_host, ch)
            &&& at(after_out.host_out, ch) == at(before.host_out, ch)
        },
        !before.resampled ==> chunk_out is None && at(after_out.host_out, ch) == at(
            before.host_out,
            ch,
        ) + at(before.to_host, ch) && at(after_out.to_host, ch).len() == 0,
{
    if let Some(c) = chunk_in {
        let q = at(before.host_in, ch);
        let k = before.h2c_chunk as nat;
        assert(c@[ch]@ == front(q, k));
        assert(at(after_in.host_in, ch) == rest(q, k));
        assert(front(q, k) + rest(q, k) =~= q);
    }
    if let Some(c) = chunk_out {
        let q = at(before.to_host, ch);
        let k = before.c2h_chunk as nat;
        assert(c@[ch]@ == front(q, k));
        assert(at(after_out.to_host, ch) == rest(q, k));
        assert(front(q, k) + rest(q, k) =~= q);
    }
    if !before.resampled {
        assert(after_in.host_in@[ch]@ == Seq::<Sample>::empty());
        assert(after_out.to_host@[ch]@ == Seq::<Sample>::empty());
    }
}

}
