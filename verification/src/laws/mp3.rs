//! The MP3 family: what LAME gets, and which decoded samples are heard on which
//! channel.

use crate::laws::aac::{lemma_plays, plays};
use crate::laws::pipeline::at;
use crate::processor::lame::lame_calls;
use crate::processor::mp3::{
    accepted, advanced, coded_after, early, encoded_frame, entered, fed, is_encoded,
    nominal_frame_bytes, opened_for, processed, took_frames, DecodeReport, Mp3Action, Mp3Event,
    Mp3Mode, Mp3Processor,
};
use crate::processor::pipeline::{BlockEvent, BuiltResampler};
use crate::sample::{full_scale, quantised, Sample};
use vstd::arithmetic::div_mod::*;
use vstd::arithmetic::power2::*;
use vstd::prelude::*;

verus! {

/// The report holds a frame that is to be played.
pub open spec fn has_frame(report: DecodeReport) -> bool {
    report.samples > 0 && report.frame_bytes > 0
}

/// Where the frame has a channel `ch`, host channel `ch` plays exactly that: sample
/// `s` past the warm-up is the value at that place of the interleaved PCM, over
/// 32768. A host channel that the frame does not have plays its first one.
pub proof fn law_report_plays_channel_by_channel(
    before: Mp3Processor,
    after: Mp3Processor,
    report: DecodeReport,
    ch: int,
    s: int,
)
    requires
        before.wf(),
        before.pipeline.ready,
        report.wf(),
        has_frame(report),
        accepted(before, after, report),
        0 <= ch < before.pipeline.channels,
        0 <= s,
        before.samples_to_discard + s < report.samples,
    ensures
        ({
            let old_queue = at(before.pipeline.internal_output, ch);
            let queue = at(after.pipeline.internal_output, ch);
            let place = (before.samples_to_discard + s) * report.channels;
            &&& queue.len() == old_queue.len() + report.samples - before.samples_to_discard
            &&& queue.take(old_queue.len() as int) == old_queue
            &&& ch < report.channels ==> plays(queue[old_queue.len() + s], report.pcm@[place + ch])
            &&& ch >= report.channels ==> plays(queue[old_queue.len() + s], report.pcm@[place])
            &&& after.samples_to_discard == 0
        }),
{
    let old_queue = at(before.pipeline.internal_output, ch);
    let queue = at(after.pipeline.internal_output, ch);
    let place = (before.samples_to_discard + s) * report.channels;
    if ch < report.channels {
        lemma_plays(report.pcm@[place + ch]);
    } else {
        lemma_plays(report.pcm@[place]);
    }
    assert(queue.take(old_queue.len() as int) =~= old_queue);
}

/// A frame all of which is warm-up is not heard, and shortens the warm-up by itself.
pub proof fn law_mp3_warm_up_is_not_heard(
    before: Mp3Processor,
    after: Mp3Processor,
    report: DecodeReport,
    ch: int,
)
    requires
        before.wf(),
        before.pipeline.ready,
        report.wf(),
        has_frame(report),
        accepted(before, after, report),
        0 <= ch < before.pipeline.channels,
        report.samples <= before.samples_to_discard,
    ensures
        at(after.pipeline.internal_output, ch) == at(before.pipeline.internal_output, ch),
        after.samples_to_discard + report.samples == before.samples_to_discard,
{
    assert(at(after.pipeline.internal_output, ch) =~= at(before.pipeline.internal_output, ch));
}

/// The bytes that the decoder is done with leave the queue, and no others.
pub proof fn law_report_takes_its_bytes(
    before: Mp3Processor,
    after: Mp3Processor,
    report: DecodeReport,
)
    requires
        accepted(before, after, report),
    ensures
        0 < report.frame_bytes <= before.dec_input@.len() && (report.samples > 0
            || report.frame_bytes < before.dec_input@.len()) ==> before.dec_input@.take(
            report.frame_bytes as int,
        ) + after.dec_input@ == before.dec_input@ && after.decoding == before.decoding,
        report.frame_bytes == 0 ==> after.dec_input@ == before.dec_input@ && !after.decoding,
        report.samples == 0 ==> after.pipeline == before.pipeline,
        report.samples == 0 && report.frame_bytes >= before.dec_input@.len() ==> after.dec_input@
            == before.dec_input@ && !after.decoding,
{
    if 0 < report.frame_bytes <= before.dec_input@.len() && (report.samples > 0
        || report.frame_bytes < before.dec_input@.len()) {
        assert(before.dec_input@.take(report.frame_bytes as int) + after.dec_input@
            =~= before.dec_input@);
    }
}

/// Frames that agree on every channel but one sound the same on the others and
/// differ on that one.
pub proof fn law_mp3_channels_do_not_mix(
    before: Mp3Processor,
    after_a: Mp3Processor,
    after_b: Mp3Processor,
    a: DecodeReport,
    b: DecodeReport,
    changed: int,
    ch: int,
    s: int,
)
    requires
        before.wf(),
        before.pipeline.ready,
        before.samples_to_discard == 0,
        a.wf(),
        b.wf(),
        has_frame(a),
        has_frame(b),
        a.samples == b.samples,
        a.channels == b.channels,
        a.channels == before.pipeline.channels,
        accepted(before, after_a, a),
        accepted(before, after_b, b),
        0 <= changed < a.channels,
        0 <= ch < a.channels,
        0 <= s < a.samples,
        forall|i: int, c: int|
            0 <= i < a.samples && 0 <= c < a.channels && c != changed ==> #[trigger] a.pcm@[i
                * a.channels + c] == b.pcm@[i * a.channels + c],
        a.pcm@[s * a.channels + changed] != b.pcm@[s * a.channels + changed],
    ensures
        if ch == changed {
            at(after_a.pipeline.internal_output, ch) != at(after_b.pipeline.internal_output, ch)
        } else {
            at(after_a.pipeline.internal_output, ch) == at(after_b.pipeline.internal_output, ch)
        },
{
    let x = at(after_a.pipeline.internal_output, ch);
    let y = at(after_b.pipeline.internal_output, ch);
    let old_len = at(before.pipeline.internal_output, ch).len() as int;
    law_report_plays_channel_by_channel(before, after_a, a, ch, s);
    law_report_plays_channel_by_channel(before, after_b, b, ch, s);
    if ch == changed {
        let va = a.pcm@[s * a.channels + ch];
        let vb = b.pcm@[s * a.channels + ch];
        lemma_pow2_pos(149);
        if x[old_len + s] == y[old_len + s] {
            assert(va == vb) by (nonlinear_arith)
                requires
                    va * full_scale() == vb * full_scale(),
                    full_scale() > 0,
            ;
        }
    } else {
        assert forall|k: int| 0 <= k < x.len() implies #[trigger] x[k] == y[k] by {
            let i = k - old_len;
            if i >= 0 {
                assert(a.pcm@[i * a.channels + ch] == b.pcm@[i * a.channels + ch]);
            }
        }
        assert(x =~= y);
    }
}

/// A step that takes a report and asks for more decoding has played the report's
/// frame, channel by channel.
pub proof fn law_step_plays_the_report(
    before: Mp3Processor,
    after: Mp3Processor,
    b0: Seq<Vec<Sample>>,
    b1: Seq<Vec<Sample>>,
    n: nat,
    report: DecodeReport,
    bitrate_kbps: u32,
    r: Mp3Action,
    ch: int,
    s: int,
)
    requires
        before.wf(),
        before.pipeline.ready,
        before.codec is Some,
        report.wf(),
        has_frame(report),
        processed(
            before,
            after,
            b0,
            b1,
            n,
            Mp3Event::Decoded(report),
            Mp3Mode::Mp3 { bitrate_kbps },
            r,
        ),
        r is Decode,
        0 <= ch < before.pipeline.channels,
        0 <= s,
        before.samples_to_discard + s < report.samples,
    ensures
        ({
            let old_queue = at(before.pipeline.internal_output, ch);
            let queue = at(after.pipeline.internal_output, ch);
            let place = (before.samples_to_discard + s) * report.channels;
            &&& queue.len() == old_queue.len() + report.samples - before.samples_to_discard
            &&& ch < report.channels ==> plays(queue[old_queue.len() + s], report.pcm@[place + ch])
            &&& ch >= report.channels ==> plays(queue[old_queue.len() + s], report.pcm@[place])
        }),
{
    let mode = Mp3Mode::Mp3 { bitrate_kbps };
    let event = Mp3Event::Decoded(report);
    assert(!early(before, after, b0, b1, n, event, r));
    let (c2, c3, todo) = choose|c2: Mp3Processor, c3: Mp3Processor, todo: Option<Mp3Action>|
        {
            &&& #[trigger] coded_after(c2, c3, mode, event, todo)
            &&& entered(before, c2, b0, n, event)
            &&& match todo {
                Some(action) => r == action && after == c3 && b1 == b0,
                None => r is Block,
            }
        };
    law_report_plays_channel_by_channel(before, c2, report, ch, s);
    assert(at(after.pipeline.internal_output, ch) == at(c2.pipeline.internal_output, ch));
}

/// LAME gets each channel as a channel of its own: sample `s` of channel `ch`.
pub proof fn law_lame_gets_the_channels(
    before: Mp3Processor,
    after: Mp3Processor,
    ch: int,
    s: int,
)
    requires
        before.wf(),
        before.pipeline.ready,
        encoded_frame(before, after),
        0 <= ch < before.pipeline.channels,
        at(before.pipeline.internal_input, ch).len() >= 1152,
        0 <= s < 1152,
    ensures
        ({
            let old_calls = lame_calls(before.codec->0.encoder);
            let calls = lame_calls(after.codec->0.encoder);
            &&& calls.len() == old_calls.len() + 1
            &&& calls.last().channels.len() == before.pipeline.channels
            &&& calls.last().channels[ch].len() == 1152
            &&& calls.last().channels[ch][s] == quantised(at(before.pipeline.internal_input, ch)[s])
            &&& at(after.pipeline.internal_input, ch) == at(
                before.pipeline.internal_input,
                ch,
            ).skip(1152)
        }),
{
    let call = choose|call| #[trigger] is_encoded(before, after, call);
    assert(lame_calls(after.codec->0.encoder).last() == call);
}

/// A block on another bitrate than that of the open codec asks for a codec at the
/// block's bitrate, and decoding is asked for only at that bitrate.
pub proof fn law_mp3_block_runs_at_its_bitrate(
    before: Mp3Processor,
    after: Mp3Processor,
    b0: Seq<Vec<Sample>>,
    b1: Seq<Vec<Sample>>,
    n: nat,
    e: BlockEvent,
    bitrate_kbps: u32,
    r: Mp3Action,
)
    requires
        before.pipeline.ready,
        bitrate_kbps <= i32::MAX,
        processed(
            before,
            after,
            b0,
            b1,
            n,
            Mp3Event::Block(e),
            Mp3Mode::Mp3 { bitrate_kbps },
            r,
        ),
    ensures
        r matches Mp3Action::OpenCodec(kbps) ==> kbps == bitrate_kbps,
        r is Decode ==> before.codec is Some && before.current_bitrate_kbps == bitrate_kbps,
        (before.codec is None || before.current_bitrate_kbps != bitrate_kbps) && !(r is Block)
            ==> r is OpenCodec,
{
}

/// The decoder is called once two whole frames and a header are there: the
/// threshold is two frames rounded up past their exact size, and four bytes.
pub proof fn law_threshold_holds_two_frames(bitrate_kbps: u32, decode_rate: u32)
    requires
        decode_rate > 0,
    ensures
        ({
            let frame = nominal_frame_bytes(bitrate_kbps, decode_rate) + 1;
            let samples: int = if decode_rate <= 24_000 {
                576
            } else {
                1152
            };
            &&& frame * 8 * decode_rate > samples * bitrate_kbps * 1000
            &&& (frame - 2) * 8 * decode_rate <= samples * bitrate_kbps * 1000
        }),
{
    let samples: int = if decode_rate <= 24_000 {
        576
    } else {
        1152
    };
    let a = samples * bitrate_kbps * 1000;
    let b = a / 8;
    let c = b / decode_rate as int;
    lemma_fundamental_div_mod(a, 8);
    lemma_fundamental_div_mod(b, decode_rate as int);
    lemma_mod_bound(b, decode_rate as int);
    assert(nominal_frame_bytes(bitrate_kbps, decode_rate) == c);
    assert((c + 1) * 8 * decode_rate > a) by (nonlinear_arith)
        requires
            a == 8 * b + a % 8,
            0 <= a % 8 < 8,
            b == decode_rate * c + b % (decode_rate as int),
            0 <= b % (decode_rate as int) < decode_rate,
            decode_rate > 0,
    ;
    assert((c - 1) * 8 * decode_rate <= a) by (nonlinear_arith)
        requires
            a == 8 * b + a % 8,
            0 <= a % 8,
            b == decode_rate * c + b % (decode_rate as int),
            0 <= b % (decode_rate as int),
            decode_rate > 0,
    ;
}

/// Bytes for the decoder come in behind those that wait, and only the oldest ever
/// give way: what is left is the end of all there was. It is everything as long as
/// that is 32768 bytes at most, and never shorter than what came in.
pub proof fn law_oldest_bytes_give_way(pending: Seq<u8>, bytes: Seq<u8>)
    ensures
        ({
            let all = pending + bytes;
            let left = fed(pending, bytes);
            &&& left.len() <= all.len()
            &&& left == all.skip(all.len() - left.len())
            &&& all.len() <= 32_768 ==> left == all
            &&& all.len() > 32_768 && bytes.len() <= 32_768 ==> left.len() == 32_768
            &&& bytes.len() > 32_768 ==> left == bytes
        }),
{
    let all = pending + bytes;
    let left = fed(pending, bytes);
    assert(left =~= all.skip(all.len() - left.len()));
    if all.len() <= 32_768 {
        assert(left =~= all);
    }
    if bytes.len() > 32_768 {
        assert(left =~= bytes);
    }
}

/// What LAME gives for a frame ends up at the end of the decoder's input.
pub proof fn law_lame_output_reaches_the_decoder(before: Mp3Processor, after: Mp3Processor)
    requires
        encoded_frame(before, after),
    ensures
        ({
            let given = lame_calls(after.codec->0.encoder).last().bytes;
            let left = after.dec_input@;
            &&& given is None ==> left == before.dec_input@
            &&& given matches Some(bytes) ==> left.len() >= bytes.len() && left.skip(
                left.len() - bytes.len(),
            ) == bytes
            &&& given matches Some(bytes) ==> before.dec_input@.len() + bytes.len() <= 32_768
                ==> left == before.dec_input@ + bytes
        }),
{
    let call = choose|call| #[trigger] is_encoded(before, after, call);
    assert(lame_calls(after.codec->0.encoder).last() == call);
    if let Some(bytes) = call.bytes {
        law_oldest_bytes_give_way(before.dec_input@, bytes);
        let left = after.dec_input@;
        if bytes.len() == 0 {
            assert(left.skip(left.len() as int) =~= bytes);
            assert(before.dec_input@ + bytes =~= before.dec_input@);
        } else {
            assert(left.skip(left.len() - bytes.len()) =~= bytes);
        }
    }
}

/// A codec that was opened starts afresh: nothing waits for the decoder, which is
/// called only once two whole frames at that bitrate are there, and a header.
pub proof fn law_opened_codec_waits_for_two_frames(
    before: Mp3Processor,
    after: Mp3Processor,
    bitrate_kbps: u32,
    output_hz: u32,
    i2h: Option<BuiltResampler>,
)
    requires
        output_hz > 0,
        opened_for(before, after, bitrate_kbps, output_hz, i2h),
    ensures
        after.current_bitrate_kbps == bitrate_kbps,
        after.dec_input@.len() == 0,
        after.samples_to_discard == 1152,
        !after.decoding,
        after.pipeline.decode_rate == output_hz,
        after.pipeline.host_output == before.pipeline.host_output,
        output_hz == before.pipeline.decode_rate ==> after.pipeline == before.pipeline,
        output_hz != before.pipeline.decode_rate ==> {
            &&& forall|ch: int|
                0 <= ch < after.pipeline.internal_output.len() ==> (
                #[trigger] after.pipeline.internal_output@[ch])@.len() == 0
            &&& output_hz == before.pipeline.host_rate ==> after.pipeline.i2h is None
            &&& output_hz != before.pipeline.host_rate ==> after.pipeline.i2h == i2h
            &&& after.pipeline.h2i == before.pipeline.h2i
            &&& after.pipeline.encode_rate == before.pipeline.encode_rate
        },
        ({
            let samples: int = if output_hz <= 24_000 {
                576
            } else {
                1152
            };
            &&& (after.min_decode_bytes - 4) * 8 * output_hz > 2 * (samples * bitrate_kbps * 1000)
            &&& (after.min_decode_bytes - 8) * 8 * output_hz <= 2 * (samples * bitrate_kbps * 1000)
        }),
{
    law_threshold_holds_two_frames(bitrate_kbps, output_hz);
    let frame = nominal_frame_bytes(bitrate_kbps, output_hz) + 1;
    let samples: int = if output_hz <= 24_000 {
        576
    } else {
        1152
    };
    let a = samples * bitrate_kbps * 1000;
    let m = after.min_decode_bytes as int;
    assert((m - 4) * 8 * output_hz > 2 * a && (m - 8) * 8 * output_hz <= 2 * a)
        by (nonlinear_arith)
        requires
            m == 2 * frame + 4,
            frame * 8 * output_hz > a,
            (frame - 2) * 8 * output_hz <= a,
    ;
}

/// The decoder is called when the threshold is reached, and only then; a step that
/// goes on without it has coded every whole frame.
pub proof fn law_decoding_starts_at_the_threshold(
    before: Mp3Processor,
    after: Mp3Processor,
    decode: bool,
)
    requires
        before.wf(),
        before.pipeline.ready,
        advanced(before, after, decode),
    ensures
        decode ==> after.dec_input@.len() >= after.min_decode_bytes,
        before.decoding && before.dec_input@.len() >= before.min_decode_bytes ==> decode,
        !decode ==> at(after.pipeline.internal_input, 0).len() < 1152,
        after.pipeline.internal_output == before.pipeline.internal_output,
        after.samples_to_discard == before.samples_to_discard,
{
    if !decode {
        let l = at(before.pipeline.internal_input, 0).len();
        let frames = l / 1152;
        lemma_fundamental_div_mod(l as int, 1152);
        lemma_mod_bound(l as int, 1152);
        assert(took_frames(before, after, frames));
        assert(after.pipeline.internal_input@[0]@ == crate::processor::rings::rest(
            before.pipeline.internal_input@[0]@,
            frames * 1152,
        ));
    }
}

}
