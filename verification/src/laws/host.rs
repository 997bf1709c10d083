//! The host's side: what a reset leaves, what a slot is built for, and how the
//! latencies add up.

use crate::laws::pipeline::at;
use crate::params::{ParamChange, StreamingSimulatorParams};
use crate::processor::bluetooth::link::law_allowance_is_a_fortieth;
use crate::processor::bluetooth::orchestrator::{bt_latency, reset_slots, BluetoothProcessor};
use crate::processor::bluetooth::lc3::lc3_latency;
use crate::processor::bluetooth::sbc::sbc_latency;
use crate::processor::fdk_chain::{chain_latency, FdkChain, FdkFamily};
use crate::processor::fm_mpx::mpx_latency;
use crate::processor::fm_radio::FmRadioProcessor;
use crate::processor::mp3::{natural_latency, worst_estimate, Mp3Processor};
use crate::processor::opus::{opus_estimate, opus_latency, OpusProcessor};
use crate::processor::pipeline::{estimated, BuiltResampler, ResampledPipeline};
use crate::processor::vorbis::{vorbis_latency, VorbisProcessor};
use crate::sample::Sample;
use crate::simulator::{
    built_chain, built_fm, built_mp3, built_opus, built_vorbis, plugin_latency, reset_all,
    HostResamplers, StreamingSimulator,
};
use vstd::arithmetic::div_mod::*;
use vstd::arithmetic::power2::*;
use vstd::prelude::*;

verus! {

/// `len` samples of silence.
pub open spec fn is_silence(s: Seq<Sample>, len: int) -> bool {
    &&& s.len() == len
    &&& forall|i: int| 0 <= i < s.len() ==> (#[trigger] s[i]).bits == 0
}

/// Nothing is under way on a channel but the silence that makes up the latency.
pub open spec fn at_rest(p: ResampledPipeline, ch: int) -> bool {
    &&& at(p.host_input, ch).len() == 0
    &&& at(p.internal_input, ch).len() == 0
    &&& at(p.internal_output, ch).len() == 0
    &&& is_silence(at(p.host_output, ch), p.latency_host_samples as int)
}

/// The same of the FM chain and its delay.
pub open spec fn fm_at_rest(p: FmRadioProcessor, ch: int) -> bool {
    &&& at(p.mpx.host_input, ch).len() == 0
    &&& at(p.mpx.mpx, ch).len() == 0
    &&& at(p.mpx.decoded, ch).len() == 0
    &&& at(p.mpx.host_output, ch).len() == 0
    &&& ch < p.channels ==> is_silence(at(p.delay, ch), p.delay_len as int)
}

/// A reset leaves every codec that has been made without any of the sound before
/// it, and without a codec that remembers it: on each channel nothing is under way
/// but silence, as long as the latency. So does the dry delay.
pub proof fn law_reset_leaves_only_silence(
    before: StreamingSimulator,
    after: StreamingSimulator,
    ch: int,
)
    requires
        before.wf(),
        after.slots_ok(),
        after.same_host(&before),
        reset_all(before, after),
        0 <= ch < before.host_channels,
    ensures
        before.opus matches Some(p) && p.pipeline.ready ==> after.opus is Some && at_rest(
            after.opus->0.pipeline,
            ch,
        ),
        before.vorbis matches Some(p) && p.pipeline.ready ==> after.vorbis is Some && at_rest(
            after.vorbis->0.pipeline,
            ch,
        ) && !after.vorbis->0.codec_open,
        before.mp3 matches Some(p) && p.pipeline.ready ==> after.mp3 is Some && at_rest(
            after.mp3->0.pipeline,
            ch,
        ) && after.mp3->0.codec is None && after.mp3->0.dec_input@.len() == 0,
        before.aac matches Some(p) && p.chain.pipeline.ready ==> after.aac is Some && at_rest(
            after.aac->0.chain.pipeline,
            ch,
        ) && after.aac->0.chain.codec is None,
        before.heaac_v1 matches Some(p) && p.chain.pipeline.ready ==> after.heaac_v1 is Some
            && at_rest(after.heaac_v1->0.chain.pipeline, ch) && after.heaac_v1->0.chain.codec
            is None,
        before.heaac matches Some(p) && p.chain.pipeline.ready ==> after.heaac is Some && at_rest(
            after.heaac->0.chain.pipeline,
            ch,
        ) && after.heaac->0.chain.codec is None,
        before.fm_radio matches Some(p) && p.ready ==> after.fm_radio is Some && fm_at_rest(
            after.fm_radio->0,
            ch,
        ),
        before.bluetooth matches Some(p) && p.ready ==> after.bluetooth is Some && reset_slots(
            before.bluetooth->0,
            after.bluetooth->0,
        ),
        is_silence(at(after.bypass_delay, ch), before.target_latency_samples as int),
        after.last_dispatched_codec is None,
{
    assert(after.bypass_delay@[ch]@.len() == before.target_latency_samples);
    if let Some(p) = after.opus {
        lemma_primed_rests(p.pipeline, ch);
    }
    if let Some(p) = after.vorbis {
        lemma_primed_rests(p.pipeline, ch);
    }
    if let Some(p) = after.mp3 {
        lemma_primed_rests(p.pipeline, ch);
    }
    if let Some(p) = after.aac {
        lemma_primed_rests(p.chain.pipeline, ch);
    }
    if let Some(p) = after.heaac_v1 {
        lemma_primed_rests(p.chain.pipeline, ch);
    }
    if let Some(p) = after.heaac {
        lemma_primed_rests(p.chain.pipeline, ch);
    }
    if let Some(p) = after.fm_radio {
        if p.ready {
            assert(p.mpx.ready);
            assert(p.mpx.host_input@[ch]@.len() == 0);
            assert(p.mpx.mpx@[ch]@.len() == 0);
            assert(p.mpx.decoded@[ch]@.len() == 0);
            assert(p.mpx.host_output@[ch]@.len() == 0);
            assert(p.delay@[ch]@.len() == p.delay_len);
        }
    }
}

proof fn lemma_primed_rests(p: ResampledPipeline, ch: int)
    requires
        p.wf(),
        p.ready ==> 0 <= ch < p.channels,
    ensures
        p.ready && p.primed() ==> at_rest(p, ch),
{
    if p.ready && p.primed() {
        assert(p.host_input@[ch]@.len() == 0);
        assert(p.internal_input@[ch]@.len() == 0);
        assert(p.internal_output@[ch]@.len() == 0);
        assert(p.host_output@[ch]@.len() == p.latency_host_samples);
    }
}

/// A reset of the Bluetooth stage leaves no backend with any of the sound before
/// it, and makes or drops none.
pub proof fn law_bluetooth_reset_leaves_only_silence(
    before: BluetoothProcessor,
    after: BluetoothProcessor,
    ch: int,
)
    requires
        before.wf(),
        after.wf(),
        before.ready,
        reset_slots(before, after),
        0 <= ch < before.channels,
    ensures
        before.sbc_low is Some <==> after.sbc_low is Some,
        before.sbc_high is Some <==> after.sbc_high is Some,
        before.lc3_64 is Some <==> after.lc3_64 is Some,
        before.lc3_160 is Some <==> after.lc3_160 is Some,
        before.aac_128 is Some <==> after.aac_128 is Some,
        before.aac_256 is Some <==> after.aac_256 is Some,
        after.sbc_low matches Some(c) ==> at(c.host_in, ch).len() == 0 && at(c.sbc_in, ch).len()
            == 0 && at(c.sbc_out, ch).len() == 0 && is_silence(
            at(c.host_out, ch),
            sbc_latency(before.sample_rate),
        ),
        after.sbc_high matches Some(c) ==> at(c.host_in, ch).len() == 0 && at(c.sbc_in, ch).len()
            == 0 && at(c.sbc_out, ch).len() == 0 && is_silence(
            at(c.host_out, ch),
            sbc_latency(before.sample_rate),
        ),
        after.lc3_64 matches Some(c) ==> at(c.host_in, ch).len() == 0 && at(c.codec_in, 0).len()
            == 0 && is_silence(at(c.host_out, ch), lc3_latency(before.sample_rate)),
        after.lc3_160 matches Some(c) ==> at(c.host_in, ch).len() == 0 && at(c.codec_in, ch).len()
            == 0 && is_silence(at(c.host_out, ch), lc3_latency(before.sample_rate)),
        after.aac_128 matches Some(c) ==> c.inner.chain.pipeline.ready ==> at_rest(
            c.inner.chain.pipeline,
            ch,
        ) && c.inner.chain.codec is None,
        after.aac_256 matches Some(c) ==> c.inner.chain.pipeline.ready ==> at_rest(
            c.inner.chain.pipeline,
            ch,
        ) && c.inner.chain.codec is None,
{
    lemma_bt_latencies(before.sample_rate);
    if let Some(c) = after.sbc_low {
        assert(c.host_in@[ch]@.len() == 0 && c.sbc_in@[ch]@.len() == 0);
        assert(c.sbc_out@[ch]@.len() == 0);
        assert(c.host_out@[ch]@.len() == sbc_latency(c.sample_rate));
    }
    if let Some(c) = after.sbc_high {
        assert(c.host_in@[ch]@.len() == 0 && c.sbc_in@[ch]@.len() == 0);
        assert(c.sbc_out@[ch]@.len() == 0);
        assert(c.host_out@[ch]@.len() == sbc_latency(c.sample_rate));
    }
    if let Some(c) = after.lc3_64 {
        assert(c.host_in@[ch]@.len() == 0 && c.codec_in@[0]@.len() == 0);
        assert(c.host_out@[ch]@.len() == lc3_latency(c.sample_rate));
    }
    if let Some(c) = after.lc3_160 {
        assert(c.host_in@[ch]@.len() == 0 && c.codec_in@[ch]@.len() == 0);
        assert(c.host_out@[ch]@.len() == lc3_latency(c.sample_rate));
    }
    if let Some(c) = after.aac_128 {
        lemma_primed_rests(c.inner.chain.pipeline, ch);
    }
    if let Some(c) = after.aac_256 {
        lemma_primed_rests(c.inner.chain.pipeline, ch);
    }
}

proof fn lemma_bt_latencies(host_rate: u32)
    ensures
        sbc_latency(host_rate) >= 0,
        lc3_latency(host_rate) >= 0,
{
    let n = crate::rounding::rounded(crate::rounding::rounded(host_rate as nat) * 13_421_773);
    lemma_pow2_pos(29);
    lemma_div_pos_is_pos(n as int, pow2(29) as int);
}

/// The pipeline stands between the host and a codec at `rate`, with the resamplers
/// to that rate and back where it is another than the host's.
pub open spec fn stands_between(
    p: ResampledPipeline,
    s: StreamingSimulator,
    rate: int,
    to: Option<BuiltResampler>,
    from: Option<BuiltResampler>,
) -> bool {
    &&& p.host_rate == s.host_sample_rate
    &&& p.channels == s.host_channels
    &&& p.encode_rate == rate
    &&& p.decode_rate == rate
    &&& s.host_sample_rate == rate ==> p.h2i is None && p.i2h is None
    &&& s.host_sample_rate != rate ==> p.h2i == to && p.i2h == from
    &&& p.latency_host_samples == s.target_latency_samples
}

/// Each codec is built for the host and its own rate: Opus at 48 kHz, the others at
/// 44.1 kHz, FM at 192 kHz, each with the resamplers to and from that rate, with
/// nothing under way but the plugin's latency in silence.
pub proof fn law_slots_are_built_for_the_host(
    s: StreamingSimulator,
    opus: OpusProcessor,
    opened: bool,
    vorbis: VorbisProcessor,
    mp3: Mp3Processor,
    chain: FdkChain,
    fm: FmRadioProcessor,
    ch: int,
)
    requires
        built_opus(opus, &s, opened),
        built_vorbis(vorbis, &s),
        built_mp3(mp3, &s),
        built_chain(chain, &s),
        built_fm(fm, &s),
        0 <= ch < s.host_channels,
    ensures
        opus.pipeline.ready ==> at_rest(opus.pipeline, ch) && stands_between(
            opus.pipeline,
            s,
            48_000,
            s.resamplers.to_48000,
            s.resamplers.from_48000,
        ),
        vorbis.pipeline.ready ==> at_rest(vorbis.pipeline, ch) && stands_between(
            vorbis.pipeline,
            s,
            44_100,
            s.resamplers.to_44100,
            s.resamplers.from_44100,
        ) && !vorbis.codec_open,
        mp3.pipeline.ready ==> at_rest(mp3.pipeline, ch) && stands_between(
            mp3.pipeline,
            s,
            44_100,
            s.resamplers.to_44100,
            s.resamplers.from_44100,
        ) && mp3.codec is None,
        chain.pipeline.ready ==> at_rest(chain.pipeline, ch) && stands_between(
            chain.pipeline,
            s,
            44_100,
            s.resamplers.to_44100,
            s.resamplers.from_44100,
        ) && chain.codec is None,
        fm.ready ==> {
            &&& fm_at_rest(fm, ch)
            &&& fm.sample_rate == s.host_sample_rate
            &&& s.host_sample_rate != 192_000 ==> fm.mpx.h2m == s.resamplers.to_192000
                && fm.mpx.m2h == s.resamplers.from_192000
            &&& s.host_sample_rate == 192_000 ==> fm.mpx.h2m is None && fm.mpx.m2h is None
                && fm.delay_len == s.target_latency_samples
        },
{
    if opus.pipeline.ready {
        lemma_primed_rests(opus.pipeline, ch);
    }
    if vorbis.pipeline.ready {
        lemma_primed_rests(vorbis.pipeline, ch);
    }
    if mp3.pipeline.ready {
        lemma_primed_rests(mp3.pipeline, ch);
    }
    if chain.pipeline.ready {
        lemma_primed_rests(chain.pipeline, ch);
    }
    if fm.ready {
        assert(fm.mpx.host_input@[ch]@.len() == 0);
        assert(fm.mpx.mpx@[ch]@.len() == 0);
        assert(fm.mpx.decoded@[ch]@.len() == 0);
        assert(fm.mpx.host_output@[ch]@.len() == 0);
        assert(fm.delay@[ch]@.len() == fm.delay_len);
    }
}

/// The plugin reports no more than it needs: its latency is that of one of the
/// families.
pub proof fn law_plugin_latency_is_attained(host: u32, r: HostResamplers)
    ensures
        ({
            let l = plugin_latency(host, r);
            ||| l == opus_estimate(host, r.to_48000, r.from_48000)
            ||| l == vorbis_latency(host, r.to_44100, r.from_44100)
            ||| l == worst_estimate(host, r.to_44100, r.outs())
            ||| l == mpx_latency(host, r.to_192000, r.from_192000)
            ||| l == chain_latency(FdkFamily::AacLc, host, r.to_44100, r.from_44100)
            ||| l == chain_latency(FdkFamily::HeAacV1, host, r.to_44100, r.from_44100)
            ||| l == chain_latency(FdkFamily::HeAacV2, host, r.to_44100, r.from_44100)
            ||| l == bt_latency(host, r.to_44100, r.from_44100)
        }),
{
}

/// How a latency adds up: 20 ms at the host gathered for the resampler, its delay
/// and the codec's round trip in samples of the codec, 20 ms of the codec's output
/// gathered for the other resampler, and that one's delay in samples of the host. At
/// a rate that is the host's own, the resampler's parts fall away.
pub proof fn law_latency_is_the_sum_of_its_parts(
    host_rate: u32,
    encode_rate: u32,
    decode_rate: u32,
    roundtrip: u32,
    to: BuiltResampler,
    from: BuiltResampler,
)
    requires
        encode_rate > 0,
        decode_rate > 0,
        host_rate != encode_rate,
        host_rate != decode_rate,
    ensures
        estimated(host_rate, encode_rate, decode_rate, roundtrip, Some(to), Some(from))
            == host_rate as int / 50 + (to.output_delay + roundtrip) * host_rate as int
            / encode_rate as int + (decode_rate as int / 50) * host_rate as int
            / decode_rate as int + from.output_delay,
        estimated(encode_rate, encode_rate, decode_rate, roundtrip, None, Some(from)) == roundtrip
            + (if decode_rate == encode_rate {
            0
        } else {
            (decode_rate as int / 50) * encode_rate as int / decode_rate as int + from.output_delay
        }),
        estimated(host_rate, encode_rate, decode_rate, roundtrip, None, Some(from)) == 0,
        estimated(host_rate, encode_rate, decode_rate, roundtrip, Some(to), None) == 0,
{
    lemma_div_by_multiple(roundtrip as int, encode_rate as int);
    assert(0int * encode_rate as int == 0) by (nonlinear_arith);
    lemma_div_by_multiple(0, decode_rate as int);
}

/// The same for Opus, whose output chunk is counted with its frame: 20 ms at the
/// host, the resampler's delay and 1272 samples at 48 kHz, and the delay on the way
/// back.
pub proof fn law_opus_latency_is_the_sum_of_its_parts(
    host_rate: u32,
    to: BuiltResampler,
    from: BuiltResampler,
)
    requires
        host_rate != 48_000,
    ensures
        opus_latency(host_rate, Some(to), Some(from)) == host_rate as int / 50 + (to.output_delay
            + 1272) * host_rate as int / 48_000 + from.output_delay,
{
}

/// The same for MP3: LAME's six frames count at 44.1 kHz whatever rate it emits.
pub proof fn law_mp3_latency_is_the_sum_of_its_parts(
    host_rate: u32,
    decode_rate: u32,
    to: BuiltResampler,
    from: BuiltResampler,
)
    requires
        host_rate != 44_100,
        host_rate != decode_rate,
        decode_rate > 0,
    ensures
        natural_latency(host_rate, decode_rate, Some(to), Some(from)) == host_rate as int / 50
            + to.output_delay * host_rate as int / 44_100 + 6912 * host_rate as int / 44_100 + (
        decode_rate as int / 50) * host_rate as int / decode_rate as int + from.output_delay,
{
}

/// The same for FM: 10 ms gathered on each side, and the two delays.
pub proof fn law_mpx_latency_is_the_sum_of_its_parts(
    host_rate: u32,
    to: BuiltResampler,
    from: BuiltResampler,
)
    requires
        host_rate >= 100,
        host_rate != 192_000,
    ensures
        mpx_latency(host_rate, Some(to), Some(from)) == 2 * (host_rate as int / 100)
            + to.output_delay * host_rate as int / 192_000 + from.output_delay,
{
    assert(1920 * host_rate as int / 192_000 == host_rate as int / 100);
}

/// The resamplers from each rate that LAME may pick are those of the host for that
/// rate, and the estimate for MP3 is the largest over them.
pub proof fn law_mp3_counts_every_rate(host: u32, r: HostResamplers)
    ensures
        r.outs().from_22050 == r.from_22050,
        r.outs().from_24000 == r.from_24000,
        r.outs().from_32000 == r.from_32000,
        r.outs().from_44100 == r.from_44100,
        ({
            let e = worst_estimate(host, r.to_44100, r.outs());
            let a = estimated(host, 44_100, 22_050, 6912, r.to_44100, r.from_22050);
            let b = estimated(host, 44_100, 24_000, 6912, r.to_44100, r.from_24000);
            let c = estimated(host, 44_100, 32_000, 6912, r.to_44100, r.from_32000);
            let d = estimated(host, 44_100, 44_100, 6912, r.to_44100, r.from_44100);
            &&& e >= a && e >= b && e >= c && e >= d
            &&& e == a || e == b || e == c || e == d
        }),
{
}

/// The families of the AAC chain and Vorbis differ in their round trips alone; on a
/// host at 44.1 kHz that is all there is.
pub proof fn law_direct_latency_is_the_round_trip(r: HostResamplers)
    ensures
        chain_latency(FdkFamily::AacLc, 44_100, r.to_44100, r.from_44100) == 4 * 1024,
        chain_latency(FdkFamily::HeAacV1, 44_100, r.to_44100, r.from_44100) == 5 * 2048,
        chain_latency(FdkFamily::HeAacV2, 44_100, r.to_44100, r.from_44100) == 6 * 2048,
        vorbis_latency(44_100, r.to_44100, r.from_44100) == 4096,
        opus_latency(48_000, r.to_48000, r.from_48000) == 960 + 312,
        mpx_latency(192_000, r.to_192000, r.from_192000) == 0,
{
    assert(0int * 44_100 == 0);
    assert(0int * 48_000 == 0);
}

/// The Bluetooth backends allow a fortieth of a second for the resamplers, where
/// there are any, and four frames of the codec: 128 samples at 44.1 kHz for SBC,
/// 10 ms for LC3.
pub proof fn law_bluetooth_latency_is_four_frames(host_rate: u32)
    requires
        host_rate <= 13_000_000,
    ensures
        sbc_latency(host_rate) == host_rate as int * 512 / 44_100 + (if host_rate == 44_100 {
            0int
        } else {
            host_rate as int / 40
        }),
        lc3_latency(host_rate) == host_rate as int / 25 + (if host_rate == 48_000 {
            0int
        } else {
            host_rate as int / 40
        }),
{
    law_allowance_is_a_fortieth(host_rate);
    assert(host_rate as int * 4 * 480 / 48_000 == host_rate as int / 25);
}

/// A change sets the one parameter that it names and no other; changes of different
/// parameters do not get in each other's way.
pub proof fn law_changes_are_independent(
    params: StreamingSimulatorParams,
    change: ParamChange,
    other: ParamChange,
)
    ensures
        match change {
            ParamChange::Codec(v) => {
                let p = params.with(change);
                p.codec == v && p.bypass == params.bypass && p.bluetooth_enabled
                    == params.bluetooth_enabled && p.bluetooth_protocol
                    == params.bluetooth_protocol
            },
            ParamChange::Bypass(v) => {
                let p = params.with(change);
                p.codec == params.codec && p.bypass == v && p.bluetooth_enabled
                    == params.bluetooth_enabled && p.bluetooth_protocol
                    == params.bluetooth_protocol
            },
            ParamChange::BluetoothEnabled(v) => {
                let p = params.with(change);
                p.codec == params.codec && p.bypass == params.bypass && p.bluetooth_enabled == v
                    && p.bluetooth_protocol == params.bluetooth_protocol
            },
            ParamChange::BluetoothProtocol(v) => {
                let p = params.with(change);
                p.codec == params.codec && p.bypass == params.bypass && p.bluetooth_enabled
                    == params.bluetooth_enabled && p.bluetooth_protocol == v
            },
        },
        params.with(change).with(change) == params.with(change),
        (change is Codec != other is Codec) || (change is Bypass != other is Bypass) || (change
            is BluetoothEnabled != other is BluetoothEnabled) ==> params.with(change).with(other)
            == params.with(other).with(change),
{
}

}
