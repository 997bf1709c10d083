//! The plugin: each tier runs the codec that its recipe names, as the recipe asks.

use crate::laws::aac::{codec_ran, is_tuned, law_block_is_coded_as_asked};
use crate::laws::mono::{alike, law_mono_block_sounds_alike, replies_alike};
use crate::laws::pipeline::at;
use crate::platforms::{Codec, CodecSpec};
use crate::processor::aac::AacProcessor;
use crate::processor::bluetooth::orchestrator::BluetoothProtocol;
use crate::processor::bluetooth::sbc::BtEvent;
use crate::processor::fdk::{decoder_calls, encoder_settings, AacProfile};
use crate::processor::fdk_chain::{self, one_channel, ChainMode, FdkChain};
use crate::processor::heaac::HeAacV1Processor;
use crate::processor::heaacv2::HeAacV2Processor;
use crate::processor::mp3::Mp3Action;
use crate::processor::opus::OpusAction;
use crate::processor::pipeline::{block_fits, BlockAction, BlockEvent};
use crate::processor::vorbis::VorbisAction;
use crate::sample::Sample;
use crate::simulator::{
    aac_event, cascaded, codec_event_fits, dispatched_block, first_aac, first_heaac,
    first_heaac_v1, heard_before_bluetooth, opened_block, ran_bluetooth, ran_codec, switched,
    CodecAction, CodecEvent, SimAction, SimEvent, StreamingSimulator,
};
use vstd::prelude::*;

verus! {

/// The chain codes at `kbps`, in mono or not, as far as it has a codec.
pub open spec fn codes_as(chain: FdkChain, kbps: u32, mono: bool) -> bool {
    chain.codec matches Some(codec) ==> {
        &&& chain.current_bitrate_kbps == kbps
        &&& chain.current_mono == mono
        &&& encoder_settings(codec.encoder).bitrate_bps == 1000 * kbps
        &&& encoder_settings(codec.encoder).layout is Mono <==> (mono || chain.pipeline.channels
            == 1)
    }
}

/// The chain's codec, where it has one, is of a profile.
pub open spec fn encodes(chain: FdkChain, profile: AacProfile) -> bool {
    chain.codec matches Some(codec) ==> encoder_settings(codec.encoder).profile == profile
}

/// The step has gone through the AAC codec: it neither stopped for a chunk on the
/// way in nor only took a chunk on the way out.
pub open spec fn aac_ran(event: CodecEvent, r: SimAction) -> bool {
    &&& !(event matches CodecEvent::Aac(e) && e is OutputResampled)
    &&& !(r matches SimAction::Codec(CodecAction::Aac(a)) && a is ResampleInput)
}

/// Every AAC chain's encoder is set as the chain says.
pub open spec fn tuned(s: StreamingSimulator) -> bool {
    &&& s.aac matches Some(p) ==> is_tuned(p.chain)
    &&& s.heaac_v1 matches Some(p) ==> is_tuned(p.chain)
    &&& s.heaac matches Some(p) ==> is_tuned(p.chain)
}

/// Codecs other than those of one family are as they were.
pub open spec fn others_kept(
    before: StreamingSimulator,
    after: StreamingSimulator,
    spec: CodecSpec,
) -> bool {
    &&& !(spec is Opus) ==> after.opus == before.opus
    &&& !(spec is Vorbis) ==> after.vorbis == before.vorbis
    &&& !(spec is Mp3) ==> after.mp3 == before.mp3
    &&& !(spec is FmRadio) ==> after.fm_radio == before.fm_radio
    &&& !(spec is AacLc || spec is AacLcMono) ==> after.aac == before.aac
    &&& !(spec is HeAacV1) ==> after.heaac_v1 == before.heaac_v1
    &&& !(spec is HeAacV2) ==> after.heaac == before.heaac
}

pub proof fn lemma_opened(
    before: StreamingSimulator,
    after: StreamingSimulator,
    b0: Seq<Vec<Sample>>,
    n: nat,
    event: CodecEvent,
    codec: Codec,
)
    requires
        before.wf(),
        tuned(before),
        opened_block(before, after, b0, n, event, codec),
    ensures
        tuned(after),
        others_kept(before, after, codec.def().spec),
        after.same_host(&before),
        after.bluetooth == before.bluetooth,
        after.aac matches Some(p) ==> p.wf(),
        after.heaac_v1 matches Some(p) ==> p.wf(),
        after.heaac matches Some(p) ==> p.wf(),
        after.aac is Some <==> before.aac is Some,
        after.aac matches Some(p) ==> p.chain.pipeline.ready ==> {
            &&& p.chain.pipeline.channels == before.host_channels
            &&& before.host_channels == 2 && alike(before.aac->0.chain.pipeline) ==> alike(
                p.chain.pipeline,
            )
        },
{
    if event is Start {
        let mid = choose|mid: StreamingSimulator|
            {
                &&& #[trigger] switched(before, mid, codec)
                &&& crate::simulator::delayed(mid, after, b0, n)
            };
        if before.last_dispatched_codec != Some(codec) {
            let reset = choose|reset: StreamingSimulator|
                {
                    &&& #[trigger] crate::simulator::reset_for(before, reset, codec.def().spec)
                    &&& mid == (StreamingSimulator {
                        last_dispatched_codec: Some(codec),
                        ..reset
                    })
                };
            if let Some(p) = after.aac {
                if p.chain.pipeline.ready && before.host_channels == 2 && p
                    != before.aac->0 {
                    let q = p.chain.pipeline;
                    assert(q.primed());
                    assert(q.host_output@[0]@ == q.host_output@[1]@);
                    assert(q.internal_output@[0]@ == q.internal_output@[1]@);
                    assert(q.host_input@[0]@ == q.host_input@[1]@);
                    assert(q.internal_input@[0]@ == q.internal_input@[1]@);
                }
            }
        }
    }
}

/// What a step of the codec leaves is what the whole step leaves: the cascade does
/// not touch the platform's codecs.
pub proof fn lemma_parts(
    before: StreamingSimulator,
    after: StreamingSimulator,
    b0: Seq<Vec<Sample>>,
    b2: Seq<Vec<Sample>>,
    n: nat,
    e: CodecEvent,
    bypass: bool,
    codec: Codec,
    bt_enabled: bool,
    protocol: BluetoothProtocol,
    r: SimAction,
) -> (parts: (StreamingSimulator, StreamingSimulator, Seq<Vec<Sample>>, Option<CodecAction>))
    requires
        dispatched_block(
            before,
            after,
            b0,
            b2,
            n,
            SimEvent::Codec(e),
            bypass,
            codec,
            bt_enabled,
            protocol,
            r,
        ),
    ensures
        opened_block(before, parts.0, b0, n, e, codec),
        ran_codec(parts.0, parts.1, b0, parts.2, n, e, codec.def().spec, parts.3),
        match parts.3 {
            Some(action) => r == SimAction::Codec(action) && after == parts.1 && b2 == parts.2,
            None => {
                &&& !(r is Codec)
                &&& after == (StreamingSimulator { bluetooth: after.bluetooth, ..parts.1 })
                &&& !bypass && !bt_enabled && !(codec.def().spec is Bypass) ==> b2 == parts.2
                    && r is Done
            },
        },
{
    let (c1, c2, b1, todo) = choose|
        c1: StreamingSimulator,
        c2: StreamingSimulator,
        b1: Seq<Vec<Sample>>,
        todo: Option<CodecAction>,
    |
        {
            &&& opened_block(before, c1, b0, n, e, codec)
            &&& #[trigger] ran_codec(c1, c2, b0, b1, n, e, codec.def().spec, todo)
            &&& match todo {
                Some(action) => r == SimAction::Codec(action) && after == c2 && b2 == b1,
                None => cascaded(
                    c2,
                    after,
                    b1,
                    b2,
                    n,
                    bypass,
                    !(codec.def().spec is Bypass),
                    bt_enabled,
                    protocol,
                    r,
                ),
            }
        };
    (c1, c2, b1, todo)
}

proof fn lemma_chain_codes_as(
    first: FdkChain,
    last: FdkChain,
    b0: Seq<Vec<Sample>>,
    b1: Seq<Vec<Sample>>,
    n: nat,
    event: BlockEvent,
    kbps: u32,
    mono: bool,
    action: BlockAction,
)
    requires
        first.wf(),
        is_tuned(first),
        kbps <= 2_000_000,
        fdk_chain::processed(
            first,
            last,
            b0,
            b1,
            n,
            event,
            ChainMode::Coded { bitrate_kbps: kbps, mono },
            action,
        ),
        codec_ran(event, action),
    ensures
        last.pipeline.ready ==> codes_as(last, kbps, mono) && is_tuned(last),
        last.pipeline.ready == first.pipeline.ready,
        last.pipeline.ready ==> last.family == first.family,
{
    if first.pipeline.ready {
        law_block_is_coded_as_asked(first, last, b0, b1, n, event, kbps, mono, action);
        let (start, coded) = crate::laws::aac::lemma_coded_part(
            first,
            last,
            b0,
            b1,
            n,
            event,
            ChainMode::Coded { bitrate_kbps: kbps, mono },
            action,
        );
        let mid = choose|mid: FdkChain|
            {
                &&& #[trigger] fdk_chain::ensured_codec(start, mid, kbps, mono)
                &&& mid.codec is Some ==> fdk_chain::pumped_codec(mid, coded)
                &&& mid.codec is None ==> coded == (FdkChain { pipeline: coded.pipeline, ..mid })
                    && crate::processor::pipeline::muted_internal(mid.pipeline, coded.pipeline)
            };
        assert(coded.pipeline.ready);
        assert(coded.family == first.family);
    }
}

/// A step on a tier leaves the chain of its recipe coding as the recipe asks: an
/// AAC-LC mono tier in mono, every other AAC tier in stereo, each at its own
/// bitrate and in its own chain. The other chains are as they were, and every
/// codec that the recipe does not name.
pub proof fn law_tier_codes_as_its_recipe_asks(
    before: StreamingSimulator,
    after: StreamingSimulator,
    b0: Seq<Vec<Sample>>,
    b2: Seq<Vec<Sample>>,
    n: nat,
    e: CodecEvent,
    bypass: bool,
    codec: Codec,
    bt_enabled: bool,
    protocol: BluetoothProtocol,
    r: SimAction,
)
    requires
        before.wf(),
        after.wf(),
        tuned(before),
        dispatched_block(
            before,
            after,
            b0,
            b2,
            n,
            SimEvent::Codec(e),
            bypass,
            codec,
            bt_enabled,
            protocol,
            r,
        ),
    ensures
        others_kept(before, after, codec.def().spec),
        aac_ran(e, r) ==> recipe_followed(after, codec.def().spec),
{
    let (c1, c2, b1, todo) = lemma_parts(
        before,
        after,
        b0,
        b2,
        n,
        e,
        bypass,
        codec,
        bt_enabled,
        protocol,
        r,
    );
    lemma_opened(before, c1, b0, n, e, codec);
    crate::platforms::law_catalog_is_well_formed(codec);
    let spec = codec.def().spec;
    lemma_recipe_run(c1, c2, b0, b1, n, e, spec, todo);
    assert(after.heaac_v1 == c2.heaac_v1 && after.heaac == c2.heaac && after.aac == c2.aac);
    assert(after.opus == c2.opus && after.vorbis == c2.vorbis && after.mp3 == c2.mp3
        && after.fm_radio == c2.fm_radio);
}

/// The AAC chain that a recipe names codes as the recipe asks.
pub open spec fn recipe_followed(s: StreamingSimulator, spec: CodecSpec) -> bool {
    match spec {
        CodecSpec::AacLcMono { bitrate_kbps } => s.aac matches Some(p) && (
        p.chain.pipeline.ready ==> codes_as(p.chain, bitrate_kbps, true) && encodes(
            p.chain,
            AacProfile::LowComplexity,
        )),
        CodecSpec::AacLc { bitrate_kbps } => s.aac matches Some(p) && (p.chain.pipeline.ready
            ==> codes_as(p.chain, bitrate_kbps, false) && encodes(
            p.chain,
            AacProfile::LowComplexity,
        )),
        CodecSpec::HeAacV1 { bitrate_kbps } => s.heaac_v1 matches Some(p) && (
        p.chain.pipeline.ready ==> codes_as(p.chain, bitrate_kbps, false) && encodes(
            p.chain,
            AacProfile::HighEfficiency,
        )),
        CodecSpec::HeAacV2 { bitrate_kbps } => s.heaac matches Some(p) && (
        p.chain.pipeline.ready ==> codes_as(p.chain, bitrate_kbps, false) && (
        p.chain.pipeline.channels == 2 ==> encodes(p.chain, AacProfile::HighEfficiencyV2))),
        _ => true,
    }
}

proof fn lemma_recipe_run(
    c1: StreamingSimulator,
    c2: StreamingSimulator,
    b0: Seq<Vec<Sample>>,
    b1: Seq<Vec<Sample>>,
    n: nat,
    e: CodecEvent,
    spec: CodecSpec,
    todo: Option<CodecAction>,
)
    requires
        tuned(c1),
        c1.aac matches Some(p) ==> p.wf(),
        c1.heaac_v1 matches Some(p) ==> p.wf(),
        c1.heaac matches Some(p) ==> p.wf(),
        spec.bitrate() matches Some(kbps) ==> kbps <= 320,
        ran_codec(c1, c2, b0, b1, n, e, spec, todo),
    ensures
        others_kept(c1, c2, spec),
        !(e matches CodecEvent::Aac(e) && e is OutputResampled) && !(todo matches Some(
            CodecAction::Aac(a),
        ) && a is ResampleInput) ==> recipe_followed(c2, spec),
{
    if !(e matches CodecEvent::Aac(e) && e is OutputResampled) && !(todo matches Some(
        CodecAction::Aac(a),
    ) && a is ResampleInput) {
        match spec {
            CodecSpec::AacLcMono { bitrate_kbps } => {
                lemma_aac_slot(c1, c2, b0, b1, n, e, bitrate_kbps, true, todo);
            },
            CodecSpec::AacLc { bitrate_kbps } => {
                lemma_aac_slot(c1, c2, b0, b1, n, e, bitrate_kbps, false, todo);
            },
            CodecSpec::HeAacV1 { bitrate_kbps } => {
                lemma_heaac_v1_slot(c1, c2, b0, b1, n, e, bitrate_kbps, todo);
            },
            CodecSpec::HeAacV2 { bitrate_kbps } => {
                lemma_heaac_slot(c1, c2, b0, b1, n, e, bitrate_kbps, todo);
            },
            _ => {},
        }
    }
}

proof fn lemma_aac_slot(
    c1: StreamingSimulator,
    c2: StreamingSimulator,
    b0: Seq<Vec<Sample>>,
    b1: Seq<Vec<Sample>>,
    n: nat,
    e: CodecEvent,
    kbps: u32,
    mono: bool,
    todo: Option<CodecAction>,
)
    requires
        tuned(c1),
        c1.aac matches Some(p) ==> p.wf(),
        kbps <= 2_000_000,
        crate::simulator::ran_aac(
            c1,
            c2,
            b0,
            b1,
            n,
            e,
            ChainMode::Coded { bitrate_kbps: kbps, mono },
            todo,
        ),
        !(e matches CodecEvent::Aac(e) && e is OutputResampled),
        !(todo matches Some(CodecAction::Aac(a)) && a is ResampleInput),
    ensures
        c2.aac is Some,
        c2.aac->0.chain.pipeline.ready ==> codes_as(c2.aac->0.chain, kbps, mono) && encodes(
            c2.aac->0.chain,
            AacProfile::LowComplexity,
        ),
{
    let (first, action) = choose|first: AacProcessor, action: BlockAction|
        {
            &&& first_aac(c1, first)
            &&& #[trigger] fdk_chain::processed(
                first.chain,
                c2.aac->0.chain,
                b0,
                b1,
                n,
                aac_event(e),
                ChainMode::Coded { bitrate_kbps: kbps, mono },
                action,
            )
            &&& todo == (if action == BlockAction::Done {
                None
            } else {
                Some(CodecAction::Aac(action))
            })
        };
    lemma_chain_codes_as(
        first.chain,
        c2.aac->0.chain,
        b0,
        b1,
        n,
        aac_event(e),
        kbps,
        mono,
        action,
    );
}

proof fn lemma_heaac_v1_slot(
    c1: StreamingSimulator,
    c2: StreamingSimulator,
    b0: Seq<Vec<Sample>>,
    b1: Seq<Vec<Sample>>,
    n: nat,
    e: CodecEvent,
    kbps: u32,
    todo: Option<CodecAction>,
)
    requires
        tuned(c1),
        c1.heaac_v1 matches Some(p) ==> p.wf(),
        kbps <= 2_000_000,
        crate::simulator::ran_heaac_v1(
            c1,
            c2,
            b0,
            b1,
            n,
            e,
            ChainMode::Coded { bitrate_kbps: kbps, mono: false },
            todo,
        ),
        !(e matches CodecEvent::Aac(e) && e is OutputResampled),
        !(todo matches Some(CodecAction::Aac(a)) && a is ResampleInput),
    ensures
        c2.heaac_v1 is Some,
        c2.heaac_v1->0.chain.pipeline.ready ==> codes_as(c2.heaac_v1->0.chain, kbps, false) && encodes(
            c2.heaac_v1->0.chain,
            AacProfile::HighEfficiency,
        ),
{
    let (first, action) = choose|first: HeAacV1Processor, action: BlockAction|
        {
            &&& first_heaac_v1(c1, first)
            &&& #[trigger] fdk_chain::processed(
                first.chain,
                c2.heaac_v1->0.chain,
                b0,
                b1,
                n,
                aac_event(e),
                ChainMode::Coded { bitrate_kbps: kbps, mono: false },
                action,
            )
            &&& todo == (if action == BlockAction::Done {
                None
            } else {
                Some(CodecAction::Aac(action))
            })
        };
    lemma_chain_codes_as(
        first.chain,
        c2.heaac_v1->0.chain,
        b0,
        b1,
        n,
        aac_event(e),
        kbps,
        false,
        action,
    );
}

proof fn lemma_heaac_slot(
    c1: StreamingSimulator,
    c2: StreamingSimulator,
    b0: Seq<Vec<Sample>>,
    b1: Seq<Vec<Sample>>,
    n: nat,
    e: CodecEvent,
    kbps: u32,
    todo: Option<CodecAction>,
)
    requires
        tuned(c1),
        c1.heaac matches Some(p) ==> p.wf(),
        kbps <= 2_000_000,
        crate::simulator::ran_heaac(
            c1,
            c2,
            b0,
            b1,
            n,
            e,
            ChainMode::Coded { bitrate_kbps: kbps, mono: false },
            todo,
        ),
        !(e matches CodecEvent::Aac(e) && e is OutputResampled),
        !(todo matches Some(CodecAction::Aac(a)) && a is ResampleInput),
    ensures
        c2.heaac is Some,
        c2.heaac->0.chain.pipeline.ready ==> codes_as(c2.heaac->0.chain, kbps, false) && (
        c2.heaac->0.chain.pipeline.channels == 2 ==> encodes(
            c2.heaac->0.chain,
            AacProfile::HighEfficiencyV2,
        )),
{
    let (first, action) = choose|first: HeAacV2Processor, action: BlockAction|
        {
            &&& first_heaac(c1, first)
            &&& #[trigger] fdk_chain::processed(
                first.chain,
                c2.heaac->0.chain,
                b0,
                b1,
                n,
                aac_event(e),
                ChainMode::Coded { bitrate_kbps: kbps, mono: false },
                action,
            )
            &&& todo == (if action == BlockAction::Done {
                None
            } else {
                Some(CodecAction::Aac(action))
            })
        };
    lemma_chain_codes_as(
        first.chain,
        c2.heaac->0.chain,
        b0,
        b1,
        n,
        aac_event(e),
        kbps,
        false,
        action,
    );
}

/// The work is for the codec that the recipe names, at the recipe's bitrate.
pub open spec fn asks_for(spec: CodecSpec, action: CodecAction) -> bool {
    match action {
        CodecAction::Opus(a) => {
            &&& spec is Opus
            &&& a matches OpusAction::SetBitrate(bps) ==> bps == 1000 * spec->Opus_bitrate_kbps
        },
        CodecAction::Vorbis(a) => {
            &&& spec is Vorbis
            &&& a matches VorbisAction::OpenCodec(kbps) ==> kbps == spec->Vorbis_bitrate_kbps
        },
        CodecAction::Mp3(a) => {
            &&& spec is Mp3
            &&& a matches Mp3Action::OpenCodec(kbps) ==> kbps == spec->Mp3_bitrate_kbps
        },
        CodecAction::Aac(_) => spec is AacLc || spec is AacLcMono || spec is HeAacV1
            || spec is HeAacV2,
        CodecAction::Fm(_) => spec is FmRadio,
    }
}

/// An FM tier's chain, once it is ready, is set up for the tier's variant.
pub open spec fn set_up_for_variant(s: StreamingSimulator, spec: CodecSpec) -> bool {
    spec matches CodecSpec::FmRadio { variant } ==> {
        &&& s.fm_radio is Some
        &&& s.fm_radio->0.ready ==> s.fm_radio->0.current_variant == Some(variant)
    }
}

/// What a step asks of the caller for the other codecs follows the recipe too: a
/// bitrate for libopus, a codec of libvorbis or LAME at the recipe's bitrate, an FM
/// chain set up for the recipe's variant; and no codec but the recipe's asks.
pub proof fn law_tier_asks_for_its_own_codec(
    before: StreamingSimulator,
    after: StreamingSimulator,
    b0: Seq<Vec<Sample>>,
    b2: Seq<Vec<Sample>>,
    n: nat,
    e: CodecEvent,
    bypass: bool,
    codec: Codec,
    bt_enabled: bool,
    protocol: BluetoothProtocol,
    r: SimAction,
)
    requires
        dispatched_block(
            before,
            after,
            b0,
            b2,
            n,
            SimEvent::Codec(e),
            bypass,
            codec,
            bt_enabled,
            protocol,
            r,
        ),
    ensures
        r matches SimAction::Codec(a) ==> asks_for(codec.def().spec, a),
        e is Start ==> set_up_for_variant(after, codec.def().spec),
{
    let (c1, c2, b1, todo) = lemma_parts(
        before,
        after,
        b0,
        b2,
        n,
        e,
        bypass,
        codec,
        bt_enabled,
        protocol,
        r,
    );
    crate::platforms::law_catalog_is_well_formed(codec);
    lemma_asks(c1, c2, b0, b1, n, e, codec.def().spec, todo);
    assert(after.fm_radio == c2.fm_radio);
}

proof fn lemma_asks(
    c1: StreamingSimulator,
    c2: StreamingSimulator,
    b0: Seq<Vec<Sample>>,
    b1: Seq<Vec<Sample>>,
    n: nat,
    e: CodecEvent,
    spec: CodecSpec,
    todo: Option<CodecAction>,
)
    requires
        spec.bitrate() matches Some(kbps) ==> kbps <= 320,
        ran_codec(c1, c2, b0, b1, n, e, spec, todo),
    ensures
        todo matches Some(a) ==> asks_for(spec, a),
        e is Start ==> set_up_for_variant(c2, spec),
{
}

/// With Bluetooth on, what its backend gets of a lossy tier is the codec's own
/// output, and what comes out of the backend is what is heard; with Bluetooth off,
/// the codec's output is.
pub proof fn law_bluetooth_hears_the_codec(
    before: StreamingSimulator,
    after: StreamingSimulator,
    b0: Seq<Vec<Sample>>,
    b2: Seq<Vec<Sample>>,
    n: nat,
    e: CodecEvent,
    codec: Codec,
    bt_enabled: bool,
    protocol: BluetoothProtocol,
    r: SimAction,
)
    requires
        !(codec.def().spec is Bypass),
        !(r is Codec),
        dispatched_block(
            before,
            after,
            b0,
            b2,
            n,
            SimEvent::Codec(e),
            false,
            codec,
            bt_enabled,
            protocol,
            r,
        ),
    ensures
        bt_enabled ==> exists|c1: StreamingSimulator, c2: StreamingSimulator, b1: Seq<Vec<Sample>>|
            {
                &&& #[trigger] ran_codec(c1, c2, b0, b1, n, e, codec.def().spec, None)
                &&& ran_bluetooth(
                    c2,
                    after,
                    b1,
                    b2,
                    n,
                    BtEvent::Block(BlockEvent::Start),
                    protocol,
                    r,
                )
            },
        !bt_enabled ==> r is Done && exists|c1: StreamingSimulator|
            #[trigger] ran_codec(c1, after, b0, b2, n, e, codec.def().spec, None),
{
    let (c1, c2, b1, todo) = choose|
        c1: StreamingSimulator,
        c2: StreamingSimulator,
        b1: Seq<Vec<Sample>>,
        todo: Option<CodecAction>,
    |
        {
            &&& opened_block(before, c1, b0, n, e, codec)
            &&& #[trigger] ran_codec(c1, c2, b0, b1, n, e, codec.def().spec, todo)
            &&& match todo {
                Some(action) => r == SimAction::Codec(action) && after == c2 && b2 == b1,
                None => cascaded(
                    c2,
                    after,
                    b1,
                    b2,
                    n,
                    false,
                    !(codec.def().spec is Bypass),
                    bt_enabled,
                    protocol,
                    r,
                ),
            }
        };
    let heard = choose|heard: Seq<Vec<Sample>>|
        {
            &&& #[trigger] heard_before_bluetooth(c2, b1, heard, false, true)
            &&& if bt_enabled {
                ran_bluetooth(
                    c2,
                    after,
                    heard,
                    b2,
                    n,
                    BtEvent::Block(BlockEvent::Start),
                    protocol,
                    r,
                )
            } else {
                r == SimAction::Done && after == c2 && b2 == heard
            }
        };
    assert(heard == b1);
}

/// On a mono tier both host channels hear the same, whatever the two channels of
/// the input hold: the block that a step leaves, and all that waits to be heard.
pub proof fn law_mono_tier_sounds_alike(
    before: StreamingSimulator,
    after: StreamingSimulator,
    b0: Seq<Vec<Sample>>,
    b2: Seq<Vec<Sample>>,
    n: nat,
    e: CodecEvent,
    codec: Codec,
    protocol: BluetoothProtocol,
    r: SimAction,
)
    requires
        before.wf(),
        tuned(before),
        before.host_channels == 2,
        codec.def().spec is AacLcMono,
        before.aac matches Some(p) ==> alike(p.chain.pipeline),
        block_fits(b0, 2, n),
        codec_event_fits(e, 2, n),
        e matches CodecEvent::Aac(reply) ==> replies_alike(reply),
        dispatched_block(
            before,
            after,
            b0,
            b2,
            n,
            SimEvent::Codec(e),
            false,
            codec,
            false,
            protocol,
            r,
        ),
        after.aac matches Some(p) ==> p.chain.pipeline.ready && (p.chain.codec matches Some(c)
            ==> one_channel(decoder_calls(c.decoder))),
    ensures
        after.aac is Some,
        alike(after.aac->0.chain.pipeline),
        r is Done ==> b2[0]@.take(n as int) == b2[1]@.take(n as int),
        r matches SimAction::Codec(CodecAction::Aac(BlockAction::ResampleOutput(c))) ==> c@[0]@
            == c@[1]@,
{
    let (c1, c2, b1, todo) = lemma_parts(
        before,
        after,
        b0,
        b2,
        n,
        e,
        false,
        codec,
        false,
        protocol,
        r,
    );
    lemma_opened(before, c1, b0, n, e, codec);
    crate::platforms::law_catalog_is_well_formed(codec);
    let kbps = codec.def().spec->AacLcMono_bitrate_kbps;
    let mode = ChainMode::Coded { bitrate_kbps: kbps, mono: true };
    let (first, action) = choose|first: AacProcessor, action: BlockAction|
        {
            &&& first_aac(c1, first)
            &&& #[trigger] fdk_chain::processed(
                first.chain,
                c2.aac->0.chain,
                b0,
                b1,
                n,
                aac_event(e),
                mode,
                action,
            )
            &&& todo == (if action == BlockAction::Done {
                None
            } else {
                Some(CodecAction::Aac(action))
            })
        };
    let p = first.chain.pipeline;
    if c1.aac is None && p.ready {
        assert(p.primed());
        assert(p.host_output@[0]@ == p.host_output@[1]@);
        assert(p.internal_output@[0]@ == p.internal_output@[1]@);
        assert(p.host_input@[0]@ == p.host_input@[1]@);
        assert(p.internal_input@[0]@ == p.internal_input@[1]@);
    }
    assert(after.aac == c2.aac);
    assert(p.ready);
    law_mono_block_sounds_alike(
        first.chain,
        c2.aac->0.chain,
        b0,
        b1,
        n,
        aac_event(e),
        kbps,
        action,
    );
}

}
