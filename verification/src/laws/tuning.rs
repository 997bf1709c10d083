//! Every encoder stays set as its chain says, whatever is played.

use crate::laws::aac::{codec_ran, is_tuned, law_block_is_coded_as_asked, lemma_coded_part};
use crate::laws::bluetooth::slot_tuned;
use crate::laws::routing::tuned;
use crate::platforms::{law_catalog_is_well_formed, Codec, CodecSpec};
use crate::processor::aac::AacProcessor;
use crate::processor::bluetooth::aac_bt::AacBtCodec;
use crate::processor::bluetooth::orchestrator::{
    aac_start, aac_step, dispatched, BluetoothProcessor, BluetoothProtocol,
};
use crate::processor::bluetooth::sbc::{BtAction, BtEvent};
use crate::processor::fdk_chain::{
    around, ensured_codec, input_side, processed, pumped_codec, ran_codec as ran_chain, ChainMode,
    FdkChain,
};
use crate::processor::heaac::HeAacV1Processor;
use crate::processor::heaacv2::HeAacV2Processor;
use crate::processor::pipeline::{
    drained_block, finished_block, muted_internal, pumped_input, pumped_output, took_event, BlockAction,
    BlockEvent, BuiltResampler, ResampledPipeline,
};
use crate::sample::Sample;
use crate::simulator::{
    aac_event, bluetooth_step, dispatched_block, first_aac, first_heaac, first_heaac_v1, ran_aac,
    ran_codec, ran_heaac, ran_heaac_v1, CodecAction, CodecEvent, HostResamplers, SimAction,
    SimEvent, StreamingSimulator,
};
use vstd::prelude::*;

verus! {

proof fn lemma_finish_keeps_setup(
    before: ResampledPipeline,
    after: ResampledPipeline,
    b0: Seq<Vec<Sample>>,
    b1: Seq<Vec<Sample>>,
    n: nat,
    r: BlockAction,
)
    requires
        finished_block(before, after, b0, b1, n, r),
    ensures
        after.same_setup(&before),
{
    let (mid, chunk) = choose|mid: ResampledPipeline, chunk: Option<Vec<Vec<Sample>>>|
        {
            &&& #[trigger] pumped_output(before, mid, chunk)
            &&& match chunk {
                Some(c) => {
                    &&& r == BlockAction::ResampleOutput(c)
                    &&& after == mid
                    &&& b1 == b0
                },
                None => {
                    &&& r == BlockAction::Done
                    &&& drained_block(mid, after, b0, b1, n)
                },
            }
        };
}

/// A step of a chain leaves its encoder set as the chain says: at every point of a
/// block, at any bitrate, in mono or not.
pub proof fn law_chain_stays_tuned(
    before: FdkChain,
    after: FdkChain,
    b0: Seq<Vec<Sample>>,
    b1: Seq<Vec<Sample>>,
    n: nat,
    event: BlockEvent,
    bitrate_kbps: u32,
    mono: bool,
    r: BlockAction,
)
    requires
        before.wf(),
        is_tuned(before),
        bitrate_kbps * 1000 <= u32::MAX,
        processed(before, after, b0, b1, n, event, ChainMode::Coded { bitrate_kbps, mono }, r),
    ensures
        is_tuned(after),
        after.pipeline.same_setup(&before.pipeline),
{
    let mode = ChainMode::Coded { bitrate_kbps, mono };
    if before.pipeline.ready {
        if codec_ran(event, r) {
            lemma_coding_keeps_setup(before, after, b0, b1, n, event, bitrate_kbps, mono, r);
            law_block_is_coded_as_asked(
                before,
                after,
                b0,
                b1,
                n,
                event,
                bitrate_kbps,
                mono,
                r,
            );
        } else if event is OutputResampled {
            let p1 = choose|p1: ResampledPipeline|
                #[trigger] took_event(before.pipeline, p1, b0, n, event) && finished_block(
                    p1,
                    after.pipeline,
                    b0,
                    b1,
                    n,
                    r,
                );
            lemma_finish_keeps_setup(p1, after.pipeline, b0, b1, n, r);
        } else {
            lemma_chunk_keeps_tuning(before, after, b0, b1, n, event, mode, r);
        }
    }
}

proof fn lemma_chunk_keeps_tuning(
    before: FdkChain,
    after: FdkChain,
    b0: Seq<Vec<Sample>>,
    b1: Seq<Vec<Sample>>,
    n: nat,
    event: BlockEvent,
    mode: ChainMode,
    r: BlockAction,
)
    requires
        before.pipeline.ready,
        is_tuned(before),
        !(event is OutputResampled),
        r is ResampleInput,
        processed(before, after, b0, b1, n, event, mode, r),
    ensures
        is_tuned(after),
        after.pipeline.same_setup(&before.pipeline),
{
    let p1 = choose|p1: ResampledPipeline|
        {
            &&& #[trigger] took_event(before.pipeline, p1, b0, n, event)
            &&& input_side(around(before, p1), after, b0, b1, n, mode, r)
        };
    let c1 = around(before, p1);
    let (p2, chunk) = choose|p2: ResampledPipeline, chunk: Option<Vec<Vec<Sample>>>|
        {
            &&& #[trigger] pumped_input(c1.pipeline, p2, chunk)
            &&& match chunk {
                Some(c) => {
                    &&& r == BlockAction::ResampleInput(c)
                    &&& after == around(c1, p2)
                    &&& b1 == b0
                },
                None => exists|coded: FdkChain|
                    {
                        &&& #[trigger] ran_chain(around(c1, p2), coded, mode)
                        &&& after == around(coded, after.pipeline)
                        &&& finished_block(coded.pipeline, after.pipeline, b0, b1, n, r)
                    },
            }
        };
    if chunk is None {
        let coded = choose|coded: FdkChain|
            {
                &&& #[trigger] ran_chain(around(c1, p2), coded, mode)
                &&& after == around(coded, after.pipeline)
                &&& finished_block(coded.pipeline, after.pipeline, b0, b1, n, r)
            };
        lemma_finish_is_no_chunk(coded.pipeline, after.pipeline, b0, b1, n, r);
    }
}

proof fn lemma_coding_keeps_setup(
    before: FdkChain,
    after: FdkChain,
    b0: Seq<Vec<Sample>>,
    b1: Seq<Vec<Sample>>,
    n: nat,
    event: BlockEvent,
    bitrate_kbps: u32,
    mono: bool,
    r: BlockAction,
)
    requires
        before.pipeline.ready,
        codec_ran(event, r),
        processed(before, after, b0, b1, n, event, ChainMode::Coded { bitrate_kbps, mono }, r),
    ensures
        after.pipeline.same_setup(&before.pipeline),
{
    let mode = ChainMode::Coded { bitrate_kbps, mono };
    let (start, coded) = lemma_coded_part(before, after, b0, b1, n, event, mode, r);
    let mid = choose|mid: FdkChain|
        {
            &&& #[trigger] ensured_codec(start, mid, bitrate_kbps, mono)
            &&& mid.codec is Some ==> pumped_codec(mid, coded)
            &&& mid.codec is None ==> coded == (FdkChain { pipeline: coded.pipeline, ..mid })
                && muted_internal(mid.pipeline, coded.pipeline)
        };
    lemma_finish_keeps_setup(coded.pipeline, after.pipeline, b0, b1, n, r);
}

proof fn lemma_finish_is_no_chunk(
    before: ResampledPipeline,
    after: ResampledPipeline,
    b0: Seq<Vec<Sample>>,
    b1: Seq<Vec<Sample>>,
    n: nat,
    r: BlockAction,
)
    requires
        finished_block(before, after, b0, b1, n, r),
    ensures
        !(r is ResampleInput),
{
}

/// A step of the Bluetooth stage leaves both AAC backends tuned.
pub proof fn law_bluetooth_stays_tuned(
    before: BluetoothProcessor,
    after: BluetoothProcessor,
    b0: Seq<Vec<Sample>>,
    b1: Seq<Vec<Sample>>,
    n: nat,
    event: BtEvent,
    protocol: BluetoothProtocol,
    h2i: Option<BuiltResampler>,
    i2h: Option<BuiltResampler>,
    r: BtAction,
)
    requires
        before.wf(),
        slot_tuned(before.aac_128),
        slot_tuned(before.aac_256),
        dispatched(before, after, b0, b1, n, event, protocol, h2i, i2h, r),
    ensures
        slot_tuned(after.aac_128),
        slot_tuned(after.aac_256),
{
    if protocol is Aac128 {
        lemma_slot_stays_tuned(
            before.aac_128,
            &before,
            128,
            h2i,
            i2h,
            after.aac_128,
            b0,
            b1,
            n,
            event,
            r,
        );
    } else if protocol is Aac256 {
        lemma_slot_stays_tuned(
            before.aac_256,
            &before,
            256,
            h2i,
            i2h,
            after.aac_256,
            b0,
            b1,
            n,
            event,
            r,
        );
    }
}

/// An AAC backend that a step makes gets the host's resampler to 44.1 kHz on its way
/// in and the one from there on its way out.
pub proof fn law_aac_backend_gets_the_host_s_resamplers(
    before: BluetoothProcessor,
    after: BluetoothProcessor,
    b0: Seq<Vec<Sample>>,
    b1: Seq<Vec<Sample>>,
    n: nat,
    event: BtEvent,
    protocol: BluetoothProtocol,
    resamplers: HostResamplers,
    r: BtAction,
)
    requires
        before.wf(),
        before.ready,
        before.sample_rate != 44_100,
        slot_tuned(before.aac_128),
        slot_tuned(before.aac_256),
        bluetooth_step(before, after, b0, b1, n, event, protocol, resamplers, r),
    ensures
        protocol is Aac128 && before.aac_128 is None ==> after.aac_128 is Some && fed_by(
            after.aac_128->0,
            resamplers,
        ),
        protocol is Aac256 && before.aac_256 is None ==> after.aac_256 is Some && fed_by(
            after.aac_256->0,
            resamplers,
        ),
{
    let h2i = resamplers.to_44100;
    let i2h = resamplers.from_44100;
    if protocol is Aac128 {
        lemma_slot_stays_tuned(
            before.aac_128,
            &before,
            128,
            h2i,
            i2h,
            after.aac_128,
            b0,
            b1,
            n,
            event,
            r,
        );
    } else if protocol is Aac256 {
        lemma_slot_stays_tuned(
            before.aac_256,
            &before,
            256,
            h2i,
            i2h,
            after.aac_256,
            b0,
            b1,
            n,
            event,
            r,
        );
    }
}

/// The backend, once it is ready, stands between the host's resamplers to and from
/// 44.1 kHz.
pub open spec fn fed_by(c: AacBtCodec, resamplers: HostResamplers) -> bool {
    c.inner.chain.pipeline.ready ==> {
        &&& c.inner.chain.pipeline.h2i == resamplers.to_44100
        &&& c.inner.chain.pipeline.i2h == resamplers.from_44100
    }
}

proof fn lemma_slot_stays_tuned(
    slot: Option<AacBtCodec>,
    p: &BluetoothProcessor,
    kbps: u32,
    h2i: Option<BuiltResampler>,
    i2h: Option<BuiltResampler>,
    after: Option<AacBtCodec>,
    b0: Seq<Vec<Sample>>,
    b1: Seq<Vec<Sample>>,
    n: nat,
    event: BtEvent,
    r: BtAction,
)
    requires
        slot matches Some(c) ==> c.wf(),
        slot_tuned(slot),
        kbps * 1000 <= u32::MAX,
        aac_step(slot, p, kbps, h2i, i2h, after, b0, b1, n, event, r),
    ensures
        slot_tuned(after),
        slot is None && p.sample_rate != 44_100 && after->0.inner.chain.pipeline.ready ==> {
            &&& after->0.inner.chain.pipeline.h2i == h2i
            &&& after->0.inner.chain.pipeline.i2h == i2h
            &&& after->0.inner.chain.pipeline.encode_rate == 44_100
            &&& after->0.inner.chain.pipeline.host_rate == p.sample_rate
        },
{
    let first = choose|first: AacBtCodec|
        {
            &&& #[trigger] aac_start(slot, p, kbps, h2i, i2h, first)
            &&& event is Block
            &&& r is Block
            &&& after matches Some(c) && processed(
                first.inner.chain,
                c.inner.chain,
                b0,
                b1,
                n,
                event->Block_0,
                ChainMode::Coded { bitrate_kbps: kbps, mono: false },
                r->Block_0,
            )
        };
    law_chain_stays_tuned(
        first.inner.chain,
        after->0.inner.chain,
        b0,
        b1,
        n,
        event->Block_0,
        kbps,
        false,
        r->Block_0,
    );
}

proof fn lemma_run_keeps_tuning(
    c1: StreamingSimulator,
    c2: StreamingSimulator,
    b0: Seq<Vec<Sample>>,
    b1: Seq<Vec<Sample>>,
    n: nat,
    e: CodecEvent,
    spec: CodecSpec,
    todo: Option<CodecAction>,
)
    requires
        tuned(c1),
        c1.aac matches Some(p) ==> p.wf(),
        c1.heaac_v1 matches Some(p) ==> p.wf(),
        c1.heaac matches Some(p) ==> p.wf(),
        spec.bitrate() matches Some(kbps) ==> kbps <= 320,
        ran_codec(c1, c2, b0, b1, n, e, spec, todo),
    ensures
        tuned(c2),
{
    match spec {
        CodecSpec::AacLc { bitrate_kbps } => {
            lemma_aac_stays_tuned(c1, c2, b0, b1, n, e, bitrate_kbps, false, todo);
        },
        CodecSpec::AacLcMono { bitrate_kbps } => {
            lemma_aac_stays_tuned(c1, c2, b0, b1, n, e, bitrate_kbps, true, todo);
        },
        CodecSpec::HeAacV1 { bitrate_kbps } => {
            let mode = ChainMode::Coded { bitrate_kbps, mono: false };
            assert(ran_heaac_v1(c1, c2, b0, b1, n, e, mode, todo));
            let (first, action) = choose|first: HeAacV1Processor, action: BlockAction|
                first_heaac_v1(c1, first) && #[trigger] processed(
                    first.chain,
                    c2.heaac_v1->0.chain,
                    b0,
                    b1,
                    n,
                    aac_event(e),
                    mode,
                    action,
                );
            law_chain_stays_tuned(
                first.chain,
                c2.heaac_v1->0.chain,
                b0,
                b1,
                n,
                aac_event(e),
                bitrate_kbps,
                false,
                action,
            );
        },
        CodecSpec::HeAacV2 { bitrate_kbps } => {
            let mode = ChainMode::Coded { bitrate_kbps, mono: false };
            assert(ran_heaac(c1, c2, b0, b1, n, e, mode, todo));
            let (first, action) = choose|first: HeAacV2Processor, action: BlockAction|
                first_heaac(c1, first) && #[trigger] processed(
                    first.chain,
                    c2.heaac->0.chain,
                    b0,
                    b1,
                    n,
                    aac_event(e),
                    mode,
                    action,
                );
            law_chain_stays_tuned(
                first.chain,
                c2.heaac->0.chain,
                b0,
                b1,
                n,
                aac_event(e),
                bitrate_kbps,
                false,
                action,
            );
        },
        _ => {},
    }
}

proof fn lemma_aac_stays_tuned(
    c1: StreamingSimulator,
    c2: StreamingSimulator,
    b0: Seq<Vec<Sample>>,
    b1: Seq<Vec<Sample>>,
    n: nat,
    e: CodecEvent,
    bitrate_kbps: u32,
    mono: bool,
    todo: Option<CodecAction>,
)
    requires
        tuned(c1),
        c1.aac matches Some(p) ==> p.wf(),
        bitrate_kbps <= 320,
        ran_aac(c1, c2, b0, b1, n, e, ChainMode::Coded { bitrate_kbps, mono }, todo),
    ensures
        tuned(c2),
{
    let mode = ChainMode::Coded { bitrate_kbps, mono };
    let (first, action) = choose|first: AacProcessor, action: BlockAction|
        first_aac(c1, first) && #[trigger] processed(
            first.chain,
            c2.aac->0.chain,
            b0,
            b1,
            n,
            aac_event(e),
            mode,
            action,
        );
    law_chain_stays_tuned(
        first.chain,
        c2.aac->0.chain,
        b0,
        b1,
        n,
        aac_event(e),
        bitrate_kbps,
        mono,
        action,
    );
}

/// A plugin without any codec yet is tuned, and every step of a block keeps it so:
/// at all times each AAC encoder is set to the bitrate, layout and profile that its
/// chain holds.
pub proof fn law_plugin_stays_tuned(
    before: StreamingSimulator,
    after: StreamingSimulator,
    b0: Seq<Vec<Sample>>,
    b2: Seq<Vec<Sample>>,
    n: nat,
    event: SimEvent,
    bypass: bool,
    codec: Codec,
    bt_enabled: bool,
    protocol: BluetoothProtocol,
    r: SimAction,
)
    requires
        before.wf(),
        dispatched_block(
            before,
            after,
            b0,
            b2,
            n,
            event,
            bypass,
            codec,
            bt_enabled,
            protocol,
            r,
        ),
    ensures
        before.empty() ==> tuned(before),
        tuned(before) ==> tuned(after),
{
    if tuned(before) {
        match event {
            SimEvent::Bluetooth(_) => {
                assert(after.aac == before.aac);
            },
            SimEvent::Codec(e) => {
                let (c1, c2, b1, todo) = crate::laws::routing::lemma_parts(
                    before,
                    after,
                    b0,
                    b2,
                    n,
                    e,
                    bypass,
                    codec,
                    bt_enabled,
                    protocol,
                    r,
                );
                crate::laws::routing::lemma_opened(before, c1, b0, n, e, codec);
                law_catalog_is_well_formed(codec);
                lemma_run_keeps_tuning(c1, c2, b0, b1, n, e, codec.def().spec, todo);
                assert(after.aac == c2.aac && after.heaac_v1 == c2.heaac_v1 && after.heaac
                    == c2.heaac);
            },
        }
    }
}

}
