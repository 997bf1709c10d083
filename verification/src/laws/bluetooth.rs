//! Bluetooth: each preset has a backend of its own, at a rate of its own.

use crate::laws::aac::{codec_ran, is_tuned, law_block_is_coded_as_asked};
use crate::processor::bluetooth::aac_bt::AacBtCodec;
use crate::processor::bluetooth::lc3::{self};
use crate::processor::bluetooth::orchestrator::{
    aac_start, dispatched, BluetoothProcessor, BluetoothProtocol,
};
use crate::processor::bluetooth::sbc::{self, BtAction, BtEvent};
use crate::processor::fdk::encoder_settings;
use crate::processor::fdk_chain::{self, ChainMode};
use crate::processor::pipeline::{BlockAction, BlockEvent, BuiltResampler};
use crate::sample::Sample;
use vstd::prelude::*;

verus! {

/// The AAC backend of a slot, if there is one, has its encoder set as its chain
/// says.
pub open spec fn slot_tuned(slot: Option<AacBtCodec>) -> bool {
    slot matches Some(c) ==> is_tuned(c.inner.chain)
}

/// The backend codes AAC-LC in stereo at `kbps`, as far as it has a codec.
pub open spec fn codes_at_rate(slot: Option<AacBtCodec>, kbps: int) -> bool {
    &&& slot is Some
    &&& slot->0.bitrate_kbps == kbps
    &&& slot->0.inner.chain.pipeline.ready && slot->0.inner.chain.codec is Some ==> {
        let chain = slot->0.inner.chain;
        &&& chain.current_bitrate_kbps == kbps
        &&& !chain.current_mono
        &&& encoder_settings(chain.codec->0.encoder).bitrate_bps == 1000 * kbps
        &&& encoder_settings(chain.codec->0.encoder).profile is LowComplexity
    }
}

/// The step of an AAC preset has gone through the codec.
pub open spec fn aac_coded(event: BtEvent, r: BtAction) -> bool {
    &&& event matches BtEvent::Block(e) && r matches BtAction::Block(a) && codec_ran(e, a)
}

proof fn lemma_aac_rate(
    slot: Option<AacBtCodec>,
    p: &BluetoothProcessor,
    kbps: u32,
    h2i: Option<BuiltResampler>,
    i2h: Option<BuiltResampler>,
    after: AacBtCodec,
    b0: Seq<Vec<Sample>>,
    b1: Seq<Vec<Sample>>,
    n: nat,
    event: BtEvent,
    r: BtAction,
    first: AacBtCodec,
)
    requires
        slot matches Some(c) ==> c.wf() && is_tuned(c.inner.chain),
        aac_start(slot, p, kbps, h2i, i2h, first),
        kbps * 1000 <= u32::MAX,
        aac_coded(event, r),
        after.wf(),
        fdk_chain::processed(
            first.inner.chain,
            after.inner.chain,
            b0,
            b1,
            n,
            event->Block_0,
            ChainMode::Coded { bitrate_kbps: kbps, mono: false },
            r->Block_0,
        ),
    ensures
        after.inner.chain.pipeline.ready && after.inner.chain.codec is Some ==> {
            &&& after.inner.chain.current_bitrate_kbps == kbps
            &&& !after.inner.chain.current_mono
            &&& encoder_settings(after.inner.chain.codec->0.encoder).bitrate_bps == 1000 * kbps
            &&& encoder_settings(after.inner.chain.codec->0.encoder).profile is LowComplexity
        },
{
    if first.inner.chain.pipeline.ready {
        law_block_is_coded_as_asked(
            first.inner.chain,
            after.inner.chain,
            b0,
            b1,
            n,
            event->Block_0,
            kbps,
            false,
            r->Block_0,
        );
    }
}

/// After a step on the 128 kbps preset its own backend has coded, at 128 kbps; the
/// backend of the 256 kbps preset has not been touched, nor has any other.
pub proof fn law_aac_128_codes_at_128(
    before: BluetoothProcessor,
    after: BluetoothProcessor,
    b0: Seq<Vec<Sample>>,
    b1: Seq<Vec<Sample>>,
    n: nat,
    event: BtEvent,
    h2i: Option<BuiltResampler>,
    i2h: Option<BuiltResampler>,
    r: BtAction,
)
    requires
        before.wf(),
        after.wf(),
        slot_tuned(before.aac_128),
        dispatched(before, after, b0, b1, n, event, BluetoothProtocol::Aac128, h2i, i2h, r),
        aac_coded(event, r),
    ensures
        codes_at_rate(after.aac_128, 128),
        after == (BluetoothProcessor { aac_128: after.aac_128, ..before }),
{
    let first = choose|first: AacBtCodec|
        {
            &&& #[trigger] aac_start(before.aac_128, &before, 128, h2i, i2h, first)
            &&& event is Block
            &&& r is Block
            &&& after.aac_128 matches Some(c) && fdk_chain::processed(
                first.inner.chain,
                c.inner.chain,
                b0,
                b1,
                n,
                event->Block_0,
                ChainMode::Coded { bitrate_kbps: 128, mono: false },
                r->Block_0,
            )
        };
    lemma_aac_rate(
        before.aac_128,
        &before,
        128,
        h2i,
        i2h,
        after.aac_128->0,
        b0,
        b1,
        n,
        event,
        r,
        first,
    );
}

/// After a step on the 256 kbps preset its own backend has coded, at 256 kbps; no
/// other backend has been touched.
pub proof fn law_aac_256_codes_at_256(
    before: BluetoothProcessor,
    after: BluetoothProcessor,
    b0: Seq<Vec<Sample>>,
    b1: Seq<Vec<Sample>>,
    n: nat,
    event: BtEvent,
    h2i: Option<BuiltResampler>,
    i2h: Option<BuiltResampler>,
    r: BtAction,
)
    requires
        before.wf(),
        after.wf(),
        slot_tuned(before.aac_256),
        dispatched(before, after, b0, b1, n, event, BluetoothProtocol::Aac256, h2i, i2h, r),
        aac_coded(event, r),
    ensures
        codes_at_rate(after.aac_256, 256),
        after == (BluetoothProcessor { aac_256: after.aac_256, ..before }),
{
    let first = choose|first: AacBtCodec|
        {
            &&& #[trigger] aac_start(before.aac_256, &before, 256, h2i, i2h, first)
            &&& event is Block
            &&& r is Block
            &&& after.aac_256 matches Some(c) && fdk_chain::processed(
                first.inner.chain,
                c.inner.chain,
                b0,
                b1,
                n,
                event->Block_0,
                ChainMode::Coded { bitrate_kbps: 256, mono: false },
                r->Block_0,
            )
        };
    lemma_aac_rate(
        before.aac_256,
        &before,
        256,
        h2i,
        i2h,
        after.aac_256->0,
        b0,
        b1,
        n,
        event,
        r,
        first,
    );
}

/// After a step on an SBC preset its own backend holds what is left, and has that
/// preset's quality; no other backend has been touched. The backend took the step.
pub proof fn law_sbc_presets_run_their_own_backend(
    before: BluetoothProcessor,
    after: BluetoothProcessor,
    b0: Seq<Vec<Sample>>,
    b1: Seq<Vec<Sample>>,
    n: nat,
    event: BtEvent,
    high: bool,
    h2i: Option<BuiltResampler>,
    i2h: Option<BuiltResampler>,
    r: BtAction,
)
    requires
        before.wf(),
        after.wf(),
        dispatched(
            before,
            after,
            b0,
            b1,
            n,
            event,
            if high {
                BluetoothProtocol::SbcHigh
            } else {
                BluetoothProtocol::SbcLow
            },
            h2i,
            i2h,
            r,
        ),
    ensures
        high ==> {
            &&& after == (BluetoothProcessor { sbc_high: after.sbc_high, ..before })
            &&& after.sbc_high matches Some(c) && c.quality is High
            &&& before.sbc_high matches Some(c) ==> sbc::processed(
                c,
                after.sbc_high->0,
                b0,
                b1,
                n,
                event,
                r,
            )
        },
        !high ==> {
            &&& after == (BluetoothProcessor { sbc_low: after.sbc_low, ..before })
            &&& after.sbc_low matches Some(c) && c.quality is Low
            &&& before.sbc_low matches Some(c) ==> sbc::processed(
                c,
                after.sbc_low->0,
                b0,
                b1,
                n,
                event,
                r,
            )
        },
{
}

/// The same of the LC3 presets: 64 kbps on one codec channel, 160 kbps on two.
pub proof fn law_lc3_presets_run_their_own_backend(
    before: BluetoothProcessor,
    after: BluetoothProcessor,
    b0: Seq<Vec<Sample>>,
    b1: Seq<Vec<Sample>>,
    n: nat,
    event: BlockEvent,
    high: bool,
    h2i: Option<BuiltResampler>,
    i2h: Option<BuiltResampler>,
    r: BlockAction,
)
    requires
        before.wf(),
        after.wf(),
        dispatched(
            before,
            after,
            b0,
            b1,
            n,
            BtEvent::Block(event),
            if high {
                BluetoothProtocol::Lc3_160
            } else {
                BluetoothProtocol::Lc3_64
            },
            h2i,
            i2h,
            BtAction::Block(r),
        ),
    ensures
        high ==> {
            &&& after == (BluetoothProcessor { lc3_160: after.lc3_160, ..before })
            &&& after.lc3_160 matches Some(c) && c.codec_channels
                * c.quality.frame_bytes_per_channel() * 8 * 100 == 160_000 && c.codec_channels == 2
            &&& before.lc3_160 matches Some(c) ==> lc3::processed(
                c,
                after.lc3_160->0,
                b0,
                b1,
                n,
                event,
                r,
            )
        },
        !high ==> {
            &&& after == (BluetoothProcessor { lc3_64: after.lc3_64, ..before })
            &&& after.lc3_64 matches Some(c) && c.codec_channels
                * c.quality.frame_bytes_per_channel() * 8 * 100 == 64_000 && c.codec_channels == 1
            &&& before.lc3_64 matches Some(c) ==> lc3::processed(
                c,
                after.lc3_64->0,
                b0,
                b1,
                n,
                event,
                r,
            )
        },
{
}

/// How many backends differ between two states of the processor.
pub open spec fn backends_changed(before: BluetoothProcessor, after: BluetoothProcessor) -> int {
    changed(before.sbc_low == after.sbc_low) + changed(before.sbc_high == after.sbc_high)
        + changed(before.lc3_64 == after.lc3_64) + changed(before.lc3_160 == after.lc3_160)
        + changed(before.aac_128 == after.aac_128) + changed(before.aac_256 == after.aac_256)
}

pub open spec fn changed(same: bool) -> int {
    if same {
        0
    } else {
        1
    }
}

/// A step touches one backend at most, and never one that a step on another preset
/// touches: what one preset changes, every other leaves alone.
pub proof fn law_presets_share_no_backend(
    before: BluetoothProcessor,
    after: BluetoothProcessor,
    a: BluetoothProtocol,
    b0: Seq<Vec<Sample>>,
    b1: Seq<Vec<Sample>>,
    n: nat,
    event: BtEvent,
    r: BtAction,
    other_before: BluetoothProcessor,
    other_after: BluetoothProcessor,
    b: BluetoothProtocol,
    c0: Seq<Vec<Sample>>,
    c1: Seq<Vec<Sample>>,
    m: nat,
    other_event: BtEvent,
    other_r: BtAction,
    h2i: Option<BuiltResampler>,
    i2h: Option<BuiltResampler>,
)
    requires
        a != b,
        dispatched(before, after, b0, b1, n, event, a, h2i, i2h, r),
        dispatched(other_before, other_after, c0, c1, m, other_event, b, h2i, i2h, other_r),
    ensures
        backends_changed(before, after) <= 1,
        after.sbc_low == before.sbc_low || other_after.sbc_low == other_before.sbc_low,
        after.sbc_high == before.sbc_high || other_after.sbc_high == other_before.sbc_high,
        after.lc3_64 == before.lc3_64 || other_after.lc3_64 == other_before.lc3_64,
        after.lc3_160 == before.lc3_160 || other_after.lc3_160 == other_before.lc3_160,
        after.aac_128 == before.aac_128 || other_after.aac_128 == other_before.aac_128,
        after.aac_256 == before.aac_256 || other_after.aac_256 == other_before.aac_256,
        after.sample_rate == before.sample_rate,
        after.channels == before.channels,
        after.ready == before.ready,
{
}

}
