//! The cascade processor: one lazy slot per backend, dispatched per block.

use crate::processor::bluetooth::aac_bt::AacBtCodec;
use crate::processor::bluetooth::lc3::{self, lc3_latency, Lc3Codec, Lc3Quality};
use crate::processor::bluetooth::sbc::{
    self, bt_event_fits, sbc_latency, BtAction, BtEvent, SbcCodec, SbcQuality,
};
use crate::processor::fdk_chain::{
    self, chain_latency, chain_latency_fits, reset_chain, ChainMode, FdkFamily,
};
use crate::processor::pipeline::{
    block_fits, ring_fits, BlockAction, BlockEvent, BuiltResampler,
};
use crate::processor::rings::channels_fit;
use crate::sample::Sample;
use vstd::prelude::*;

verus! {

/// 6 presets covering the audibly meaningful range (cheap earbuds to LE Audio
/// high quality).
#[derive(Clone, Copy, PartialEq, Eq, Structural, Debug)]
pub enum BluetoothProtocol {
    /// SBC bitpool 19 (~127 kbps): cheap earbuds, audible HF loss.
    SbcLow,
    /// SBC bitpool 53 (~328 kbps): default for most modern BT headphones.
    SbcHigh,
    /// AAC-LC 128 kbps: the "Android AAC bug" tier (worse than SBC at the
    /// same bitrate on old encoders).
    Aac128,
    /// AAC-LC 256 kbps: iPhone + AirPods default.
    Aac256,
    /// LC3 mono 64 kbps: LE Audio low-power preset.
    Lc3_64,
    /// LC3 stereo 160 kbps: LE Audio high-quality preset.
    Lc3_160,
}

impl BluetoothProtocol {
    /// Number of presets.
    pub const COUNT: usize = 6;

    pub open spec fn spec_index(self) -> usize {
        match self {
            BluetoothProtocol::SbcLow => 0,
            BluetoothProtocol::SbcHigh => 1,
            BluetoothProtocol::Aac128 => 2,
            BluetoothProtocol::Aac256 => 3,
            BluetoothProtocol::Lc3_64 => 4,
            BluetoothProtocol::Lc3_160 => 5,
        }
    }

    /// Position in declaration order, the value of the host parameter.
    #[verifier::when_used_as_spec(spec_index)]
    pub fn to_index(self) -> (r: usize)
        ensures
            r == self.spec_index(),
            r < 6,
    {
        match self {
            BluetoothProtocol::SbcLow => 0,
            BluetoothProtocol::SbcHigh => 1,
            BluetoothProtocol::Aac128 => 2,
            BluetoothProtocol::Aac256 => 3,
            BluetoothProtocol::Lc3_64 => 4,
            BluetoothProtocol::Lc3_160 => 5,
        }
    }

    /// The preset at a position.
    pub fn from_index(index: usize) -> (r: Option<BluetoothProtocol>)
        ensures
            r is Some <==> index < 6,
            r matches Some(p) ==> p.to_index() == index,
    {
        match index {
            0 => Some(BluetoothProtocol::SbcLow),
            1 => Some(BluetoothProtocol::SbcHigh),
            2 => Some(BluetoothProtocol::Aac128),
            3 => Some(BluetoothProtocol::Aac256),
            4 => Some(BluetoothProtocol::Lc3_64),
            5 => Some(BluetoothProtocol::Lc3_160),
            _ => None,
        }
    }

    pub open spec fn spec_id(self) -> &'static str {
        match self {
            BluetoothProtocol::SbcLow => "sbc-low",
            BluetoothProtocol::SbcHigh => "sbc-high",
            BluetoothProtocol::Aac128 => "aac-128",
            BluetoothProtocol::Aac256 => "aac-256",
            BluetoothProtocol::Lc3_64 => "lc3-64",
            BluetoothProtocol::Lc3_160 => "lc3-160",
        }
    }

    /// Stable identifier, for saved state.
    #[verifier::when_used_as_spec(spec_id)]
    pub fn id(self) -> (r: &'static str)
        ensures
            r == self.spec_id(),
    {
        match self {
            BluetoothProtocol::SbcLow => "sbc-low",
            BluetoothProtocol::SbcHigh => "sbc-high",
            BluetoothProtocol::Aac128 => "aac-128",
            BluetoothProtocol::Aac256 => "aac-256",
            BluetoothProtocol::Lc3_64 => "lc3-64",
            BluetoothProtocol::Lc3_160 => "lc3-160",
        }
    }

    pub open spec fn spec_short_label(self) -> &'static str {
        match self {
            BluetoothProtocol::SbcLow => "SBC · Low",
            BluetoothProtocol::SbcHigh => "SBC · High",
            BluetoothProtocol::Aac128 => "AAC · 128 kbps",
            BluetoothProtocol::Aac256 => "AAC · 256 kbps",
            BluetoothProtocol::Lc3_64 => "LC3 · 64 kbps",
            BluetoothProtocol::Lc3_160 => "LC3 · 160 kbps",
        }
    }

    /// Display label, for the host and the gear popup.
    #[verifier::when_used_as_spec(spec_short_label)]
    pub fn short_label(self) -> (r: &'static str)
        ensures
            r == self.spec_short_label(),
    {
        match self {
            BluetoothProtocol::SbcLow => "SBC · Low",
            BluetoothProtocol::SbcHigh => "SBC · High",
            BluetoothProtocol::Aac128 => "AAC · 128 kbps",
            BluetoothProtocol::Aac256 => "AAC · 256 kbps",
            BluetoothProtocol::Lc3_64 => "LC3 · 64 kbps",
            BluetoothProtocol::Lc3_160 => "LC3 · 160 kbps",
        }
    }
}

/// Cascade processor.
pub struct BluetoothProcessor {
    pub sbc_low: Option<SbcCodec>,
    pub sbc_high: Option<SbcCodec>,
    pub lc3_64: Option<Lc3Codec>,
    pub lc3_160: Option<Lc3Codec>,
    pub aac_128: Option<AacBtCodec>,
    pub aac_256: Option<AacBtCodec>,
    pub sample_rate: u32,
    pub channels: usize,
    pub max_block_size: usize,
    pub ready: bool,
}

/// The backends' rings can be asked for at all.
pub open spec fn sizes_fit(max_block_size: usize, sample_rate: u32) -> bool {
    &&& ring_fits(max_block_size, sample_rate)
    &&& 8 * max_block_size + 7680 <= isize::MAX
}

/// The largest latency over all presets.
pub open spec fn bt_latency(
    host_rate: u32,
    h2i: Option<BuiltResampler>,
    i2h: Option<BuiltResampler>,
) -> int {
    vstd::math::max(
        vstd::math::max(sbc_latency(host_rate), lc3_latency(host_rate)),
        chain_latency(FdkFamily::AacLc, host_rate, h2i, i2h),
    )
}

/// An SBC slot is for this host and quality.
pub open spec fn sbc_slot(slot: Option<SbcCodec>, p: &BluetoothProcessor, q: SbcQuality) -> bool {
    slot matches Some(c) ==> c.wf() && c.quality == q && c.channels == p.channels && c.sample_rate
        == p.sample_rate
}

/// An LC3 slot is for this host and quality.
pub open spec fn lc3_slot(slot: Option<Lc3Codec>, p: &BluetoothProcessor, q: Lc3Quality) -> bool {
    slot matches Some(c) ==> c.wf() && c.quality == q && c.host_channels == p.channels
        && c.sample_rate == p.sample_rate
}

/// An AAC slot is for this host and bitrate.
pub open spec fn aac_slot(slot: Option<AacBtCodec>, p: &BluetoothProcessor, kbps: u32) -> bool {
    slot matches Some(c) ==> {
        &&& c.wf()
        &&& c.bitrate_kbps == kbps
        &&& c.inner.chain.pipeline.channels == p.channels
        &&& c.inner.chain.pipeline.ready ==> c.inner.chain.pipeline.host_rate == p.sample_rate
    }
}

impl BluetoothProcessor {
    pub open spec fn wf(&self) -> bool {
        &&& self.ready ==> (self.channels == 1 || self.channels == 2) && sizes_fit(
            self.max_block_size,
            self.sample_rate,
        )
        &&& sbc_slot(self.sbc_low, self, SbcQuality::Low)
        &&& sbc_slot(self.sbc_high, self, SbcQuality::High)
        &&& lc3_slot(self.lc3_64, self, Lc3Quality::Low64)
        &&& lc3_slot(self.lc3_160, self, Lc3Quality::High160)
        &&& aac_slot(self.aac_128, self, 128)
        &&& aac_slot(self.aac_256, self, 256)
    }

    /// No backend has been made yet.
    pub open spec fn empty(&self) -> bool {
        &&& self.sbc_low is None
        &&& self.sbc_high is None
        &&& self.lc3_64 is None
        &&& self.lc3_160 is None
        &&& self.aac_128 is None
        &&& self.aac_256 is None
    }

    pub fn new() -> (r: BluetoothProcessor)
        ensures
            r.wf(),
            !r.ready,
            r.empty(),
            r.sample_rate == 44_100,
            r.channels == 2,
            r.max_block_size == 0,
    {
        BluetoothProcessor {
            sbc_low: None,
            sbc_high: None,
            lc3_64: None,
            lc3_160: None,
            aac_128: None,
            aac_256: None,
            sample_rate: 44_100,
            channels: 2,
            max_block_size: 0,
            ready: false,
        }
    }

    /// Takes the host's configuration and drops any state sized for a
    /// previous one. Only mono and stereo make the processor ready.
    pub fn initialize(&mut self, sample_rate: u32, channels: usize, max_block_size: usize)
        requires
            sizes_fit(max_block_size, sample_rate),
        ensures
            final(self).wf(),
            final(self).empty(),
            final(self).sample_rate == sample_rate,
            final(self).channels == channels,
            final(self).max_block_size == max_block_size,
            final(self).ready == (channels == 1 || channels == 2),
    {
        self.sample_rate = sample_rate;
        self.channels = channels;
        self.max_block_size = max_block_size;
        self.sbc_low = None;
        self.sbc_high = None;
        self.lc3_64 = None;
        self.lc3_160 = None;
        self.aac_128 = None;
        self.aac_256 = None;
        self.ready = channels == 1 || channels == 2;
    }

    /// Resets every backend that has been made; none is made or dropped.
    pub fn reset(&mut self)
        requires
            old(self).wf(),
        ensures
            final(self).wf(),
            !old(self).ready ==> *final(self) == *old(self),
            old(self).ready ==> reset_slots(*old(self), *final(self)),
    {
        if !self.ready {
            return;
        }
        let ghost before = *self;
        if let Some(c) = &mut self.sbc_low {
            c.reset();
        }
        if let Some(c) = &mut self.sbc_high {
            c.reset();
        }
        if let Some(c) = &mut self.lc3_64 {
            c.reset();
        }
        if let Some(c) = &mut self.lc3_160 {
            c.reset();
        }
        if let Some(c) = &mut self.aac_128 {
            c.reset();
        }
        if let Some(c) = &mut self.aac_256 {
            c.reset();
        }
    }

    /// One step of the encode -> decode roundtrip through the selected
    /// protocol. The block arrives as the platform-codec output and leaves as
    /// the cascaded output. A backend is made when it is first needed; `h2i`
    /// and `i2h` are the resamplers for an AAC backend made in this step.
    pub fn process(
        &mut self,
        block: &mut Vec<Vec<Sample>>,
        n: usize,
        event: BtEvent,
        protocol: BluetoothProtocol,
        h2i: Option<BuiltResampler>,
        i2h: Option<BuiltResampler>,
    ) -> (r: BtAction)
        requires
            old(self).wf(),
            old(self).ready ==> {
                &&& bt_event_fits(event, old(self).channels as nat)
                &&& event is Coded ==> protocol is SbcLow || protocol is SbcHigh
                &&& if protocol is Aac128 || protocol is Aac256 {
                    &&& block_fits(old(block)@, old(self).channels as nat, n as nat)
                    &&& chain_latency_fits(FdkFamily::AacLc, old(self).sample_rate, h2i, i2h)
                } else {
                    channels_fit(old(block)@, old(self).channels as nat, n as nat)
                }
            },
        ensures
            final(self).wf(),
            !old(self).ready ==> {
                &&& r == BtAction::Block(BlockAction::Done)
                &&& *final(self) == *old(self)
                &&& final(block)@ == old(block)@
            },
            old(self).ready ==> dispatched(
                *old(self),
                *final(self),
                old(block)@,
                final(block)@,
                n as nat,
                event,
                protocol,
                h2i,
                i2h,
                r,
            ),
    {
        if !self.ready {
            return BtAction::Block(BlockAction::Done);
        }
        let ghost before = *self;
        match protocol {
            BluetoothProtocol::SbcLow => {
                let mut codec = match self.sbc_low.take() {
                    Some(codec) => codec,
                    None => SbcCodec::new(
                        self.sample_rate,
                        self.channels,
                        self.max_block_size,
                        SbcQuality::Low,
                    ),
                };
                let ghost first = codec;
                let r = codec.process(block, n, event);
                self.sbc_low = Some(codec);
                proof {
                    assert(sbc_start(before.sbc_low, &before, SbcQuality::Low, first));
                }
                r
            },
            BluetoothProtocol::SbcHigh => {
                let mut codec = match self.sbc_high.take() {
                    Some(codec) => codec,
                    None => SbcCodec::new(
                        self.sample_rate,
                        self.channels,
                        self.max_block_size,
                        SbcQuality::High,
                    ),
                };
                let ghost first = codec;
                let r = codec.process(block, n, event);
                self.sbc_high = Some(codec);
                proof {
                    assert(sbc_start(before.sbc_high, &before, SbcQuality::High, first));
                }
                r
            },
            BluetoothProtocol::Lc3_64 => {
                let mut codec = match self.lc3_64.take() {
                    Some(codec) => codec,
                    None => Lc3Codec::new(
                        self.sample_rate,
                        self.channels,
                        self.max_block_size,
                        Lc3Quality::Low64,
                    ),
                };
                let ghost first = codec;
                let e = block_event(event);
                let r = codec.process(block, n, e);
                self.lc3_64 = Some(codec);
                proof {
                    assert(lc3_start(before.lc3_64, &before, Lc3Quality::Low64, first));
                }
                BtAction::Block(r)
            },
            BluetoothProtocol::Lc3_160 => {
                let mut codec = match self.lc3_160.take() {
                    Some(codec) => codec,
                    None => Lc3Codec::new(
                        self.sample_rate,
                        self.channels,
                        self.max_block_size,
                        Lc3Quality::High160,
                    ),
                };
                let ghost first = codec;
                let e = block_event(event);
                let r = codec.process(block, n, e);
                self.lc3_160 = Some(codec);
                proof {
                    assert(lc3_start(before.lc3_160, &before, Lc3Quality::High160, first));
                }
                BtAction::Block(r)
            },
            BluetoothProtocol::Aac128 => {
                let mut codec = match self.aac_128.take() {
                    Some(codec) => codec,
                    None => AacBtCodec::new(
                        self.sample_rate,
                        self.channels,
                        self.max_block_size,
                        128,
                        h2i,
                        i2h,
                    ),
                };
                let ghost first = codec;
                let e = block_event(event);
                let r = codec.process(block, n, e);
                self.aac_128 = Some(codec);
                proof {
                    assert(aac_start(before.aac_128, &before, 128, h2i, i2h, first));
                }
                BtAction::Block(r)
            },
            BluetoothProtocol::Aac256 => {
                let mut codec = match self.aac_256.take() {
                    Some(codec) => codec,
                    None => AacBtCodec::new(
                        self.sample_rate,
                        self.channels,
                        self.max_block_size,
                        256,
                        h2i,
                        i2h,
                    ),
                };
                let ghost first = codec;
                let e = block_event(event);
                let r = codec.process(block, n, e);
                self.aac_256 = Some(codec);
                proof {
                    assert(aac_start(before.aac_256, &before, 256, h2i, i2h, first));
                }
                BtAction::Block(r)
            },
        }
    }

    /// Worst-case host-rate latency across all 6 presets, so delay
    /// compensation covers any preset switch without re-ticking.
    pub fn worst_case_latency_at(
        host_rate: u32,
        channels: usize,
        h2i: Option<BuiltResampler>,
        i2h: Option<BuiltResampler>,
    ) -> (r: u32)
        requires
            ring_fits(1, host_rate),
            chain_latency_fits(FdkFamily::AacLc, host_rate, h2i, i2h),
        ensures
            r == bt_latency(host_rate, h2i, i2h),
    {
        let sbc_l = SbcCodec::worst_case_latency_at(host_rate, channels);
        let lc3_l = Lc3Codec::worst_case_latency_at(host_rate, channels);
        let aac_l = AacBtCodec::worst_case_latency_at(host_rate, channels, h2i, i2h);
        let a: u32 = if sbc_l > lc3_l {
            sbc_l
        } else {
            lc3_l
        };
        if a > aac_l {
            a
        } else {
            aac_l
        }
    }
}

/// The block event inside an event for a backend that codes in place.
fn block_event(event: BtEvent) -> (r: BlockEvent)
    requires
        event is Block,
    ensures
        event == BtEvent::Block(r),
{
    match event {
        BtEvent::Block(e) => e,
        BtEvent::Coded(_) => BlockEvent::Start,
    }
}

/// Each backend that had been made is back at its start.
pub open spec fn reset_slots(before: BluetoothProcessor, after: BluetoothProcessor) -> bool {
    &&& after.sample_rate == before.sample_rate
    &&& after.channels == before.channels
    &&& after.max_block_size == before.max_block_size
    &&& after.ready == before.ready
    &&& sbc_reset(before.sbc_low, after.sbc_low)
    &&& sbc_reset(before.sbc_high, after.sbc_high)
    &&& lc3_reset(before.lc3_64, after.lc3_64)
    &&& lc3_reset(before.lc3_160, after.lc3_160)
    &&& aac_reset(before.aac_128, after.aac_128)
    &&& aac_reset(before.aac_256, after.aac_256)
}

/// A filled slot went back to its start, an empty one stays empty.
pub open spec fn sbc_reset(before: Option<SbcCodec>, after: Option<SbcCodec>) -> bool {
    match before {
        Some(c) => after is Some && after->0.same_setup(&c) && after->0.primed(),
        None => after is None,
    }
}

/// The encoder and the decoder are left alone.
pub open spec fn lc3_reset(before: Option<Lc3Codec>, after: Option<Lc3Codec>) -> bool {
    match before {
        Some(c) => {
            &&& after is Some
            &&& after->0.same_setup(&c)
            &&& after->0.encoder == c.encoder
            &&& after->0.decoder == c.decoder
            &&& after->0.primed()
        },
        None => after is None,
    }
}

pub open spec fn aac_reset(before: Option<AacBtCodec>, after: Option<AacBtCodec>) -> bool {
    match before {
        Some(c) => {
            &&& after is Some
            &&& after->0.bitrate_kbps == c.bitrate_kbps
            &&& reset_chain(c.inner.chain, after->0.inner.chain)
        },
        None => after is None,
    }
}

/// The codec that a step starts from: the slot's, or a fresh one.
pub open spec fn sbc_start(
    slot: Option<SbcCodec>,
    p: &BluetoothProcessor,
    q: SbcQuality,
    first: SbcCodec,
) -> bool {
    match slot {
        Some(c) => first == c,
        None => sbc_slot(Some(first), p, q) && first.primed(),
    }
}

pub open spec fn lc3_start(
    slot: Option<Lc3Codec>,
    p: &BluetoothProcessor,
    q: Lc3Quality,
    first: Lc3Codec,
) -> bool {
    match slot {
        Some(c) => first == c,
        None => lc3_slot(Some(first), p, q) && first.primed() && first.unused(),
    }
}

pub open spec fn aac_start(
    slot: Option<AacBtCodec>,
    p: &BluetoothProcessor,
    kbps: u32,
    h2i: Option<BuiltResampler>,
    i2h: Option<BuiltResampler>,
    first: AacBtCodec,
) -> bool {
    match slot {
        Some(c) => first == c,
        None => aac_slot(Some(first), p, kbps) && {
            let pipe = first.inner.chain.pipeline;
            &&& pipe.ready == (p.sample_rate == 44_100 || (h2i is Some && i2h is Some))
            &&& first.inner.chain.idle()
            &&& pipe.ready ==> {
                &&& pipe.set_up_for(p.sample_rate, p.channels, 44_100, 44_100, h2i, i2h)
                &&& pipe.primed()
                &&& pipe.latency_host_samples == chain_latency(
                    FdkFamily::AacLc,
                    p.sample_rate,
                    h2i,
                    i2h,
                )
            }
        },
    }
}

/// One step went through the SBC codec of a slot.
pub open spec fn sbc_step(
    slot: Option<SbcCodec>,
    p: &BluetoothProcessor,
    q: SbcQuality,
    after: Option<SbcCodec>,
    b0: Seq<Vec<Sample>>,
    b1: Seq<Vec<Sample>>,
    n: nat,
    event: BtEvent,
    r: BtAction,
) -> bool {
    exists|first: SbcCodec|
        {
            &&& #[trigger] sbc_start(slot, p, q, first)
            &&& after matches Some(c) && sbc::processed(first, c, b0, b1, n, event, r)
        }
}

/// One step went through the LC3 codec of a slot.
pub open spec fn lc3_step(
    slot: Option<Lc3Codec>,
    p: &BluetoothProcessor,
    q: Lc3Quality,
    after: Option<Lc3Codec>,
    b0: Seq<Vec<Sample>>,
    b1: Seq<Vec<Sample>>,
    n: nat,
    event: BtEvent,
    r: BtAction,
) -> bool {
    exists|first: Lc3Codec|
        {
            &&& #[trigger] lc3_start(slot, p, q, first)
            &&& event is Block
            &&& r is Block
            &&& after matches Some(c) && lc3::processed(
                first,
                c,
                b0,
                b1,
                n,
                event->Block_0,
                r->Block_0,
            )
        }
}

/// One step went through the AAC codec of a slot.
pub open spec fn aac_step(
    slot: Option<AacBtCodec>,
    p: &BluetoothProcessor,
    kbps: u32,
    h2i: Option<BuiltResampler>,
    i2h: Option<BuiltResampler>,
    after: Option<AacBtCodec>,
    b0: Seq<Vec<Sample>>,
    b1: Seq<Vec<Sample>>,
    n: nat,
    event: BtEvent,
    r: BtAction,
) -> bool {
    exists|first: AacBtCodec|
        {
            &&& #[trigger] aac_start(slot, p, kbps, h2i, i2h, first)
            &&& event is Block
            &&& r is Block
            &&& after matches Some(c) && fdk_chain::processed(
                first.inner.chain,
                c.inner.chain,
                b0,
                b1,
                n,
                event->Block_0,
                ChainMode::Coded { bitrate_kbps: kbps, mono: false },
                r->Block_0,
            )
        }
}

/// One step went through the backend of `protocol`; the other slots are as
/// they were.
pub open spec fn dispatched(
    before: BluetoothProcessor,
    after: BluetoothProcessor,
    b0: Seq<Vec<Sample>>,
    b1: Seq<Vec<Sample>>,
    n: nat,
    event: BtEvent,
    protocol: BluetoothProtocol,
    h2i: Option<BuiltResampler>,
    i2h: Option<BuiltResampler>,
    r: BtAction,
) -> bool {
    match protocol {
        BluetoothProtocol::SbcLow => {
            &&& after == (BluetoothProcessor { sbc_low: after.sbc_low, ..before })
            &&& sbc_step(
                before.sbc_low,
                &before,
                SbcQuality::Low,
                after.sbc_low,
                b0,
                b1,
                n,
                event,
                r,
            )
        },
        BluetoothProtocol::SbcHigh => {
            &&& after == (BluetoothProcessor { sbc_high: after.sbc_high, ..before })
            &&& sbc_step(
                before.sbc_high,
                &before,
                SbcQuality::High,
                after.sbc_high,
                b0,
                b1,
                n,
                event,
                r,
            )
        },
        BluetoothProtocol::Lc3_64 => {
            &&& after == (BluetoothProcessor { lc3_64: after.lc3_64, ..before })
            &&& lc3_step(
                before.lc3_64,
                &before,
                Lc3Quality::Low64,
                after.lc3_64,
                b0,
                b1,
                n,
                event,
                r,
            )
        },
        BluetoothProtocol::Lc3_160 => {
            &&& after == (BluetoothProcessor { lc3_160: after.lc3_160, ..before })
            &&& lc3_step(
                before.lc3_160,
                &before,
                Lc3Quality::High160,
                after.lc3_160,
                b0,
                b1,
                n,
                event,
                r,
            )
        },
        BluetoothProtocol::Aac128 => {
            &&& after == (BluetoothProcessor { aac_128: after.aac_128, ..before })
            &&& aac_step(
                before.aac_128,
                &before,
                128,
                h2i,
                i2h,
                after.aac_128,
                b0,
                b1,
                n,
                event,
                r,
            )
        },
        BluetoothProtocol::Aac256 => {
            &&& after == (BluetoothProcessor { aac_256: after.aac_256, ..before })
            &&& aac_step(
                before.aac_256,
                &before,
                256,
                h2i,
                i2h,
                after.aac_256,
                b0,
                b1,
                n,
                event,
                r,
            )
        },
    }
}

/// A preset is known by its position.
pub proof fn law_protocol_index_is_injective(a: BluetoothProtocol, b: BluetoothProtocol)
    requires
        a.to_index() == b.to_index(),
    ensures
        a == b,
{
}

impl Default for BluetoothProcessor {
    fn default() -> (r: BluetoothProcessor)
        ensures
            r.wf(),
            !r.ready,
            r.empty(),
    {
        BluetoothProcessor::new()
    }
}

}
