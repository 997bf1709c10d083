//! AAC over Bluetooth A2DP: plain AAC-LC at 128 or 256 kbps.
//!
//! Wraps a *separate* `AacProcessor` instance (not shared with the platform
//! AAC), so the platform and BT paths can run different bitrates without
//! sharing FDK-AAC encoder state.

use crate::processor::aac::{AacMode, AacProcessor};
use crate::processor::fdk_chain::{
    chain_latency, chain_latency_fits, processed, reset_chain, ChainMode, FdkFamily, AAC_RATE,
};
use crate::processor::pipeline::{
    block_fits, event_fits, ring_fits, BlockAction, BlockEvent, BuiltResampler,
};
use crate::sample::Sample;
use vstd::prelude::*;

verus! {

/// AAC-LC at fixed BT operating points.
pub struct AacBtCodec {
    pub inner: AacProcessor,
    pub bitrate_kbps: u32,
}

impl AacBtCodec {
    pub open spec fn wf(&self) -> bool {
        &&& self.inner.wf()
        &&& self.bitrate_kbps * 1000 <= u32::MAX
    }

    /// `bitrate_kbps` is 128 or 256, the two BT presets.
    pub fn new(
        sample_rate: u32,
        channels: usize,
        max_block_size: usize,
        bitrate_kbps: u32,
        h2i: Option<BuiltResampler>,
        i2h: Option<BuiltResampler>,
    ) -> (r: AacBtCodec)
        requires
            ring_fits(max_block_size, sample_rate),
            chain_latency_fits(FdkFamily::AacLc, sample_rate, h2i, i2h),
            bitrate_kbps * 1000 <= u32::MAX,
        ensures
            r.wf(),
            r.bitrate_kbps == bitrate_kbps,
            channels == 1 || channels == 2 ==> {
                let p = r.inner.chain.pipeline;
                &&& p.channels == channels
                &&& p.ready == (sample_rate == AAC_RATE || (h2i is Some && i2h is Some))
                &&& p.ready ==> {
                    &&& p.set_up_for(sample_rate, channels, AAC_RATE, AAC_RATE, h2i, i2h)
                    &&& p.primed()
                    &&& p.latency_host_samples == chain_latency(
                        FdkFamily::AacLc,
                        sample_rate,
                        h2i,
                        i2h,
                    )
                }
            },
            channels != 1 && channels != 2 ==> !r.inner.chain.pipeline.ready,
            r.inner.chain.idle(),
    {
        let mut inner = AacProcessor::new();
        inner.initialize(sample_rate, channels, max_block_size, h2i, i2h);
        AacBtCodec { inner, bitrate_kbps }
    }

    pub fn reset(&mut self)
        requires
            old(self).wf(),
        ensures
            final(self).wf(),
            final(self).bitrate_kbps == old(self).bitrate_kbps,
            reset_chain(old(self).inner.chain, final(self).inner.chain),
    {
        self.inner.reset();
    }

    /// One step of a block; always stereo-capable AAC-LC, never folded down.
    pub fn process(
        &mut self,
        block: &mut Vec<Vec<Sample>>,
        n: usize,
        event: BlockEvent,
    ) -> (r: BlockAction)
        requires
            old(self).wf(),
            old(self).inner.chain.pipeline.ready ==> block_fits(
                old(block)@,
                old(self).inner.chain.pipeline.channels as nat,
                n as nat,
            ) && event_fits(event, old(self).inner.chain.pipeline.channels as nat),
        ensures
            final(self).wf(),
            final(self).bitrate_kbps == old(self).bitrate_kbps,
            final(self).inner.chain.pipeline.channels == old(self).inner.chain.pipeline.channels,
            processed(
                old(self).inner.chain,
                final(self).inner.chain,
                old(block)@,
                final(block)@,
                n as nat,
                event,
                ChainMode::Coded { bitrate_kbps: old(self).bitrate_kbps, mono: false },
                r,
            ),
    {
        self.inner.process(
            block,
            n,
            event,
            AacMode::AacLc { bitrate_kbps: self.bitrate_kbps, mono: false },
        )
    }

    /// AAC-LC latency is bitrate-independent (same frame size + warm-up).
    pub fn worst_case_latency_at(
        host_rate: u32,
        channels: usize,
        h2i: Option<BuiltResampler>,
        i2h: Option<BuiltResampler>,
    ) -> (r: u32)
        requires
            ring_fits(1, host_rate),
            chain_latency_fits(FdkFamily::AacLc, host_rate, h2i, i2h),
        ensures
            r == chain_latency(FdkFamily::AacLc, host_rate, h2i, i2h),
    {
        AacProcessor::worst_case_latency_at(host_rate, channels, h2i, i2h)
    }
}

}
