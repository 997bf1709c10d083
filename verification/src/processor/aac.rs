//! Real-time AAC-LC encode -> decode via Fraunhofer FDK-AAC.

use crate::processor::fdk_chain::{
    chain_latency, chain_latency_fits, processed, reset_chain, ChainMode, FdkChain, FdkFamily,
    AAC_RATE,
};
use crate::processor::pipeline::{
    block_fits, event_fits, failed_setup, padded, ring_fits, BlockAction, BlockEvent, BuiltResampler,
};
use crate::processor::rings::same_shape;
use crate::sample::Sample;
use vstd::prelude::*;

verus! {

#[derive(Clone, Copy, PartialEq, Eq, Structural, Debug)]
pub enum AacMode {
    Passthrough,
    /// `mono = true` forces one-channel encode regardless of host channels,
    /// used for TikTok / Instagram mono-fallback tiers.
    AacLc { bitrate_kbps: u32, mono: bool },
}

impl AacMode {
    pub open spec fn spec_chain_mode(self) -> ChainMode {
        match self {
            AacMode::Passthrough => ChainMode::Passthrough,
            AacMode::AacLc { bitrate_kbps, mono } => ChainMode::Coded { bitrate_kbps, mono },
        }
    }

    /// The mode of the chain underneath.
    #[verifier::when_used_as_spec(spec_chain_mode)]
    pub fn chain_mode(self) -> (r: ChainMode)
        ensures
            r == self.spec_chain_mode(),
    {
        match self {
            AacMode::Passthrough => ChainMode::Passthrough,
            AacMode::AacLc { bitrate_kbps, mono } => ChainMode::Coded { bitrate_kbps, mono },
        }
    }

    /// The bitrate in bits per second is a `u32`.
    pub open spec fn in_range(self) -> bool {
        self.chain_mode() matches ChainMode::Coded { bitrate_kbps, .. } ==> bitrate_kbps * 1000
            <= u32::MAX
    }
}

pub struct AacProcessor {
    pub chain: FdkChain,
}

impl AacProcessor {
    pub open spec fn wf(&self) -> bool {
        &&& self.chain.wf()
        &&& self.chain.family == FdkFamily::AacLc
    }

    pub fn new() -> (r: AacProcessor)
        ensures
            r.wf(),
            !r.chain.pipeline.ready,
            r.chain.pipeline.channels == 2,
            r.chain.idle(),
            r.chain.samples_to_discard == 0,
    {
        AacProcessor { chain: FdkChain::new(FdkFamily::AacLc) }
    }

    /// Only mono and stereo are supported: any other channel count leaves
    /// everything as it was. `h2i` and `i2h` are the resamplers built for the
    /// two sides, where the host runs at another rate than 44.1 kHz.
    pub fn initialize(
        &mut self,
        sample_rate: u32,
        channels: usize,
        max_block_size: usize,
        h2i: Option<BuiltResampler>,
        i2h: Option<BuiltResampler>,
    )
        requires
            old(self).wf(),
            ring_fits(max_block_size, sample_rate),
            chain_latency_fits(FdkFamily::AacLc, sample_rate, h2i, i2h),
        ensures
            final(self).wf(),
            channels != 1 && channels != 2 ==> *final(self) == *old(self),
            channels == 1 || channels == 2 ==> {
                let p = final(self).chain.pipeline;
                &&& final(self).chain.idle()
                &&& final(self).chain.samples_to_discard == old(self).chain.samples_to_discard
                &&& p.host_rate == sample_rate
                &&& p.channels == channels
                &&& p.ready == (sample_rate == AAC_RATE || (h2i is Some && i2h is Some))
                &&& !p.ready ==> failed_setup(
                    old(self).chain.pipeline,
                    p,
                    sample_rate,
                    channels,
                    AAC_RATE,
                    AAC_RATE,
                    h2i,
                )
                &&& p.ready ==> {
                    &&& p.latency_host_samples == chain_latency(
                        FdkFamily::AacLc,
                        sample_rate,
                        h2i,
                        i2h,
                    )
                    &&& p.primed()
                    &&& p.set_up_for(sample_rate, channels, AAC_RATE, AAC_RATE, h2i, i2h)
                }
            },
    {
        self.chain.initialize(sample_rate, channels, max_block_size, h2i, i2h);
    }

    pub fn pad_output_to(&mut self, target: u32)
        requires
            old(self).wf(),
        ensures
            final(self).wf(),
            final(self).chain == (FdkChain {
                pipeline: final(self).chain.pipeline,
                ..old(self).chain
            }),
            padded(old(self).chain.pipeline, final(self).chain.pipeline, target),
    {
        self.chain.pad_output_to(target);
    }

    /// Static estimate for the lazy-init path.
    pub fn worst_case_latency_at(
        host_rate: u32,
        channels: usize,
        h2i: Option<BuiltResampler>,
        i2h: Option<BuiltResampler>,
    ) -> (r: u32)
        requires
            ring_fits(1, host_rate),
            chain_latency_fits(FdkFamily::AacLc, host_rate, h2i, i2h),
        ensures
            r == chain_latency(FdkFamily::AacLc, host_rate, h2i, i2h),
    {
        FdkChain::worst_case_latency_at(FdkFamily::AacLc, host_rate, channels, h2i, i2h)
    }

    pub fn reset(&mut self)
        requires
            old(self).wf(),
        ensures
            final(self).wf(),
            reset_chain(old(self).chain, final(self).chain),
    {
        self.chain.reset();
    }

    pub fn latency_samples(&self) -> (r: u32)
        ensures
            r == if self.chain.pipeline.ready {
                self.chain.pipeline.latency_host_samples
            } else {
                0
            },
    {
        self.chain.latency_samples()
    }

    /// One step of a block; see `FdkChain::process`.
    pub fn process(
        &mut self,
        block: &mut Vec<Vec<Sample>>,
        n_samples: usize,
        event: BlockEvent,
        mode: AacMode,
    ) -> (r: BlockAction)
        requires
            old(self).wf(),
            old(self).chain.pipeline.ready ==> block_fits(
                old(block)@,
                old(self).chain.pipeline.channels as nat,
                n_samples as nat,
            ) && event_fits(event, old(self).chain.pipeline.channels as nat),
            mode.in_range(),
        ensures
            final(self).wf(),
            same_shape(old(block)@, final(block)@),
            final(self).chain.pipeline.same_setup(&old(self).chain.pipeline),
            processed(
                old(self).chain,
                final(self).chain,
                old(block)@,
                final(block)@,
                n_samples as nat,
                event,
                mode.chain_mode(),
                r,
            ),
    {
        self.chain.process(block, n_samples, event, mode.chain_mode())
    }
}

impl Default for AacProcessor {
    fn default() -> (r: AacProcessor)
        ensures
            r.wf(),
            !r.chain.pipeline.ready,
    {
        AacProcessor::new()
    }
}

}
