//! The plugin's own logic: lazy codec slots, the plugin-wide latency, the dry
//! delay, and the routing of every block.

use crate::params::StreamingSimulatorParams;
use crate::platforms::{Codec, CodecSpec};
use crate::processor::aac::{AacMode, AacProcessor};
use crate::processor::bluetooth::orchestrator::{bt_latency, dispatched, reset_slots, sizes_fit};
use crate::processor::bluetooth::sbc::{bt_event_fits, BtAction, BtEvent};
use crate::processor::bluetooth::{BluetoothProcessor, BluetoothProtocol};
use crate::processor::fdk_chain::{
    self, chain_latency, chain_latency_fits, reset_chain, ChainMode, FdkChain, FdkFamily,
};
use crate::processor::fm_mpx::{mpx_latency, mpx_sizes_fit};
use crate::processor::fm_radio::{
    self, all_long, fm_event_fits, FmAction, FmEvent, FmRadioMode, FmRadioProcessor,
};
use crate::processor::heaac::{HeAacV1Mode, HeAacV1Processor};
use crate::processor::heaacv2::{HeAacV2Mode, HeAacV2Processor};
use crate::processor::mp3::{
    self, latency_fits, mp3_event_fits, worst_estimate, worst_natural_latency, Mp3Action, Mp3Event,
    Mp3Mode, Mp3Processor, OutputResamplers, RateProbe,
};
use crate::processor::opus::{
    self, opus_estimate, opus_event_fits, opus_latency_fits, OpusAction, OpusEvent,
    OpusMode, OpusProcessor,
};
use crate::processor::pipeline::{
    block_fits, event_fits, lemma_padded_primed, reset_pipeline, BlockAction, BlockEvent,
    BuiltResampler, ResampledPipeline,
};
use crate::processor::rings::{
    all_hold, append_block, drain_all, front, new_rings, overwrite, overwritten, prefill_all, rest,
    same_shape, zeros,
};
use crate::processor::vorbis::{
    self, vorbis_event_fits, vorbis_latency, vorbis_latency_fits, VorbisAction, VorbisEvent,
    VorbisMode, VorbisProcessor,
};
use crate::sample::Sample;
use std::collections::VecDeque;
use vstd::prelude::*;

verus! {

/// The resamplers built between the host's rate and each internal rate;
/// `None` where the rates match or the build failed.
#[derive(Clone, Copy, PartialEq, Eq, Structural, Debug)]
pub struct HostResamplers {
    pub to_44100: Option<BuiltResampler>,
    pub from_44100: Option<BuiltResampler>,
    pub to_48000: Option<BuiltResampler>,
    pub from_48000: Option<BuiltResampler>,
    pub from_22050: Option<BuiltResampler>,
    pub from_24000: Option<BuiltResampler>,
    pub from_32000: Option<BuiltResampler>,
    pub to_192000: Option<BuiltResampler>,
    pub from_192000: Option<BuiltResampler>,
}

impl HostResamplers {
    pub open spec fn spec_outs(self) -> OutputResamplers {
        OutputResamplers {
            from_22050: self.from_22050,
            from_24000: self.from_24000,
            from_32000: self.from_32000,
            from_44100: self.from_44100,
        }
    }

    /// Those from each rate that LAME may pick.
    #[verifier::when_used_as_spec(spec_outs)]
    pub fn outs(self) -> (r: OutputResamplers)
        ensures
            r == self.spec_outs(),
    {
        OutputResamplers {
            from_22050: self.from_22050,
            from_24000: self.from_24000,
            from_32000: self.from_32000,
            from_44100: self.from_44100,
        }
    }
}

/// Every family's latency is in range.
pub open spec fn latencies_fit(host: u32, r: HostResamplers) -> bool {
    &&& opus_latency_fits(host, r.to_48000, r.from_48000)
    &&& vorbis_latency_fits(host, r.to_44100, r.from_44100)
    &&& latency_fits(host, r.to_44100, r.outs())
    &&& mpx_latency(host, r.to_192000, r.from_192000) <= u32::MAX
    &&& chain_latency_fits(FdkFamily::AacLc, host, r.to_44100, r.from_44100)
    &&& chain_latency_fits(FdkFamily::HeAacV1, host, r.to_44100, r.from_44100)
    &&& chain_latency_fits(FdkFamily::HeAacV2, host, r.to_44100, r.from_44100)
}

/// The rings of every family can be asked for at all.
pub open spec fn host_fits(max_block_size: usize, host: u32) -> bool {
    &&& sizes_fit(max_block_size, host)
    &&& mpx_sizes_fit(max_block_size, host)
}

/// Worst-case latency across every codec family.
pub open spec fn plugin_latency(host: u32, r: HostResamplers) -> int {
    let a = vstd::math::max(
        opus_estimate(host, r.to_48000, r.from_48000),
        vorbis_latency(host, r.to_44100, r.from_44100),
    );
    let b = vstd::math::max(a, worst_estimate(host, r.to_44100, r.outs()));
    let c = vstd::math::max(b, mpx_latency(host, r.to_192000, r.from_192000));
    let d = vstd::math::max(c, chain_latency(FdkFamily::AacLc, host, r.to_44100, r.from_44100));
    let e = vstd::math::max(d, chain_latency(FdkFamily::HeAacV1, host, r.to_44100, r.from_44100));
    let f = vstd::math::max(e, chain_latency(FdkFamily::HeAacV2, host, r.to_44100, r.from_44100));
    vstd::math::max(f, bt_latency(host, r.to_44100, r.from_44100))
}

fn larger(a: u32, b: u32) -> (r: u32)
    ensures
        r == vstd::math::max(a as int, b as int),
{
    if a > b {
        a
    } else {
        b
    }
}

pub struct StreamingSimulator {
    pub params: StreamingSimulatorParams,
    /// Codec processors are lazy. Each one carries ~50-500 KB of pre-fill
    /// silence and ring buffers, and a typical session only touches one or
    /// two. They're built on first dispatch; up-front latency comes from each
    /// processor's static estimate.
    pub opus: Option<OpusProcessor>,
    pub vorbis: Option<VorbisProcessor>,
    pub mp3: Option<Mp3Processor>,
    pub fm_radio: Option<FmRadioProcessor>,
    pub aac: Option<AacProcessor>,
    pub heaac_v1: Option<HeAacV1Processor>,
    pub heaac: Option<HeAacV2Processor>,
    /// Bluetooth cascade processor, applied on top of the platform codec.
    pub bluetooth: Option<BluetoothProcessor>,
    /// Host config cached so lazy dispatch can build each processor with the
    /// right settings on first use.
    pub host_sample_rate: u32,
    pub host_channels: usize,
    pub host_max_block_size: usize,
    pub resamplers: HostResamplers,
    /// Plugin-wide reported latency = max across every codec. Every freshly
    /// built processor is padded to this, so codec switches don't shift delay
    /// compensation.
    pub target_latency_samples: u32,
    /// Per-channel dry delay matched to `target_latency_samples`: the output
    /// of bypass and of the lossless tiers. Every block goes in and as much
    /// comes out, which keeps it continuous, so toggling bypass doesn't shift
    /// the playhead.
    pub bypass_delay: Vec<VecDeque<Sample>>,
    /// What came out of the dry delay for the block under way.
    pub dry: Vec<Vec<Sample>>,
    /// Last codec we dispatched on, used to detect tab changes and reset the
    /// new codec's pipeline, so stale audio in its output ring doesn't leak
    /// when the user comes back to it.
    pub last_dispatched_codec: Option<Codec>,
}

/// A pipeline that is ready has the host's rate and channels, and the plugin's
/// latency.
pub open spec fn aligned(p: ResampledPipeline, s: &StreamingSimulator) -> bool {
    p.ready ==> {
        &&& p.host_rate == s.host_sample_rate
        &&& p.channels == s.host_channels
        &&& p.latency_host_samples == s.target_latency_samples
    }
}

/// An FM chain that is ready has the host's rate and channels, and its delay
/// brings it to the plugin's latency.
pub open spec fn fm_aligned(p: FmRadioProcessor, s: &StreamingSimulator) -> bool {
    p.ready ==> {
        &&& p.sample_rate == s.host_sample_rate
        &&& p.channels == s.host_channels
        &&& p.delay_len + p.own_latency() == s.target_latency_samples
        &&& p.latency_host_samples == s.target_latency_samples
    }
}

impl StreamingSimulator {
    /// Each slot that is filled is well formed and aligned to the plugin's
    /// latency.
    pub open spec fn slots_ok(&self) -> bool {
        &&& self.opus matches Some(p) ==> p.wf() && aligned(p.pipeline, self)
        &&& self.vorbis matches Some(p) ==> p.wf() && aligned(p.pipeline, self)
        &&& self.mp3 matches Some(p) ==> p.wf() && aligned(p.pipeline, self)
        &&& self.fm_radio matches Some(p) ==> p.wf() && fm_aligned(p, self)
        &&& self.aac matches Some(p) ==> p.wf() && aligned(p.chain.pipeline, self)
        &&& self.heaac_v1 matches Some(p) ==> p.wf() && aligned(p.chain.pipeline, self)
        &&& self.heaac matches Some(p) ==> p.wf() && aligned(p.chain.pipeline, self)
        &&& self.bluetooth matches Some(p) ==> p.wf() && p.channels == self.host_channels
            && p.sample_rate == self.host_sample_rate
    }

    /// `initialize` has run.
    pub open spec fn wf(&self) -> bool {
        &&& self.slots_ok()
        &&& host_fits(self.host_max_block_size, self.host_sample_rate)
        &&& latencies_fit(self.host_sample_rate, self.resamplers)
        &&& self.target_latency_samples == plugin_latency(self.host_sample_rate, self.resamplers)
        &&& self.bypass_delay.len() == self.host_channels
        &&& all_long(self.bypass_delay@, self.target_latency_samples as nat)
    }

    /// No processor has been made yet.
    pub open spec fn empty(&self) -> bool {
        &&& self.opus is None
        &&& self.vorbis is None
        &&& self.mp3 is None
        &&& self.fm_radio is None
        &&& self.aac is None
        &&& self.heaac_v1 is None
        &&& self.heaac is None
        &&& self.bluetooth is None
    }

    /// Host configuration, latency and parameters are those of `other`.
    pub open spec fn same_host(&self, other: &StreamingSimulator) -> bool {
        &&& self.params == other.params
        &&& self.host_sample_rate == other.host_sample_rate
        &&& self.host_channels == other.host_channels
        &&& self.host_max_block_size == other.host_max_block_size
        &&& self.resamplers == other.resamplers
        &&& self.target_latency_samples == other.target_latency_samples
    }
}

impl Default for StreamingSimulator {
    fn default() -> (r: StreamingSimulator)
        ensures
            r.slots_ok(),
            r.empty(),
            r.host_sample_rate == 44_100,
            r.host_channels == 2,
            r.host_max_block_size == 0,
            r.target_latency_samples == 0,
            r.bypass_delay@.len() == 0,
            r.last_dispatched_codec is None,
            r.params.codec == Codec::SpotifyHigh,
            !r.params.bypass,
            !r.params.bluetooth_enabled,
            r.params.bluetooth_protocol == BluetoothProtocol::SbcHigh,
    {
        StreamingSimulator {
            params: StreamingSimulatorParams::default(),
            opus: None,
            vorbis: None,
            mp3: None,
            fm_radio: None,
            aac: None,
            heaac_v1: None,
            heaac: None,
            bluetooth: None,
            host_sample_rate: 44_100,
            host_channels: 2,
            host_max_block_size: 0,
            resamplers: HostResamplers {
                to_44100: None,
                from_44100: None,
                to_48000: None,
                from_48000: None,
                from_22050: None,
                from_24000: None,
                from_32000: None,
                to_192000: None,
                from_192000: None,
            },
            target_latency_samples: 0,
            bypass_delay: Vec::new(),
            dry: Vec::new(),
            last_dispatched_codec: None,
        }
    }
}

impl StreamingSimulator {
    /// Takes the host's configuration, and gives the latency to report.
    /// Processors held over from a previous configuration are dropped; the
    /// dry delay is pre-filled, so bypass output is that many samples behind
    /// the input, as every codec is.
    ///
    /// Bluetooth cascades on top of the platform codec, so the strictly
    /// correct budget would be the sum. The maximum avoids over-reporting on
    /// every session without Bluetooth (the common case); enabling it may
    /// shift delay compensation by ~30-50 ms.
    pub fn initialize(
        &mut self,
        sample_rate: u32,
        channels: usize,
        max_block_size: usize,
        resamplers: HostResamplers,
    ) -> (r: u32)
        requires
            host_fits(max_block_size, sample_rate),
            latencies_fit(sample_rate, resamplers),
            4 * (plugin_latency(sample_rate, resamplers) + max_block_size + 1) <= isize::MAX,
        ensures
            final(self).wf(),
            final(self).empty(),
            r == plugin_latency(sample_rate, resamplers),
            final(self).target_latency_samples == r,
            final(self).params == old(self).params,
            final(self).host_sample_rate == sample_rate,
            final(self).host_channels == channels,
            final(self).host_max_block_size == max_block_size,
            final(self).resamplers == resamplers,
            all_hold(final(self).bypass_delay@, zeros(r as nat)),
            final(self).last_dispatched_codec is None,
    {
        self.opus = None;
        self.vorbis = None;
        self.mp3 = None;
        self.fm_radio = None;
        self.bluetooth = None;
        self.aac = None;
        self.heaac_v1 = None;
        self.heaac = None;
        self.host_sample_rate = sample_rate;
        self.host_channels = channels;
        self.host_max_block_size = max_block_size;
        self.resamplers = resamplers;
        let target = StreamingSimulator::worst_case_latency(sample_rate, channels, resamplers);
        self.target_latency_samples = target;
        self.bypass_delay = new_rings(channels, target as usize + max_block_size + 1);
        prefill_all(&mut self.bypass_delay, target as usize);
        self.last_dispatched_codec = None;
        target
    }

    fn worst_case_latency(sample_rate: u32, channels: usize, r: HostResamplers) -> (l: u32)
        requires
            host_fits(1, sample_rate),
            latencies_fit(sample_rate, r),
        ensures
            l == plugin_latency(sample_rate, r),
    {
        let opus_l = OpusProcessor::worst_case_latency_at(
            sample_rate,
            channels,
            r.to_48000,
            r.from_48000,
        );
        let vorbis_l = VorbisProcessor::worst_case_latency_at(
            sample_rate,
            channels,
            r.to_44100,
            r.from_44100,
        );
        let mp3_l = Mp3Processor::worst_case_latency_at(
            sample_rate,
            channels,
            r.to_44100,
            r.outs(),
        );
        let fm_l = FmRadioProcessor::worst_case_latency_at(
            sample_rate,
            channels,
            r.to_192000,
            r.from_192000,
        );
        let aac_l = AacProcessor::worst_case_latency_at(
            sample_rate,
            channels,
            r.to_44100,
            r.from_44100,
        );
        let v1_l = HeAacV1Processor::worst_case_latency_at(
            sample_rate,
            channels,
            r.to_44100,
            r.from_44100,
        );
        let v2_l = HeAacV2Processor::worst_case_latency_at(
            sample_rate,
            channels,
            r.to_44100,
            r.from_44100,
        );
        let bt_l = BluetoothProcessor::worst_case_latency_at(
            sample_rate,
            channels,
            r.to_44100,
            r.from_44100,
        );
        let platform = larger(
            larger(larger(larger(opus_l, vorbis_l), mp3_l), fm_l),
            aac_l,
        );
        larger(larger(larger(platform, v1_l), v2_l), bt_l)
    }
}

/// The plugin's latency covers every codec family's.
pub proof fn law_plugin_latency_covers_every_family(host: u32, r: HostResamplers, family: FdkFamily)
    ensures
        plugin_latency(host, r) >= opus_estimate(host, r.to_48000, r.from_48000),
        plugin_latency(host, r) >= vorbis_latency(host, r.to_44100, r.from_44100),
        plugin_latency(host, r) >= worst_estimate(host, r.to_44100, r.outs()),
        plugin_latency(host, r) >= mpx_latency(host, r.to_192000, r.from_192000),
        plugin_latency(host, r) >= chain_latency(family, host, r.to_44100, r.from_44100),
        plugin_latency(host, r) >= bt_latency(host, r.to_44100, r.from_44100),
{
}

/// What the caller of the simulator brings for the active codec.
pub enum CodecEvent {
    /// The block is fresh. `opus_opened` says whether libopus has given an
    /// encoder and a decoder, which matters when the Opus slot is first
    /// filled.
    Start { opus_opened: bool },
    Opus(OpusEvent),
    Vorbis(VorbisEvent),
    Mp3(Mp3Event),
    /// For the AAC slot of the active codec.
    Aac(BlockEvent),
    Fm(FmEvent),
}

/// What the caller of the simulator is to do for the active codec.
pub enum CodecAction {
    Opus(OpusAction),
    Vorbis(VorbisAction),
    Mp3(Mp3Action),
    Aac(BlockAction),
    Fm(FmAction),
}

/// What the caller of the simulator brings.
pub enum SimEvent {
    Codec(CodecEvent),
    Bluetooth(BtEvent),
}

/// What the caller of the simulator is to do next.
pub enum SimAction {
    Codec(CodecAction),
    Bluetooth(BtAction),
    /// The block holds the plugin's output.
    Done,
}

/// A pipeline as a freshly built processor has it: set up between the host and a
/// codec at `rate`, with silence of the plugin's latency waiting at the output
/// and nothing anywhere else.
pub open spec fn fresh(
    p: ResampledPipeline,
    s: &StreamingSimulator,
    rate: u32,
    h2i: Option<BuiltResampler>,
    i2h: Option<BuiltResampler>,
) -> bool {
    p.ready ==> {
        &&& aligned(p, s)
        &&& p.primed()
        &&& p.set_up_for(s.host_sample_rate, s.host_channels, rate, rate, h2i, i2h)
    }
}

/// The host has one channel or two, and the resamplers to a codec at `rate` and
/// back are there where its rate is another.
pub open spec fn can_run(
    s: &StreamingSimulator,
    rate: u32,
    h2i: Option<BuiltResampler>,
    i2h: Option<BuiltResampler>,
) -> bool {
    &&& s.host_channels == 1 || s.host_channels == 2
    &&& s.host_sample_rate == rate || (h2i is Some && i2h is Some)
}

/// An FM chain as it is freshly built.
pub open spec fn fresh_fm(p: FmRadioProcessor, s: &StreamingSimulator) -> bool {
    p.ready ==> {
        &&& fm_aligned(p, s)
        &&& p.mpx.h2m == (if s.host_sample_rate == 192_000 {
            None
        } else {
            s.resamplers.to_192000
        })
        &&& p.mpx.m2h == (if s.host_sample_rate == 192_000 {
            None
        } else {
            s.resamplers.from_192000
        })
        &&& p.mpx.empty()
        &&& all_hold(p.delay@, zeros(p.delay_len as nat))
    }
}

/// The Opus processor as it is made for the host.
pub open spec fn built_opus(p: OpusProcessor, s: &StreamingSimulator, opened: bool) -> bool {
    &&& p.wf()
    &&& p.pipeline.ready == (opened && can_run(
        s,
        48_000,
        s.resamplers.to_48000,
        s.resamplers.from_48000,
    ))
    &&& fresh(p.pipeline, s, 48_000, s.resamplers.to_48000, s.resamplers.from_48000)
    &&& p.opened == (opened && (s.host_channels == 1 || s.host_channels == 2))
    &&& p.current_bitrate_bps == -1
}

/// The Vorbis processor as it is made for the host.
pub open spec fn built_vorbis(p: VorbisProcessor, s: &StreamingSimulator) -> bool {
    &&& p.wf()
    &&& p.pipeline.ready == can_run(s, 44_100, s.resamplers.to_44100, s.resamplers.from_44100)
    &&& fresh(p.pipeline, s, 44_100, s.resamplers.to_44100, s.resamplers.from_44100)
    &&& p.idle()
    &&& p.samples_to_discard == 0
}

/// The MP3 processor as it is made for the host.
pub open spec fn built_mp3(p: Mp3Processor, s: &StreamingSimulator) -> bool {
    &&& p.wf()
    &&& p.pipeline.ready == can_run(s, 44_100, s.resamplers.to_44100, s.resamplers.from_44100)
    &&& fresh(p.pipeline, s, 44_100, s.resamplers.to_44100, s.resamplers.from_44100)
    &&& p.idle()
    &&& p.dec_input@.len() == 0
    &&& p.samples_to_discard == 0
    &&& !p.decoding
}

/// An AAC chain as it is made for the host.
pub open spec fn built_chain(p: FdkChain, s: &StreamingSimulator) -> bool {
    &&& p.wf()
    &&& p.pipeline.ready == can_run(s, 44_100, s.resamplers.to_44100, s.resamplers.from_44100)
    &&& fresh(p.pipeline, s, 44_100, s.resamplers.to_44100, s.resamplers.from_44100)
    &&& p.idle()
    &&& p.samples_to_discard == 0
}

/// The FM processor as it is made for the host.
pub open spec fn built_fm(p: FmRadioProcessor, s: &StreamingSimulator) -> bool {
    &&& p.wf()
    &&& p.ready == can_run(s, 192_000, s.resamplers.to_192000, s.resamplers.from_192000)
    &&& fresh_fm(p, s)
    &&& p.current_variant is None
}

impl StreamingSimulator {
    /// Fills the Opus slot on first use.
    pub fn ensure_opus(&mut self, opened: bool)
        requires
            old(self).wf(),
        ensures
            final(self).wf(),
            *final(self) == (StreamingSimulator { opus: final(self).opus, ..*old(self) }),
            final(self).opus is Some,
            old(self).opus is Some ==> final(self).opus == old(self).opus,
            old(self).opus is None ==> built_opus(final(self).opus->0, &*old(self), opened),
    {
        if self.opus.is_some() {
            return;
        }
        let mut p = OpusProcessor::new();
        p.initialize(
            self.host_sample_rate,
            self.host_channels,
            self.host_max_block_size,
            opened,
            self.resamplers.to_48000,
            self.resamplers.from_48000,
        );
        let ghost built = p.pipeline;
        p.pad_output_to(self.target_latency_samples);
        proof {
            law_plugin_latency_covers_every_family(
                self.host_sample_rate,
                self.resamplers,
                FdkFamily::AacLc,
            );
            if built.ready {
                opus::law_estimate_covers_latency(
                    self.host_sample_rate,
                    self.resamplers.to_48000,
                    self.resamplers.from_48000,
                );
            }
            if built.ready {
                lemma_padded_primed(built, p.pipeline, self.target_latency_samples);
            }
        }
        self.opus = Some(p);
    }

    /// Fills the Vorbis slot on first use.
    pub fn ensure_vorbis(&mut self)
        requires
            old(self).wf(),
        ensures
            final(self).wf(),
            *final(self) == (StreamingSimulator { vorbis: final(self).vorbis, ..*old(self) }),
            final(self).vorbis is Some,
            old(self).vorbis is Some ==> final(self).vorbis == old(self).vorbis,
            old(self).vorbis is None ==> built_vorbis(final(self).vorbis->0, &*old(self)),
    {
        if self.vorbis.is_some() {
            return;
        }
        let mut p = VorbisProcessor::new();
        p.initialize(
            self.host_sample_rate,
            self.host_channels,
            self.host_max_block_size,
            self.resamplers.to_44100,
            self.resamplers.from_44100,
        );
        let ghost built = p.pipeline;
        p.pad_output_to(self.target_latency_samples);
        proof {
            law_plugin_latency_covers_every_family(
                self.host_sample_rate,
                self.resamplers,
                FdkFamily::AacLc,
            );
            if built.ready {
                lemma_padded_primed(built, p.pipeline, self.target_latency_samples);
            }
        }
        self.vorbis = Some(p);
    }

    /// Fills the MP3 slot on first use.
    pub fn ensure_mp3(&mut self)
        requires
            old(self).wf(),
        ensures
            final(self).wf(),
            *final(self) == (StreamingSimulator { mp3: final(self).mp3, ..*old(self) }),
            final(self).mp3 is Some,
            old(self).mp3 is Some ==> final(self).mp3 == old(self).mp3,
            old(self).mp3 is None ==> built_mp3(final(self).mp3->0, &*old(self)),
    {
        if self.mp3.is_some() {
            return;
        }
        let mut p = Mp3Processor::new();
        p.initialize(
            self.host_sample_rate,
            self.host_channels,
            self.host_max_block_size,
            self.resamplers.to_44100,
            self.resamplers.outs(),
        );
        let ghost built = p.pipeline;
        p.pad_output_to(self.target_latency_samples);
        proof {
            law_plugin_latency_covers_every_family(
                self.host_sample_rate,
                self.resamplers,
                FdkFamily::AacLc,
            );
            if built.ready {
                lemma_mp3_covered(self.host_sample_rate, self.resamplers);
            }
            if built.ready {
                lemma_padded_primed(built, p.pipeline, self.target_latency_samples);
            }
        }
        self.mp3 = Some(p);
    }

    /// Fills the AAC-LC slot on first use.
    pub fn ensure_aac(&mut self)
        requires
            old(self).wf(),
        ensures
            final(self).wf(),
            *final(self) == (StreamingSimulator { aac: final(self).aac, ..*old(self) }),
            final(self).aac is Some,
            old(self).aac is Some ==> final(self).aac == old(self).aac,
            old(self).aac is None ==> built_chain(final(self).aac->0.chain, &*old(self)),
    {
        if self.aac.is_some() {
            return;
        }
        let mut p = AacProcessor::new();
        p.initialize(
            self.host_sample_rate,
            self.host_channels,
            self.host_max_block_size,
            self.resamplers.to_44100,
            self.resamplers.from_44100,
        );
        let ghost built = p.chain.pipeline;
        p.pad_output_to(self.target_latency_samples);
        proof {
            law_plugin_latency_covers_every_family(
                self.host_sample_rate,
                self.resamplers,
                FdkFamily::AacLc,
            );
            if built.ready {
                lemma_padded_primed(built, p.chain.pipeline, self.target_latency_samples);
            }
        }
        self.aac = Some(p);
    }

    /// Fills the HE-AAC v1 slot on first use.
    pub fn ensure_heaac_v1(&mut self)
        requires
            old(self).wf(),
        ensures
            final(self).wf(),
            *final(self) == (StreamingSimulator { heaac_v1: final(self).heaac_v1, ..*old(self) }),
            final(self).heaac_v1 is Some,
            old(self).heaac_v1 is Some ==> final(self).heaac_v1 == old(self).heaac_v1,
            old(self).heaac_v1 is None ==> built_chain(final(self).heaac_v1->0.chain, &*old(self)),
    {
        if self.heaac_v1.is_some() {
            return;
        }
        let mut p = HeAacV1Processor::new();
        p.initialize(
            self.host_sample_rate,
            self.host_channels,
            self.host_max_block_size,
            self.resamplers.to_44100,
            self.resamplers.from_44100,
        );
        let ghost built = p.chain.pipeline;
        p.pad_output_to(self.target_latency_samples);
        proof {
            law_plugin_latency_covers_every_family(
                self.host_sample_rate,
                self.resamplers,
                FdkFamily::HeAacV1,
            );
            if built.ready {
                lemma_padded_primed(built, p.chain.pipeline, self.target_latency_samples);
            }
        }
        self.heaac_v1 = Some(p);
    }

    /// Fills the HE-AAC v2 slot on first use.
    pub fn ensure_heaac_v2(&mut self)
        requires
            old(self).wf(),
        ensures
            final(self).wf(),
            *final(self) == (StreamingSimulator { heaac: final(self).heaac, ..*old(self) }),
            final(self).heaac is Some,
            old(self).heaac is Some ==> final(self).heaac == old(self).heaac,
            old(self).heaac is None ==> built_chain(final(self).heaac->0.chain, &*old(self)),
    {
        if self.heaac.is_some() {
            return;
        }
        let mut p = HeAacV2Processor::new();
        p.initialize(
            self.host_sample_rate,
            self.host_channels,
            self.host_max_block_size,
            self.resamplers.to_44100,
            self.resamplers.from_44100,
        );
        let ghost built = p.chain.pipeline;
        p.pad_output_to(self.target_latency_samples);
        proof {
            law_plugin_latency_covers_every_family(
                self.host_sample_rate,
                self.resamplers,
                FdkFamily::HeAacV2,
            );
            if built.ready {
                lemma_padded_primed(built, p.chain.pipeline, self.target_latency_samples);
            }
        }
        self.heaac = Some(p);
    }

    /// Fills the FM slot on first use.
    pub fn ensure_fm_radio(&mut self)
        requires
            old(self).wf(),
        ensures
            final(self).wf(),
            *final(self) == (StreamingSimulator { fm_radio: final(self).fm_radio, ..*old(self) }),
            final(self).fm_radio is Some,
            old(self).fm_radio is Some ==> final(self).fm_radio == old(self).fm_radio,
            old(self).fm_radio is None ==> built_fm(final(self).fm_radio->0, &*old(self)),
    {
        if self.fm_radio.is_some() {
            return;
        }
        let mut p = FmRadioProcessor::new();
        p.initialize(
            self.host_sample_rate,
            self.host_channels,
            self.host_max_block_size,
            self.resamplers.to_192000,
            self.resamplers.from_192000,
        );
        let ghost built = p;
        p.pad_output_to(self.target_latency_samples);
        proof {
            law_plugin_latency_covers_every_family(
                self.host_sample_rate,
                self.resamplers,
                FdkFamily::AacLc,
            );
            if built.ready {
                assert forall|ch: int| 0 <= ch < p.delay.len() implies (#[trigger] p.delay@[ch])@
                    == zeros(p.delay_len as nat) by {
                    assert(built.delay@[ch]@.len() == 0);
                    assert(p.delay@[ch]@ =~= zeros(p.delay_len as nat));
                }
            }
        }
        self.fm_radio = Some(p);
    }

    /// Fills the Bluetooth slot on first use. The backends inside are lazy
    /// themselves.
    pub fn ensure_bluetooth(&mut self)
        requires
            old(self).wf(),
        ensures
            final(self).wf(),
            *final(self) == (StreamingSimulator { bluetooth: final(self).bluetooth, ..*old(self) }),
            final(self).bluetooth is Some,
            old(self).bluetooth is Some ==> final(self).bluetooth == old(self).bluetooth,
            old(self).bluetooth is None ==> fresh_bluetooth(final(self).bluetooth->0, &*old(self)),
    {
        if self.bluetooth.is_some() {
            return;
        }
        let mut p = BluetoothProcessor::new();
        p.initialize(self.host_sample_rate, self.host_channels, self.host_max_block_size);
        self.bluetooth = Some(p);
    }
}

pub open spec fn fresh_bluetooth(p: BluetoothProcessor, s: &StreamingSimulator) -> bool {
    &&& p.empty()
    &&& p.ready == (s.host_channels == 1 || s.host_channels == 2)
    &&& p.sample_rate == s.host_sample_rate
    &&& p.channels == s.host_channels
    &&& p.max_block_size == s.host_max_block_size
}

proof fn lemma_mp3_covered(host: u32, r: HostResamplers)
    requires
        host == 44_100 || r.to_44100 is Some,
    ensures
        worst_natural_latency(host, r.to_44100, r.outs()) <= worst_estimate(
            host,
            r.to_44100,
            r.outs(),
        ),
{
    mp3::law_estimate_covers_latency(host, 22_050, r.to_44100, r.from_22050);
    mp3::law_estimate_covers_latency(host, 24_000, r.to_44100, r.from_24000);
    mp3::law_estimate_covers_latency(host, 32_000, r.to_44100, r.from_32000);
    mp3::law_estimate_covers_latency(host, 44_100, r.to_44100, r.from_44100);
}

/// An FM chain went back to its start.
pub open spec fn reset_fm(before: FmRadioProcessor, after: FmRadioProcessor) -> bool {
    &&& after == (FmRadioProcessor { mpx: after.mpx, delay: after.delay, ..before })
    &&& after.mpx.same_setup(&before.mpx)
    &&& before.ready ==> after.mpx.empty() && all_hold(after.delay@, zeros(before.delay_len as nat))
    &&& !before.ready ==> after == before
}

/// A filled slot went back to its start, an empty one stays empty.
pub open spec fn reset_opus(before: Option<OpusProcessor>, after: Option<OpusProcessor>) -> bool {
    match before {
        Some(p) => after is Some && reset_pipeline(p.pipeline, after->0.pipeline) && after->0 == (
        OpusProcessor { pipeline: after->0.pipeline, ..p }),
        None => after is None,
    }
}

pub open spec fn reset_vorbis(
    before: Option<VorbisProcessor>,
    after: Option<VorbisProcessor>,
) -> bool {
    match before {
        Some(p) => after is Some && vorbis::reset_processor(p, after->0),
        None => after is None,
    }
}

pub open spec fn reset_mp3(before: Option<Mp3Processor>, after: Option<Mp3Processor>) -> bool {
    match before {
        Some(p) => after is Some && mp3::reset_processor(p, after->0),
        None => after is None,
    }
}

pub open spec fn reset_aac(before: Option<AacProcessor>, after: Option<AacProcessor>) -> bool {
    match before {
        Some(p) => after is Some && reset_chain(p.chain, after->0.chain),
        None => after is None,
    }
}

pub open spec fn reset_heaac_v1(
    before: Option<HeAacV1Processor>,
    after: Option<HeAacV1Processor>,
) -> bool {
    match before {
        Some(p) => after is Some && reset_chain(p.chain, after->0.chain),
        None => after is None,
    }
}

pub open spec fn reset_heaac(
    before: Option<HeAacV2Processor>,
    after: Option<HeAacV2Processor>,
) -> bool {
    match before {
        Some(p) => after is Some && reset_chain(p.chain, after->0.chain),
        None => after is None,
    }
}

pub open spec fn reset_fm_slot(
    before: Option<FmRadioProcessor>,
    after: Option<FmRadioProcessor>,
) -> bool {
    match before {
        Some(p) => after is Some && reset_fm(p, after->0),
        None => after is None,
    }
}

pub open spec fn reset_bluetooth(
    before: Option<BluetoothProcessor>,
    after: Option<BluetoothProcessor>,
) -> bool {
    match before {
        Some(p) => after is Some && (p.ready ==> reset_slots(p, after->0)) && (!p.ready ==> after->0
            == p),
        None => after is None,
    }
}

/// Everything went back to its start.
pub open spec fn reset_all(before: StreamingSimulator, after: StreamingSimulator) -> bool {
    &&& reset_opus(before.opus, after.opus)
    &&& reset_vorbis(before.vorbis, after.vorbis)
    &&& reset_mp3(before.mp3, after.mp3)
    &&& reset_fm_slot(before.fm_radio, after.fm_radio)
    &&& reset_aac(before.aac, after.aac)
    &&& reset_heaac_v1(before.heaac_v1, after.heaac_v1)
    &&& reset_heaac(before.heaac, after.heaac)
    &&& reset_bluetooth(before.bluetooth, after.bluetooth)
    &&& after.bypass_delay.len() == before.bypass_delay.len()
    &&& all_hold(after.bypass_delay@, zeros(before.target_latency_samples as nat))
    &&& after.last_dispatched_codec is None
}

/// Only the slot that a recipe uses went back to its start.
pub open spec fn reset_for(
    before: StreamingSimulator,
    after: StreamingSimulator,
    spec: CodecSpec,
) -> bool {
    match spec {
        CodecSpec::Bypass => after == before,
        CodecSpec::Opus { .. } => {
            &&& after == (StreamingSimulator { opus: after.opus, ..before })
            &&& reset_opus(before.opus, after.opus)
        },
        CodecSpec::Vorbis { .. } => {
            &&& after == (StreamingSimulator { vorbis: after.vorbis, ..before })
            &&& reset_vorbis(before.vorbis, after.vorbis)
        },
        CodecSpec::Mp3 { .. } => {
            &&& after == (StreamingSimulator { mp3: after.mp3, ..before })
            &&& reset_mp3(before.mp3, after.mp3)
        },
        CodecSpec::FmRadio { .. } => {
            &&& after == (StreamingSimulator { fm_radio: after.fm_radio, ..before })
            &&& reset_fm_slot(before.fm_radio, after.fm_radio)
        },
        CodecSpec::AacLc { .. } | CodecSpec::AacLcMono { .. } => {
            &&& after == (StreamingSimulator { aac: after.aac, ..before })
            &&& reset_aac(before.aac, after.aac)
        },
        CodecSpec::HeAacV1 { .. } => {
            &&& after == (StreamingSimulator { heaac_v1: after.heaac_v1, ..before })
            &&& reset_heaac_v1(before.heaac_v1, after.heaac_v1)
        },
        CodecSpec::HeAacV2 { .. } => {
            &&& after == (StreamingSimulator { heaac: after.heaac, ..before })
            &&& reset_heaac(before.heaac, after.heaac)
        },
    }
}

impl StreamingSimulator {
    /// Resets the slot that a recipe uses, if it is filled.
    fn reset_codec_for(&mut self, spec: CodecSpec)
        requires
            old(self).wf(),
        ensures
            final(self).wf(),
            reset_for(*old(self), *final(self), spec),
    {
        match spec {
            CodecSpec::Bypass => {},
            CodecSpec::Opus { .. } => {
                if let Some(p) = &mut self.opus {
                    p.reset();
                }
            },
            CodecSpec::Vorbis { .. } => {
                if let Some(p) = &mut self.vorbis {
                    p.reset();
                }
            },
            CodecSpec::Mp3 { .. } => {
                if let Some(p) = &mut self.mp3 {
                    p.reset();
                }
            },
            CodecSpec::FmRadio { .. } => {
                if let Some(p) = &mut self.fm_radio {
                    p.reset();
                }
            },
            CodecSpec::AacLc { .. } => {
                if let Some(p) = &mut self.aac {
                    p.reset();
                }
            },
            CodecSpec::AacLcMono { .. } => {
                if let Some(p) = &mut self.aac {
                    p.reset();
                }
            },
            CodecSpec::HeAacV1 { .. } => {
                if let Some(p) = &mut self.heaac_v1 {
                    p.reset();
                }
            },
            CodecSpec::HeAacV2 { .. } => {
                if let Some(p) = &mut self.heaac {
                    p.reset();
                }
            },
        }
    }

    /// Resets every processor that has been made, re-primes the dry delay with
    /// silence so that it keeps its length, and forgets the last codec. The
    /// caller resets resamplers and codecs of its own. Before `initialize`
    /// there is nothing to reset.
    pub fn reset(&mut self)
        requires
            old(self).slots_ok(),
            old(self).bypass_delay.len() == old(self).host_channels || old(
                self,
            ).bypass_delay.len() == 0,
        ensures
            final(self).slots_ok(),
            old(self).wf() ==> final(self).wf(),
            final(self).same_host(&*old(self)),
            final(self).bypass_delay.len() == old(self).bypass_delay.len(),
            reset_opus(old(self).opus, final(self).opus),
            reset_vorbis(old(self).vorbis, final(self).vorbis),
            reset_mp3(old(self).mp3, final(self).mp3),
            reset_fm_slot(old(self).fm_radio, final(self).fm_radio),
            reset_aac(old(self).aac, final(self).aac),
            reset_heaac_v1(old(self).heaac_v1, final(self).heaac_v1),
            reset_heaac(old(self).heaac, final(self).heaac),
            reset_bluetooth(old(self).bluetooth, final(self).bluetooth),
            all_hold(
                final(self).bypass_delay@,
                zeros(old(self).target_latency_samples as nat),
            ),
            final(self).last_dispatched_codec is None,
            reset_all(*old(self), *final(self)),
    {
        if let Some(p) = &mut self.opus {
            p.reset();
        }
        if let Some(p) = &mut self.vorbis {
            p.reset();
        }
        if let Some(p) = &mut self.mp3 {
            p.reset();
        }
        if let Some(p) = &mut self.fm_radio {
            p.reset();
        }
        if let Some(p) = &mut self.bluetooth {
            p.reset();
        }
        if let Some(p) = &mut self.aac {
            p.reset();
        }
        if let Some(p) = &mut self.heaac_v1 {
            p.reset();
        }
        if let Some(p) = &mut self.heaac {
            p.reset();
        }
        prefill_all(&mut self.bypass_delay, self.target_latency_samples as usize);
        self.last_dispatched_codec = None;
    }
}

/// The processor that a step starts from: the slot's, or a fresh one.
pub open spec fn first_opus(s: StreamingSimulator, first: OpusProcessor, opened: bool) -> bool {
    match s.opus {
        Some(p) => first == p,
        None => built_opus(first, &s, opened),
    }
}

/// The processor that a step starts from: the slot's, or a fresh one.
pub open spec fn first_vorbis(s: StreamingSimulator, first: VorbisProcessor) -> bool {
    match s.vorbis {
        Some(p) => first == p,
        None => built_vorbis(first, &s),
    }
}

/// The processor that a step starts from: the slot's, or a fresh one.
pub open spec fn first_mp3(s: StreamingSimulator, first: Mp3Processor) -> bool {
    match s.mp3 {
        Some(p) => first == p,
        None => built_mp3(first, &s),
    }
}

/// The processor that a step starts from: the slot's, or a fresh one.
pub open spec fn first_aac(s: StreamingSimulator, first: AacProcessor) -> bool {
    match s.aac {
        Some(p) => first == p,
        None => first.wf() && built_chain(first.chain, &s),
    }
}

/// The processor that a step starts from: the slot's, or a fresh one.
pub open spec fn first_heaac_v1(s: StreamingSimulator, first: HeAacV1Processor) -> bool {
    match s.heaac_v1 {
        Some(p) => first == p,
        None => first.wf() && built_chain(first.chain, &s),
    }
}

/// The processor that a step starts from: the slot's, or a fresh one.
pub open spec fn first_heaac(s: StreamingSimulator, first: HeAacV2Processor) -> bool {
    match s.heaac {
        Some(p) => first == p,
        None => first.wf() && built_chain(first.chain, &s),
    }
}

/// The FM chain that a step starts from: the slot's, or a fresh one.
pub open spec fn first_fm(s: StreamingSimulator, first: FmRadioProcessor) -> bool {
    match s.fm_radio {
        Some(p) => first == p,
        None => built_fm(first, &s),
    }
}

/// The event of a family that an event for the active codec amounts to.
pub open spec fn opus_event(event: CodecEvent) -> OpusEvent {
    match event {
        CodecEvent::Opus(e) => e,
        _ => OpusEvent::Block(BlockEvent::Start),
    }
}

pub open spec fn vorbis_event(event: CodecEvent) -> VorbisEvent {
    match event {
        CodecEvent::Vorbis(e) => e,
        _ => VorbisEvent::Block(BlockEvent::Start),
    }
}

pub open spec fn mp3_event(event: CodecEvent) -> Mp3Event {
    match event {
        CodecEvent::Mp3(e) => e,
        _ => Mp3Event::Block(BlockEvent::Start),
    }
}

pub open spec fn aac_event(event: CodecEvent) -> BlockEvent {
    match event {
        CodecEvent::Aac(e) => e,
        _ => BlockEvent::Start,
    }
}

pub open spec fn fm_event(event: CodecEvent) -> FmEvent {
    match event {
        CodecEvent::Fm(e) => e,
        _ => FmEvent::Start,
    }
}

/// libopus is known to have given an encoder and a decoder.
pub open spec fn opus_opened(event: CodecEvent) -> bool {
    match event {
        CodecEvent::Start { opus_opened } => opus_opened,
        _ => false,
    }
}

/// The buffers that an event carries have the shape they should.
pub open spec fn codec_event_fits(event: CodecEvent, channels: nat, n: nat) -> bool {
    match event {
        CodecEvent::Start { .. } => true,
        CodecEvent::Opus(e) => opus_event_fits(e, channels),
        CodecEvent::Vorbis(e) => vorbis_event_fits(e, channels),
        CodecEvent::Mp3(e) => mp3_event_fits(e, channels),
        CodecEvent::Aac(e) => event_fits(e, channels),
        CodecEvent::Fm(e) => fm_event_fits(e, n),
    }
}

/// Bitrates stay far below what the codecs' arithmetic allows.
pub open spec fn bitrate_fits(spec: CodecSpec) -> bool {
    spec.bitrate() matches Some(kbps) ==> kbps <= 2_000_000
}

/// One step went through the opus slot; the other slots are as they were.
pub open spec fn ran_opus(
    before: StreamingSimulator,
    after: StreamingSimulator,
    b0: Seq<Vec<Sample>>,
    b1: Seq<Vec<Sample>>,
    n: nat,
    event: CodecEvent,
    mode: OpusMode,
    r: Option<CodecAction>,
) -> bool {
    &&& after == (StreamingSimulator { opus: after.opus, ..before })
    &&& after.opus is Some
    &&& exists|first: OpusProcessor, action: OpusAction|
        {
            &&& first_opus(before, first, opus_opened(event))
            &&& #[trigger] opus::processed(
                first,
                after.opus->0,
                b0,
                b1,
                n,
                opus_event(event),
                mode,
                action,
            )
            &&& r == (if action == OpusAction::Block(BlockAction::Done) {
                None
            } else {
                Some(CodecAction::Opus(action))
            })
        }
}

/// One step went through the vorbis slot; the other slots are as they were.
pub open spec fn ran_vorbis(
    before: StreamingSimulator,
    after: StreamingSimulator,
    b0: Seq<Vec<Sample>>,
    b1: Seq<Vec<Sample>>,
    n: nat,
    event: CodecEvent,
    mode: VorbisMode,
    r: Option<CodecAction>,
) -> bool {
    &&& after == (StreamingSimulator { vorbis: after.vorbis, ..before })
    &&& after.vorbis is Some
    &&& exists|first: VorbisProcessor, action: VorbisAction|
        {
            &&& first_vorbis(before, first)
            &&& #[trigger] vorbis::processed(
                first,
                after.vorbis->0,
                b0,
                b1,
                n,
                vorbis_event(event),
                mode,
                action,
            )
            &&& r == (if action == VorbisAction::Block(BlockAction::Done) {
                None
            } else {
                Some(CodecAction::Vorbis(action))
            })
        }
}

/// One step went through the mp3 slot; the other slots are as they were.
pub open spec fn ran_mp3(
    before: StreamingSimulator,
    after: StreamingSimulator,
    b0: Seq<Vec<Sample>>,
    b1: Seq<Vec<Sample>>,
    n: nat,
    event: CodecEvent,
    mode: Mp3Mode,
    r: Option<CodecAction>,
) -> bool {
    &&& after == (StreamingSimulator { mp3: after.mp3, ..before })
    &&& after.mp3 is Some
    &&& exists|first: Mp3Processor, action: Mp3Action|
        {
            &&& first_mp3(before, first)
            &&& #[trigger] mp3::processed(
                first,
                after.mp3->0,
                b0,
                b1,
                n,
                mp3_event(event),
                mode,
                action,
            )
            &&& r == (if action == Mp3Action::Block(BlockAction::Done) {
                None
            } else {
                Some(CodecAction::Mp3(action))
            })
        }
}

/// One step went through the aac slot; the other slots are as they were.
pub open spec fn ran_aac(
    before: StreamingSimulator,
    after: StreamingSimulator,
    b0: Seq<Vec<Sample>>,
    b1: Seq<Vec<Sample>>,
    n: nat,
    event: CodecEvent,
    mode: ChainMode,
    r: Option<CodecAction>,
) -> bool {
    &&& after == (StreamingSimulator { aac: after.aac, ..before })
    &&& after.aac is Some
    &&& exists|first: AacProcessor, action: BlockAction|
        {
            &&& first_aac(before, first)
            &&& #[trigger] fdk_chain::processed(
                first.chain,
                after.aac->0.chain,
                b0,
                b1,
                n,
                aac_event(event),
                mode,
                action,
            )
            &&& r == (if action == BlockAction::Done {
                None
            } else {
                Some(CodecAction::Aac(action))
            })
        }
}

/// One step went through the heaac_v1 slot; the other slots are as they were.
pub open spec fn ran_heaac_v1(
    before: StreamingSimulator,
    after: StreamingSimulator,
    b0: Seq<Vec<Sample>>,
    b1: Seq<Vec<Sample>>,
    n: nat,
    event: CodecEvent,
    mode: ChainMode,
    r: Option<CodecAction>,
) -> bool {
    &&& after == (StreamingSimulator { heaac_v1: after.heaac_v1, ..before })
    &&& after.heaac_v1 is Some
    &&& exists|first: HeAacV1Processor, action: BlockAction|
        {
            &&& first_heaac_v1(before, first)
            &&& #[trigger] fdk_chain::processed(
                first.chain,
                after.heaac_v1->0.chain,
                b0,
                b1,
                n,
                aac_event(event),
                mode,
                action,
            )
            &&& r == (if action == BlockAction::Done {
                None
            } else {
                Some(CodecAction::Aac(action))
            })
        }
}

/// One step went through the heaac slot; the other slots are as they were.
pub open spec fn ran_heaac(
    before: StreamingSimulator,
    after: StreamingSimulator,
    b0: Seq<Vec<Sample>>,
    b1: Seq<Vec<Sample>>,
    n: nat,
    event: CodecEvent,
    mode: ChainMode,
    r: Option<CodecAction>,
) -> bool {
    &&& after == (StreamingSimulator { heaac: after.heaac, ..before })
    &&& after.heaac is Some
    &&& exists|first: HeAacV2Processor, action: BlockAction|
        {
            &&& first_heaac(before, first)
            &&& #[trigger] fdk_chain::processed(
                first.chain,
                after.heaac->0.chain,
                b0,
                b1,
                n,
                aac_event(event),
                mode,
                action,
            )
            &&& r == (if action == BlockAction::Done {
                None
            } else {
                Some(CodecAction::Aac(action))
            })
        }
}

/// One step went through the fm_radio slot; the other slots are as they were.
pub open spec fn ran_fm_radio(
    before: StreamingSimulator,
    after: StreamingSimulator,
    b0: Seq<Vec<Sample>>,
    b1: Seq<Vec<Sample>>,
    n: nat,
    event: CodecEvent,
    mode: FmRadioMode,
    r: Option<CodecAction>,
) -> bool {
    &&& after == (StreamingSimulator { fm_radio: after.fm_radio, ..before })
    &&& after.fm_radio is Some
    &&& exists|first: FmRadioProcessor, action: FmAction|
        {
            &&& first_fm(before, first)
            &&& #[trigger] fm_radio::processed(
                first,
                after.fm_radio->0,
                b0,
                b1,
                n,
                fm_event(event),
                mode,
                action,
            )
            &&& r == (if action == FmAction::Done {
                None
            } else {
                Some(CodecAction::Fm(action))
            })
        }
}

/// One step of the codec that a recipe names. `None` says that the block holds
/// the codec's output.
pub open spec fn ran_codec(
    before: StreamingSimulator,
    after: StreamingSimulator,
    b0: Seq<Vec<Sample>>,
    b1: Seq<Vec<Sample>>,
    n: nat,
    event: CodecEvent,
    spec: CodecSpec,
    r: Option<CodecAction>,
) -> bool {
    match spec {
        CodecSpec::Bypass => r is None && after == before && b1 == b0,
        CodecSpec::Opus { bitrate_kbps } => ran_opus(
            before,
            after,
            b0,
            b1,
            n,
            event,
            OpusMode::Opus { bitrate_kbps },
            r,
        ),
        CodecSpec::Vorbis { bitrate_kbps } => ran_vorbis(
            before,
            after,
            b0,
            b1,
            n,
            event,
            VorbisMode::Vorbis { bitrate_kbps },
            r,
        ),
        CodecSpec::AacLc { bitrate_kbps } => ran_aac(
            before,
            after,
            b0,
            b1,
            n,
            event,
            ChainMode::Coded { bitrate_kbps, mono: false },
            r,
        ),
        CodecSpec::AacLcMono { bitrate_kbps } => ran_aac(
            before,
            after,
            b0,
            b1,
            n,
            event,
            ChainMode::Coded { bitrate_kbps, mono: true },
            r,
        ),
        CodecSpec::HeAacV1 { bitrate_kbps } => ran_heaac_v1(
            before,
            after,
            b0,
            b1,
            n,
            event,
            ChainMode::Coded { bitrate_kbps, mono: false },
            r,
        ),
        CodecSpec::HeAacV2 { bitrate_kbps } => ran_heaac(
            before,
            after,
            b0,
            b1,
            n,
            event,
            ChainMode::Coded { bitrate_kbps, mono: false },
            r,
        ),
        CodecSpec::Mp3 { bitrate_kbps } => ran_mp3(
            before,
            after,
            b0,
            b1,
            n,
            event,
            Mp3Mode::Mp3 { bitrate_kbps },
            r,
        ),
        CodecSpec::FmRadio { variant } => ran_fm_radio(
            before,
            after,
            b0,
            b1,
            n,
            event,
            FmRadioMode::FmRadio { variant },
            r,
        ),
    }
}

impl StreamingSimulator {
    fn step_opus(
        &mut self,
        block: &mut Vec<Vec<Sample>>,
        n: usize,
        event: CodecEvent,
        mode: OpusMode,
    ) -> (r: Option<CodecAction>)
        requires
            old(self).wf(),
            block_fits(old(block)@, old(self).host_channels as nat, n as nat),
            codec_event_fits(event, old(self).host_channels as nat, n as nat),
            mode matches OpusMode::Opus { bitrate_kbps } ==> bitrate_kbps * 1000 <= i32::MAX,
        ensures
            final(self).wf(),
            same_shape(old(block)@, final(block)@),
            ran_opus(
                *old(self),
                *final(self),
                old(block)@,
                final(block)@,
                n as nat,
                event,
                mode,
                r,
            ),
    {
        let ghost before = *self;
        let opened: bool = match event {
            CodecEvent::Start { opus_opened } => opus_opened,
            _ => false,
        };
        self.ensure_opus(opened);
        let ghost e0 = event;
        let event = match event {
            CodecEvent::Opus(e) => e,
            _ => OpusEvent::Block(BlockEvent::Start),
        };
        let mut p = match self.opus.take() {
            Some(p) => p,
            None => {
                assert(false);
                return None;
            },
        };
        let ghost first = p;
        let action = p.process(block, n, event, mode);
        let ghost last = p;
        self.opus = Some(p);
        proof {
            assert(opus::processed(
                first,
                last,
                old(block)@,
                block@,
                n as nat,
                event,
                mode,
                action,
            ));
        }
        match action {
            OpusAction::Block(BlockAction::Done) => None,
            action => Some(CodecAction::Opus(action)),
        }
    }

    fn step_vorbis(
        &mut self,
        block: &mut Vec<Vec<Sample>>,
        n: usize,
        event: CodecEvent,
        mode: VorbisMode,
    ) -> (r: Option<CodecAction>)
        requires
            old(self).wf(),
            block_fits(old(block)@, old(self).host_channels as nat, n as nat),
            codec_event_fits(event, old(self).host_channels as nat, n as nat),
            mode matches VorbisMode::Vorbis { bitrate_kbps } ==> bitrate_kbps <= i32::MAX,
        ensures
            final(self).wf(),
            same_shape(old(block)@, final(block)@),
            ran_vorbis(
                *old(self),
                *final(self),
                old(block)@,
                final(block)@,
                n as nat,
                event,
                mode,
                r,
            ),
    {
        let ghost before = *self;
        self.ensure_vorbis();
        let ghost e0 = event;
        let event = match event {
            CodecEvent::Vorbis(e) => e,
            _ => VorbisEvent::Block(BlockEvent::Start),
        };
        let mut p = match self.vorbis.take() {
            Some(p) => p,
            None => {
                assert(false);
                return None;
            },
        };
        let ghost first = p;
        let action = p.process(block, n, event, mode);
        let ghost last = p;
        self.vorbis = Some(p);
        proof {
            assert(vorbis::processed(
                first,
                last,
                old(block)@,
                block@,
                n as nat,
                event,
                mode,
                action,
            ));
        }
        match action {
            VorbisAction::Block(BlockAction::Done) => None,
            action => Some(CodecAction::Vorbis(action)),
        }
    }

    fn step_mp3(
        &mut self,
        block: &mut Vec<Vec<Sample>>,
        n: usize,
        event: CodecEvent,
        mode: Mp3Mode,
    ) -> (r: Option<CodecAction>)
        requires
            old(self).wf(),
            block_fits(old(block)@, old(self).host_channels as nat, n as nat),
            codec_event_fits(event, old(self).host_channels as nat, n as nat),
            mode matches Mp3Mode::Mp3 { bitrate_kbps } ==> bitrate_kbps <= i32::MAX,
        ensures
            final(self).wf(),
            same_shape(old(block)@, final(block)@),
            ran_mp3(
                *old(self),
                *final(self),
                old(block)@,
                final(block)@,
                n as nat,
                event,
                mode,
                r,
            ),
    {
        let ghost before = *self;
        self.ensure_mp3();
        let ghost e0 = event;
        let event = match event {
            CodecEvent::Mp3(e) => e,
            _ => Mp3Event::Block(BlockEvent::Start),
        };
        let mut p = match self.mp3.take() {
            Some(p) => p,
            None => {
                assert(false);
                return None;
            },
        };
        let ghost first = p;
        let action = p.process(block, n, event, mode);
        let ghost last = p;
        self.mp3 = Some(p);
        proof {
            assert(mp3::processed(
                first,
                last,
                old(block)@,
                block@,
                n as nat,
                event,
                mode,
                action,
            ));
        }
        match action {
            Mp3Action::Block(BlockAction::Done) => None,
            action => Some(CodecAction::Mp3(action)),
        }
    }

    fn step_fm_radio(
        &mut self,
        block: &mut Vec<Vec<Sample>>,
        n: usize,
        event: CodecEvent,
        mode: FmRadioMode,
    ) -> (r: Option<CodecAction>)
        requires
            old(self).wf(),
            block_fits(old(block)@, old(self).host_channels as nat, n as nat),
            codec_event_fits(event, old(self).host_channels as nat, n as nat),
        ensures
            final(self).wf(),
            same_shape(old(block)@, final(block)@),
            ran_fm_radio(
                *old(self),
                *final(self),
                old(block)@,
                final(block)@,
                n as nat,
                event,
                mode,
                r,
            ),
    {
        let ghost before = *self;
        self.ensure_fm_radio();
        let ghost e0 = event;
        let event = match event {
            CodecEvent::Fm(e) => e,
            _ => FmEvent::Start,
        };
        let mut p = match self.fm_radio.take() {
            Some(p) => p,
            None => {
                assert(false);
                return None;
            },
        };
        let ghost first = p;
        let action = p.process(block, n, event, mode);
        let ghost last = p;
        self.fm_radio = Some(p);
        proof {
            assert(fm_radio::processed(
                first,
                last,
                old(block)@,
                block@,
                n as nat,
                event,
                mode,
                action,
            ));
        }
        match action {
            FmAction::Done => None,
            action => Some(CodecAction::Fm(action)),
        }
    }

    fn step_aac(
        &mut self,
        block: &mut Vec<Vec<Sample>>,
        n: usize,
        event: CodecEvent,
        mode: AacMode,
    ) -> (r: Option<CodecAction>)
        requires
            old(self).wf(),
            block_fits(old(block)@, old(self).host_channels as nat, n as nat),
            codec_event_fits(event, old(self).host_channels as nat, n as nat),
            mode.in_range(),
        ensures
            final(self).wf(),
            same_shape(old(block)@, final(block)@),
            ran_aac(
                *old(self),
                *final(self),
                old(block)@,
                final(block)@,
                n as nat,
                event,
                mode.chain_mode(),
                r,
            ),
    {
        let ghost before = *self;
        self.ensure_aac();
        let ghost e0 = event;
        let event = match event {
            CodecEvent::Aac(e) => e,
            _ => BlockEvent::Start,
        };
        let mut p = match self.aac.take() {
            Some(p) => p,
            None => {
                assert(false);
                return None;
            },
        };
        let ghost first = p;
        let action = p.process(block, n, event, mode);
        let ghost last = p;
        self.aac = Some(p);
        proof {
            assert(fdk_chain::processed(
                first.chain,
                last.chain,
                old(block)@,
                block@,
                n as nat,
                event,
                mode.chain_mode(),
                action,
            ));
        }
        match action {
            BlockAction::Done => None,
            action => Some(CodecAction::Aac(action)),
        }
    }

    fn step_heaac_v1(
        &mut self,
        block: &mut Vec<Vec<Sample>>,
        n: usize,
        event: CodecEvent,
        mode: HeAacV1Mode,
    ) -> (r: Option<CodecAction>)
        requires
            old(self).wf(),
            block_fits(old(block)@, old(self).host_channels as nat, n as nat),
            codec_event_fits(event, old(self).host_channels as nat, n as nat),
            mode.in_range(),
        ensures
            final(self).wf(),
            same_shape(old(block)@, final(block)@),
            ran_heaac_v1(
                *old(self),
                *final(self),
                old(block)@,
                final(block)@,
                n as nat,
                event,
                mode.chain_mode(),
                r,
            ),
    {
        let ghost before = *self;
        self.ensure_heaac_v1();
        let ghost e0 = event;
        let event = match event {
            CodecEvent::Aac(e) => e,
            _ => BlockEvent::Start,
        };
        let mut p = match self.heaac_v1.take() {
            Some(p) => p,
            None => {
                assert(false);
                return None;
            },
        };
        let ghost first = p;
        let action = p.process(block, n, event, mode);
        let ghost last = p;
        self.heaac_v1 = Some(p);
        proof {
            assert(fdk_chain::processed(
                first.chain,
                last.chain,
                old(block)@,
                block@,
                n as nat,
                event,
                mode.chain_mode(),
                action,
            ));
        }
        match action {
            BlockAction::Done => None,
            action => Some(CodecAction::Aac(action)),
        }
    }

    fn step_heaac_v2(
        &mut self,
        block: &mut Vec<Vec<Sample>>,
        n: usize,
        event: CodecEvent,
        mode: HeAacV2Mode,
    ) -> (r: Option<CodecAction>)
        requires
            old(self).wf(),
            block_fits(old(block)@, old(self).host_channels as nat, n as nat),
            codec_event_fits(event, old(self).host_channels as nat, n as nat),
            mode.in_range(),
        ensures
            final(self).wf(),
            same_shape(old(block)@, final(block)@),
            ran_heaac(
                *old(self),
                *final(self),
                old(block)@,
                final(block)@,
                n as nat,
                event,
                mode.chain_mode(),
                r,
            ),
    {
        let ghost before = *self;
        self.ensure_heaac_v2();
        let ghost e0 = event;
        let event = match event {
            CodecEvent::Aac(e) => e,
            _ => BlockEvent::Start,
        };
        let mut p = match self.heaac.take() {
            Some(p) => p,
            None => {
                assert(false);
                return None;
            },
        };
        let ghost first = p;
        let action = p.process(block, n, event, mode);
        let ghost last = p;
        self.heaac = Some(p);
        proof {
            assert(fdk_chain::processed(
                first.chain,
                last.chain,
                old(block)@,
                block@,
                n as nat,
                event,
                mode.chain_mode(),
                action,
            ));
        }
        match action {
            BlockAction::Done => None,
            action => Some(CodecAction::Aac(action)),
        }
    }

    /// One step of the codec that a recipe names.
    fn run_codec(
        &mut self,
        block: &mut Vec<Vec<Sample>>,
        n: usize,
        event: CodecEvent,
        spec: CodecSpec,
    ) -> (r: Option<CodecAction>)
        requires
            old(self).wf(),
            block_fits(old(block)@, old(self).host_channels as nat, n as nat),
            codec_event_fits(event, old(self).host_channels as nat, n as nat),
            bitrate_fits(spec),
        ensures
            final(self).wf(),
            same_shape(old(block)@, final(block)@),
            ran_codec(
                *old(self),
                *final(self),
                old(block)@,
                final(block)@,
                n as nat,
                event,
                spec,
                r,
            ),
    {
        match spec {
            CodecSpec::Bypass => None,
            CodecSpec::Opus { bitrate_kbps } => self.step_opus(
                block,
                n,
                event,
                OpusMode::Opus { bitrate_kbps },
            ),
            CodecSpec::Vorbis { bitrate_kbps } => self.step_vorbis(
                block,
                n,
                event,
                VorbisMode::Vorbis { bitrate_kbps },
            ),
            CodecSpec::AacLc { bitrate_kbps } => self.step_aac(
                block,
                n,
                event,
                AacMode::AacLc { bitrate_kbps, mono: false },
            ),
            CodecSpec::AacLcMono { bitrate_kbps } => self.step_aac(
                block,
                n,
                event,
                AacMode::AacLc { bitrate_kbps, mono: true },
            ),
            CodecSpec::HeAacV1 { bitrate_kbps } => self.step_heaac_v1(
                block,
                n,
                event,
                HeAacV1Mode::HeAacV1 { bitrate_kbps },
            ),
            CodecSpec::HeAacV2 { bitrate_kbps } => self.step_heaac_v2(
                block,
                n,
                event,
                HeAacV2Mode::HeAacV2 { bitrate_kbps },
            ),
            CodecSpec::Mp3 { bitrate_kbps } => self.step_mp3(
                block,
                n,
                event,
                Mp3Mode::Mp3 { bitrate_kbps },
            ),
            CodecSpec::FmRadio { variant } => self.step_fm_radio(
                block,
                n,
                event,
                FmRadioMode::FmRadio { variant },
            ),
        }
    }
}

/// `block` went into the dry delay, and as much came out of it. A change of
/// codec first puts the new codec's slot back to its start.
pub open spec fn started(
    before: StreamingSimulator,
    after: StreamingSimulator,
    block: Seq<Vec<Sample>>,
    n: nat,
    codec: Codec,
) -> bool {
    exists|mid: StreamingSimulator|
        {
            &&& #[trigger] switched(before, mid, codec)
            &&& delayed(mid, after, block, n)
        }
}

/// The codec in force is `codec`; if it is new, its slot went back to its
/// start, so stale audio from a previous visit doesn't bleed in.
pub open spec fn switched(
    before: StreamingSimulator,
    after: StreamingSimulator,
    codec: Codec,
) -> bool {
    if before.last_dispatched_codec == Some(codec) {
        after == before
    } else {
        exists|reset: StreamingSimulator|
            {
                &&& #[trigger] reset_for(before, reset, codec.def().spec)
                &&& after == (StreamingSimulator { last_dispatched_codec: Some(codec), ..reset })
            }
    }
}

pub open spec fn delayed(
    before: StreamingSimulator,
    after: StreamingSimulator,
    block: Seq<Vec<Sample>>,
    n: nat,
) -> bool {
    &&& after == (StreamingSimulator {
        bypass_delay: after.bypass_delay,
        dry: after.dry,
        ..before
    })
    &&& after.bypass_delay.len() == before.host_channels
    &&& after.dry_fits(n)
    &&& forall|ch: int|
        0 <= ch < before.host_channels ==> (#[trigger] after.bypass_delay@[ch])@ == rest(
            before.bypass_delay@[ch]@ + block[ch]@.take(n as int),
            n,
        )
    &&& forall|ch: int|
        0 <= ch < before.host_channels ==> (#[trigger] after.dry@[ch])@ == front(
            before.bypass_delay@[ch]@ + block[ch]@.take(n as int),
            n,
        )
}

impl StreamingSimulator {
    /// The dry signal of a block of `n` samples is at hand.
    pub open spec fn dry_fits(&self, n: nat) -> bool {
        &&& self.dry.len() == self.host_channels
        &&& forall|ch: int| 0 <= ch < self.dry.len() ==> (#[trigger] self.dry@[ch]).len() == n
    }

    /// The recipe that is put back to its start before a block on `codec`: its
    /// own, where the block before was on another codec. The caller resets the
    /// resamplers and codecs that it holds for that recipe.
    pub fn reset_before(&self, codec: Codec) -> (r: Option<CodecSpec>)
        ensures
            r == (if self.last_dispatched_codec == Some(codec) {
                None
            } else {
                Some(codec.def().spec)
            }),
    {
        let same: bool = match self.last_dispatched_codec {
            Some(last) => last == codec,
            None => false,
        };
        if same {
            None
        } else {
            Some(codec.def().spec)
        }
    }

    /// The start of a block: a codec change, and the dry delay.
    fn start_block(&mut self, block: &Vec<Vec<Sample>>, n: usize, codec: Codec)
        requires
            old(self).wf(),
            block_fits(block@, old(self).host_channels as nat, n as nat),
        ensures
            final(self).wf(),
            final(self).same_host(&*old(self)),
            started(*old(self), *final(self), block@, n as nat, codec),
    {
        let ghost c0 = *self;
        if let Some(spec) = self.reset_before(codec) {
            self.reset_codec_for(spec);
            let ghost reset = *self;
            self.last_dispatched_codec = Some(codec);
            proof {
                assert(reset_for(c0, reset, codec.def().spec));
            }
        }
        let ghost mid = *self;
        proof {
            assert(switched(c0, mid, codec));
        }
        append_block(&mut self.bypass_delay, block, n);
        self.dry = drain_all(&mut self.bypass_delay, n);
        proof {
            assert(delayed(mid, *self, block@, n as nat));
        }
    }

    /// One step of the Bluetooth cascade on whatever is in the block.
    fn step_bluetooth(
        &mut self,
        block: &mut Vec<Vec<Sample>>,
        n: usize,
        event: BtEvent,
        protocol: BluetoothProtocol,
    ) -> (r: SimAction)
        requires
            old(self).wf(),
            block_fits(old(block)@, old(self).host_channels as nat, n as nat),
            bt_event_fits(event, old(self).host_channels as nat),
            event is Coded ==> protocol is SbcLow || protocol is SbcHigh,
        ensures
            final(self).wf(),
            ran_bluetooth(
                *old(self),
                *final(self),
                old(block)@,
                final(block)@,
                n as nat,
                event,
                protocol,
                r,
            ),
    {
        let ghost before = *self;
        self.ensure_bluetooth();
        let mut p = match self.bluetooth.take() {
            Some(p) => p,
            None => {
                assert(false);
                return SimAction::Done;
            },
        };
        let ghost first = p;
        proof {
            assert(first_bluetooth(before, first));
        }
        let action = p.process(
            block,
            n,
            event,
            protocol,
            self.resamplers.to_44100,
            self.resamplers.from_44100,
        );
        let ghost last = p;
        self.bluetooth = Some(p);
        proof {
            assert(bluetooth_step(
                first,
                last,
                old(block)@,
                block@,
                n as nat,
                event,
                protocol,
                before.resamplers,
                action,
            ));
        }
        match action {
            BtAction::Block(BlockAction::Done) => SimAction::Done,
            action => SimAction::Bluetooth(action),
        }
    }

    /// What follows the codec: the dry signal takes the block's place where
    /// bypass or a lossless tier asks for it, *before* the Bluetooth cascade.
    /// That way Bluetooth sees the dry signal on lossless tiers (the "FLAC
    /// into Bluetooth headphones" case). Only the plugin-wide bypass
    /// suppresses the cascade.
    fn cascade(
        &mut self,
        block: &mut Vec<Vec<Sample>>,
        n: usize,
        bypass: bool,
        codec_runs: bool,
        bt_enabled: bool,
        bt_protocol: BluetoothProtocol,
    ) -> (r: SimAction)
        requires
            old(self).wf(),
            old(self).dry_fits(n as nat),
            block_fits(old(block)@, old(self).host_channels as nat, n as nat),
        ensures
            final(self).wf(),
            cascaded(
                *old(self),
                *final(self),
                old(block)@,
                final(block)@,
                n as nat,
                bypass,
                codec_runs,
                bt_enabled,
                bt_protocol,
                r,
            ),
    {
        let ghost b0 = block@;
        if bypass || !codec_runs {
            play_dry(&self.dry, block);
        }
        let ghost b1 = block@;
        proof {
            assert(heard_before_bluetooth(*self, b0, b1, bypass, codec_runs));
        }
        if !bypass && bt_enabled {
            proof {
                assert(block_fits(b1, self.host_channels as nat, n as nat)) by {
                    if bypass || !codec_runs {
                        assert forall|ch: int| 0 <= ch < self.host_channels implies n <= (
                        #[trigger] b1[ch]).len() by {
                            assert(self.dry@[ch].len() == n);
                        }
                    }
                }
            }
            self.step_bluetooth(block, n, BtEvent::Block(BlockEvent::Start), bt_protocol)
        } else {
            SimAction::Done
        }
    }

    /// Routes a block through the right processor. Each call takes in what the
    /// caller brings and says what the caller is to do next, until the block
    /// holds the output.
    ///
    /// - `bypass`: dry delay only; no codec output, no Bluetooth cascade.
    /// - lossless tier: dry delay, then the Bluetooth cascade if enabled.
    /// - any other tier: the codec's output, then the cascade if enabled.
    ///
    /// The active codec runs in every block regardless of bypass, so that its
    /// pipeline stays warm and toggling bypass off doesn't drop into a stale
    /// ring buffer.
    pub fn dispatch_buffer(
        &mut self,
        block: &mut Vec<Vec<Sample>>,
        n: usize,
        event: SimEvent,
        bypass: bool,
        codec: Codec,
        bt_enabled: bool,
        bt_protocol: BluetoothProtocol,
    ) -> (r: SimAction)
        requires
            old(self).wf(),
            block_fits(old(block)@, old(self).host_channels as nat, n as nat),
            sim_event_fits(event, old(self).host_channels as nat, n as nat, bt_protocol),
            !starts(event) ==> old(self).dry_fits(n as nat),
        ensures
            final(self).wf(),
            final(self).same_host(&*old(self)),
            dispatched_block(
                *old(self),
                *final(self),
                old(block)@,
                final(block)@,
                n as nat,
                event,
                bypass,
                codec,
                bt_enabled,
                bt_protocol,
                r,
            ),
    {
        let e = match event {
            SimEvent::Bluetooth(e) => {
                return self.step_bluetooth(block, n, e, bt_protocol);
            },
            SimEvent::Codec(e) => e,
        };
        let ghost c0 = *self;
        let ghost b0 = block@;
        if let CodecEvent::Start { .. } = e {
            self.start_block(block, n, codec);
        }
        let ghost c1 = *self;
        proof {
            assert(opened_block(c0, c1, b0, n as nat, e, codec));
        }
        let spec = codec.def().spec;
        proof {
            crate::platforms::law_catalog_is_well_formed(codec);
        }
        let todo = self.run_codec(block, n, e, spec);
        let ghost c2 = *self;
        let ghost b1 = block@;
        proof {
            assert(ran_codec(c1, c2, b0, b1, n as nat, e, spec, todo));
            assert(c2.same_host(&c1) && c2.dry == c1.dry);
            assert forall|ch: int| 0 <= ch < self.host_channels implies n <= (
            #[trigger] b1[ch]).len() by {
                assert(b0[ch].len() >= n);
            }
        }
        match todo {
            Some(action) => SimAction::Codec(action),
            None => {
                let codec_runs: bool = match spec {
                    CodecSpec::Bypass => false,
                    _ => true,
                };
                self.cascade(block, n, bypass, codec_runs, bt_enabled, bt_protocol)
            },
        }
    }
}

/// Puts the dry signal in the block's place.
fn play_dry(dry: &Vec<Vec<Sample>>, block: &mut Vec<Vec<Sample>>)
    requires
        old(block).len() >= dry.len(),
        forall|ch: int| 0 <= ch < dry.len() ==> (#[trigger] dry@[ch]).len() <= old(block)@[ch].len(),
    ensures
        overwritten(old(block)@, final(block)@, dry.len() as nat, |ch: int| dry@[ch]@),
{
    let ghost b0 = block@;
    let channels: usize = dry.len();
    for ch in 0..channels
        invariant
            channels == dry.len(),
            block.len() == b0.len(),
            b0.len() >= channels,
            forall|c: int| 0 <= c < dry.len() ==> (#[trigger] dry@[c]).len() <= b0[c].len(),
            forall|c: int| ch <= c < b0.len() ==> block@[c] == b0[c],
            forall|c: int|
                0 <= c < ch ==> (#[trigger] block@[c])@ == dry@[c]@ + b0[c]@.skip(
                    dry@[c].len() as int,
                ),
    {
        assert(dry@[ch as int].len() <= b0[ch as int].len());
        overwrite(&mut block[ch], &dry[ch]);
    }
}

/// The event opens a block.
pub open spec fn starts(event: SimEvent) -> bool {
    event matches SimEvent::Codec(e) && e is Start
}

pub open spec fn sim_event_fits(
    event: SimEvent,
    channels: nat,
    n: nat,
    protocol: BluetoothProtocol,
) -> bool {
    match event {
        SimEvent::Codec(e) => codec_event_fits(e, channels, n),
        SimEvent::Bluetooth(e) => bt_event_fits(e, channels) && (e is Coded ==> protocol is SbcLow
            || protocol is SbcHigh),
    }
}

/// The Bluetooth processor that a step starts from.
pub open spec fn first_bluetooth(s: StreamingSimulator, first: BluetoothProcessor) -> bool {
    match s.bluetooth {
        Some(p) => first == p,
        None => first.wf() && fresh_bluetooth(first, &s),
    }
}

/// One step of the Bluetooth processor; one that is not ready leaves the block
/// as it is.
pub open spec fn bluetooth_step(
    before: BluetoothProcessor,
    after: BluetoothProcessor,
    b0: Seq<Vec<Sample>>,
    b1: Seq<Vec<Sample>>,
    n: nat,
    event: BtEvent,
    protocol: BluetoothProtocol,
    resamplers: HostResamplers,
    r: BtAction,
) -> bool {
    if before.ready {
        dispatched(
            before,
            after,
            b0,
            b1,
            n,
            event,
            protocol,
            resamplers.to_44100,
            resamplers.from_44100,
            r,
        )
    } else {
        r == BtAction::Block(BlockAction::Done) && after == before && b1 == b0
    }
}

/// One step of the Bluetooth cascade.
pub open spec fn ran_bluetooth(
    before: StreamingSimulator,
    after: StreamingSimulator,
    b0: Seq<Vec<Sample>>,
    b1: Seq<Vec<Sample>>,
    n: nat,
    event: BtEvent,
    protocol: BluetoothProtocol,
    r: SimAction,
) -> bool {
    &&& after == (StreamingSimulator { bluetooth: after.bluetooth, ..before })
    &&& after.bluetooth is Some
    &&& exists|first: BluetoothProcessor, action: BtAction|
        {
            &&& first_bluetooth(before, first)
            &&& #[trigger] bluetooth_step(
                first,
                after.bluetooth->0,
                b0,
                b1,
                n,
                event,
                protocol,
                before.resamplers,
                action,
            )
            &&& r == (if action == BtAction::Block(BlockAction::Done) {
                SimAction::Done
            } else {
                SimAction::Bluetooth(action)
            })
        }
}

/// What the block holds once the codec is through: its output, or the dry
/// signal.
pub open spec fn heard_before_bluetooth(
    s: StreamingSimulator,
    b0: Seq<Vec<Sample>>,
    b1: Seq<Vec<Sample>>,
    bypass: bool,
    codec_runs: bool,
) -> bool {
    if bypass || !codec_runs {
        overwritten(b0, b1, s.host_channels as nat, |ch: int| s.dry@[ch]@)
    } else {
        b1 == b0
    }
}

/// What follows the codec.
pub open spec fn cascaded(
    before: StreamingSimulator,
    after: StreamingSimulator,
    b0: Seq<Vec<Sample>>,
    b2: Seq<Vec<Sample>>,
    n: nat,
    bypass: bool,
    codec_runs: bool,
    bt_enabled: bool,
    protocol: BluetoothProtocol,
    r: SimAction,
) -> bool {
    exists|b1: Seq<Vec<Sample>>|
        {
            &&& #[trigger] heard_before_bluetooth(before, b0, b1, bypass, codec_runs)
            &&& if !bypass && bt_enabled {
                ran_bluetooth(
                    before,
                    after,
                    b1,
                    b2,
                    n,
                    BtEvent::Block(BlockEvent::Start),
                    protocol,
                    r,
                )
            } else {
                r == SimAction::Done && after == before && b2 == b1
            }
        }
}

/// The block is open: just opened, or from a step before.
pub open spec fn opened_block(
    before: StreamingSimulator,
    after: StreamingSimulator,
    block: Seq<Vec<Sample>>,
    n: nat,
    event: CodecEvent,
    codec: Codec,
) -> bool {
    if event is Start {
        started(before, after, block, n, codec)
    } else {
        after == before
    }
}

/// One step of the routing of a block.
pub open spec fn dispatched_block(
    before: StreamingSimulator,
    after: StreamingSimulator,
    b0: Seq<Vec<Sample>>,
    b2: Seq<Vec<Sample>>,
    n: nat,
    event: SimEvent,
    bypass: bool,
    codec: Codec,
    bt_enabled: bool,
    protocol: BluetoothProtocol,
    r: SimAction,
) -> bool {
    match event {
        SimEvent::Bluetooth(e) => ran_bluetooth(before, after, b0, b2, n, e, protocol, r),
        SimEvent::Codec(e) => exists|
            c1: StreamingSimulator,
            c2: StreamingSimulator,
            b1: Seq<Vec<Sample>>,
            todo: Option<CodecAction>,
        |
            {
                &&& opened_block(before, c1, b0, n, e, codec)
                &&& #[trigger] ran_codec(c1, c2, b0, b1, n, e, codec.def().spec, todo)
                &&& match todo {
                    Some(action) => r == SimAction::Codec(action) && after == c2 && b2 == b1,
                    None => cascaded(
                        c2,
                        after,
                        b1,
                        b2,
                        n,
                        bypass,
                        !(codec.def().spec is Bypass),
                        bt_enabled,
                        protocol,
                        r,
                    ),
                }
            },
    }
}

impl StreamingSimulator {
    /// `dispatch_buffer` with the plugin's own parameters.
    pub fn process(&mut self, block: &mut Vec<Vec<Sample>>, n: usize, event: SimEvent) -> (r:
        SimAction)
        requires
            old(self).wf(),
            block_fits(old(block)@, old(self).host_channels as nat, n as nat),
            sim_event_fits(
                event,
                old(self).host_channels as nat,
                n as nat,
                old(self).params.bluetooth_protocol,
            ),
            !starts(event) ==> old(self).dry_fits(n as nat),
        ensures
            final(self).wf(),
            final(self).same_host(&*old(self)),
            dispatched_block(
                *old(self),
                *final(self),
                old(block)@,
                final(block)@,
                n as nat,
                event,
                old(self).params.bypass,
                old(self).params.codec,
                old(self).params.bluetooth_enabled,
                old(self).params.bluetooth_protocol,
                r,
            ),
    {
        let bypass = self.params.bypass;
        let codec = self.params.codec;
        let bt_enabled = self.params.bluetooth_enabled;
        let bt_protocol = self.params.bluetooth_protocol;
        self.dispatch_buffer(block, n, event, bypass, codec, bt_enabled, bt_protocol)
    }

    /// Starts the rate probe for the MP3 slot's next codec; see
    /// `Mp3Processor::begin_codec`. An empty slot, or one that is not ready,
    /// gives none.
    pub fn begin_mp3_codec(&mut self, bitrate_kbps: u32) -> (r: Option<RateProbe>)
        requires
            old(self).wf(),
        ensures
            final(self).wf(),
            *final(self) == (StreamingSimulator { mp3: final(self).mp3, ..*old(self) }),
            !(old(self).mp3 matches Some(p) && p.pipeline.ready) ==> r is None && *final(self)
                == *old(self),
            old(self).mp3 matches Some(p) && p.pipeline.ready ==> final(self).mp3 is Some
                && mp3::begun_codec(old(self).mp3->0, final(self).mp3->0, bitrate_kbps, r),
    {
        let ready: bool = match &self.mp3 {
            Some(p) => p.pipeline.ready,
            None => false,
        };
        if !ready {
            return None;
        }
        let mut p = match self.mp3.take() {
            Some(p) => p,
            None => {
                assert(false);
                return None;
            },
        };
        let probe = p.begin_codec(bitrate_kbps);
        self.mp3 = Some(p);
        probe
    }

    /// Opens the MP3 slot's codec once its rate is known; see
    /// `Mp3Processor::finish_codec`.
    pub fn finish_mp3_codec(
        &mut self,
        bitrate_kbps: u32,
        output_hz: u32,
        i2h: Option<BuiltResampler>,
    )
        requires
            old(self).wf(),
            bitrate_kbps <= i32::MAX,
            output_hz > 0,
        ensures
            final(self).wf(),
            *final(self) == (StreamingSimulator { mp3: final(self).mp3, ..*old(self) }),
            !(old(self).mp3 matches Some(p) && p.pipeline.ready) ==> *final(self) == *old(self),
            old(self).mp3 matches Some(p) && p.pipeline.ready ==> final(self).mp3 is Some
                && mp3::finished_codec(
                old(self).mp3->0,
                final(self).mp3->0,
                bitrate_kbps,
                output_hz,
                i2h,
            ),
    {
        let ready: bool = match &self.mp3 {
            Some(p) => p.pipeline.ready,
            None => false,
        };
        if !ready {
            return;
        }
        let mut p = match self.mp3.take() {
            Some(p) => p,
            None => {
                assert(false);
                return;
            },
        };
        p.finish_codec(bitrate_kbps, output_hz, i2h);
        self.mp3 = Some(p);
    }
}

/// The dry signal is the input, exactly `target_latency_samples` late, and the
/// delay never grows or shrinks.
pub proof fn law_dry_signal_is_an_exact_delay(
    before: StreamingSimulator,
    after: StreamingSimulator,
    block: Seq<Vec<Sample>>,
    n: nat,
    codec: Codec,
    ch: int,
    s: int,
)
    requires
        before.wf(),
        block_fits(block, before.host_channels as nat, n),
        started(before, after, block, n, codec),
        0 <= ch < before.host_channels,
        0 <= s < n,
    ensures
        after.dry@[ch]@[s] == if s < before.target_latency_samples {
            before.bypass_delay@[ch]@[s]
        } else {
            block[ch]@[s - before.target_latency_samples]
        },
        after.bypass_delay@[ch]@.len() == before.target_latency_samples,
{
    lemma_started_delay(before, after, block, n, codec, ch);
    let q = before.bypass_delay@[ch]@ + block[ch]@.take(n as int);
    assert(block[ch].len() >= n);
    assert(before.bypass_delay@[ch]@.len() == before.target_latency_samples);
    assert(after.dry@[ch]@ == front(q, n));
}

proof fn lemma_started_delay(
    before: StreamingSimulator,
    after: StreamingSimulator,
    block: Seq<Vec<Sample>>,
    n: nat,
    codec: Codec,
    ch: int,
)
    requires
        before.wf(),
        started(before, after, block, n, codec),
        0 <= ch < before.host_channels,
    ensures
        after.dry@[ch]@ == front(before.bypass_delay@[ch]@ + block[ch]@.take(n as int), n),
        after.bypass_delay@[ch]@ == rest(before.bypass_delay@[ch]@ + block[ch]@.take(n as int), n),
{
    let mid = choose|mid: StreamingSimulator|
        #[trigger] switched(before, mid, codec) && delayed(mid, after, block, n);
    assert(mid.bypass_delay == before.bypass_delay && mid.host_channels == before.host_channels);
    assert(after.dry@[ch]@ == front(mid.bypass_delay@[ch]@ + block[ch]@.take(n as int), n));
    assert(after.bypass_delay@[ch]@ == rest(
        mid.bypass_delay@[ch]@ + block[ch]@.take(n as int),
        n,
    ));
}

/// Nothing is lost or reordered in the dry delay: what came out, followed by
/// what is left, is what was there followed by what went in.
pub proof fn law_dry_delay_keeps_order(
    before: StreamingSimulator,
    after: StreamingSimulator,
    block: Seq<Vec<Sample>>,
    n: nat,
    codec: Codec,
    ch: int,
)
    requires
        before.wf(),
        block_fits(block, before.host_channels as nat, n),
        started(before, after, block, n, codec),
        0 <= ch < before.host_channels,
    ensures
        after.dry@[ch]@ + after.bypass_delay@[ch]@ == before.bypass_delay@[ch]@
            + block[ch]@.take(n as int),
{
    lemma_started_delay(before, after, block, n, codec, ch);
    let q = before.bypass_delay@[ch]@ + block[ch]@.take(n as int);
    assert(block[ch].len() >= n);
    assert(front(q, n) + rest(q, n) =~= q);
}

/// The first `k` sequences, one after the other.
pub open spec fn joined(parts: Seq<Seq<Sample>>, k: nat) -> Seq<Sample>
    decreases k,
{
    if k == 0 {
        Seq::empty()
    } else {
        joined(parts, (k - 1) as nat) + parts[k - 1]
    }
}

/// Over any number of blocks, each going into a delay queue and as much coming
/// out, the output is the input behind what the queue held at first. With a
/// queue of silence, as after `initialize`, that is a plain delay.
pub proof fn law_delay_line_over_many_blocks(
    queues: Seq<Seq<Sample>>,
    ins: Seq<Seq<Sample>>,
    outs: Seq<Seq<Sample>>,
    k: nat,
)
    requires
        k <= ins.len(),
        outs.len() == ins.len(),
        queues.len() == ins.len() + 1,
        forall|i: int|
            0 <= i < ins.len() ==> #[trigger] outs[i] == front(queues[i] + ins[i], ins[i].len())
                && queues[i + 1] == rest(queues[i] + ins[i], ins[i].len()),
    ensures
        joined(outs, k) + queues[k as int] == queues[0] + joined(ins, k),
    decreases k,
{
    if k == 0 {
        assert(joined(outs, 0) + queues[0] =~= queues[0] + joined(ins, 0));
    } else {
        let j = (k - 1) as nat;
        law_delay_line_over_many_blocks(queues, ins, outs, j);
        let q = queues[j as int] + ins[j as int];
        let n = ins[j as int].len();
        assert(outs[j as int] == front(q, n));
        assert(front(q, n) + rest(q, n) =~= q);
        assert(joined(outs, k) + queues[k as int] =~= joined(outs, j) + (front(q, n) + rest(q, n)));
        assert(joined(outs, j) + q =~= (joined(outs, j) + queues[j as int]) + ins[j as int]);
        assert((queues[0] + joined(ins, j)) + ins[j as int] =~= queues[0] + joined(ins, k));
    }
}

/// With bypass on, the block ends up with the dry signal whatever the codec
/// wrote and whatever the Bluetooth switch says, and the Bluetooth slot is not
/// touched.
pub proof fn law_bypass_plays_the_dry_signal(
    before: StreamingSimulator,
    after: StreamingSimulator,
    b0: Seq<Vec<Sample>>,
    b2: Seq<Vec<Sample>>,
    n: nat,
    codec_runs: bool,
    bt_enabled: bool,
    protocol: BluetoothProtocol,
    r: SimAction,
    ch: int,
)
    requires
        before.dry_fits(n),
        cascaded(before, after, b0, b2, n, true, codec_runs, bt_enabled, protocol, r),
        0 <= ch < before.host_channels,
    ensures
        r == SimAction::Done,
        after == before,
        b2[ch]@ == before.dry@[ch]@ + b0[ch]@.skip(n as int),
{
    assert(before.dry@[ch].len() == n);
}

/// On a lossless tier Bluetooth still applies, and what it gets is the dry
/// signal.
pub proof fn law_lossless_feeds_bluetooth_the_dry_signal(
    before: StreamingSimulator,
    after: StreamingSimulator,
    b0: Seq<Vec<Sample>>,
    b2: Seq<Vec<Sample>>,
    n: nat,
    protocol: BluetoothProtocol,
    r: SimAction,
)
    requires
        cascaded(before, after, b0, b2, n, false, false, true, protocol, r),
    ensures
        exists|b1: Seq<Vec<Sample>>|
            overwritten(b0, b1, before.host_channels as nat, |ch: int| before.dry@[ch]@)
                && #[trigger] ran_bluetooth(
                before,
                after,
                b1,
                b2,
                n,
                BtEvent::Block(BlockEvent::Start),
                protocol,
                r,
            ),
{
    let b1 = choose|b1: Seq<Vec<Sample>>|
        {
            &&& #[trigger] heard_before_bluetooth(before, b0, b1, false, false)
            &&& ran_bluetooth(
                before,
                after,
                b1,
                b2,
                n,
                BtEvent::Block(BlockEvent::Start),
                protocol,
                r,
            )
        };
    assert(overwritten(b0, b1, before.host_channels as nat, |ch: int| before.dry@[ch]@));
}

/// Neither the codec nor Bluetooth touches the dry delay: only the start of a
/// block does.
pub proof fn law_only_a_new_block_moves_the_dry_delay(
    before: StreamingSimulator,
    after: StreamingSimulator,
    b0: Seq<Vec<Sample>>,
    b2: Seq<Vec<Sample>>,
    n: nat,
    event: SimEvent,
    bypass: bool,
    codec: Codec,
    bt_enabled: bool,
    protocol: BluetoothProtocol,
    r: SimAction,
)
    requires
        dispatched_block(
            before,
            after,
            b0,
            b2,
            n,
            event,
            bypass,
            codec,
            bt_enabled,
            protocol,
            r,
        ),
        !starts(event),
    ensures
        after.bypass_delay == before.bypass_delay,
        after.dry == before.dry,
        after.last_dispatched_codec == before.last_dispatched_codec,
{
}

/// A step with bypass on is one with bypass off, but for what the block holds in
/// the end: the codec runs either way, and the simulator comes out the same.
/// `dry` is the block that bypass plays in the place of `wet`.
pub proof fn law_bypass_only_chooses_the_output(
    before: StreamingSimulator,
    after: StreamingSimulator,
    b0: Seq<Vec<Sample>>,
    dry: Seq<Vec<Sample>>,
    wet: Seq<Vec<Sample>>,
    n: nat,
    event: CodecEvent,
    codec: Codec,
    protocol: BluetoothProtocol,
    r: SimAction,
)
    requires
        r is Done ==> overwritten(wet, dry, after.host_channels as nat, |ch: int| after.dry@[ch]@),
        !(r is Done) ==> dry == wet,
    ensures
        dispatched_block(
            before,
            after,
            b0,
            wet,
            n,
            SimEvent::Codec(event),
            false,
            codec,
            false,
            protocol,
            r,
        ) ==> dispatched_block(
            before,
            after,
            b0,
            dry,
            n,
            SimEvent::Codec(event),
            true,
            codec,
            false,
            protocol,
            r,
        ),
        dispatched_block(
            before,
            after,
            b0,
            dry,
            n,
            SimEvent::Codec(event),
            true,
            codec,
            false,
            protocol,
            r,
        ) ==> exists|wet: Seq<Vec<Sample>>| #[trigger]
            dispatched_block(
                before,
                after,
                b0,
                wet,
                n,
                SimEvent::Codec(event),
                false,
                codec,
                false,
                protocol,
                r,
            ),
{
    let spec = codec.def().spec;
    let runs = !(spec is Bypass);
    if dispatched_block(
        before,
        after,
        b0,
        wet,
        n,
        SimEvent::Codec(event),
        false,
        codec,
        false,
        protocol,
        r,
    ) {
        let (c1, c2, b1, todo) = choose|
            c1: StreamingSimulator,
            c2: StreamingSimulator,
            b1: Seq<Vec<Sample>>,
            todo: Option<CodecAction>,
        |
            {
                &&& opened_block(before, c1, b0, n, event, codec)
                &&& #[trigger] ran_codec(c1, c2, b0, b1, n, event, spec, todo)
                &&& match todo {
                    Some(action) => r == SimAction::Codec(action) && after == c2 && wet == b1,
                    None => cascaded(c2, after, b1, wet, n, false, runs, false, protocol, r),
                }
            };
        if todo is None {
            let heard = choose|heard: Seq<Vec<Sample>>|
                {
                    &&& #[trigger] heard_before_bluetooth(c2, b1, heard, false, runs)
                    &&& r == SimAction::Done && after == c2 && wet == heard
                };
            assert(heard_before_bluetooth(c2, b1, dry, true, runs)) by {
                assert forall|ch: int| 0 <= ch < c2.host_channels implies (#[trigger] dry[ch])@
                    == c2.dry@[ch]@ + b1[ch]@.skip(c2.dry@[ch]@.len() as int) by {
                    if !runs {
                        assert(wet[ch]@ == c2.dry@[ch]@ + b1[ch]@.skip(c2.dry@[ch]@.len() as int));
                        assert(wet[ch]@.skip(c2.dry@[ch]@.len() as int) =~= b1[ch]@.skip(
                            c2.dry@[ch]@.len() as int,
                        ));
                    }
                }
            }
            assert(cascaded(c2, after, b1, dry, n, true, runs, false, protocol, r));
        }
        assert(ran_codec(c1, c2, b0, b1, n, event, spec, todo));
    }
    if dispatched_block(
        before,
        after,
        b0,
        dry,
        n,
        SimEvent::Codec(event),
        true,
        codec,
        false,
        protocol,
        r,
    ) {
        let (c1, c2, b1, todo) = choose|
            c1: StreamingSimulator,
            c2: StreamingSimulator,
            b1: Seq<Vec<Sample>>,
            todo: Option<CodecAction>,
        |
            {
                &&& opened_block(before, c1, b0, n, event, codec)
                &&& #[trigger] ran_codec(c1, c2, b0, b1, n, event, spec, todo)
                &&& match todo {
                    Some(action) => r == SimAction::Codec(action) && after == c2 && dry == b1,
                    None => cascaded(c2, after, b1, dry, n, true, runs, false, protocol, r),
                }
            };
        let other = if todo is None && !runs {
            dry
        } else {
            b1
        };
        if todo is None {
            assert(heard_before_bluetooth(c2, b1, other, false, runs));
            assert(cascaded(c2, after, b1, other, n, false, runs, false, protocol, r));
        }
        assert(ran_codec(c1, c2, b0, b1, n, event, spec, todo));
        assert(dispatched_block(
            before,
            after,
            b0,
            other,
            n,
            SimEvent::Codec(event),
            false,
            codec,
            false,
            protocol,
            r,
        ));
    }
}

/// The steps that take one block of `n` samples from its start to its end. Step
/// `k` leads from `befores[k]` and `blocks[k]` to `afters[k]` and `blocks[k + 1]`.
pub struct BlockRun {
    pub befores: Seq<StreamingSimulator>,
    pub afters: Seq<StreamingSimulator>,
    pub blocks: Seq<Seq<Vec<Sample>>>,
    pub events: Seq<SimEvent>,
    pub actions: Seq<SimAction>,
    pub n: nat,
    pub bypass: bool,
    pub codec: Codec,
    pub bt_enabled: bool,
    pub protocol: BluetoothProtocol,
}

impl BlockRun {
    /// Step `k` is one of the simulator's. It gets the reply to the action before
    /// it, and in between at most the MP3 codec is opened.
    pub open spec fn steps_at(self, k: int) -> bool {
        &&& dispatched_block(
            self.befores[k],
            self.afters[k],
            self.blocks[k],
            self.blocks[k + 1],
            self.n,
            self.events[k],
            self.bypass,
            self.codec,
            self.bt_enabled,
            self.protocol,
            self.actions[k],
        )
        &&& starts(self.events[k]) <==> k == 0
        &&& k > 0 ==> {
            &&& self.actions[k - 1] is Codec ==> self.events[k] is Codec
            &&& self.actions[k - 1] is Bluetooth ==> self.events[k] is Bluetooth
            &&& !(self.actions[k - 1] is Done)
            &&& self.befores[k] == (StreamingSimulator {
                mp3: self.befores[k].mp3,
                ..self.afters[k - 1]
            })
        }
    }

    pub open spec fn wf(self) -> bool {
        let len = self.actions.len();
        &&& len >= 1
        &&& self.befores.len() == len
        &&& self.afters.len() == len
        &&& self.events.len() == len
        &&& self.blocks.len() == len + 1
        &&& self.actions.last() is Done
        &&& self.befores[0].wf()
        &&& block_fits(self.blocks[0], self.befores[0].host_channels as nat, self.n)
        &&& forall|k: int| 0 <= k < len ==> #[trigger] self.steps_at(k)
    }

    /// Bypass is on, or the tier is lossless and Bluetooth off.
    pub open spec fn is_dry(self) -> bool {
        self.bypass || (self.codec.def().spec is Bypass && !self.bt_enabled)
    }

    /// What channel `ch` of the block held at first.
    pub open spec fn input(self, ch: int) -> Seq<Sample> {
        self.blocks[0][ch]@.take(self.n as int)
    }

    /// What channel `ch` of the block holds in the end.
    pub open spec fn output(self, ch: int) -> Seq<Sample> {
        self.blocks.last()[ch]@.take(self.n as int)
    }

    /// The dry delay of channel `ch` before the block.
    pub open spec fn delay_before(self, ch: int) -> Seq<Sample> {
        self.befores[0].bypass_delay@[ch]@
    }

    /// The dry delay of channel `ch` after the block.
    pub open spec fn delay_after(self, ch: int) -> Seq<Sample> {
        self.afters.last().bypass_delay@[ch]@
    }
}

/// After step `k` of a dry run the dry delay has moved by the block, the dry
/// signal is at hand, and what the step asks for is not Bluetooth.
proof fn lemma_dry_run_step(run: BlockRun, k: int, ch: int)
    requires
        run.wf(),
        run.is_dry(),
        0 <= k < run.actions.len(),
        0 <= ch < run.befores[0].host_channels,
    ensures
        run.events[k] is Codec,
        !(run.actions[k] is Bluetooth),
        run.afters[k].host_channels == run.befores[0].host_channels,
        run.afters[k].dry_fits(run.n),
        run.afters[k].dry@[ch]@ == front(run.delay_before(ch) + run.input(ch), run.n),
        run.afters[k].bypass_delay@[ch]@ == rest(run.delay_before(ch) + run.input(ch), run.n),
    decreases k,
{
    assert(run.steps_at(k));
    if k > 0 {
        lemma_dry_run_step(run, k - 1, ch);
        assert(run.steps_at(k - 1));
        law_only_a_new_block_moves_the_dry_delay(
            run.befores[k],
            run.afters[k],
            run.blocks[k],
            run.blocks[k + 1],
            run.n,
            run.events[k],
            run.bypass,
            run.codec,
            run.bt_enabled,
            run.protocol,
            run.actions[k],
        );
    }
    let e = run.events[k]->Codec_0;
    let spec = run.codec.def().spec;
    let (c1, c2, b1, todo) = choose|
        c1: StreamingSimulator,
        c2: StreamingSimulator,
        b1: Seq<Vec<Sample>>,
        todo: Option<CodecAction>,
    |
        {
            &&& opened_block(run.befores[k], c1, run.blocks[k], run.n, e, run.codec)
            &&& #[trigger] ran_codec(c1, c2, run.blocks[k], b1, run.n, e, spec, todo)
            &&& match todo {
                Some(action) => {
                    &&& run.actions[k] == SimAction::Codec(action)
                    &&& run.afters[k] == c2
                    &&& run.blocks[k + 1] == b1
                },
                None => cascaded(
                    c2,
                    run.afters[k],
                    b1,
                    run.blocks[k + 1],
                    run.n,
                    run.bypass,
                    !(spec is Bypass),
                    run.bt_enabled,
                    run.protocol,
                    run.actions[k],
                ),
            }
        };
    assert(run.afters[k] == c2);
    if k == 0 {
        assert(started(run.befores[0], c1, run.blocks[0], run.n, run.codec));
        lemma_started_delay(run.befores[0], c1, run.blocks[0], run.n, run.codec, ch);
        let mid = choose|mid: StreamingSimulator|
            #[trigger] switched(run.befores[0], mid, run.codec) && delayed(
                mid,
                c1,
                run.blocks[0],
                run.n,
            );
        assert(c1.dry_fits(run.n));
    }
}

/// On a dry route a block comes out as the dry delay gives it.
pub proof fn law_dry_route_plays_the_delay(run: BlockRun, ch: int)
    requires
        run.wf(),
        run.is_dry(),
        0 <= ch < run.befores[0].host_channels,
    ensures
        run.output(ch) == front(run.delay_before(ch) + run.input(ch), run.n),
        run.delay_after(ch) == rest(run.delay_before(ch) + run.input(ch), run.n),
{
    let k = run.actions.len() - 1;
    lemma_dry_run_step(run, k, ch);
    assert(run.steps_at(k));
    let e = run.events[k]->Codec_0;
    let spec = run.codec.def().spec;
    let (c1, c2, b1, todo) = choose|
        c1: StreamingSimulator,
        c2: StreamingSimulator,
        b1: Seq<Vec<Sample>>,
        todo: Option<CodecAction>,
    |
        {
            &&& opened_block(run.befores[k], c1, run.blocks[k], run.n, e, run.codec)
            &&& #[trigger] ran_codec(c1, c2, run.blocks[k], b1, run.n, e, spec, todo)
            &&& match todo {
                Some(action) => {
                    &&& run.actions[k] == SimAction::Codec(action)
                    &&& run.afters[k] == c2
                    &&& run.blocks[k + 1] == b1
                },
                None => cascaded(
                    c2,
                    run.afters[k],
                    b1,
                    run.blocks[k + 1],
                    run.n,
                    run.bypass,
                    !(spec is Bypass),
                    run.bt_enabled,
                    run.protocol,
                    run.actions[k],
                ),
            }
        };
    assert(todo is None);
    let after = run.afters[k];
    assert(after.dry@[ch].len() == run.n);
    assert(run.blocks[k + 1][ch]@ == after.dry@[ch]@ + b1[ch]@.skip(run.n as int));
    assert(run.output(ch) =~= after.dry@[ch]@);
}

/// The inputs of the first blocks of a series, or their outputs.
pub open spec fn inputs(runs: Seq<BlockRun>, ch: int) -> Seq<Seq<Sample>> {
    Seq::new(runs.len(), |i: int| runs[i].input(ch))
}

pub open spec fn outputs(runs: Seq<BlockRun>, ch: int) -> Seq<Seq<Sample>> {
    Seq::new(runs.len(), |i: int| runs[i].output(ch))
}

/// Block `i` of a series starts where the one before it ended, the first with
/// `latency` samples of silence in the dry delay.
pub open spec fn follows(runs: Seq<BlockRun>, i: int, latency: nat, channels: usize) -> bool {
    &&& runs[i].wf()
    &&& runs[i].befores[0].host_channels == channels
    &&& i == 0 ==> all_hold(runs[0].befores[0].bypass_delay@, zeros(latency))
    &&& i > 0 ==> runs[i].befores[0].bypass_delay == runs[i - 1].afters.last().bypass_delay
}

proof fn lemma_joined_len(a: Seq<Seq<Sample>>, b: Seq<Seq<Sample>>, k: nat)
    requires
        k <= a.len(),
        a.len() == b.len(),
        forall|i: int| 0 <= i < a.len() ==> (#[trigger] a[i]).len() == b[i].len(),
    ensures
        joined(a, k).len() == joined(b, k).len(),
    decreases k,
{
    if k > 0 {
        lemma_joined_len(a, b, (k - 1) as nat);
        assert(a[k - 1].len() == b[k - 1].len());
    }
}

/// After `initialize`, over any series of blocks of any sizes on dry routes
/// (bypass, or lossless tiers without Bluetooth, mixed freely), each channel's
/// output is the plugin's latency of silence followed by its input, bit for bit:
/// toggling bypass or changing the lossless tier in between shifts nothing.
pub proof fn law_dry_routes_are_one_delay(
    runs: Seq<BlockRun>,
    latency: nat,
    channels: usize,
    ch: int,
)
    requires
        forall|i: int| 0 <= i < runs.len() ==> #[trigger] follows(runs, i, latency, channels),
        forall|i: int| 0 <= i < runs.len() ==> (#[trigger] runs[i]).is_dry(),
        0 <= ch < channels,
    ensures
        joined(outputs(runs, ch), runs.len()) == (zeros(latency) + joined(
            inputs(runs, ch),
            runs.len(),
        )).take(joined(inputs(runs, ch), runs.len()).len() as int),
{
    let ins = inputs(runs, ch);
    let outs = outputs(runs, ch);
    let k = runs.len();
    if k == 0 {
        assert(joined(outs, 0) =~= (zeros(latency) + joined(ins, 0)).take(0));
    } else {
        let queues = Seq::new(
            k + 1,
            |i: int|
                if i < k {
                    runs[i].delay_before(ch)
                } else {
                    runs[k - 1].delay_after(ch)
                },
        );
        assert forall|i: int| 0 <= i < k implies #[trigger] outs[i] == front(
            queues[i] + ins[i],
            ins[i].len(),
        ) && queues[i + 1] == rest(queues[i] + ins[i], ins[i].len()) && outs[i].len()
            == ins[i].len() by {
            assert(follows(runs, i, latency, channels));
            assert(runs[i].is_dry());
            assert(runs[i].blocks[0][ch].len() >= runs[i].n);
            law_dry_route_plays_the_delay(runs[i], ch);
            if i + 1 < k {
                assert(follows(runs, i + 1, latency, channels));
            }
        }
        law_delay_line_over_many_blocks(queues, ins, outs, k);
        assert forall|i: int| 0 <= i < outs.len() implies (#[trigger] outs[i]).len()
            == ins[i].len() by {
            assert(outs[i] == front(queues[i] + ins[i], ins[i].len()));
        }
        lemma_joined_len(outs, ins, k);
        assert(follows(runs, 0, latency, channels));
        assert(queues[0] == zeros(latency));
        let all = zeros(latency) + joined(ins, k);
        assert(joined(outs, k) =~= all.take(joined(outs, k).len() as int)) by {
            assert(joined(outs, k) + queues[k as int] == all);
            assert(joined(outs, k) =~= (joined(outs, k) + queues[k as int]).take(
                joined(outs, k).len() as int,
            ));
        }
    }
}

/// Two pipelines are set up alike and ready; their queues may hold anything.
pub open spec fn same_but_audio(a: ResampledPipeline, b: ResampledPipeline) -> bool {
    a.ready && b.same_setup(&a)
}

/// Two AAC chains differ at most in what their queues hold and in the codec that
/// is open.
pub open spec fn chains_alike(a: FdkChain, b: FdkChain) -> bool {
    &&& same_but_audio(a.pipeline, b.pipeline)
    &&& b == (FdkChain {
        pipeline: b.pipeline,
        codec: b.codec,
        current_bitrate_kbps: b.current_bitrate_kbps,
        current_mono: b.current_mono,
        ..a
    })
}

/// Two simulators differ at most in the slot that a recipe uses, and there in
/// what has been fed to it: what its queues hold, and the codec that is open.
pub open spec fn differ_in_audio(
    a: StreamingSimulator,
    b: StreamingSimulator,
    spec: CodecSpec,
) -> bool {
    match spec {
        CodecSpec::Bypass => b == a,
        CodecSpec::Opus { .. } => {
            &&& b == (StreamingSimulator { opus: b.opus, ..a })
            &&& a.opus is Some && b.opus is Some
            &&& same_but_audio(a.opus->0.pipeline, b.opus->0.pipeline)
            &&& b.opus->0 == (OpusProcessor { pipeline: b.opus->0.pipeline, ..a.opus->0 })
        },
        CodecSpec::Vorbis { .. } => {
            &&& b == (StreamingSimulator { vorbis: b.vorbis, ..a })
            &&& a.vorbis is Some && b.vorbis is Some
            &&& same_but_audio(a.vorbis->0.pipeline, b.vorbis->0.pipeline)
            &&& b.vorbis->0 == (VorbisProcessor {
                pipeline: b.vorbis->0.pipeline,
                codec_open: b.vorbis->0.codec_open,
                current_bitrate_kbps: b.vorbis->0.current_bitrate_kbps,
                ..a.vorbis->0
            })
        },
        CodecSpec::Mp3 { .. } => {
            &&& b == (StreamingSimulator { mp3: b.mp3, ..a })
            &&& a.mp3 is Some && b.mp3 is Some
            &&& same_but_audio(a.mp3->0.pipeline, b.mp3->0.pipeline)
            &&& b.mp3->0 == (Mp3Processor {
                pipeline: b.mp3->0.pipeline,
                codec: b.mp3->0.codec,
                current_bitrate_kbps: b.mp3->0.current_bitrate_kbps,
                dec_input: b.mp3->0.dec_input,
                decoding: b.mp3->0.decoding,
                ..a.mp3->0
            })
        },
        CodecSpec::FmRadio { .. } => {
            &&& b == (StreamingSimulator { fm_radio: b.fm_radio, ..a })
            &&& a.fm_radio is Some && b.fm_radio is Some
            &&& a.fm_radio->0.ready
            &&& b.fm_radio->0.mpx.same_setup(&a.fm_radio->0.mpx)
            &&& b.fm_radio->0 == (FmRadioProcessor {
                mpx: b.fm_radio->0.mpx,
                delay: b.fm_radio->0.delay,
                ..a.fm_radio->0
            })
        },
        CodecSpec::AacLc { .. } | CodecSpec::AacLcMono { .. } => {
            &&& b == (StreamingSimulator { aac: b.aac, ..a })
            &&& a.aac is Some && b.aac is Some
            &&& chains_alike(a.aac->0.chain, b.aac->0.chain)
        },
        CodecSpec::HeAacV1 { .. } => {
            &&& b == (StreamingSimulator { heaac_v1: b.heaac_v1, ..a })
            &&& a.heaac_v1 is Some && b.heaac_v1 is Some
            &&& chains_alike(a.heaac_v1->0.chain, b.heaac_v1->0.chain)
        },
        CodecSpec::HeAacV2 { .. } => {
            &&& b == (StreamingSimulator { heaac: b.heaac, ..a })
            &&& a.heaac is Some && b.heaac is Some
            &&& chains_alike(a.heaac->0.chain, b.heaac->0.chain)
        },
    }
}

/// No sample from before a change of tier is heard after it, in this block or any
/// later one: whatever the slot of the new tier held, the block comes out the
/// same, and so does the simulator that later blocks start from.
pub proof fn law_tier_change_leaves_no_trace(
    a: StreamingSimulator,
    b: StreamingSimulator,
    after: StreamingSimulator,
    b0: Seq<Vec<Sample>>,
    b2: Seq<Vec<Sample>>,
    n: nat,
    opus_opened: bool,
    bypass: bool,
    codec: Codec,
    bt_enabled: bool,
    protocol: BluetoothProtocol,
    r: SimAction,
)
    requires
        a.last_dispatched_codec != Some(codec),
        differ_in_audio(a, b, codec.def().spec),
        dispatched_block(
            a,
            after,
            b0,
            b2,
            n,
            SimEvent::Codec(CodecEvent::Start { opus_opened }),
            bypass,
            codec,
            bt_enabled,
            protocol,
            r,
        ),
    ensures
        dispatched_block(
            b,
            after,
            b0,
            b2,
            n,
            SimEvent::Codec(CodecEvent::Start { opus_opened }),
            bypass,
            codec,
            bt_enabled,
            protocol,
            r,
        ),
{
    let e = CodecEvent::Start { opus_opened };
    let spec = codec.def().spec;
    let (c1, c2, b1, todo) = choose|
        c1: StreamingSimulator,
        c2: StreamingSimulator,
        b1: Seq<Vec<Sample>>,
        todo: Option<CodecAction>,
    |
        {
            &&& opened_block(a, c1, b0, n, e, codec)
            &&& #[trigger] ran_codec(c1, c2, b0, b1, n, e, spec, todo)
            &&& match todo {
                Some(action) => r == SimAction::Codec(action) && after == c2 && b2 == b1,
                None => cascaded(
                    c2,
                    after,
                    b1,
                    b2,
                    n,
                    bypass,
                    !(spec is Bypass),
                    bt_enabled,
                    protocol,
                    r,
                ),
            }
        };
    let mid = choose|mid: StreamingSimulator|
        #[trigger] switched(a, mid, codec) && delayed(mid, c1, b0, n);
    let reset = choose|reset: StreamingSimulator|
        {
            &&& #[trigger] reset_for(a, reset, spec)
            &&& mid == (StreamingSimulator { last_dispatched_codec: Some(codec), ..reset })
        };
    assert(reset_for(b, reset, spec));
    assert(switched(b, mid, codec));
    assert(started(b, c1, b0, n, codec));
    assert(ran_codec(c1, c2, b0, b1, n, e, spec, todo));
}

/// A block on the tier of the block before resets nothing.
pub proof fn law_same_tier_resets_nothing(
    before: StreamingSimulator,
    after: StreamingSimulator,
    block: Seq<Vec<Sample>>,
    n: nat,
    codec: Codec,
)
    requires
        before.last_dispatched_codec == Some(codec),
        started(before, after, block, n, codec),
    ensures
        after == (StreamingSimulator {
            bypass_delay: after.bypass_delay,
            dry: after.dry,
            ..before
        }),
{
}

}
