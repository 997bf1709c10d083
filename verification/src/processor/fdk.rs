//! The calls into Fraunhofer FDK-AAC: an encoder and a decoder that talk in
//! ADTS-framed packets.

use crate::processor::frames::DecodedFrame;
use fdk_aac::dec::Decoder;
use fdk_aac::enc::Encoder;
use vstd::prelude::*;

verus! {

#[verifier::external_type_specification]
#[verifier::external_body]
pub struct ExEncoder(fdk_aac::enc::Encoder);

#[verifier::external_type_specification]
#[verifier::external_body]
pub struct ExDecoder(fdk_aac::dec::Decoder);

/// Channels that the encoder is fed.
#[derive(Clone, Copy, PartialEq, Eq, Structural, Debug)]
pub enum ChannelLayout {
    Mono,
    Stereo,
}

/// Audio object type of the stream.
#[derive(Clone, Copy, PartialEq, Eq, Structural, Debug)]
pub enum AacProfile {
    /// AAC-LC.
    LowComplexity,
    /// AAC-LC core + spectral band replication (HE-AAC v1).
    HighEfficiency,
    /// HE-AAC v1 + parametric stereo (HE-AAC v2).
    HighEfficiencyV2,
}

/// Everything an encoder is built from. The bitrate is constant and the
/// transport is ADTS.
#[derive(Clone, Copy, PartialEq, Eq, Structural, Debug)]
pub struct EncoderSettings {
    pub bitrate_bps: u32,
    pub sample_rate: u32,
    pub layout: ChannelLayout,
    pub profile: AacProfile,
}

/// What one call of the encoder did.
#[derive(Clone, Copy, PartialEq, Eq, Structural, Debug)]
pub struct EncodeStep {
    /// Input samples taken, over all channels.
    pub input_consumed: usize,
    /// Bytes of packet written.
    pub output_size: usize,
}

/// One call of an encoder: the samples offered, what the call reported, and the
/// bytes it wrote.
pub struct EncodeCall {
    pub offered: Seq<i16>,
    pub step: Option<EncodeStep>,
    pub packet: Seq<u8>,
}

/// One call of a decoder.
pub enum DecodeCall {
    /// Bytes handed to its buffer.
    Fill(Seq<u8>),
    /// A frame asked for: its shape, if there was one, and what then stood in
    /// the PCM buffer.
    Frame { frame: Option<DecodedFrame>, pcm: Seq<i16> },
}

/// The last of the calls wrote a packet.
pub open spec fn wrote_packet(calls: Seq<EncodeCall>) -> bool {
    calls.len() > 0 && calls.last().packet.len() > 0
}

/// What an encoder was opened with.
pub uninterp spec fn encoder_settings(encoder: Encoder) -> EncoderSettings;

/// The calls that an encoder has answered since it was opened.
pub uninterp spec fn encoder_calls(encoder: Encoder) -> Seq<EncodeCall>;

/// The calls that a decoder has answered since it was opened.
pub uninterp spec fn decoder_calls(decoder: Decoder) -> Seq<DecodeCall>;

/// `fdk_aac::enc::Encoder::new`: opens an encoder with a constant bitrate and
/// ADTS transport, which has answered no call yet. Whether the native library
/// accepts the settings, and has the memory for them, is its own affair and is
/// left unsaid.
#[verifier::external_body]
pub(crate) fn open_encoder(settings: EncoderSettings) -> (r: Option<Encoder>)
    ensures
        r matches Some(encoder) ==> encoder_settings(encoder) == settings,
        r matches Some(encoder) ==> encoder_calls(encoder) == Seq::<EncodeCall>::empty(),
{
    Encoder::new(fdk_aac::enc::EncoderParams {
        bit_rate: fdk_aac::enc::BitRate::Cbr(settings.bitrate_bps),
        sample_rate: settings.sample_rate,
        transport: fdk_aac::enc::Transport::Adts,
        channels: match settings.layout {
            ChannelLayout::Mono => fdk_aac::enc::ChannelMode::Mono,
            ChannelLayout::Stereo => fdk_aac::enc::ChannelMode::Stereo,
        },
        audio_object_type: match settings.profile {
            AacProfile::LowComplexity => fdk_aac::enc::AudioObjectType::Mpeg4LowComplexity,
            AacProfile::HighEfficiency => fdk_aac::enc::AudioObjectType::Mpeg4HeAac,
            AacProfile::HighEfficiencyV2 => fdk_aac::enc::AudioObjectType::Mpeg4HeAacV2,
        },
    }).ok()
}

/// `fdk_aac::dec::Decoder::new`: opens a decoder for ADTS packets, which has
/// answered no call yet.
#[verifier::external_body]
pub(crate) fn open_decoder() -> (r: Decoder)
    ensures
        decoder_calls(r) == Seq::<DecodeCall>::empty(),
{
    Decoder::new(fdk_aac::dec::Transport::Adts)
}

/// `fdk_aac::enc::Encoder::encode`: feeds interleaved samples and collects a
/// packet, if one is complete. It takes no more samples than it is offered,
/// and writes no more bytes than the buffer has; on an error it gives `None`.
/// A call that wrote a packet has used up the samples that the encoder held, so
/// one right after it that takes none has none to write. The call joins those
/// that the encoder has answered. How many samples it takes, and what the packet
/// holds, is fixed-point arithmetic that differs between machines, and is left
/// unsaid.
#[verifier::external_body]
pub(crate) fn encode(encoder: &mut Encoder, input: &[i16], output: &mut Vec<u8>) -> (r: Option<
    EncodeStep,
>)
    requires
        old(output).len() <= i32::MAX,
    ensures
        final(output).len() == old(output).len(),
        r matches Some(step) ==> step.input_consumed <= input@.len(),
        r matches Some(step) ==> step.output_size <= old(output).len(),
        wrote_packet(encoder_calls(*old(encoder))) && (r matches Some(step)
            && step.input_consumed == 0) ==> r->0.output_size == 0,
        encoder_settings(*final(encoder)) == encoder_settings(*old(encoder)),
        encoder_calls(*final(encoder)) == encoder_calls(*old(encoder)).push(
            EncodeCall {
                offered: input@,
                step: r,
                packet: match r {
                    Some(step) => final(output)@.take(step.output_size as int),
                    None => Seq::empty(),
                },
            },
        ),
{
    match encoder.encode(input, output) {
        Ok(info) => Some(
            EncodeStep { input_consumed: info.input_consumed, output_size: info.output_size },
        ),
        Err(_) => None,
    }
}

/// `fdk_aac::dec::Decoder::fill`: hands a packet to the decoder's buffer and
/// gives the number of bytes it took, never more than there are; `None` on an
/// error. The call joins those that the decoder has answered. How many bytes it
/// takes depends on how full the buffer is.
#[verifier::external_body]
pub(crate) fn fill(decoder: &mut Decoder, data: &[u8]) -> (r: Option<usize>)
    requires
        data@.len() <= u32::MAX,
    ensures
        r matches Some(n) ==> n <= data@.len(),
        decoder_calls(*final(decoder)) == decoder_calls(*old(decoder)).push(
            DecodeCall::Fill(data@),
        ),
{
    decoder.fill(data).ok()
}

/// `fdk_aac::dec::Decoder::decode_frame`, with the frame's shape read from
/// `fdk_aac::dec::Decoder::stream_info`: decodes one frame into `pcm`,
/// interleaved. A frame that is handed out fits the buffer, which keeps its
/// length; `None` where the buffered bytes hold no whole frame, or on an
/// error. The call joins those that the decoder has answered. What the frame
/// holds is fixed-point arithmetic that differs between machines, and is left
/// unsaid.
#[verifier::external_body]
pub(crate) fn decode_frame(decoder: &mut Decoder, pcm: &mut Vec<i16>) -> (r: Option<DecodedFrame>)
    requires
        old(pcm).len() <= i32::MAX,
    ensures
        final(pcm).len() == old(pcm).len(),
        r matches Some(frame) ==> frame.samples * frame.channels <= old(pcm).len(),
        decoder_calls(*final(decoder)) == decoder_calls(*old(decoder)).push(
            DecodeCall::Frame { frame: r, pcm: final(pcm)@ },
        ),
{
    match decoder.decode_frame(pcm) {
        Ok(()) => {
            let info = decoder.stream_info();
            Some(
                DecodedFrame {
                    samples: info.frameSize as usize,
                    channels: info.numChannels as usize,
                },
            )
        },
        Err(_) => None,
    }
}

}
