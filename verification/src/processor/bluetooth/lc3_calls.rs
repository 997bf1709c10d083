//! The calls into `lc3-codec`: 10 ms frames at 48 kHz, one channel at a time.

use lc3_codec::common::config::{FrameDuration, SamplingFrequency};
use lc3_codec::decoder::lc3_decoder::Lc3Decoder;
use lc3_codec::encoder::lc3_encoder::Lc3Encoder;
use vstd::prelude::*;

verus! {

#[verifier::external_type_specification]
#[verifier::external_body]
pub struct ExLc3Encoder<'a>(lc3_codec::encoder::lc3_encoder::Lc3Encoder<'a>);

#[verifier::external_type_specification]
#[verifier::external_body]
pub struct ExLc3Decoder<'a>(lc3_codec::decoder::lc3_decoder::Lc3Decoder<'a>);

/// Number of channels that an encoder holds.
pub uninterp spec fn encoder_channels(encoder: Lc3Encoder<'static>) -> nat;

/// Number of channels that a decoder holds.
pub uninterp spec fn decoder_channels(decoder: Lc3Decoder<'static>) -> nat;

/// One call of an encoder: the channel, the frame, and the bytes it became.
pub struct Lc3EncodeCall {
    pub channel: int,
    pub samples: Seq<i16>,
    pub bytes: Seq<u8>,
}

/// One call of a decoder: the channel, the bytes, and the frame that they
/// became, if any.
pub struct Lc3DecodeCall {
    pub channel: int,
    pub bytes: Seq<u8>,
    pub samples: Option<Seq<i16>>,
}

/// The calls that an encoder has answered since it was made.
pub uninterp spec fn lc3_encoder_calls(encoder: Lc3Encoder<'static>) -> Seq<Lc3EncodeCall>;

/// The calls that a decoder has answered since it was made.
pub uninterp spec fn lc3_decoder_calls(decoder: Lc3Decoder<'static>) -> Seq<Lc3DecodeCall>;

/// `Lc3Encoder::new`: an encoder for 10 ms frames at 48 kHz, with as many
/// channels as asked for. Its work buffers, of the lengths that
/// `Lc3Encoder::calc_working_buffer_lengths` gives, start out zeroed and live
/// as long as the program. It has answered no call yet.
#[verifier::external_body]
pub(crate) fn open_encoder(channels: usize) -> (r: Lc3Encoder<'static>)
    requires
        channels <= 0xff,
    ensures
        encoder_channels(r) == channels,
        lc3_encoder_calls(r) == Seq::<Lc3EncodeCall>::empty(),
{
    let (duration, rate) = (FrameDuration::TenMs, SamplingFrequency::Hz48000);
    let (a, b, c) = Lc3Encoder::calc_working_buffer_lengths(channels, duration, rate);
    let integers = vec![Default::default(); a].leak();
    let scalers = vec![Default::default(); b].leak();
    let complexes = vec![Default::default(); c].leak();
    Lc3Encoder::new(channels, duration, rate, integers, scalers, complexes)
}

/// `Lc3Decoder::new`: the counterpart of `open_encoder`.
#[verifier::external_body]
pub(crate) fn open_decoder(channels: usize) -> (r: Lc3Decoder<'static>)
    requires
        channels <= 0xff,
    ensures
        decoder_channels(r) == channels,
        lc3_decoder_calls(r) == Seq::<Lc3DecodeCall>::empty(),
{
    let (duration, rate) = (FrameDuration::TenMs, SamplingFrequency::Hz48000);
    let (a, b) = Lc3Decoder::calc_working_buffer_lengths(channels, duration, rate);
    let scalers = vec![Default::default(); a].leak();
    let complexes = vec![Default::default(); b].leak();
    Lc3Decoder::new(channels, duration, rate, scalers, complexes)
}

/// `Lc3Encoder::encode_frame`: encodes one frame of one channel into as many
/// bytes as the buffer has, which sets the bitrate. It panics on a channel
/// that the encoder does not hold, and keeps the channels it has. The crate
/// has no error to give here, so it succeeds. The call joins those that the
/// encoder has answered. What the bytes hold is floating-point arithmetic that
/// differs between machines, and is left unsaid.
#[verifier::external_body]
pub(crate) fn encode_frame(
    encoder: &mut Lc3Encoder<'static>,
    channel: usize,
    samples: &Vec<i16>,
    out: &mut Vec<u8>,
) -> (r: bool)
    requires
        channel < encoder_channels(*old(encoder)),
        samples.len() == 480,
        20 <= old(out).len() <= 400,
    ensures
        encoder_channels(*final(encoder)) == encoder_channels(*old(encoder)),
        final(out).len() == old(out).len(),
        r,
        lc3_encoder_calls(*final(encoder)) == lc3_encoder_calls(*old(encoder)).push(
            Lc3EncodeCall { channel: channel as int, samples: samples@, bytes: final(out)@ },
        ),
{
    encoder.encode_frame(channel, samples, out).is_ok()
}

/// `Lc3Decoder::decode_frame`: decodes one frame of one channel, and says
/// whether it could. It panics on a channel that the decoder does not hold,
/// and keeps the channels it has. The call joins those that the decoder has
/// answered. What the samples hold is floating-point arithmetic that differs
/// between machines, and is left unsaid, as is which bytes it refuses.
#[verifier::external_body]
pub(crate) fn decode_frame(
    decoder: &mut Lc3Decoder<'static>,
    bits_per_sample: usize,
    channel: usize,
    bytes: &Vec<u8>,
    samples: &mut Vec<i16>,
) -> (r: bool)
    requires
        channel < decoder_channels(*old(decoder)),
        bits_per_sample == 16,
        20 <= bytes.len() <= 400,
        old(samples).len() == 480,
    ensures
        decoder_channels(*final(decoder)) == decoder_channels(*old(decoder)),
        final(samples).len() == old(samples).len(),
        lc3_decoder_calls(*final(decoder)) == lc3_decoder_calls(*old(decoder)).push(
            Lc3DecodeCall {
                channel: channel as int,
                bytes: bytes@,
                samples: if r {
                    Some(final(samples)@)
                } else {
                    None
                },
            },
        ),
{
    decoder.decode_frame(bits_per_sample, channel, bytes, samples).is_ok()
}

}
