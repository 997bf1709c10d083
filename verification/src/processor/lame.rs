//! The calls into LAME: building an encoder, and feeding it one frame.

use mp3lame_encoder::{Bitrate, Builder, DualPcm, Encoder, Mode, MonoPcm, Quality, VbrMode};
use vstd::prelude::*;

verus! {

#[verifier::external_type_specification]
#[verifier::external_body]
pub struct ExBuilder(mp3lame_encoder::Builder);

#[verifier::external_type_specification]
#[verifier::external_body]
pub struct ExLameEncoder(mp3lame_encoder::Encoder);

/// LAME's constant bitrates.
#[derive(Clone, Copy, PartialEq, Eq, Structural, Debug)]
pub enum LameBitrate {
    Kbps8,
    Kbps16,
    Kbps24,
    Kbps32,
    Kbps40,
    Kbps48,
    Kbps64,
    Kbps80,
    Kbps96,
    Kbps112,
    Kbps128,
    Kbps160,
    Kbps192,
    Kbps224,
    Kbps256,
    Kbps320,
}

impl LameBitrate {
    /// Kilobits per second.
    pub open spec fn kbps(self) -> u32 {
        match self {
            LameBitrate::Kbps8 => 8,
            LameBitrate::Kbps16 => 16,
            LameBitrate::Kbps24 => 24,
            LameBitrate::Kbps32 => 32,
            LameBitrate::Kbps40 => 40,
            LameBitrate::Kbps48 => 48,
            LameBitrate::Kbps64 => 64,
            LameBitrate::Kbps80 => 80,
            LameBitrate::Kbps96 => 96,
            LameBitrate::Kbps112 => 112,
            LameBitrate::Kbps128 => 128,
            LameBitrate::Kbps160 => 160,
            LameBitrate::Kbps192 => 192,
            LameBitrate::Kbps224 => 224,
            LameBitrate::Kbps256 => 256,
            LameBitrate::Kbps320 => 320,
        }
    }
}

/// What a LAME encoder is built from, besides its bitrate.
#[derive(Clone, Copy, PartialEq, Eq, Structural, Debug)]
pub struct LameSettings {
    pub num_channels: u8,
    pub sample_rate: u32,
    pub quality: LameQuality,
    pub mode: LameMode,
    pub vbr: LameVbr,
    pub write_vbr_tag: bool,
}

/// Encoding effort.
#[derive(Clone, Copy, PartialEq, Eq, Structural, Debug)]
pub enum LameQuality {
    Best,
    Good,
    Worst,
}

/// Channel coding.
#[derive(Clone, Copy, PartialEq, Eq, Structural, Debug)]
pub enum LameMode {
    Mono,
    JointStereo,
}

/// Bitrate control.
#[derive(Clone, Copy, PartialEq, Eq, Structural, Debug)]
pub enum LameVbr {
    Off,
    Mtrh,
}

/// One call of an encoder: the samples of each channel, the room for the output,
/// and the bytes that came out; `None` on an error.
pub struct LameCall {
    pub channels: Seq<Seq<i16>>,
    pub capacity: int,
    pub bytes: Option<Seq<u8>>,
}

/// The bitrate that a builder was given.
pub uninterp spec fn builder_bitrate(builder: Builder) -> LameBitrate;

/// What an encoder was built from.
pub uninterp spec fn lame_setup(encoder: Encoder) -> (LameBitrate, LameSettings);

/// The calls that an encoder has answered since it was built.
pub uninterp spec fn lame_calls(encoder: Encoder) -> Seq<LameCall>;

/// `mp3lame_encoder::Builder::new` and `Builder::set_brate`: a builder at a
/// constant bitrate; `None` where LAME cannot allocate one or refuses the
/// rate. When that happens is left unsaid: it depends on the memory there is.
#[verifier::external_body]
pub(crate) fn builder_at(bitrate: LameBitrate) -> (r: Option<Builder>)
    ensures
        r matches Some(builder) ==> builder_bitrate(builder) == bitrate,
{
    let mut builder = Builder::new()?;
    builder.set_brate(match bitrate {
        LameBitrate::Kbps8 => Bitrate::Kbps8, LameBitrate::Kbps16 => Bitrate::Kbps16,
        LameBitrate::Kbps24 => Bitrate::Kbps24, LameBitrate::Kbps32 => Bitrate::Kbps32,
        LameBitrate::Kbps40 => Bitrate::Kbps40, LameBitrate::Kbps48 => Bitrate::Kbps48,
        LameBitrate::Kbps64 => Bitrate::Kbps64, LameBitrate::Kbps80 => Bitrate::Kbps80,
        LameBitrate::Kbps96 => Bitrate::Kbps96, LameBitrate::Kbps112 => Bitrate::Kbps112,
        LameBitrate::Kbps128 => Bitrate::Kbps128, LameBitrate::Kbps160 => Bitrate::Kbps160,
        LameBitrate::Kbps192 => Bitrate::Kbps192, LameBitrate::Kbps224 => Bitrate::Kbps224,
        LameBitrate::Kbps256 => Bitrate::Kbps256, LameBitrate::Kbps320 => Bitrate::Kbps320,
    }).ok()?;
    Some(builder)
}

/// The setters of `mp3lame_encoder::Builder` and `Builder::build`: an encoder
/// with these settings at the builder's bitrate, which has answered no call
/// yet; `None` where LAME refuses one of them, or has no memory. It refuses any
/// number of channels but one and two; which other settings it refuses is left
/// unsaid, as is when there is memory.
#[verifier::external_body]
pub(crate) fn build(builder: Builder, settings: LameSettings) -> (r: Option<Encoder>)
    ensures
        r matches Some(encoder) ==> lame_setup(encoder) == (builder_bitrate(builder), settings),
        r matches Some(encoder) ==> lame_calls(encoder) == Seq::<LameCall>::empty(),
        settings.num_channels != 1 && settings.num_channels != 2 ==> r is None,
{
    let mut builder = builder;
    builder.set_num_channels(settings.num_channels).ok()?;
    builder.set_sample_rate(settings.sample_rate).ok()?;
    builder.set_quality(match settings.quality {
        LameQuality::Best => Quality::Best, LameQuality::Good => Quality::Good,
        LameQuality::Worst => Quality::Worst,
    }).ok()?;
    builder.set_mode(match settings.mode {
        LameMode::Mono => Mode::Mono, LameMode::JointStereo => Mode::JointStereo,
    }).ok()?;
    builder.set_vbr_mode(match settings.vbr {
        LameVbr::Off => VbrMode::Off, LameVbr::Mtrh => VbrMode::Mtrh,
    }).ok()?;
    builder.set_to_write_vbr_tag(settings.write_vbr_tag).ok()?;
    builder.build().ok()
}

/// `mp3lame_encoder::Encoder::encode_to_vec` on a `DualPcm`: feeds one stereo
/// block and gives the bytes that LAME has ready, possibly none; `None` on an
/// error. The call joins those that the encoder has answered. The bytes are
/// floating-point arithmetic that LAME picks by what the processor offers, and
/// are left unsaid. LAME checks against the buffer's size only if there is one,
/// so the capacity is not zero.
#[verifier::external_body]
pub(crate) fn encode_stereo(
    encoder: &mut Encoder,
    left: &Vec<i16>,
    right: &Vec<i16>,
    capacity: usize,
) -> (r: Option<Vec<u8>>)
    requires
        left.len() == right.len(),
        left.len() <= i32::MAX,
        0 < capacity <= i32::MAX,
    ensures
        lame_setup(*final(encoder)) == lame_setup(*old(encoder)),
        lame_calls(*final(encoder)) == lame_calls(*old(encoder)).push(
            LameCall {
                channels: seq![left@, right@],
                capacity: capacity as int,
                bytes: match r {
                    Some(out) => Some(out@),
                    None => None,
                },
            },
        ),
{
    let mut out = Vec::with_capacity(capacity);
    encoder.encode_to_vec(DualPcm { left, right }, &mut out).ok()?;
    Some(out)
}

/// `mp3lame_encoder::Encoder::encode_to_vec` on a `MonoPcm`: the one-channel
/// counterpart of `encode_stereo`.
#[verifier::external_body]
pub(crate) fn encode_mono(encoder: &mut Encoder, samples: &Vec<i16>, capacity: usize) -> (r: Option<
    Vec<u8>,
>)
    requires
        samples.len() <= i32::MAX,
        0 < capacity <= i32::MAX,
    ensures
        lame_setup(*final(encoder)) == lame_setup(*old(encoder)),
        lame_calls(*final(encoder)) == lame_calls(*old(encoder)).push(
            LameCall {
                channels: seq![samples@],
                capacity: capacity as int,
                bytes: match r {
                    Some(out) => Some(out@),
                    None => None,
                },
            },
        ),
{
    let mut out = Vec::with_capacity(capacity);
    encoder.encode_to_vec(MonoPcm(samples), &mut out).ok()?;
    Some(out)
}

}
