//! Catalog of streaming platforms and the codec tiers each one offers.
//!
//! Every fact about every codec stands in the tables below: adding a codec is
//! one variant and its line in each table.

pub use crate::processor::fm_mpx::FmReception;
pub use crate::processor::fm_radio::{FmRadioVariant, FmRegion};
use vstd::prelude::*;

verus! {

pub struct PlatformDef {
    /// Stable identifier, persisted in DAW state. Never change post-release.
    pub id: &'static str,
    pub display_name: &'static str,
    /// Where the PNG of the tab icon stands, from the project's root.
    pub icon_png: &'static str,
    /// Tiers ordered left-to-right as shown in the codec row.
    pub codecs: Vec<CodecDef>,
}

#[derive(Clone, Copy, PartialEq, Eq, Debug)]
pub struct CodecDef {
    pub codec: Codec,
    /// Big label on the codec button (e.g. `"Normal"`).
    pub short_label: &'static str,
    /// Small subtitle (e.g. `"Vorbis · 96 kbps"`).
    pub format_label: &'static str,
    /// 1-based UI row. Most platforms only use row 1; platforms with parallel
    /// codec paths (e.g. YouTube Music's mobile AAC + web Opus) split across
    /// rows 1 and 2.
    pub row: u8,
    pub spec: CodecSpec,
}

/// DSP recipe for a codec. Plain config data; the processors do the work.
#[derive(Clone, Copy, PartialEq, Eq, Structural, Debug)]
pub enum CodecSpec {
    /// Output equals input. Used for every Lossless / FLAC / ALAC tier.
    Bypass,
    Opus { bitrate_kbps: u32 },
    /// libvorbis through raw packets (no Ogg container).
    Vorbis { bitrate_kbps: u32 },
    /// FDK-AAC AAC-LC.
    AacLc { bitrate_kbps: u32 },
    /// AAC-LC encoded as mono: input is summed `(L+R)/2` before encode, then
    /// duplicated to L=R after decode. Mono at the same bitrate has a
    /// distinctly different artifact spectrum (full bit budget per channel,
    /// no stereo-coupling decisions). Used for TikTok watermarked downloads
    /// and Instagram poor-connection fallback.
    AacLcMono { bitrate_kbps: u32 },
    /// FDK-AAC HE-AAC v1 (AAC-LC core + SBR, no PS). Distinct from `HeAacV2`.
    HeAacV1 { bitrate_kbps: u32 },
    /// FDK-AAC HE-AAC v2 (AAC-LC core + SBR + PS).
    HeAacV2 { bitrate_kbps: u32 },
    /// LAME (encode) + minimp3 (decode). MPEG-1/2 Layer 3.
    Mp3 { bitrate_kbps: u32 },
    /// Full FM broadcast-chain simulation: not a codec, but a multi-stage DSP
    /// path.
    FmRadio { variant: FmRadioVariant },
}

impl CodecSpec {
    /// The bitrate, for the recipes that have one.
    pub open spec fn bitrate(self) -> Option<u32> {
        match self {
            CodecSpec::Bypass => None,
            CodecSpec::Opus { bitrate_kbps } => Some(bitrate_kbps),
            CodecSpec::Vorbis { bitrate_kbps } => Some(bitrate_kbps),
            CodecSpec::AacLc { bitrate_kbps } => Some(bitrate_kbps),
            CodecSpec::AacLcMono { bitrate_kbps } => Some(bitrate_kbps),
            CodecSpec::HeAacV1 { bitrate_kbps } => Some(bitrate_kbps),
            CodecSpec::HeAacV2 { bitrate_kbps } => Some(bitrate_kbps),
            CodecSpec::Mp3 { bitrate_kbps } => Some(bitrate_kbps),
            CodecSpec::FmRadio { .. } => None,
        }
    }
}

/// The platforms, in tab order.
#[derive(Clone, Copy, PartialEq, Eq, Structural, Debug)]
pub enum Platform {
    Spotify,
    Deezer,
    AppleMusic,
    YouTubeMusic,
    SoundCloud,
    Tidal,
    AmazonMusic,
    YouTube,
    TikTok,
    Instagram,
    FmRadio,
}

/// Every codec tier, platform by platform. The order is the order of the host
/// parameter's values.
#[derive(Clone, Copy, PartialEq, Eq, Structural, Debug)]
pub enum Codec {
    // Row 1 = desktop/mobile apps (Vorbis + HE-AAC v2 + FLAC bypass).
    // Row 2 = web player (AAC-LC, separate Free/Premium bitrates).
    SpotifyLow,
    SpotifyNormal,
    SpotifyHigh,
    SpotifyVeryHigh,
    SpotifyLossless,
    SpotifyWebFree,
    SpotifyWebPremium,
    // Same codec stack on every client, only tier availability differs
    // between mobile / desktop. This is the mobile superset.
    DeezerBasic,
    DeezerStandard,
    DeezerHighQuality,
    DeezerHiFi,
    // Real Apple uses CoreAudio AAC (closed-source, macOS-only), approximated
    // with FDK-AAC AAC-LC at the same bitrate. High Efficiency is HE-AAC v1
    // (no PS, distinct from Spotify Low's v2). Lossless + Hi-Res Lossless
    // collapse into one bypass tier: both are ALAC, both bit-identical to
    // source.
    AppleMusicHighEfficiency,
    AppleMusicHighQuality,
    AppleMusicLossless,
    // Row 1 = mobile (AAC-LC), Row 2 = web (Opus). "Always High" is a
    // network-behavior flag (bit-identical to "High") so it's not exposed.
    YtMusicLowMobile,
    YtMusicNormalMobile,
    YtMusicHighMobile,
    YtMusicLowWeb,
    YtMusicNormalWeb,
    YtMusicHighWeb,
    // Mid-migration from MP3+Opus to AAC HLS as of 2025-2026: the new AAC
    // tiers plus the legacy MP3 128 still served on un-retranscoded older
    // tracks.
    SoundCloudLow,
    SoundCloudStandard,
    SoundCloudGoPlus,
    SoundCloudLegacy,
    // Post-2024 Tidal: 3 user-visible tiers (Low / High / Max). High + Max
    // collapse to one bypass button (both are FLAC, bit-identical).
    TidalLow,
    TidalLossless,
    // Only major streaming platform using **Opus** for its lossy tier. HD +
    // UHD both collapse to one bypass (FLAC, bit-identical).
    AmazonMusicLow,
    AmazonMusicStandard,
    AmazonMusicHigh,
    AmazonMusicLossless,
    // Video (distinct from YouTube Music). Row 1 = AAC (Safari / mobile),
    // Row 2 = Opus (Chrome / Firefox / Edge). YouTube serves AAC at 48 kHz;
    // the AAC chain is 44.1 kHz internally, so these tiers add one resample
    // pass.
    YouTubeAacLow,
    YouTubeAacNormal,
    YouTubeOpusLow,
    YouTubeOpusHigh,
    // AAC-LC in MP4. Standard = 128 kbps stereo in-app; Watermarked = the
    // 64 kbps mono baked into saved-to-device files. Only the codec is
    // modelled, not TikTok's aggressive DRC + peak-limiter loudness stage.
    TikTokStandard,
    TikTokWatermark,
    // Real Instagram uses xHE-AAC, which the `fdk-aac` crate doesn't expose:
    // approximated with AAC-LC at the same bitrate.
    InstagramStandard,
    InstagramPoorConn,
    // Full broadcast-airchain simulation, not a codec. 6 tiers = 2 regional
    // time constants (US 75 us / EU 50 us) x 3 reception qualities (Pristine /
    // Urban / Fringe).
    FmRadioUsPristine,
    FmRadioUsUrban,
    FmRadioUsFringe,
    FmRadioEuPristine,
    FmRadioEuUrban,
    FmRadioEuFringe,
}

impl Platform {
    /// Number of platforms.
    pub const COUNT: usize = 11;

    pub open spec fn spec_to_index(self) -> usize {
        match self {
            Platform::Spotify => 0,
            Platform::Deezer => 1,
            Platform::AppleMusic => 2,
            Platform::YouTubeMusic => 3,
            Platform::SoundCloud => 4,
            Platform::Tidal => 5,
            Platform::AmazonMusic => 6,
            Platform::YouTube => 7,
            Platform::TikTok => 8,
            Platform::Instagram => 9,
            Platform::FmRadio => 10,
        }
    }

    /// Position in tab order.
    #[verifier::when_used_as_spec(spec_to_index)]
    pub fn to_index(self) -> (r: usize)
        ensures
            r == self.spec_to_index(),
            r < 11,
    {
        match self {
            Platform::Spotify => 0,
            Platform::Deezer => 1,
            Platform::AppleMusic => 2,
            Platform::YouTubeMusic => 3,
            Platform::SoundCloud => 4,
            Platform::Tidal => 5,
            Platform::AmazonMusic => 6,
            Platform::YouTube => 7,
            Platform::TikTok => 8,
            Platform::Instagram => 9,
            Platform::FmRadio => 10,
        }
    }

    pub open spec fn spec_at(index: int) -> Platform {
        if index == 0 {
            Platform::Spotify
        } else if index == 1 {
            Platform::Deezer
        } else if index == 2 {
            Platform::AppleMusic
        } else if index == 3 {
            Platform::YouTubeMusic
        } else if index == 4 {
            Platform::SoundCloud
        } else if index == 5 {
            Platform::Tidal
        } else if index == 6 {
            Platform::AmazonMusic
        } else if index == 7 {
            Platform::YouTube
        } else if index == 8 {
            Platform::TikTok
        } else if index == 9 {
            Platform::Instagram
        } else {
            Platform::FmRadio
        }
    }

    /// The platform at a position in tab order.
    pub fn from_index(index: usize) -> (r: Option<Platform>)
        ensures
            r is Some <==> index < 11,
            r matches Some(p) ==> p == Platform::spec_at(index as int) && p.to_index() == index,
    {
        match index {
            0 => Some(Platform::Spotify),
            1 => Some(Platform::Deezer),
            2 => Some(Platform::AppleMusic),
            3 => Some(Platform::YouTubeMusic),
            4 => Some(Platform::SoundCloud),
            5 => Some(Platform::Tidal),
            6 => Some(Platform::AmazonMusic),
            7 => Some(Platform::YouTube),
            8 => Some(Platform::TikTok),
            9 => Some(Platform::Instagram),
            10 => Some(Platform::FmRadio),
            _ => None,
        }
    }

    pub open spec fn spec_id(self) -> &'static str {
        match self {
            Platform::Spotify => "spotify",
            Platform::Deezer => "deezer",
            Platform::AppleMusic => "apple-music",
            Platform::YouTubeMusic => "youtube-music",
            Platform::SoundCloud => "soundcloud",
            Platform::Tidal => "tidal",
            Platform::AmazonMusic => "amazon-music",
            Platform::YouTube => "youtube",
            Platform::TikTok => "tiktok",
            Platform::Instagram => "instagram",
            Platform::FmRadio => "fm-radio",
        }
    }

    /// Stable identifier, persisted in DAW state. Never change post-release.
    #[verifier::when_used_as_spec(spec_id)]
    pub fn id(self) -> (r: &'static str)
        ensures
            r == self.spec_id(),
    {
        match self {
            Platform::Spotify => "spotify",
            Platform::Deezer => "deezer",
            Platform::AppleMusic => "apple-music",
            Platform::YouTubeMusic => "youtube-music",
            Platform::SoundCloud => "soundcloud",
            Platform::Tidal => "tidal",
            Platform::AmazonMusic => "amazon-music",
            Platform::YouTube => "youtube",
            Platform::TikTok => "tiktok",
            Platform::Instagram => "instagram",
            Platform::FmRadio => "fm-radio",
        }
    }

    pub open spec fn spec_display_name(self) -> &'static str {
        match self {
            Platform::Spotify => "Spotify",
            Platform::Deezer => "Deezer",
            Platform::AppleMusic => "Apple Music",
            Platform::YouTubeMusic => "YouTube Music",
            Platform::SoundCloud => "SoundCloud",
            Platform::Tidal => "Tidal",
            Platform::AmazonMusic => "Amazon Music",
            Platform::YouTube => "YouTube",
            Platform::TikTok => "TikTok",
            Platform::Instagram => "Instagram",
            Platform::FmRadio => "FM Radio",
        }
    }

    /// Name on the tab.
    #[verifier::when_used_as_spec(spec_display_name)]
    pub fn display_name(self) -> (r: &'static str)
        ensures
            r == self.spec_display_name(),
    {
        match self {
            Platform::Spotify => "Spotify",
            Platform::Deezer => "Deezer",
            Platform::AppleMusic => "Apple Music",
            Platform::YouTubeMusic => "YouTube Music",
            Platform::SoundCloud => "SoundCloud",
            Platform::Tidal => "Tidal",
            Platform::AmazonMusic => "Amazon Music",
            Platform::YouTube => "YouTube",
            Platform::TikTok => "TikTok",
            Platform::Instagram => "Instagram",
            Platform::FmRadio => "FM Radio",
        }
    }

    pub open spec fn spec_icon_png(self) -> &'static str {
        match self {
            Platform::Spotify => "resources/spotify.png",
            Platform::Deezer => "resources/deezer.png",
            Platform::AppleMusic => "resources/apple-music.png",
            Platform::YouTubeMusic => "resources/youtube-music.png",
            Platform::SoundCloud => "resources/soundcloud.png",
            Platform::Tidal => "resources/tidal.png",
            Platform::AmazonMusic => "resources/amazon-music.png",
            Platform::YouTube => "resources/youtube.png",
            Platform::TikTok => "resources/tiktok.png",
            Platform::Instagram => "resources/instagram.png",
            Platform::FmRadio => "resources/fm-radio.png",
        }
    }

    /// Where the PNG of the tab icon stands, from the project's root.
    #[verifier::when_used_as_spec(spec_icon_png)]
    pub fn icon_png(self) -> (r: &'static str)
        ensures
            r == self.spec_icon_png(),
    {
        match self {
            Platform::Spotify => "resources/spotify.png",
            Platform::Deezer => "resources/deezer.png",
            Platform::AppleMusic => "resources/apple-music.png",
            Platform::YouTubeMusic => "resources/youtube-music.png",
            Platform::SoundCloud => "resources/soundcloud.png",
            Platform::Tidal => "resources/tidal.png",
            Platform::AmazonMusic => "resources/amazon-music.png",
            Platform::YouTube => "resources/youtube.png",
            Platform::TikTok => "resources/tiktok.png",
            Platform::Instagram => "resources/instagram.png",
            Platform::FmRadio => "resources/fm-radio.png",
        }
    }

    /// Tiers ordered left-to-right as shown in the codec row.
    pub open spec fn tiers(self) -> Seq<Codec> {
        match self {
            Platform::Spotify => seq![
                Codec::SpotifyLow,
                Codec::SpotifyNormal,
                Codec::SpotifyHigh,
                Codec::SpotifyVeryHigh,
                Codec::SpotifyLossless,
                Codec::SpotifyWebFree,
                Codec::SpotifyWebPremium,
            ],
            Platform::Deezer => seq![
                Codec::DeezerBasic,
                Codec::DeezerStandard,
                Codec::DeezerHighQuality,
                Codec::DeezerHiFi,
            ],
            Platform::AppleMusic => seq![
                Codec::AppleMusicHighEfficiency,
                Codec::AppleMusicHighQuality,
                Codec::AppleMusicLossless,
            ],
            Platform::YouTubeMusic => seq![
                Codec::YtMusicLowMobile,
                Codec::YtMusicNormalMobile,
                Codec::YtMusicHighMobile,
                Codec::YtMusicLowWeb,
                Codec::YtMusicNormalWeb,
                Codec::YtMusicHighWeb,
            ],
            Platform::SoundCloud => seq![
                Codec::SoundCloudLow,
                Codec::SoundCloudStandard,
                Codec::SoundCloudGoPlus,
                Codec::SoundCloudLegacy,
            ],
            Platform::Tidal => seq![
                Codec::TidalLow,
                Codec::TidalLossless,
            ],
            Platform::AmazonMusic => seq![
                Codec::AmazonMusicLow,
                Codec::AmazonMusicStandard,
                Codec::AmazonMusicHigh,
                Codec::AmazonMusicLossless,
            ],
            Platform::YouTube => seq![
                Codec::YouTubeAacLow,
                Codec::YouTubeAacNormal,
                Codec::YouTubeOpusLow,
                Codec::YouTubeOpusHigh,
            ],
            Platform::TikTok => seq![
                Codec::TikTokStandard,
                Codec::TikTokWatermark,
            ],
            Platform::Instagram => seq![
                Codec::InstagramStandard,
                Codec::InstagramPoorConn,
            ],
            Platform::FmRadio => seq![
                Codec::FmRadioUsPristine,
                Codec::FmRadioUsUrban,
                Codec::FmRadioUsFringe,
                Codec::FmRadioEuPristine,
                Codec::FmRadioEuUrban,
                Codec::FmRadioEuFringe,
            ],
        }
    }

    /// The tiers' catalog entries.
    fn tier_defs(self) -> (r: Vec<CodecDef>)
        ensures
            r.len() == self.tiers().len(),
            forall|i: int| 0 <= i < r.len() ==> #[trigger] r@[i] == self.tiers()[i].def(),
    {
        match self {
            Platform::Spotify => vec![
                Codec::SpotifyLow.def(),
                Codec::SpotifyNormal.def(),
                Codec::SpotifyHigh.def(),
                Codec::SpotifyVeryHigh.def(),
                Codec::SpotifyLossless.def(),
                Codec::SpotifyWebFree.def(),
                Codec::SpotifyWebPremium.def(),
            ],
            Platform::Deezer => vec![
                Codec::DeezerBasic.def(),
                Codec::DeezerStandard.def(),
                Codec::DeezerHighQuality.def(),
                Codec::DeezerHiFi.def(),
            ],
            Platform::AppleMusic => vec![
                Codec::AppleMusicHighEfficiency.def(),
                Codec::AppleMusicHighQuality.def(),
                Codec::AppleMusicLossless.def(),
            ],
            Platform::YouTubeMusic => vec![
                Codec::YtMusicLowMobile.def(),
                Codec::YtMusicNormalMobile.def(),
                Codec::YtMusicHighMobile.def(),
                Codec::YtMusicLowWeb.def(),
                Codec::YtMusicNormalWeb.def(),
                Codec::YtMusicHighWeb.def(),
            ],
            Platform::SoundCloud => vec![
                Codec::SoundCloudLow.def(),
                Codec::SoundCloudStandard.def(),
                Codec::SoundCloudGoPlus.def(),
                Codec::SoundCloudLegacy.def(),
            ],
            Platform::Tidal => vec![
                Codec::TidalLow.def(),
                Codec::TidalLossless.def(),
            ],
            Platform::AmazonMusic => vec![
                Codec::AmazonMusicLow.def(),
                Codec::AmazonMusicStandard.def(),
                Codec::AmazonMusicHigh.def(),
                Codec::AmazonMusicLossless.def(),
            ],
            Platform::YouTube => vec![
                Codec::YouTubeAacLow.def(),
                Codec::YouTubeAacNormal.def(),
                Codec::YouTubeOpusLow.def(),
                Codec::YouTubeOpusHigh.def(),
            ],
            Platform::TikTok => vec![
                Codec::TikTokStandard.def(),
                Codec::TikTokWatermark.def(),
            ],
            Platform::Instagram => vec![
                Codec::InstagramStandard.def(),
                Codec::InstagramPoorConn.def(),
            ],
            Platform::FmRadio => vec![
                Codec::FmRadioUsPristine.def(),
                Codec::FmRadioUsUrban.def(),
                Codec::FmRadioUsFringe.def(),
                Codec::FmRadioEuPristine.def(),
                Codec::FmRadioEuUrban.def(),
                Codec::FmRadioEuFringe.def(),
            ],
        }
    }

    /// The platform's catalog entry.
    pub fn def(self) -> (r: PlatformDef)
        ensures
            is_platform(r, self),
    {
        PlatformDef {
            id: self.id(),
            display_name: self.display_name(),
            icon_png: self.icon_png(),
            codecs: self.tier_defs(),
        }
    }
}

/// `p` is the catalog entry of `of`.
pub open spec fn is_platform(p: PlatformDef, of: Platform) -> bool {
    &&& p.id == of.id()
    &&& p.display_name == of.display_name()
    &&& p.icon_png == of.icon_png()
    &&& p.codecs.len() == of.tiers().len()
    &&& forall|i: int| 0 <= i < p.codecs.len() ==> #[trigger] p.codecs@[i] == of.tiers()[i].def()
}

impl Codec {
    /// Number of codecs.
    pub const COUNT: usize = 44;

    pub open spec fn spec_to_index(self) -> usize {
        match self {
            Codec::SpotifyLow => 0,
            Codec::SpotifyNormal => 1,
            Codec::SpotifyHigh => 2,
            Codec::SpotifyVeryHigh => 3,
            Codec::SpotifyLossless => 4,
            Codec::SpotifyWebFree => 5,
            Codec::SpotifyWebPremium => 6,
            Codec::DeezerBasic => 7,
            Codec::DeezerStandard => 8,
            Codec::DeezerHighQuality => 9,
            Codec::DeezerHiFi => 10,
            Codec::AppleMusicHighEfficiency => 11,
            Codec::AppleMusicHighQuality => 12,
            Codec::AppleMusicLossless => 13,
            Codec::YtMusicLowMobile => 14,
            Codec::YtMusicNormalMobile => 15,
            Codec::YtMusicHighMobile => 16,
            Codec::YtMusicLowWeb => 17,
            Codec::YtMusicNormalWeb => 18,
            Codec::YtMusicHighWeb => 19,
            Codec::SoundCloudLow => 20,
            Codec::SoundCloudStandard => 21,
            Codec::SoundCloudGoPlus => 22,
            Codec::SoundCloudLegacy => 23,
            Codec::TidalLow => 24,
            Codec::TidalLossless => 25,
            Codec::AmazonMusicLow => 26,
            Codec::AmazonMusicStandard => 27,
            Codec::AmazonMusicHigh => 28,
            Codec::AmazonMusicLossless => 29,
            Codec::YouTubeAacLow => 30,
            Codec::YouTubeAacNormal => 31,
            Codec::YouTubeOpusLow => 32,
            Codec::YouTubeOpusHigh => 33,
            Codec::TikTokStandard => 34,
            Codec::TikTokWatermark => 35,
            Codec::InstagramStandard => 36,
            Codec::InstagramPoorConn => 37,
            Codec::FmRadioUsPristine => 38,
            Codec::FmRadioUsUrban => 39,
            Codec::FmRadioUsFringe => 40,
            Codec::FmRadioEuPristine => 41,
            Codec::FmRadioEuUrban => 42,
            Codec::FmRadioEuFringe => 43,
        }
    }

    /// Position in declaration order, the value of the host parameter.
    #[verifier::when_used_as_spec(spec_to_index)]
    pub fn to_index(self) -> (r: usize)
        ensures
            r == self.spec_to_index(),
            r < 44,
    {
        match self {
            Codec::SpotifyLow => 0,
            Codec::SpotifyNormal => 1,
            Codec::SpotifyHigh => 2,
            Codec::SpotifyVeryHigh => 3,
            Codec::SpotifyLossless => 4,
            Codec::SpotifyWebFree => 5,
            Codec::SpotifyWebPremium => 6,
            Codec::DeezerBasic => 7,
            Codec::DeezerStandard => 8,
            Codec::DeezerHighQuality => 9,
            Codec::DeezerHiFi => 10,
            Codec::AppleMusicHighEfficiency => 11,
            Codec::AppleMusicHighQuality => 12,
            Codec::AppleMusicLossless => 13,
            Codec::YtMusicLowMobile => 14,
            Codec::YtMusicNormalMobile => 15,
            Codec::YtMusicHighMobile => 16,
            Codec::YtMusicLowWeb => 17,
            Codec::YtMusicNormalWeb => 18,
            Codec::YtMusicHighWeb => 19,
            Codec::SoundCloudLow => 20,
            Codec::SoundCloudStandard => 21,
            Codec::SoundCloudGoPlus => 22,
            Codec::SoundCloudLegacy => 23,
            Codec::TidalLow => 24,
            Codec::TidalLossless => 25,
            Codec::AmazonMusicLow => 26,
            Codec::AmazonMusicStandard => 27,
            Codec::AmazonMusicHigh => 28,
            Codec::AmazonMusicLossless => 29,
            Codec::YouTubeAacLow => 30,
            Codec::YouTubeAacNormal => 31,
            Codec::YouTubeOpusLow => 32,
            Codec::YouTubeOpusHigh => 33,
            Codec::TikTokStandard => 34,
            Codec::TikTokWatermark => 35,
            Codec::InstagramStandard => 36,
            Codec::InstagramPoorConn => 37,
            Codec::FmRadioUsPristine => 38,
            Codec::FmRadioUsUrban => 39,
            Codec::FmRadioUsFringe => 40,
            Codec::FmRadioEuPristine => 41,
            Codec::FmRadioEuUrban => 42,
            Codec::FmRadioEuFringe => 43,
        }
    }

    /// The codec at a position.
    pub fn from_index(index: usize) -> (r: Option<Codec>)
        ensures
            r is Some <==> index < 44,
            r matches Some(c) ==> c.to_index() == index,
    {
        match index {
            0 => Some(Codec::SpotifyLow),
            1 => Some(Codec::SpotifyNormal),
            2 => Some(Codec::SpotifyHigh),
            3 => Some(Codec::SpotifyVeryHigh),
            4 => Some(Codec::SpotifyLossless),
            5 => Some(Codec::SpotifyWebFree),
            6 => Some(Codec::SpotifyWebPremium),
            7 => Some(Codec::DeezerBasic),
            8 => Some(Codec::DeezerStandard),
            9 => Some(Codec::DeezerHighQuality),
            10 => Some(Codec::DeezerHiFi),
            11 => Some(Codec::AppleMusicHighEfficiency),
            12 => Some(Codec::AppleMusicHighQuality),
            13 => Some(Codec::AppleMusicLossless),
            14 => Some(Codec::YtMusicLowMobile),
            15 => Some(Codec::YtMusicNormalMobile),
            16 => Some(Codec::YtMusicHighMobile),
            17 => Some(Codec::YtMusicLowWeb),
            18 => Some(Codec::YtMusicNormalWeb),
            19 => Some(Codec::YtMusicHighWeb),
            20 => Some(Codec::SoundCloudLow),
            21 => Some(Codec::SoundCloudStandard),
            22 => Some(Codec::SoundCloudGoPlus),
            23 => Some(Codec::SoundCloudLegacy),
            24 => Some(Codec::TidalLow),
            25 => Some(Codec::TidalLossless),
            26 => Some(Codec::AmazonMusicLow),
            27 => Some(Codec::AmazonMusicStandard),
            28 => Some(Codec::AmazonMusicHigh),
            29 => Some(Codec::AmazonMusicLossless),
            30 => Some(Codec::YouTubeAacLow),
            31 => Some(Codec::YouTubeAacNormal),
            32 => Some(Codec::YouTubeOpusLow),
            33 => Some(Codec::YouTubeOpusHigh),
            34 => Some(Codec::TikTokStandard),
            35 => Some(Codec::TikTokWatermark),
            36 => Some(Codec::InstagramStandard),
            37 => Some(Codec::InstagramPoorConn),
            38 => Some(Codec::FmRadioUsPristine),
            39 => Some(Codec::FmRadioUsUrban),
            40 => Some(Codec::FmRadioUsFringe),
            41 => Some(Codec::FmRadioEuPristine),
            42 => Some(Codec::FmRadioEuUrban),
            43 => Some(Codec::FmRadioEuFringe),
            _ => None,
        }
    }

    pub open spec fn spec_id(self) -> &'static str {
        match self {
            Codec::SpotifyLow => "spotify-low",
            Codec::SpotifyNormal => "spotify-normal",
            Codec::SpotifyHigh => "spotify-high",
            Codec::SpotifyVeryHigh => "spotify-very-high",
            Codec::SpotifyLossless => "spotify-lossless",
            Codec::SpotifyWebFree => "spotify-web-free",
            Codec::SpotifyWebPremium => "spotify-web-premium",
            Codec::DeezerBasic => "deezer-basic",
            Codec::DeezerStandard => "deezer-standard",
            Codec::DeezerHighQuality => "deezer-high-quality",
            Codec::DeezerHiFi => "deezer-hifi",
            Codec::AppleMusicHighEfficiency => "apple-music-high-efficiency",
            Codec::AppleMusicHighQuality => "apple-music-high-quality",
            Codec::AppleMusicLossless => "apple-music-lossless",
            Codec::YtMusicLowMobile => "yt-music-low-mobile",
            Codec::YtMusicNormalMobile => "yt-music-normal-mobile",
            Codec::YtMusicHighMobile => "yt-music-high-mobile",
            Codec::YtMusicLowWeb => "yt-music-low-web",
            Codec::YtMusicNormalWeb => "yt-music-normal-web",
            Codec::YtMusicHighWeb => "yt-music-high-web",
            Codec::SoundCloudLow => "soundcloud-low",
            Codec::SoundCloudStandard => "soundcloud-standard",
            Codec::SoundCloudGoPlus => "soundcloud-go-plus",
            Codec::SoundCloudLegacy => "soundcloud-legacy",
            Codec::TidalLow => "tidal-low",
            Codec::TidalLossless => "tidal-lossless",
            Codec::AmazonMusicLow => "amazon-music-low",
            Codec::AmazonMusicStandard => "amazon-music-standard",
            Codec::AmazonMusicHigh => "amazon-music-high",
            Codec::AmazonMusicLossless => "amazon-music-lossless",
            Codec::YouTubeAacLow => "youtube-aac-low",
            Codec::YouTubeAacNormal => "youtube-aac-normal",
            Codec::YouTubeOpusLow => "youtube-opus-low",
            Codec::YouTubeOpusHigh => "youtube-opus-high",
            Codec::TikTokStandard => "tiktok-standard",
            Codec::TikTokWatermark => "tiktok-watermark",
            Codec::InstagramStandard => "instagram-standard",
            Codec::InstagramPoorConn => "instagram-poor",
            Codec::FmRadioUsPristine => "fm-radio-us-pristine",
            Codec::FmRadioUsUrban => "fm-radio-us-urban",
            Codec::FmRadioUsFringe => "fm-radio-us-fringe",
            Codec::FmRadioEuPristine => "fm-radio-eu-pristine",
            Codec::FmRadioEuUrban => "fm-radio-eu-urban",
            Codec::FmRadioEuFringe => "fm-radio-eu-fringe",
        }
    }

    /// Stable identifier, persisted in DAW projects. Never change post-release.
    #[verifier::when_used_as_spec(spec_id)]
    pub fn id(self) -> (r: &'static str)
        ensures
            r == self.spec_id(),
    {
        match self {
            Codec::SpotifyLow => "spotify-low",
            Codec::SpotifyNormal => "spotify-normal",
            Codec::SpotifyHigh => "spotify-high",
            Codec::SpotifyVeryHigh => "spotify-very-high",
            Codec::SpotifyLossless => "spotify-lossless",
            Codec::SpotifyWebFree => "spotify-web-free",
            Codec::SpotifyWebPremium => "spotify-web-premium",
            Codec::DeezerBasic => "deezer-basic",
            Codec::DeezerStandard => "deezer-standard",
            Codec::DeezerHighQuality => "deezer-high-quality",
            Codec::DeezerHiFi => "deezer-hifi",
            Codec::AppleMusicHighEfficiency => "apple-music-high-efficiency",
            Codec::AppleMusicHighQuality => "apple-music-high-quality",
            Codec::AppleMusicLossless => "apple-music-lossless",
            Codec::YtMusicLowMobile => "yt-music-low-mobile",
            Codec::YtMusicNormalMobile => "yt-music-normal-mobile",
            Codec::YtMusicHighMobile => "yt-music-high-mobile",
            Codec::YtMusicLowWeb => "yt-music-low-web",
            Codec::YtMusicNormalWeb => "yt-music-normal-web",
            Codec::YtMusicHighWeb => "yt-music-high-web",
            Codec::SoundCloudLow => "soundcloud-low",
            Codec::SoundCloudStandard => "soundcloud-standard",
            Codec::SoundCloudGoPlus => "soundcloud-go-plus",
            Codec::SoundCloudLegacy => "soundcloud-legacy",
            Codec::TidalLow => "tidal-low",
            Codec::TidalLossless => "tidal-lossless",
            Codec::AmazonMusicLow => "amazon-music-low",
            Codec::AmazonMusicStandard => "amazon-music-standard",
            Codec::AmazonMusicHigh => "amazon-music-high",
            Codec::AmazonMusicLossless => "amazon-music-lossless",
            Codec::YouTubeAacLow => "youtube-aac-low",
            Codec::YouTubeAacNormal => "youtube-aac-normal",
            Codec::YouTubeOpusLow => "youtube-opus-low",
            Codec::YouTubeOpusHigh => "youtube-opus-high",
            Codec::TikTokStandard => "tiktok-standard",
            Codec::TikTokWatermark => "tiktok-watermark",
            Codec::InstagramStandard => "instagram-standard",
            Codec::InstagramPoorConn => "instagram-poor",
            Codec::FmRadioUsPristine => "fm-radio-us-pristine",
            Codec::FmRadioUsUrban => "fm-radio-us-urban",
            Codec::FmRadioUsFringe => "fm-radio-us-fringe",
            Codec::FmRadioEuPristine => "fm-radio-eu-pristine",
            Codec::FmRadioEuUrban => "fm-radio-eu-urban",
            Codec::FmRadioEuFringe => "fm-radio-eu-fringe",
        }
    }

    pub open spec fn spec_name(self) -> &'static str {
        match self {
            Codec::SpotifyLow => "Spotify · Low",
            Codec::SpotifyNormal => "Spotify · Normal",
            Codec::SpotifyHigh => "Spotify · High",
            Codec::SpotifyVeryHigh => "Spotify · Very High",
            Codec::SpotifyLossless => "Spotify · Lossless (bypass)",
            Codec::SpotifyWebFree => "Spotify · Free (web)",
            Codec::SpotifyWebPremium => "Spotify · Premium (web)",
            Codec::DeezerBasic => "Deezer · Basic",
            Codec::DeezerStandard => "Deezer · Standard",
            Codec::DeezerHighQuality => "Deezer · High Quality",
            Codec::DeezerHiFi => "Deezer · HiFi (bypass)",
            Codec::AppleMusicHighEfficiency => "Apple Music · High Efficiency",
            Codec::AppleMusicHighQuality => "Apple Music · High Quality",
            Codec::AppleMusicLossless => "Apple Music · Lossless (bypass)",
            Codec::YtMusicLowMobile => "YT Music · Low (mobile)",
            Codec::YtMusicNormalMobile => "YT Music · Normal (mobile)",
            Codec::YtMusicHighMobile => "YT Music · High (mobile)",
            Codec::YtMusicLowWeb => "YT Music · Low (web)",
            Codec::YtMusicNormalWeb => "YT Music · Normal (web)",
            Codec::YtMusicHighWeb => "YT Music · High (web)",
            Codec::SoundCloudLow => "SoundCloud · Low",
            Codec::SoundCloudStandard => "SoundCloud · Standard",
            Codec::SoundCloudGoPlus => "SoundCloud · Go+ HQ",
            Codec::SoundCloudLegacy => "SoundCloud · Legacy MP3",
            Codec::TidalLow => "Tidal · Low",
            Codec::TidalLossless => "Tidal · Lossless (bypass)",
            Codec::AmazonMusicLow => "Amazon Music · Low",
            Codec::AmazonMusicStandard => "Amazon Music · Standard",
            Codec::AmazonMusicHigh => "Amazon Music · High",
            Codec::AmazonMusicLossless => "Amazon Music · Lossless (bypass)",
            Codec::YouTubeAacLow => "YouTube · AAC 48 kbps (Safari)",
            Codec::YouTubeAacNormal => "YouTube · AAC 128 kbps (Safari)",
            Codec::YouTubeOpusLow => "YouTube · Opus 70 kbps (web)",
            Codec::YouTubeOpusHigh => "YouTube · Opus 160 kbps (web)",
            Codec::TikTokStandard => "TikTok · Standard",
            Codec::TikTokWatermark => "TikTok · Watermarked download",
            Codec::InstagramStandard => "Instagram · Standard Reel",
            Codec::InstagramPoorConn => "Instagram · Poor connection",
            Codec::FmRadioUsPristine => "FM Radio · US Pristine",
            Codec::FmRadioUsUrban => "FM Radio · US Urban",
            Codec::FmRadioUsFringe => "FM Radio · US Fringe",
            Codec::FmRadioEuPristine => "FM Radio · EU Pristine",
            Codec::FmRadioEuUrban => "FM Radio · EU Urban",
            Codec::FmRadioEuFringe => "FM Radio · EU Fringe",
        }
    }

    /// Display name in the host.
    #[verifier::when_used_as_spec(spec_name)]
    pub fn name(self) -> (r: &'static str)
        ensures
            r == self.spec_name(),
    {
        match self {
            Codec::SpotifyLow => "Spotify · Low",
            Codec::SpotifyNormal => "Spotify · Normal",
            Codec::SpotifyHigh => "Spotify · High",
            Codec::SpotifyVeryHigh => "Spotify · Very High",
            Codec::SpotifyLossless => "Spotify · Lossless (bypass)",
            Codec::SpotifyWebFree => "Spotify · Free (web)",
            Codec::SpotifyWebPremium => "Spotify · Premium (web)",
            Codec::DeezerBasic => "Deezer · Basic",
            Codec::DeezerStandard => "Deezer · Standard",
            Codec::DeezerHighQuality => "Deezer · High Quality",
            Codec::DeezerHiFi => "Deezer · HiFi (bypass)",
            Codec::AppleMusicHighEfficiency => "Apple Music · High Efficiency",
            Codec::AppleMusicHighQuality => "Apple Music · High Quality",
            Codec::AppleMusicLossless => "Apple Music · Lossless (bypass)",
            Codec::YtMusicLowMobile => "YT Music · Low (mobile)",
            Codec::YtMusicNormalMobile => "YT Music · Normal (mobile)",
            Codec::YtMusicHighMobile => "YT Music · High (mobile)",
            Codec::YtMusicLowWeb => "YT Music · Low (web)",
            Codec::YtMusicNormalWeb => "YT Music · Normal (web)",
            Codec::YtMusicHighWeb => "YT Music · High (web)",
            Codec::SoundCloudLow => "SoundCloud · Low",
            Codec::SoundCloudStandard => "SoundCloud · Standard",
            Codec::SoundCloudGoPlus => "SoundCloud · Go+ HQ",
            Codec::SoundCloudLegacy => "SoundCloud · Legacy MP3",
            Codec::TidalLow => "Tidal · Low",
            Codec::TidalLossless => "Tidal · Lossless (bypass)",
            Codec::AmazonMusicLow => "Amazon Music · Low",
            Codec::AmazonMusicStandard => "Amazon Music · Standard",
            Codec::AmazonMusicHigh => "Amazon Music · High",
            Codec::AmazonMusicLossless => "Amazon Music · Lossless (bypass)",
            Codec::YouTubeAacLow => "YouTube · AAC 48 kbps (Safari)",
            Codec::YouTubeAacNormal => "YouTube · AAC 128 kbps (Safari)",
            Codec::YouTubeOpusLow => "YouTube · Opus 70 kbps (web)",
            Codec::YouTubeOpusHigh => "YouTube · Opus 160 kbps (web)",
            Codec::TikTokStandard => "TikTok · Standard",
            Codec::TikTokWatermark => "TikTok · Watermarked download",
            Codec::InstagramStandard => "Instagram · Standard Reel",
            Codec::InstagramPoorConn => "Instagram · Poor connection",
            Codec::FmRadioUsPristine => "FM Radio · US Pristine",
            Codec::FmRadioUsUrban => "FM Radio · US Urban",
            Codec::FmRadioUsFringe => "FM Radio · US Fringe",
            Codec::FmRadioEuPristine => "FM Radio · EU Pristine",
            Codec::FmRadioEuUrban => "FM Radio · EU Urban",
            Codec::FmRadioEuFringe => "FM Radio · EU Fringe",
        }
    }

    pub open spec fn spec_def(self) -> CodecDef {
        match self {
            Codec::SpotifyLow => CodecDef {
                codec: self,
                short_label: "Low",
                format_label: "HE-AAC v2 · 24 kbps",
                row: 1,
                spec: CodecSpec::HeAacV2 { bitrate_kbps: 24 },
            },
            Codec::SpotifyNormal => CodecDef {
                codec: self,
                short_label: "Normal",
                format_label: "Vorbis · 96 kbps",
                row: 1,
                spec: CodecSpec::Vorbis { bitrate_kbps: 96 },
            },
            Codec::SpotifyHigh => CodecDef {
                codec: self,
                short_label: "High",
                format_label: "Vorbis · 160 kbps",
                row: 1,
                spec: CodecSpec::Vorbis { bitrate_kbps: 160 },
            },
            Codec::SpotifyVeryHigh => CodecDef {
                codec: self,
                short_label: "Very High",
                format_label: "Vorbis · 320 kbps",
                row: 1,
                spec: CodecSpec::Vorbis { bitrate_kbps: 320 },
            },
            Codec::SpotifyLossless => CodecDef {
                codec: self,
                short_label: "Lossless (bypass)",
                format_label: "FLAC · pass-through",
                row: 1,
                spec: CodecSpec::Bypass,
            },
            Codec::SpotifyWebFree => CodecDef {
                codec: self,
                short_label: "Free",
                format_label: "AAC-LC · 128 kbps (web)",
                row: 2,
                spec: CodecSpec::AacLc { bitrate_kbps: 128 },
            },
            Codec::SpotifyWebPremium => CodecDef {
                codec: self,
                short_label: "Premium",
                format_label: "AAC-LC · 256 kbps (web)",
                row: 2,
                spec: CodecSpec::AacLc { bitrate_kbps: 256 },
            },
            Codec::DeezerBasic => CodecDef {
                codec: self,
                short_label: "Basic",
                format_label: "MP3 · 64 kbps",
                row: 1,
                spec: CodecSpec::Mp3 { bitrate_kbps: 64 },
            },
            Codec::DeezerStandard => CodecDef {
                codec: self,
                short_label: "Standard",
                format_label: "MP3 · 128 kbps",
                row: 1,
                spec: CodecSpec::Mp3 { bitrate_kbps: 128 },
            },
            Codec::DeezerHighQuality => CodecDef {
                codec: self,
                short_label: "High Quality",
                format_label: "MP3 · 320 kbps",
                row: 1,
                spec: CodecSpec::Mp3 { bitrate_kbps: 320 },
            },
            Codec::DeezerHiFi => CodecDef {
                codec: self,
                short_label: "HiFi (bypass)",
                format_label: "FLAC · pass-through",
                row: 1,
                spec: CodecSpec::Bypass,
            },
            Codec::AppleMusicHighEfficiency => CodecDef {
                codec: self,
                short_label: "High Efficiency",
                format_label: "HE-AAC v1 · 64 kbps",
                row: 1,
                spec: CodecSpec::HeAacV1 { bitrate_kbps: 64 },
            },
            Codec::AppleMusicHighQuality => CodecDef {
                codec: self,
                short_label: "High Quality",
                format_label: "AAC-LC · 256 kbps",
                row: 1,
                spec: CodecSpec::AacLc { bitrate_kbps: 256 },
            },
            Codec::AppleMusicLossless => CodecDef {
                codec: self,
                short_label: "Lossless (bypass)",
                format_label: "ALAC · pass-through",
                row: 1,
                spec: CodecSpec::Bypass,
            },
            Codec::YtMusicLowMobile => CodecDef {
                codec: self,
                short_label: "Low",
                format_label: "AAC-LC · 48 kbps (mobile)",
                row: 1,
                spec: CodecSpec::AacLc { bitrate_kbps: 48 },
            },
            Codec::YtMusicNormalMobile => CodecDef {
                codec: self,
                short_label: "Normal",
                format_label: "AAC-LC · 128 kbps (mobile)",
                row: 1,
                spec: CodecSpec::AacLc { bitrate_kbps: 128 },
            },
            Codec::YtMusicHighMobile => CodecDef {
                codec: self,
                short_label: "High",
                format_label: "AAC-LC · 256 kbps (mobile)",
                row: 1,
                spec: CodecSpec::AacLc { bitrate_kbps: 256 },
            },
            Codec::YtMusicLowWeb => CodecDef {
                codec: self,
                short_label: "Low",
                format_label: "Opus · 48 kbps (web)",
                row: 2,
                spec: CodecSpec::Opus { bitrate_kbps: 48 },
            },
            Codec::YtMusicNormalWeb => CodecDef {
                codec: self,
                short_label: "Normal",
                format_label: "Opus · 128 kbps (web)",
                row: 2,
                spec: CodecSpec::Opus { bitrate_kbps: 128 },
            },
            Codec::YtMusicHighWeb => CodecDef {
                codec: self,
                short_label: "High",
                format_label: "Opus · 256 kbps (web)",
                row: 2,
                spec: CodecSpec::Opus { bitrate_kbps: 256 },
            },
            Codec::SoundCloudLow => CodecDef {
                codec: self,
                short_label: "Low",
                format_label: "AAC-LC · 96 kbps",
                row: 1,
                spec: CodecSpec::AacLc { bitrate_kbps: 96 },
            },
            Codec::SoundCloudStandard => CodecDef {
                codec: self,
                short_label: "Standard",
                format_label: "AAC-LC · 160 kbps",
                row: 1,
                spec: CodecSpec::AacLc { bitrate_kbps: 160 },
            },
            Codec::SoundCloudGoPlus => CodecDef {
                codec: self,
                short_label: "Go+ HQ",
                format_label: "AAC-LC · 256 kbps",
                row: 1,
                spec: CodecSpec::AacLc { bitrate_kbps: 256 },
            },
            Codec::SoundCloudLegacy => CodecDef {
                codec: self,
                short_label: "Legacy",
                format_label: "MP3 · 128 kbps",
                row: 1,
                spec: CodecSpec::Mp3 { bitrate_kbps: 128 },
            },
            Codec::TidalLow => CodecDef {
                codec: self,
                short_label: "Low",
                format_label: "AAC-LC · 320 kbps",
                row: 1,
                spec: CodecSpec::AacLc { bitrate_kbps: 320 },
            },
            Codec::TidalLossless => CodecDef {
                codec: self,
                short_label: "Lossless (bypass)",
                format_label: "FLAC · pass-through",
                row: 1,
                spec: CodecSpec::Bypass,
            },
            Codec::AmazonMusicLow => CodecDef {
                codec: self,
                short_label: "Low",
                format_label: "Opus · 48 kbps",
                row: 1,
                spec: CodecSpec::Opus { bitrate_kbps: 48 },
            },
            Codec::AmazonMusicStandard => CodecDef {
                codec: self,
                short_label: "Standard",
                format_label: "Opus · 192 kbps",
                row: 1,
                spec: CodecSpec::Opus { bitrate_kbps: 192 },
            },
            Codec::AmazonMusicHigh => CodecDef {
                codec: self,
                short_label: "High",
                format_label: "Opus · 320 kbps",
                row: 1,
                spec: CodecSpec::Opus { bitrate_kbps: 320 },
            },
            Codec::AmazonMusicLossless => CodecDef {
                codec: self,
                short_label: "Lossless (bypass)",
                format_label: "FLAC · pass-through",
                row: 1,
                spec: CodecSpec::Bypass,
            },
            Codec::YouTubeAacLow => CodecDef {
                codec: self,
                short_label: "Low",
                format_label: "AAC-LC · 48 kbps (Safari)",
                row: 1,
                spec: CodecSpec::AacLc { bitrate_kbps: 48 },
            },
            Codec::YouTubeAacNormal => CodecDef {
                codec: self,
                short_label: "Normal",
                format_label: "AAC-LC · 128 kbps (Safari)",
                row: 1,
                spec: CodecSpec::AacLc { bitrate_kbps: 128 },
            },
            Codec::YouTubeOpusLow => CodecDef {
                codec: self,
                short_label: "Low",
                format_label: "Opus · 70 kbps (web)",
                row: 2,
                spec: CodecSpec::Opus { bitrate_kbps: 70 },
            },
            Codec::YouTubeOpusHigh => CodecDef {
                codec: self,
                short_label: "Normal",
                format_label: "Opus · 160 kbps (web)",
                row: 2,
                spec: CodecSpec::Opus { bitrate_kbps: 160 },
            },
            Codec::TikTokStandard => CodecDef {
                codec: self,
                short_label: "Standard",
                format_label: "AAC-LC · 128 kbps",
                row: 1,
                spec: CodecSpec::AacLc { bitrate_kbps: 128 },
            },
            Codec::TikTokWatermark => CodecDef {
                codec: self,
                short_label: "Watermarked download",
                format_label: "AAC-LC · 64 kbps mono",
                row: 1,
                spec: CodecSpec::AacLcMono { bitrate_kbps: 64 },
            },
            Codec::InstagramStandard => CodecDef {
                codec: self,
                short_label: "Standard",
                format_label: "AAC-LC · 128 kbps (≈xHE-AAC)",
                row: 1,
                spec: CodecSpec::AacLc { bitrate_kbps: 128 },
            },
            Codec::InstagramPoorConn => CodecDef {
                codec: self,
                short_label: "Poor connection",
                format_label: "AAC-LC · 64 kbps mono",
                row: 1,
                spec: CodecSpec::AacLcMono { bitrate_kbps: 64 },
            },
            Codec::FmRadioUsPristine => CodecDef {
                codec: self,
                short_label: "US",
                format_label: "75 µs · pristine reception",
                row: 1,
                spec: CodecSpec::FmRadio { variant: FmRadioVariant { region: FmRegion::Us75us, reception: FmReception::Pristine } },
            },
            Codec::FmRadioUsUrban => CodecDef {
                codec: self,
                short_label: "US",
                format_label: "75 µs · urban reception",
                row: 1,
                spec: CodecSpec::FmRadio { variant: FmRadioVariant { region: FmRegion::Us75us, reception: FmReception::Urban } },
            },
            Codec::FmRadioUsFringe => CodecDef {
                codec: self,
                short_label: "US",
                format_label: "75 µs · fringe reception",
                row: 1,
                spec: CodecSpec::FmRadio { variant: FmRadioVariant { region: FmRegion::Us75us, reception: FmReception::Fringe } },
            },
            Codec::FmRadioEuPristine => CodecDef {
                codec: self,
                short_label: "Europe",
                format_label: "50 µs · pristine reception",
                row: 2,
                spec: CodecSpec::FmRadio { variant: FmRadioVariant { region: FmRegion::Eu50us, reception: FmReception::Pristine } },
            },
            Codec::FmRadioEuUrban => CodecDef {
                codec: self,
                short_label: "Europe",
                format_label: "50 µs · urban reception",
                row: 2,
                spec: CodecSpec::FmRadio { variant: FmRadioVariant { region: FmRegion::Eu50us, reception: FmReception::Urban } },
            },
            Codec::FmRadioEuFringe => CodecDef {
                codec: self,
                short_label: "Europe",
                format_label: "50 µs · fringe reception",
                row: 2,
                spec: CodecSpec::FmRadio { variant: FmRadioVariant { region: FmRegion::Eu50us, reception: FmReception::Fringe } },
            },
        }
    }

    /// This codec's catalog entry.
    #[verifier::when_used_as_spec(spec_def)]
    pub fn def(self) -> (r: CodecDef)
        ensures
            r == self.spec_def(),
            r.codec == self,
    {
        match self {
            Codec::SpotifyLow => CodecDef {
                codec: self,
                short_label: "Low",
                format_label: "HE-AAC v2 · 24 kbps",
                row: 1,
                spec: CodecSpec::HeAacV2 { bitrate_kbps: 24 },
            },
            Codec::SpotifyNormal => CodecDef {
                codec: self,
                short_label: "Normal",
                format_label: "Vorbis · 96 kbps",
                row: 1,
                spec: CodecSpec::Vorbis { bitrate_kbps: 96 },
            },
            Codec::SpotifyHigh => CodecDef {
                codec: self,
                short_label: "High",
                format_label: "Vorbis · 160 kbps",
                row: 1,
                spec: CodecSpec::Vorbis { bitrate_kbps: 160 },
            },
            Codec::SpotifyVeryHigh => CodecDef {
                codec: self,
                short_label: "Very High",
                format_label: "Vorbis · 320 kbps",
                row: 1,
                spec: CodecSpec::Vorbis { bitrate_kbps: 320 },
            },
            Codec::SpotifyLossless => CodecDef {
                codec: self,
                short_label: "Lossless (bypass)",
                format_label: "FLAC · pass-through",
                row: 1,
                spec: CodecSpec::Bypass,
            },
            Codec::SpotifyWebFree => CodecDef {
                codec: self,
                short_label: "Free",
                format_label: "AAC-LC · 128 kbps (web)",
                row: 2,
                spec: CodecSpec::AacLc { bitrate_kbps: 128 },
            },
            Codec::SpotifyWebPremium => CodecDef {
                codec: self,
                short_label: "Premium",
                format_label: "AAC-LC · 256 kbps (web)",
                row: 2,
                spec: CodecSpec::AacLc { bitrate_kbps: 256 },
            },
            Codec::DeezerBasic => CodecDef {
                codec: self,
                short_label: "Basic",
                format_label: "MP3 · 64 kbps",
                row: 1,
                spec: CodecSpec::Mp3 { bitrate_kbps: 64 },
            },
            Codec::DeezerStandard => CodecDef {
                codec: self,
                short_label: "Standard",
                format_label: "MP3 · 128 kbps",
                row: 1,
                spec: CodecSpec::Mp3 { bitrate_kbps: 128 },
            },
            Codec::DeezerHighQuality => CodecDef {
                codec: self,
                short_label: "High Quality",
                format_label: "MP3 · 320 kbps",
                row: 1,
                spec: CodecSpec::Mp3 { bitrate_kbps: 320 },
            },
            Codec::DeezerHiFi => CodecDef {
                codec: self,
                short_label: "HiFi (bypass)",
                format_label: "FLAC · pass-through",
                row: 1,
                spec: CodecSpec::Bypass,
            },
            Codec::AppleMusicHighEfficiency => CodecDef {
                codec: self,
                short_label: "High Efficiency",
                format_label: "HE-AAC v1 · 64 kbps",
                row: 1,
                spec: CodecSpec::HeAacV1 { bitrate_kbps: 64 },
            },
            Codec::AppleMusicHighQuality => CodecDef {
                codec: self,
                short_label: "High Quality",
                format_label: "AAC-LC · 256 kbps",
                row: 1,
                spec: CodecSpec::AacLc { bitrate_kbps: 256 },
            },
            Codec::AppleMusicLossless => CodecDef {
                codec: self,
                short_label: "Lossless (bypass)",
                format_label: "ALAC · pass-through",
                row: 1,
                spec: CodecSpec::Bypass,
            },
            Codec::YtMusicLowMobile => CodecDef {
                codec: self,
                short_label: "Low",
                format_label: "AAC-LC · 48 kbps (mobile)",
                row: 1,
                spec: CodecSpec::AacLc { bitrate_kbps: 48 },
            },
            Codec::YtMusicNormalMobile => CodecDef {
                codec: self,
                short_label: "Normal",
                format_label: "AAC-LC · 128 kbps (mobile)",
                row: 1,
                spec: CodecSpec::AacLc { bitrate_kbps: 128 },
            },
            Codec::YtMusicHighMobile => CodecDef {
                codec: self,
                short_label: "High",
                format_label: "AAC-LC · 256 kbps (mobile)",
                row: 1,
                spec: CodecSpec::AacLc { bitrate_kbps: 256 },
            },
            Codec::YtMusicLowWeb => CodecDef {
                codec: self,
                short_label: "Low",
                format_label: "Opus · 48 kbps (web)",
                row: 2,
                spec: CodecSpec::Opus { bitrate_kbps: 48 },
            },
            Codec::YtMusicNormalWeb => CodecDef {
                codec: self,
                short_label: "Normal",
                format_label: "Opus · 128 kbps (web)",
                row: 2,
                spec: CodecSpec::Opus { bitrate_kbps: 128 },
            },
            Codec::YtMusicHighWeb => CodecDef {
                codec: self,
                short_label: "High",
                format_label: "Opus · 256 kbps (web)",
                row: 2,
                spec: CodecSpec::Opus { bitrate_kbps: 256 },
            },
            Codec::SoundCloudLow => CodecDef {
                codec: self,
                short_label: "Low",
                format_label: "AAC-LC · 96 kbps",
                row: 1,
                spec: CodecSpec::AacLc { bitrate_kbps: 96 },
            },
            Codec::SoundCloudStandard => CodecDef {
                codec: self,
                short_label: "Standard",
                format_label: "AAC-LC · 160 kbps",
                row: 1,
                spec: CodecSpec::AacLc { bitrate_kbps: 160 },
            },
            Codec::SoundCloudGoPlus => CodecDef {
                codec: self,
                short_label: "Go+ HQ",
                format_label: "AAC-LC · 256 kbps",
                row: 1,
                spec: CodecSpec::AacLc { bitrate_kbps: 256 },
            },
            Codec::SoundCloudLegacy => CodecDef {
                codec: self,
                short_label: "Legacy",
                format_label: "MP3 · 128 kbps",
                row: 1,
                spec: CodecSpec::Mp3 { bitrate_kbps: 128 },
            },
            Codec::TidalLow => CodecDef {
                codec: self,
                short_label: "Low",
                format_label: "AAC-LC · 320 kbps",
                row: 1,
                spec: CodecSpec::AacLc { bitrate_kbps: 320 },
            },
            Codec::TidalLossless => CodecDef {
                codec: self,
                short_label: "Lossless (bypass)",
                format_label: "FLAC · pass-through",
                row: 1,
                spec: CodecSpec::Bypass,
            },
            Codec::AmazonMusicLow => CodecDef {
                codec: self,
                short_label: "Low",
                format_label: "Opus · 48 kbps",
                row: 1,
                spec: CodecSpec::Opus { bitrate_kbps: 48 },
            },
            Codec::AmazonMusicStandard => CodecDef {
                codec: self,
                short_label: "Standard",
                format_label: "Opus · 192 kbps",
                row: 1,
                spec: CodecSpec::Opus { bitrate_kbps: 192 },
            },
            Codec::AmazonMusicHigh => CodecDef {
                codec: self,
                short_label: "High",
                format_label: "Opus · 320 kbps",
                row: 1,
                spec: CodecSpec::Opus { bitrate_kbps: 320 },
            },
            Codec::AmazonMusicLossless => CodecDef {
                codec: self,
                short_label: "Lossless (bypass)",
                format_label: "FLAC · pass-through",
                row: 1,
                spec: CodecSpec::Bypass,
            },
            Codec::YouTubeAacLow => CodecDef {
                codec: self,
                short_label: "Low",
                format_label: "AAC-LC · 48 kbps (Safari)",
                row: 1,
                spec: CodecSpec::AacLc { bitrate_kbps: 48 },
            },
            Codec::YouTubeAacNormal => CodecDef {
                codec: self,
                short_label: "Normal",
                format_label: "AAC-LC · 128 kbps (Safari)",
                row: 1,
                spec: CodecSpec::AacLc { bitrate_kbps: 128 },
            },
            Codec::YouTubeOpusLow => CodecDef {
                codec: self,
                short_label: "Low",
                format_label: "Opus · 70 kbps (web)",
                row: 2,
                spec: CodecSpec::Opus { bitrate_kbps: 70 },
            },
            Codec::YouTubeOpusHigh => CodecDef {
                codec: self,
                short_label: "Normal",
                format_label: "Opus · 160 kbps (web)",
                row: 2,
                spec: CodecSpec::Opus { bitrate_kbps: 160 },
            },
            Codec::TikTokStandard => CodecDef {
                codec: self,
                short_label: "Standard",
                format_label: "AAC-LC · 128 kbps",
                row: 1,
                spec: CodecSpec::AacLc { bitrate_kbps: 128 },
            },
            Codec::TikTokWatermark => CodecDef {
                codec: self,
                short_label: "Watermarked download",
                format_label: "AAC-LC · 64 kbps mono",
                row: 1,
                spec: CodecSpec::AacLcMono { bitrate_kbps: 64 },
            },
            Codec::InstagramStandard => CodecDef {
                codec: self,
                short_label: "Standard",
                format_label: "AAC-LC · 128 kbps (≈xHE-AAC)",
                row: 1,
                spec: CodecSpec::AacLc { bitrate_kbps: 128 },
            },
            Codec::InstagramPoorConn => CodecDef {
                codec: self,
                short_label: "Poor connection",
                format_label: "AAC-LC · 64 kbps mono",
                row: 1,
                spec: CodecSpec::AacLcMono { bitrate_kbps: 64 },
            },
            Codec::FmRadioUsPristine => CodecDef {
                codec: self,
                short_label: "US",
                format_label: "75 µs · pristine reception",
                row: 1,
                spec: CodecSpec::FmRadio { variant: FmRadioVariant { region: FmRegion::Us75us, reception: FmReception::Pristine } },
            },
            Codec::FmRadioUsUrban => CodecDef {
                codec: self,
                short_label: "US",
                format_label: "75 µs · urban reception",
                row: 1,
                spec: CodecSpec::FmRadio { variant: FmRadioVariant { region: FmRegion::Us75us, reception: FmReception::Urban } },
            },
            Codec::FmRadioUsFringe => CodecDef {
                codec: self,
                short_label: "US",
                format_label: "75 µs · fringe reception",
                row: 1,
                spec: CodecSpec::FmRadio { variant: FmRadioVariant { region: FmRegion::Us75us, reception: FmReception::Fringe } },
            },
            Codec::FmRadioEuPristine => CodecDef {
                codec: self,
                short_label: "Europe",
                format_label: "50 µs · pristine reception",
                row: 2,
                spec: CodecSpec::FmRadio { variant: FmRadioVariant { region: FmRegion::Eu50us, reception: FmReception::Pristine } },
            },
            Codec::FmRadioEuUrban => CodecDef {
                codec: self,
                short_label: "Europe",
                format_label: "50 µs · urban reception",
                row: 2,
                spec: CodecSpec::FmRadio { variant: FmRadioVariant { region: FmRegion::Eu50us, reception: FmReception::Urban } },
            },
            Codec::FmRadioEuFringe => CodecDef {
                codec: self,
                short_label: "Europe",
                format_label: "50 µs · fringe reception",
                row: 2,
                spec: CodecSpec::FmRadio { variant: FmRadioVariant { region: FmRegion::Eu50us, reception: FmReception::Fringe } },
            },
        }
    }

    pub open spec fn spec_owner(self) -> Platform {
        match self {
            Codec::SpotifyLow => Platform::Spotify,
            Codec::SpotifyNormal => Platform::Spotify,
            Codec::SpotifyHigh => Platform::Spotify,
            Codec::SpotifyVeryHigh => Platform::Spotify,
            Codec::SpotifyLossless => Platform::Spotify,
            Codec::SpotifyWebFree => Platform::Spotify,
            Codec::SpotifyWebPremium => Platform::Spotify,
            Codec::DeezerBasic => Platform::Deezer,
            Codec::DeezerStandard => Platform::Deezer,
            Codec::DeezerHighQuality => Platform::Deezer,
            Codec::DeezerHiFi => Platform::Deezer,
            Codec::AppleMusicHighEfficiency => Platform::AppleMusic,
            Codec::AppleMusicHighQuality => Platform::AppleMusic,
            Codec::AppleMusicLossless => Platform::AppleMusic,
            Codec::YtMusicLowMobile => Platform::YouTubeMusic,
            Codec::YtMusicNormalMobile => Platform::YouTubeMusic,
            Codec::YtMusicHighMobile => Platform::YouTubeMusic,
            Codec::YtMusicLowWeb => Platform::YouTubeMusic,
            Codec::YtMusicNormalWeb => Platform::YouTubeMusic,
            Codec::YtMusicHighWeb => Platform::YouTubeMusic,
            Codec::SoundCloudLow => Platform::SoundCloud,
            Codec::SoundCloudStandard => Platform::SoundCloud,
            Codec::SoundCloudGoPlus => Platform::SoundCloud,
            Codec::SoundCloudLegacy => Platform::SoundCloud,
            Codec::TidalLow => Platform::Tidal,
            Codec::TidalLossless => Platform::Tidal,
            Codec::AmazonMusicLow => Platform::AmazonMusic,
            Codec::AmazonMusicStandard => Platform::AmazonMusic,
            Codec::AmazonMusicHigh => Platform::AmazonMusic,
            Codec::AmazonMusicLossless => Platform::AmazonMusic,
            Codec::YouTubeAacLow => Platform::YouTube,
            Codec::YouTubeAacNormal => Platform::YouTube,
            Codec::YouTubeOpusLow => Platform::YouTube,
            Codec::YouTubeOpusHigh => Platform::YouTube,
            Codec::TikTokStandard => Platform::TikTok,
            Codec::TikTokWatermark => Platform::TikTok,
            Codec::InstagramStandard => Platform::Instagram,
            Codec::InstagramPoorConn => Platform::Instagram,
            Codec::FmRadioUsPristine => Platform::FmRadio,
            Codec::FmRadioUsUrban => Platform::FmRadio,
            Codec::FmRadioUsFringe => Platform::FmRadio,
            Codec::FmRadioEuPristine => Platform::FmRadio,
            Codec::FmRadioEuUrban => Platform::FmRadio,
            Codec::FmRadioEuFringe => Platform::FmRadio,
        }
    }

    /// The platform that offers this codec.
    #[verifier::when_used_as_spec(spec_owner)]
    pub fn owner(self) -> (r: Platform)
        ensures
            r == self.spec_owner(),
    {
        match self {
            Codec::SpotifyLow => Platform::Spotify,
            Codec::SpotifyNormal => Platform::Spotify,
            Codec::SpotifyHigh => Platform::Spotify,
            Codec::SpotifyVeryHigh => Platform::Spotify,
            Codec::SpotifyLossless => Platform::Spotify,
            Codec::SpotifyWebFree => Platform::Spotify,
            Codec::SpotifyWebPremium => Platform::Spotify,
            Codec::DeezerBasic => Platform::Deezer,
            Codec::DeezerStandard => Platform::Deezer,
            Codec::DeezerHighQuality => Platform::Deezer,
            Codec::DeezerHiFi => Platform::Deezer,
            Codec::AppleMusicHighEfficiency => Platform::AppleMusic,
            Codec::AppleMusicHighQuality => Platform::AppleMusic,
            Codec::AppleMusicLossless => Platform::AppleMusic,
            Codec::YtMusicLowMobile => Platform::YouTubeMusic,
            Codec::YtMusicNormalMobile => Platform::YouTubeMusic,
            Codec::YtMusicHighMobile => Platform::YouTubeMusic,
            Codec::YtMusicLowWeb => Platform::YouTubeMusic,
            Codec::YtMusicNormalWeb => Platform::YouTubeMusic,
            Codec::YtMusicHighWeb => Platform::YouTubeMusic,
            Codec::SoundCloudLow => Platform::SoundCloud,
            Codec::SoundCloudStandard => Platform::SoundCloud,
            Codec::SoundCloudGoPlus => Platform::SoundCloud,
            Codec::SoundCloudLegacy => Platform::SoundCloud,
            Codec::TidalLow => Platform::Tidal,
            Codec::TidalLossless => Platform::Tidal,
            Codec::AmazonMusicLow => Platform::AmazonMusic,
            Codec::AmazonMusicStandard => Platform::AmazonMusic,
            Codec::AmazonMusicHigh => Platform::AmazonMusic,
            Codec::AmazonMusicLossless => Platform::AmazonMusic,
            Codec::YouTubeAacLow => Platform::YouTube,
            Codec::YouTubeAacNormal => Platform::YouTube,
            Codec::YouTubeOpusLow => Platform::YouTube,
            Codec::YouTubeOpusHigh => Platform::YouTube,
            Codec::TikTokStandard => Platform::TikTok,
            Codec::TikTokWatermark => Platform::TikTok,
            Codec::InstagramStandard => Platform::Instagram,
            Codec::InstagramPoorConn => Platform::Instagram,
            Codec::FmRadioUsPristine => Platform::FmRadio,
            Codec::FmRadioUsUrban => Platform::FmRadio,
            Codec::FmRadioUsFringe => Platform::FmRadio,
            Codec::FmRadioEuPristine => Platform::FmRadio,
            Codec::FmRadioEuUrban => Platform::FmRadio,
            Codec::FmRadioEuFringe => Platform::FmRadio,
        }
    }

    /// The catalog entry of the platform owning this codec.
    pub fn platform(self) -> (r: PlatformDef)
        ensures
            is_platform(r, self.owner()),
    {
        self.owner().def()
    }
}

/// The whole catalog, in tab order.
pub fn platforms() -> (r: Vec<PlatformDef>)
    ensures
        r.len() == 11,
        forall|i: int|
            0 <= i < 11 ==> is_platform(#[trigger] r@[i], Platform::spec_at(i)),
{
    let mut r: Vec<PlatformDef> = Vec::new();
    for i in 0..11usize
        invariant
            r.len() == i,
            forall|k: int| 0 <= k < i ==> is_platform(#[trigger] r@[k], Platform::spec_at(k)),
    {
        match Platform::from_index(i) {
            Some(p) => r.push(p.def()),
            None => {
                assert(false);
            },
        }
    }
    r
}

/// Per-codec metadata, by `Codec::to_index()`.
pub struct CodecLookup {
    pub defs: Vec<CodecDef>,
    pub platforms_for_codec: Vec<PlatformDef>,
}

/// Builds the lookup tables.
pub fn codec_lookup() -> (r: CodecLookup)
    ensures
        r.defs.len() == 44,
        r.platforms_for_codec.len() == 44,
        forall|c: Codec| r.defs@[#[trigger] c.to_index() as int] == c.def(),
        forall|c: Codec|
            is_platform(r.platforms_for_codec@[#[trigger] c.to_index() as int], c.owner()),
{
    let mut defs: Vec<CodecDef> = Vec::new();
    let mut platforms_for_codec: Vec<PlatformDef> = Vec::new();
    for i in 0..44usize
        invariant
            defs.len() == i,
            platforms_for_codec.len() == i,
            forall|c: Codec|
                #[trigger] c.to_index() < i ==> defs@[c.to_index() as int] == c.def(),
            forall|c: Codec|
                #[trigger] c.to_index() < i ==> is_platform(
                    platforms_for_codec@[c.to_index() as int],
                    c.owner(),
                ),
    {
        match Codec::from_index(i) {
            Some(codec) => {
                defs.push(codec.def());
                platforms_for_codec.push(codec.platform());
                proof {
                    assert forall|c: Codec| #[trigger] c.to_index() == i implies c == codec by {
                        law_codec_index_is_injective(c, codec);
                    }
                }
            },
            None => {
                assert(false);
            },
        }
    }
    CodecLookup { defs, platforms_for_codec }
}

/// A codec is known by its position.
pub proof fn law_codec_index_is_injective(a: Codec, b: Codec)
    requires
        a.to_index() == b.to_index(),
    ensures
        a == b,
{
}

/// Every codec belongs to exactly one platform: its owner offers it, and no
/// other does.
pub proof fn law_codec_has_one_platform(c: Codec, p: Platform)
    ensures
        p.tiers().contains(c) <==> p == c.owner(),
{
    lemma_owner_offers(c);
    if p.tiers().contains(c) {
        let i = choose|i: int| 0 <= i < p.tiers().len() && p.tiers()[i] == c;
        assert(p.tiers()[i].owner() == p);
    }
}

proof fn lemma_owner_offers(c: Codec)
    ensures
        c.owner().tiers().contains(c),
{
    let i = c.to_index() - first_index(c.owner());
    assert(0 <= i < c.owner().tiers().len() && c.owner().tiers()[i] == c);
}

/// Position of a platform's first tier.
spec fn first_index(p: Platform) -> int {
    match p {
        Platform::Spotify => 0,
        Platform::Deezer => 7,
        Platform::AppleMusic => 11,
        Platform::YouTubeMusic => 14,
        Platform::SoundCloud => 20,
        Platform::Tidal => 24,
        Platform::AmazonMusic => 26,
        Platform::YouTube => 30,
        Platform::TikTok => 34,
        Platform::Instagram => 36,
        Platform::FmRadio => 38,
    }
}

/// Every tier is shown in row 1 or 2, and has a bitrate above zero if it has
/// one at all.
pub proof fn law_catalog_is_well_formed(c: Codec)
    ensures
        c.def().codec == c,
        c.def().row == 1 || c.def().row == 2,
        c.def().spec.bitrate() matches Some(kbps) ==> 0 < kbps <= 320,
{
}

/// No platform is without tiers.
pub proof fn law_platforms_have_tiers(p: Platform)
    ensures
        p.tiers().len() > 0,
{
}

/// The FM tiers are the 2 regions x 3 receptions, each once.
pub proof fn law_fm_tiers_cover_every_variant(v: FmRadioVariant)
    ensures
        exists|c: Codec| #[trigger] c.def().spec == (CodecSpec::FmRadio { variant: v }),
        Platform::FmRadio.tiers().len() == 6,
        forall|a: Codec, b: Codec|
            (#[trigger] a.def()).spec is FmRadio && a.def().spec == (#[trigger] b.def()).spec ==> a
                == b,
{
    let c = match (v.region, v.reception) {
        (FmRegion::Us75us, FmReception::Pristine) => Codec::FmRadioUsPristine,
        (FmRegion::Us75us, FmReception::Urban) => Codec::FmRadioUsUrban,
        (FmRegion::Us75us, FmReception::Fringe) => Codec::FmRadioUsFringe,
        (FmRegion::Eu50us, FmReception::Pristine) => Codec::FmRadioEuPristine,
        (FmRegion::Eu50us, FmReception::Urban) => Codec::FmRadioEuUrban,
        (FmRegion::Eu50us, FmReception::Fringe) => Codec::FmRadioEuFringe,
    };
    assert(c.def().spec == (CodecSpec::FmRadio { variant: v }));
}

/// The codec that an identifier can only belong to.
spec fn codec_for_id(s: Seq<char>) -> Codec {
    if s[3] == 't' {
        if s[0] == 's' {
            if s[9] == 'o' {
                if s.len() == 11 {
                    Codec::SpotifyLow
                } else {
                    if s.len() == 14 {
                        Codec::SpotifyNormal
                    } else {
                        Codec::SpotifyLossless
                    }
                }
            } else {
                if s[8] == 'w' {
                    if s.len() == 16 {
                        Codec::SpotifyWebFree
                    } else {
                        Codec::SpotifyWebPremium
                    }
                } else {
                    if s.len() == 12 {
                        Codec::SpotifyHigh
                    } else {
                        Codec::SpotifyVeryHigh
                    }
                }
            }
        } else {
            if s[0] == 'y' {
                if s[8] == 'a' {
                    if s.len() == 15 {
                        Codec::YouTubeAacLow
                    } else {
                        Codec::YouTubeAacNormal
                    }
                } else {
                    if s.len() == 16 {
                        Codec::YouTubeOpusLow
                    } else {
                        Codec::YouTubeOpusHigh
                    }
                }
            } else {
                if s[0] == 't' {
                    if s.len() == 15 {
                        Codec::TikTokStandard
                    } else {
                        Codec::TikTokWatermark
                    }
                } else {
                    if s.len() == 18 {
                        Codec::InstagramStandard
                    } else {
                        Codec::InstagramPoorConn
                    }
                }
            }
        }
    } else {
        if s[2] == '-' {
            if s[0] == 'y' {
                if s.len() == 19 {
                    if s[9] == 'l' {
                        Codec::YtMusicLowMobile
                    } else {
                        Codec::YtMusicNormalWeb
                    }
                } else {
                    if s[9] == 'h' {
                        if s.len() == 20 {
                            Codec::YtMusicHighMobile
                        } else {
                            Codec::YtMusicHighWeb
                        }
                    } else {
                        if s.len() == 22 {
                            Codec::YtMusicNormalMobile
                        } else {
                            Codec::YtMusicLowWeb
                        }
                    }
                }
            } else {
                if s[9] == 'u' {
                    if s.len() == 20 {
                        Codec::FmRadioUsPristine
                    } else {
                        if s.len() == 17 {
                            Codec::FmRadioUsUrban
                        } else {
                            Codec::FmRadioUsFringe
                        }
                    }
                } else {
                    if s.len() == 20 {
                        Codec::FmRadioEuPristine
                    } else {
                        if s.len() == 17 {
                            Codec::FmRadioEuUrban
                        } else {
                            Codec::FmRadioEuFringe
                        }
                    }
                }
            }
        } else {
            if s[3] == 'z' {
                if s[0] == 'd' {
                    if s[7] == 'h' {
                        if s.len() == 19 {
                            Codec::DeezerHighQuality
                        } else {
                            Codec::DeezerHiFi
                        }
                    } else {
                        if s.len() == 12 {
                            Codec::DeezerBasic
                        } else {
                            Codec::DeezerStandard
                        }
                    }
                } else {
                    if s.len() == 21 {
                        if s[13] == 's' {
                            Codec::AmazonMusicStandard
                        } else {
                            Codec::AmazonMusicLossless
                        }
                    } else {
                        if s.len() == 16 {
                            Codec::AmazonMusicLow
                        } else {
                            Codec::AmazonMusicHigh
                        }
                    }
                }
            } else {
                if s[0] == 's' {
                    if s[11] == 'l' {
                        if s.len() == 14 {
                            Codec::SoundCloudLow
                        } else {
                            Codec::SoundCloudLegacy
                        }
                    } else {
                        if s.len() == 19 {
                            Codec::SoundCloudStandard
                        } else {
                            Codec::SoundCloudGoPlus
                        }
                    }
                } else {
                    if s[0] == 'a' {
                        if s.len() == 27 {
                            Codec::AppleMusicHighEfficiency
                        } else {
                            if s.len() == 24 {
                                Codec::AppleMusicHighQuality
                            } else {
                                Codec::AppleMusicLossless
                            }
                        }
                    } else {
                        if s.len() == 9 {
                            Codec::TidalLow
                        } else {
                            Codec::TidalLossless
                        }
                    }
                }
            }
        }
    }
}

proof fn lemma_codec_for_id(c: Codec)
    ensures
        codec_for_id(c.id()@) == c,
{
    match c {
        Codec::SpotifyLow => reveal_strlit("spotify-low"),
        Codec::SpotifyNormal => reveal_strlit("spotify-normal"),
        Codec::SpotifyHigh => reveal_strlit("spotify-high"),
        Codec::SpotifyVeryHigh => reveal_strlit("spotify-very-high"),
        Codec::SpotifyLossless => reveal_strlit("spotify-lossless"),
        Codec::SpotifyWebFree => reveal_strlit("spotify-web-free"),
        Codec::SpotifyWebPremium => reveal_strlit("spotify-web-premium"),
        Codec::DeezerBasic => reveal_strlit("deezer-basic"),
        Codec::DeezerStandard => reveal_strlit("deezer-standard"),
        Codec::DeezerHighQuality => reveal_strlit("deezer-high-quality"),
        Codec::DeezerHiFi => reveal_strlit("deezer-hifi"),
        Codec::AppleMusicHighEfficiency => reveal_strlit("apple-music-high-efficiency"),
        Codec::AppleMusicHighQuality => reveal_strlit("apple-music-high-quality"),
        Codec::AppleMusicLossless => reveal_strlit("apple-music-lossless"),
        Codec::YtMusicLowMobile => reveal_strlit("yt-music-low-mobile"),
        Codec::YtMusicNormalMobile => reveal_strlit("yt-music-normal-mobile"),
        Codec::YtMusicHighMobile => reveal_strlit("yt-music-high-mobile"),
        Codec::YtMusicLowWeb => reveal_strlit("yt-music-low-web"),
        Codec::YtMusicNormalWeb => reveal_strlit("yt-music-normal-web"),
        Codec::YtMusicHighWeb => reveal_strlit("yt-music-high-web"),
        Codec::SoundCloudLow => reveal_strlit("soundcloud-low"),
        Codec::SoundCloudStandard => reveal_strlit("soundcloud-standard"),
        Codec::SoundCloudGoPlus => reveal_strlit("soundcloud-go-plus"),
        Codec::SoundCloudLegacy => reveal_strlit("soundcloud-legacy"),
        Codec::TidalLow => reveal_strlit("tidal-low"),
        Codec::TidalLossless => reveal_strlit("tidal-lossless"),
        Codec::AmazonMusicLow => reveal_strlit("amazon-music-low"),
        Codec::AmazonMusicStandard => reveal_strlit("amazon-music-standard"),
        Codec::AmazonMusicHigh => reveal_strlit("amazon-music-high"),
        Codec::AmazonMusicLossless => reveal_strlit("amazon-music-lossless"),
        Codec::YouTubeAacLow => reveal_strlit("youtube-aac-low"),
        Codec::YouTubeAacNormal => reveal_strlit("youtube-aac-normal"),
        Codec::YouTubeOpusLow => reveal_strlit("youtube-opus-low"),
        Codec::YouTubeOpusHigh => reveal_strlit("youtube-opus-high"),
        Codec::TikTokStandard => reveal_strlit("tiktok-standard"),
        Codec::TikTokWatermark => reveal_strlit("tiktok-watermark"),
        Codec::InstagramStandard => reveal_strlit("instagram-standard"),
        Codec::InstagramPoorConn => reveal_strlit("instagram-poor"),
        Codec::FmRadioUsPristine => reveal_strlit("fm-radio-us-pristine"),
        Codec::FmRadioUsUrban => reveal_strlit("fm-radio-us-urban"),
        Codec::FmRadioUsFringe => reveal_strlit("fm-radio-us-fringe"),
        Codec::FmRadioEuPristine => reveal_strlit("fm-radio-eu-pristine"),
        Codec::FmRadioEuUrban => reveal_strlit("fm-radio-eu-urban"),
        Codec::FmRadioEuFringe => reveal_strlit("fm-radio-eu-fringe"),
    }
}

/// No two codecs share an identifier.
pub proof fn law_codec_ids_are_distinct(a: Codec, b: Codec)
    requires
        a.id()@ == b.id()@,
    ensures
        a == b,
{
    lemma_codec_for_id(a);
    lemma_codec_for_id(b);
}

/// The platform that an identifier can only belong to.
spec fn platform_for_id(s: Seq<char>) -> Platform {
    if s[3] == 't' {
        if s.len() == 7 {
            if s[0] == 's' {
                Platform::Spotify
            } else {
                Platform::YouTube
            }
        } else {
            if s.len() == 13 {
                Platform::YouTubeMusic
            } else {
                if s.len() == 6 {
                    Platform::TikTok
                } else {
                    Platform::Instagram
                }
            }
        }
    } else {
        if s[0] == 'a' {
            if s.len() == 11 {
                Platform::AppleMusic
            } else {
                Platform::AmazonMusic
            }
        } else {
            if s.len() == 6 {
                Platform::Deezer
            } else {
                if s.len() == 10 {
                    Platform::SoundCloud
                } else {
                    if s.len() == 5 {
                        Platform::Tidal
                    } else {
                        Platform::FmRadio
                    }
                }
            }
        }
    }
}

proof fn lemma_platform_for_id(p: Platform)
    ensures
        platform_for_id(p.id()@) == p,
{
    match p {
        Platform::Spotify => reveal_strlit("spotify"),
        Platform::Deezer => reveal_strlit("deezer"),
        Platform::AppleMusic => reveal_strlit("apple-music"),
        Platform::YouTubeMusic => reveal_strlit("youtube-music"),
        Platform::SoundCloud => reveal_strlit("soundcloud"),
        Platform::Tidal => reveal_strlit("tidal"),
        Platform::AmazonMusic => reveal_strlit("amazon-music"),
        Platform::YouTube => reveal_strlit("youtube"),
        Platform::TikTok => reveal_strlit("tiktok"),
        Platform::Instagram => reveal_strlit("instagram"),
        Platform::FmRadio => reveal_strlit("fm-radio"),
    }
}

/// No two platforms share an identifier.
pub proof fn law_platform_ids_are_distinct(a: Platform, b: Platform)
    requires
        a.id()@ == b.id()@,
    ensures
        a == b,
{
    lemma_platform_for_id(a);
    lemma_platform_for_id(b);
}

}
