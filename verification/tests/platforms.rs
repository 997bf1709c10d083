use streaming_simulator::platforms::{
    codec_lookup, platforms, Codec, CodecSpec, FmReception, FmRegion, Platform, PlatformDef,
};
use streaming_simulator::processor::bluetooth::BluetoothProtocol;

fn all_codec_variants() -> Vec<Codec> {
    (0..Codec::COUNT).map(|i| Codec::from_index(i).unwrap()).collect()
}

#[test]
fn every_codec_resolves_to_a_def_and_platform() {
    for codec in all_codec_variants() {
        let def = codec.def();
        assert_eq!(def.codec, codec, "Codec::def() for {codec:?} returned a def for {:?}", def.codec);
        let platform = codec.platform();
        assert!(
            platform.codecs.iter().any(|c| c.codec == codec),
            "Codec::platform() for {codec:?} returned platform {} whose codecs do not contain it",
            platform.id
        );
    }
}

#[test]
fn codec_lookup_is_idempotent() {
    let first = codec_lookup();
    let second = codec_lookup();
    assert_eq!(first.defs.len(), second.defs.len());
    assert_eq!(first.defs, second.defs);
    for (a, b) in first.platforms_for_codec.iter().zip(second.platforms_for_codec.iter()) {
        assert_eq!(a.id, b.id);
    }
}

#[test]
fn catalog_has_expected_platforms() {
    let all = platforms();
    let ids: Vec<&str> = all.iter().map(|p| p.id).collect();
    for expected in &[
        "spotify",
        "deezer",
        "apple-music",
        "youtube-music",
        "soundcloud",
        "tidal",
        "amazon-music",
        "youtube",
        "tiktok",
        "instagram",
        "fm-radio",
    ] {
        assert!(ids.contains(expected), "missing expected id `{expected}`; got {ids:?}");
    }
}

#[test]
fn catalog_well_formed() {
    for platform in platforms().iter() {
        assert!(!platform.id.is_empty(), "empty id (display_name = {})", platform.display_name);
        assert!(!platform.display_name.is_empty(), "`{}` has empty display_name", platform.id);
        assert!(!platform.icon_png.is_empty(), "`{}` has empty icon_png", platform.id);
        assert!(!platform.codecs.is_empty(), "`{}` has zero codecs", platform.id);
        for codec_def in platform.codecs.iter() {
            assert!(!codec_def.short_label.is_empty(), "{:?}: empty short_label", codec_def.codec);
            assert!(!codec_def.format_label.is_empty(), "{:?}: empty format_label", codec_def.codec);
            assert!(
                matches!(codec_def.row, 1 | 2),
                "{:?} has unexpected row {} (only 1 or 2 are used)",
                codec_def.codec,
                codec_def.row
            );
            match codec_def.spec {
                CodecSpec::Bypass | CodecSpec::FmRadio { .. } => {}
                CodecSpec::Opus { bitrate_kbps }
                | CodecSpec::Vorbis { bitrate_kbps }
                | CodecSpec::AacLc { bitrate_kbps }
                | CodecSpec::AacLcMono { bitrate_kbps }
                | CodecSpec::HeAacV1 { bitrate_kbps }
                | CodecSpec::HeAacV2 { bitrate_kbps }
                | CodecSpec::Mp3 { bitrate_kbps } => {
                    assert!(bitrate_kbps > 0, "{:?} has bitrate 0", codec_def.codec);
                }
            }
        }
    }
}

#[test]
fn no_duplicate_platform_ids() {
    let all = platforms();
    let mut ids: Vec<&str> = all.iter().map(|p| p.id).collect();
    let total = ids.len();
    ids.sort();
    ids.dedup();
    assert_eq!(ids.len(), total, "duplicate platform id detected");
}

#[test]
fn every_codec_belongs_to_exactly_one_platform() {
    let all = platforms();
    for codec in all_codec_variants() {
        let owners: Vec<&str> = all
            .iter()
            .filter(|p| p.codecs.iter().any(|c| c.codec == codec))
            .map(|p| p.id)
            .collect();
        assert_eq!(owners.len(), 1, "{codec:?} belongs to {} platforms: {owners:?}", owners.len());
    }
}

#[test]
fn bluetooth_protocol_short_labels_match_expected_strings() {
    assert_eq!(BluetoothProtocol::SbcLow.short_label(), "SBC · Low");
    assert_eq!(BluetoothProtocol::SbcHigh.short_label(), "SBC · High");
    assert_eq!(BluetoothProtocol::Aac128.short_label(), "AAC · 128 kbps");
    assert_eq!(BluetoothProtocol::Aac256.short_label(), "AAC · 256 kbps");
    assert_eq!(BluetoothProtocol::Lc3_64.short_label(), "LC3 · 64 kbps");
    assert_eq!(BluetoothProtocol::Lc3_160.short_label(), "LC3 · 160 kbps");
}

#[test]
fn fm_radio_platform_has_six_variants() {
    let all = platforms();
    let fm: &PlatformDef =
        all.iter().find(|p| p.id == "fm-radio").expect("fm-radio platform present");
    assert_eq!(fm.codecs.len(), 6, "2 regions x 3 receptions = 6 tiers");
    for c in fm.codecs.iter() {
        assert!(
            matches!(c.spec, CodecSpec::FmRadio { .. }),
            "fm-radio codec {:?} should have FmRadio spec",
            c.codec
        );
    }
}

/// Every `CodecSpec` variant must be used by at least one tier.
#[test]
fn codec_spec_variants_cover_real_codec_set() {
    let mut seen_bypass = false;
    let mut seen_opus = false;
    let mut seen_vorbis = false;
    let mut seen_aac_lc = false;
    let mut seen_aac_mono = false;
    let mut seen_he_aac_v1 = false;
    let mut seen_he_aac_v2 = false;
    let mut seen_mp3 = false;
    let mut seen_fm_radio = false;
    for platform in platforms().iter() {
        for c in platform.codecs.iter() {
            match c.spec {
                CodecSpec::Bypass => seen_bypass = true,
                CodecSpec::Opus { .. } => seen_opus = true,
                CodecSpec::Vorbis { .. } => seen_vorbis = true,
                CodecSpec::AacLc { .. } => seen_aac_lc = true,
                CodecSpec::AacLcMono { .. } => seen_aac_mono = true,
                CodecSpec::HeAacV1 { .. } => seen_he_aac_v1 = true,
                CodecSpec::HeAacV2 { .. } => seen_he_aac_v2 = true,
                CodecSpec::Mp3 { .. } => seen_mp3 = true,
                CodecSpec::FmRadio { .. } => seen_fm_radio = true,
            }
        }
    }
    assert!(seen_bypass, "no Bypass tier in catalog");
    assert!(seen_opus, "no Opus tier in catalog");
    assert!(seen_vorbis, "no Vorbis tier in catalog");
    assert!(seen_aac_lc, "no AacLc tier in catalog");
    assert!(seen_aac_mono, "no AacLcMono tier in catalog");
    assert!(seen_he_aac_v1, "no HeAacV1 tier in catalog");
    assert!(seen_he_aac_v2, "no HeAacV2 tier in catalog");
    assert!(seen_mp3, "no Mp3 tier in catalog");
    assert!(seen_fm_radio, "no FmRadio tier in catalog");
}

#[test]
fn catalog_entries_have_the_published_values() {
    let low = Codec::SpotifyLow.def();
    assert_eq!(low.short_label, "Low");
    assert_eq!(low.format_label, "HE-AAC v2 · 24 kbps");
    assert_eq!(low.row, 1);
    assert_eq!(low.spec, CodecSpec::HeAacV2 { bitrate_kbps: 24 });
    assert_eq!(Codec::SpotifyLow.id(), "spotify-low");
    assert_eq!(Codec::SpotifyLow.name(), "Spotify · Low");
    let insta = Codec::InstagramStandard.def();
    assert_eq!(insta.format_label, "AAC-LC · 128 kbps (≈xHE-AAC)");
    assert_eq!(Codec::InstagramPoorConn.id(), "instagram-poor");
    assert_eq!(Codec::InstagramPoorConn.def().spec, CodecSpec::AacLcMono { bitrate_kbps: 64 });
    let eu = Codec::FmRadioEuFringe.def();
    assert_eq!(eu.format_label, "50 µs · fringe reception");
    assert_eq!(eu.row, 2);
    match eu.spec {
        CodecSpec::FmRadio { variant } => {
            assert_eq!(variant.region, FmRegion::Eu50us);
            assert_eq!(variant.reception, FmReception::Fringe);
        }
        other => panic!("unexpected recipe {other:?}"),
    }
    assert_eq!(Codec::TidalLossless.def().spec, CodecSpec::Bypass);
    assert_eq!(Codec::YouTubeOpusLow.def().spec, CodecSpec::Opus { bitrate_kbps: 70 });
}

#[test]
fn positions_round_trip_and_end_where_they_should() {
    for (i, codec) in all_codec_variants().into_iter().enumerate() {
        assert_eq!(codec.to_index(), i);
    }
    assert_eq!(Codec::from_index(Codec::COUNT), None);
    assert_eq!(Codec::COUNT, 44);
    for i in 0..Platform::COUNT {
        assert_eq!(Platform::from_index(i).unwrap().to_index(), i);
    }
    assert_eq!(Platform::from_index(Platform::COUNT), None);
    assert_eq!(Platform::Spotify.icon_png(), "resources/spotify.png");
    for i in 0..BluetoothProtocol::COUNT {
        assert_eq!(BluetoothProtocol::from_index(i).unwrap().to_index(), i);
    }
    assert_eq!(BluetoothProtocol::from_index(6), None);
    assert_eq!(BluetoothProtocol::Lc3_64.id(), "lc3-64");
}

#[test]
fn codec_ids_are_distinct_strings() {
    let mut ids: Vec<&str> = all_codec_variants().iter().map(|c| c.id()).collect();
    ids.sort();
    ids.dedup();
    assert_eq!(ids.len(), Codec::COUNT);
}

#[test]
fn lookup_tables_follow_the_index() {
    let tables = codec_lookup();
    for codec in all_codec_variants() {
        assert_eq!(tables.defs[codec.to_index()], codec.def());
        assert_eq!(tables.platforms_for_codec[codec.to_index()].id, codec.platform().id);
    }
}
