//! The catalog: what a tier's label says is what its recipe does.

use crate::platforms::{Codec, CodecSpec};
use crate::processor::fm_mpx::FmReception;
use crate::processor::fm_radio::FmRegion;
use vstd::prelude::*;

verus! {

/// `label` begins with `name`.
pub open spec fn begins(label: Seq<char>, name: Seq<char>) -> bool {
    &&& label.len() >= name.len()
    &&& forall|i: int| 0 <= i < name.len() ==> #[trigger] label[i] == name[i]
}

/// `label` ends with `name`.
pub open spec fn ends(label: Seq<char>, name: Seq<char>) -> bool {
    &&& label.len() >= name.len()
    &&& forall|i: int|
        0 <= i < name.len() ==> label[label.len() - name.len() + i] == #[trigger] name[i]
}

/// The number that a digit stands for.
pub open spec fn digit(c: char) -> int {
    c as int - '0' as int
}

/// The decimal number `n`, of two or three digits, stands at a place, with a blank
/// and the `k` of its unit behind it.
pub open spec fn number_at(label: Seq<char>, place: int, n: int) -> bool {
    if n >= 100 {
        &&& label.len() > place + 4
        &&& digit(label[place]) * 100 + digit(label[place + 1]) * 10 + digit(label[place + 2]) == n
        &&& label[place + 3] == ' '
        &&& label[place + 4] == 'k'
    } else {
        &&& label.len() > place + 3
        &&& digit(label[place]) * 10 + digit(label[place + 1]) == n
        &&& label[place + 2] == ' '
        &&& label[place + 3] == 'k'
    }
}

/// What a label says of a codec: its name, three characters, its bitrate.
pub open spec fn says(label: Seq<char>, name: Seq<char>, kbps: int) -> bool {
    &&& begins(label, name)
    &&& number_at(label, name.len() as int + 3, kbps)
}

/// What a label has to say of a recipe.
pub open spec fn tells(label: Seq<char>, spec: CodecSpec) -> bool {
    match spec {
        CodecSpec::Bypass => ends(label, "pass-through"@),
        CodecSpec::Opus { bitrate_kbps } => says(label, "Opus"@, bitrate_kbps as int),
        CodecSpec::Vorbis { bitrate_kbps } => says(label, "Vorbis"@, bitrate_kbps as int),
        CodecSpec::AacLc { bitrate_kbps } => says(label, "AAC-LC"@, bitrate_kbps as int) && !ends(
            label,
            "mono"@,
        ),
        CodecSpec::AacLcMono { bitrate_kbps } => says(label, "AAC-LC"@, bitrate_kbps as int)
            && ends(label, "mono"@),
        CodecSpec::HeAacV1 { bitrate_kbps } => says(label, "HE-AAC v1"@, bitrate_kbps as int),
        CodecSpec::HeAacV2 { bitrate_kbps } => says(label, "HE-AAC v2"@, bitrate_kbps as int),
        CodecSpec::Mp3 { bitrate_kbps } => says(label, "MP3"@, bitrate_kbps as int),
        CodecSpec::FmRadio { variant } => {
            &&& begins(
                label,
                match variant.region {
                    FmRegion::Us75us => "75"@,
                    FmRegion::Eu50us => "50"@,
                },
            )
            &&& ends(
                label,
                match variant.reception {
                    FmReception::Pristine => "pristine reception"@,
                    FmReception::Urban => "urban reception"@,
                    FmReception::Fringe => "fringe reception"@,
                },
            )
        },
    }
}

proof fn lemma_opus_labels()
    ensures
        says("Opus · 48 kbps (web)"@, "Opus"@, 48),
        says("Opus · 128 kbps (web)"@, "Opus"@, 128),
        says("Opus · 256 kbps (web)"@, "Opus"@, 256),
        says("Opus · 48 kbps"@, "Opus"@, 48),
        says("Opus · 192 kbps"@, "Opus"@, 192),
        says("Opus · 320 kbps"@, "Opus"@, 320),
        says("Opus · 70 kbps (web)"@, "Opus"@, 70),
        says("Opus · 160 kbps (web)"@, "Opus"@, 160),
{
    reveal_strlit("Opus");
    reveal_strlit("Opus · 48 kbps (web)");
    reveal_strlit("Opus · 128 kbps (web)");
    reveal_strlit("Opus · 256 kbps (web)");
    reveal_strlit("Opus · 48 kbps");
    reveal_strlit("Opus · 192 kbps");
    reveal_strlit("Opus · 320 kbps");
    reveal_strlit("Opus · 70 kbps (web)");
    reveal_strlit("Opus · 160 kbps (web)");
}

proof fn lemma_vorbis_labels()
    ensures
        says("Vorbis · 96 kbps"@, "Vorbis"@, 96),
        says("Vorbis · 160 kbps"@, "Vorbis"@, 160),
        says("Vorbis · 320 kbps"@, "Vorbis"@, 320),
{
    reveal_strlit("Vorbis");
    reveal_strlit("Vorbis · 96 kbps");
    reveal_strlit("Vorbis · 160 kbps");
    reveal_strlit("Vorbis · 320 kbps");
}

proof fn lemma_aac_lc_labels()
    ensures
        says("AAC-LC · 128 kbps (web)"@, "AAC-LC"@, 128),
        !ends("AAC-LC · 128 kbps (web)"@, "mono"@),
        says("AAC-LC · 256 kbps (web)"@, "AAC-LC"@, 256),
        !ends("AAC-LC · 256 kbps (web)"@, "mono"@),
        says("AAC-LC · 256 kbps"@, "AAC-LC"@, 256),
        !ends("AAC-LC · 256 kbps"@, "mono"@),
        says("AAC-LC · 48 kbps (mobile)"@, "AAC-LC"@, 48),
        !ends("AAC-LC · 48 kbps (mobile)"@, "mono"@),
        says("AAC-LC · 128 kbps (mobile)"@, "AAC-LC"@, 128),
        !ends("AAC-LC · 128 kbps (mobile)"@, "mono"@),
        says("AAC-LC · 256 kbps (mobile)"@, "AAC-LC"@, 256),
        !ends("AAC-LC · 256 kbps (mobile)"@, "mono"@),
        says("AAC-LC · 96 kbps"@, "AAC-LC"@, 96),
        !ends("AAC-LC · 96 kbps"@, "mono"@),
        says("AAC-LC · 160 kbps"@, "AAC-LC"@, 160),
        !ends("AAC-LC · 160 kbps"@, "mono"@),
        says("AAC-LC · 320 kbps"@, "AAC-LC"@, 320),
        !ends("AAC-LC · 320 kbps"@, "mono"@),
        says("AAC-LC · 48 kbps (Safari)"@, "AAC-LC"@, 48),
        !ends("AAC-LC · 48 kbps (Safari)"@, "mono"@),
        says("AAC-LC · 128 kbps (Safari)"@, "AAC-LC"@, 128),
        !ends("AAC-LC · 128 kbps (Safari)"@, "mono"@),
        says("AAC-LC · 128 kbps"@, "AAC-LC"@, 128),
        !ends("AAC-LC · 128 kbps"@, "mono"@),
        says("AAC-LC · 128 kbps (≈xHE-AAC)"@, "AAC-LC"@, 128),
        !ends("AAC-LC · 128 kbps (≈xHE-AAC)"@, "mono"@),
{
    reveal_strlit("AAC-LC");
    reveal_strlit("mono");
    reveal_strlit("AAC-LC · 128 kbps (web)");
    reveal_strlit("AAC-LC · 256 kbps (web)");
    reveal_strlit("AAC-LC · 256 kbps");
    reveal_strlit("AAC-LC · 48 kbps (mobile)");
    reveal_strlit("AAC-LC · 128 kbps (mobile)");
    reveal_strlit("AAC-LC · 256 kbps (mobile)");
    reveal_strlit("AAC-LC · 96 kbps");
    reveal_strlit("AAC-LC · 160 kbps");
    reveal_strlit("AAC-LC · 320 kbps");
    reveal_strlit("AAC-LC · 48 kbps (Safari)");
    reveal_strlit("AAC-LC · 128 kbps (Safari)");
    reveal_strlit("AAC-LC · 128 kbps");
    reveal_strlit("AAC-LC · 128 kbps (≈xHE-AAC)");
    assert("AAC-LC · 128 kbps (web)"@[22] != "mono"@[3]);
    assert("AAC-LC · 256 kbps (web)"@[22] != "mono"@[3]);
    assert("AAC-LC · 256 kbps"@[16] != "mono"@[3]);
    assert("AAC-LC · 48 kbps (mobile)"@[24] != "mono"@[3]);
    assert("AAC-LC · 128 kbps (mobile)"@[25] != "mono"@[3]);
    assert("AAC-LC · 256 kbps (mobile)"@[25] != "mono"@[3]);
    assert("AAC-LC · 96 kbps"@[15] != "mono"@[3]);
    assert("AAC-LC · 160 kbps"@[16] != "mono"@[3]);
    assert("AAC-LC · 320 kbps"@[16] != "mono"@[3]);
    assert("AAC-LC · 48 kbps (Safari)"@[24] != "mono"@[3]);
    assert("AAC-LC · 128 kbps (Safari)"@[25] != "mono"@[3]);
    assert("AAC-LC · 128 kbps"@[16] != "mono"@[3]);
    assert("AAC-LC · 128 kbps (≈xHE-AAC)"@[27] != "mono"@[3]);
}

proof fn lemma_aac_lc_mono_labels()
    ensures
        says("AAC-LC · 64 kbps mono"@, "AAC-LC"@, 64),
        ends("AAC-LC · 64 kbps mono"@, "mono"@),
{
    reveal_strlit("AAC-LC");
    reveal_strlit("mono");
    reveal_strlit("AAC-LC · 64 kbps mono");
}

proof fn lemma_heaac_v1_labels()
    ensures
        says("HE-AAC v1 · 64 kbps"@, "HE-AAC v1"@, 64),
{
    reveal_strlit("HE-AAC v1");
    reveal_strlit("HE-AAC v1 · 64 kbps");
}

proof fn lemma_heaac_v2_labels()
    ensures
        says("HE-AAC v2 · 24 kbps"@, "HE-AAC v2"@, 24),
{
    reveal_strlit("HE-AAC v2");
    reveal_strlit("HE-AAC v2 · 24 kbps");
}

proof fn lemma_mp3_labels()
    ensures
        says("MP3 · 64 kbps"@, "MP3"@, 64),
        says("MP3 · 128 kbps"@, "MP3"@, 128),
        says("MP3 · 320 kbps"@, "MP3"@, 320),
{
    reveal_strlit("MP3");
    reveal_strlit("MP3 · 64 kbps");
    reveal_strlit("MP3 · 128 kbps");
    reveal_strlit("MP3 · 320 kbps");
}

proof fn lemma_lossless_labels()
    ensures
        ends("FLAC · pass-through"@, "pass-through"@),
        ends("ALAC · pass-through"@, "pass-through"@),
{
    reveal_strlit("pass-through");
    reveal_strlit("FLAC · pass-through");
    reveal_strlit("ALAC · pass-through");
}

proof fn lemma_fm_labels()
    ensures
        begins("75 µs · pristine reception"@, "75"@),
        ends("75 µs · pristine reception"@, "pristine reception"@),
        begins("75 µs · urban reception"@, "75"@),
        ends("75 µs · urban reception"@, "urban reception"@),
        begins("75 µs · fringe reception"@, "75"@),
        ends("75 µs · fringe reception"@, "fringe reception"@),
        begins("50 µs · pristine reception"@, "50"@),
        ends("50 µs · pristine reception"@, "pristine reception"@),
        begins("50 µs · urban reception"@, "50"@),
        ends("50 µs · urban reception"@, "urban reception"@),
        begins("50 µs · fringe reception"@, "50"@),
        ends("50 µs · fringe reception"@, "fringe reception"@),
{
    reveal_strlit("75");
    reveal_strlit("50");
    reveal_strlit("pristine reception");
    reveal_strlit("urban reception");
    reveal_strlit("fringe reception");
    reveal_strlit("75 µs · pristine reception");
    reveal_strlit("75 µs · urban reception");
    reveal_strlit("75 µs · fringe reception");
    reveal_strlit("50 µs · pristine reception");
    reveal_strlit("50 µs · urban reception");
    reveal_strlit("50 µs · fringe reception");
}

/// What the editor tells the user of a tier is what the tier's recipe does: the
/// codec and the bitrate, mono or not, the region and the reception.
pub proof fn law_labels_tell_the_recipe(c: Codec)
    ensures
        tells(c.def().format_label@, c.def().spec),
{
    lemma_opus_labels();
    lemma_vorbis_labels();
    lemma_aac_lc_labels();
    lemma_aac_lc_mono_labels();
    lemma_heaac_v1_labels();
    lemma_heaac_v2_labels();
    lemma_mp3_labels();
    lemma_lossless_labels();
    lemma_fm_labels();
}

}
