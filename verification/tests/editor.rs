use streaming_simulator::editor::icons::{fit_size, load_icon, place_on_canvas};
use streaming_simulator::editor::{
    compute_codec_rows, device_hint, maybe_close_popup_on_bypass, platform_index_of, preset_rows,
    rebuild_codec_rows_if_stale, Click, UiState, WINDOW_HEIGHT, WINDOW_WIDTH,
};
use streaming_simulator::params::{ParamChange, StreamingSimulatorParams};
use streaming_simulator::platforms::{platforms, Codec, PlatformDef};
use streaming_simulator::processor::bluetooth::BluetoothProtocol;
use streaming_simulator::recolor::{
    recolour, recolour_png, silhouette, to_rgba, PixelLayout, PlainImage, RecolourError,
};

fn find_platform(id: &str) -> PlatformDef {
    platforms()
        .into_iter()
        .find(|p| p.id == id)
        .unwrap_or_else(|| panic!("platform `{id}` not in catalog"))
}

fn position(id: &str) -> usize {
    platforms().iter().position(|p| p.id == id).unwrap()
}

#[test]
fn codec_rows_handles_single_row_platform() {
    // Tidal collapses everything onto row 1.
    let tidal = find_platform("tidal");
    let rows = compute_codec_rows(&tidal);
    assert_eq!(rows.len(), 1, "Tidal should have exactly one row");
    assert_eq!(rows[0].len(), tidal.codecs.len());
    for &i in &rows[0] {
        assert!(i < tidal.codecs.len());
    }
}

#[test]
fn codec_rows_partitions_youtube_music_into_two_rows() {
    let yt = find_platform("youtube-music");
    let rows = compute_codec_rows(&yt);
    assert_eq!(rows.len(), 2, "YouTube Music has parallel mobile + web codec paths");
    for &i in &rows[0] {
        assert_eq!(yt.codecs[i].row, 1);
    }
    for &i in &rows[1] {
        assert_eq!(yt.codecs[i].row, 2);
    }
    assert_eq!(rows, vec![vec![0, 1, 2], vec![3, 4, 5]]);
}

/// Every codec must appear in exactly one row.
#[test]
fn codec_rows_total_equals_codec_count() {
    for platform in platforms().iter() {
        let rows = compute_codec_rows(platform);
        let total: usize = rows.iter().map(|r| r.len()).sum();
        assert_eq!(
            total,
            platform.codecs.len(),
            "platform `{}` has {} codecs but row-partition contains {}",
            platform.id,
            platform.codecs.len(),
            total
        );
    }
}

#[test]
fn cache_rebuild_skipped_when_platform_unchanged() {
    let mut state = UiState::default();
    let all = platforms();
    let spotify_idx = position("spotify");
    let spotify = &all[spotify_idx];
    rebuild_codec_rows_if_stale(&mut state, spotify_idx, spotify);
    assert_eq!(state.codec_rows_for, Some(spotify_idx));
    let first = state.codec_rows.clone();
    // Tag the cache and confirm a same-platform call doesn't rebuild it away.
    state.codec_rows.push(vec![999]);
    rebuild_codec_rows_if_stale(&mut state, spotify_idx, spotify);
    assert_eq!(state.codec_rows.last(), Some(&vec![999]));
    // Switching platforms wipes the tag via a real rebuild.
    let deezer_idx = position("deezer");
    let deezer = &all[deezer_idx];
    rebuild_codec_rows_if_stale(&mut state, deezer_idx, deezer);
    assert_eq!(state.codec_rows_for, Some(deezer_idx));
    assert!(!state.codec_rows.iter().any(|r| r.contains(&999)));
    rebuild_codec_rows_if_stale(&mut state, spotify_idx, spotify);
    assert_eq!(state.codec_rows, first);
}

#[test]
fn popup_closes_when_bypass_toggled_on() {
    let mut state = UiState::default();
    state.bt_popup_open = true;
    maybe_close_popup_on_bypass(&mut state, true);
    assert!(!state.bt_popup_open);
}

#[test]
fn popup_stays_open_when_not_bypassed() {
    let mut state = UiState::default();
    state.bt_popup_open = true;
    maybe_close_popup_on_bypass(&mut state, false);
    assert!(state.bt_popup_open);
}

#[test]
fn popup_already_closed_stays_closed() {
    let mut state = UiState::default();
    state.bt_popup_open = false;
    maybe_close_popup_on_bypass(&mut state, true);
    assert!(!state.bt_popup_open);
    maybe_close_popup_on_bypass(&mut state, false);
    assert!(!state.bt_popup_open);
}

#[test]
fn platform_index_of_round_trips_every_codec() {
    let all = platforms();
    for i in 0..Codec::COUNT {
        let codec = Codec::from_index(i).unwrap();
        let platform = &all[platform_index_of(codec)];
        assert!(
            platform.codecs.iter().any(|c| c.codec == codec),
            "platform_index_of({codec:?}) returned platform `{}` which doesn't list this codec",
            platform.id
        );
    }
}

#[test]
fn default_ui_state_is_blank() {
    let state = UiState::default();
    assert!(state.icons.is_empty());
    assert!(state.bt_icon.is_none());
    assert!(state.gear_icon.is_none());
    assert!(state.selected_platform_idx.is_none());
    assert!(!state.bt_popup_open);
    assert!(!state.info_popup_open);
    assert!(state.codec_rows.is_empty());
    assert!(state.codec_rows_for.is_none());
}

#[test]
fn window_has_its_dimensions() {
    assert_eq!((WINDOW_WIDTH, WINDOW_HEIGHT), (980, 310));
}

#[test]
fn parameters_start_at_their_defaults() {
    let params = StreamingSimulatorParams::default();
    assert_eq!(params.codec, Codec::SpotifyHigh);
    assert!(!params.bypass);
    assert!(!params.bluetooth_enabled);
    assert_eq!(params.bluetooth_protocol, BluetoothProtocol::SbcHigh);
}

#[test]
fn the_first_frame_selects_the_tab_of_the_codec() {
    let mut state = UiState::default();
    state.begin_frame(Codec::TidalLow);
    assert_eq!(state.selected_platform_idx, Some(position("tidal")));
    state.begin_frame(Codec::DeezerHiFi);
    assert_eq!(state.selected_platform_idx, Some(position("tidal")));
}

#[test]
fn clicks_change_what_they_should() {
    let params = StreamingSimulatorParams::default();
    let mut state = UiState::default();
    state.begin_frame(params.codec);
    assert_eq!(state.click(&params, Click::Platform(3)), None);
    assert_eq!(state.selected_platform_idx, Some(3));
    assert_eq!(state.click(&params, Click::Codec(Codec::SpotifyHigh)), None);
    let low = Codec::SpotifyLow;
    assert_eq!(state.click(&params, Click::Codec(low)), Some(ParamChange::Codec(low)));
    let on = ParamChange::BluetoothEnabled(true);
    assert_eq!(state.click(&params, Click::Bluetooth), Some(on));
    assert_eq!(state.click(&params, Click::Bypass), Some(ParamChange::Bypass(true)));
    assert!(params.with(ParamChange::Bypass(true)).bypass);
    assert!(params.with(on).bluetooth_enabled);
    assert_eq!(params.with(ParamChange::Codec(low)).codec, low);
}

/// The click that opens a popup is not taken for one outside it.
#[test]
fn popups_open_and_close() {
    let params = StreamingSimulatorParams::default();
    let mut state = UiState::default();
    state.begin_frame(params.codec);
    state.click(&params, Click::Gear);
    state.click(&params, Click::OutsideBluetoothPopup);
    assert!(state.bt_popup_open);
    state.begin_frame(params.codec);
    state.click(&params, Click::OutsideBluetoothPopup);
    assert!(!state.bt_popup_open);
    state.click(&params, Click::Info);
    state.click(&params, Click::OutsideInfoPopup);
    assert!(state.info_popup_open);
    state.begin_frame(params.codec);
    state.click(&params, Click::OutsideInfoPopup);
    assert!(!state.info_popup_open);
    state.click(&params, Click::Gear);
    let preset = BluetoothProtocol::Lc3_64;
    let change = state.click(&params, Click::Preset(preset));
    assert_eq!(change, Some(ParamChange::BluetoothProtocol(preset)));
    assert_eq!(params.with(change.unwrap()).bluetooth_protocol, preset);
    assert!(!state.bt_popup_open);
    state.click(&params, Click::Gear);
    assert_eq!(state.click(&params, Click::Preset(params.bluetooth_protocol)), None);
    assert!(!state.bt_popup_open);
}

#[test]
fn bypass_locks_all_but_itself_and_info() {
    let params = StreamingSimulatorParams::default().with(ParamChange::Bypass(true));
    let mut state = UiState::default();
    state.begin_frame(params.codec);
    for click in
        [Click::Platform(2), Click::Codec(Codec::TidalLow), Click::Bluetooth, Click::Gear]
    {
        assert_eq!(state.click(&params, click), None);
    }
    assert_eq!(state.selected_platform_idx, Some(0));
    assert!(!state.bt_popup_open);
    assert_eq!(state.click(&params, Click::Bypass), Some(ParamChange::Bypass(false)));
    state.click(&params, Click::Info);
    assert!(state.info_popup_open);
}

#[test]
fn popup_rows_read_from_worst_to_best() {
    let rows = preset_rows();
    let labels: Vec<&str> = rows.iter().map(|r| r.primary).collect();
    assert_eq!(labels[0], "SBC · Low");
    assert_eq!(labels[5], "LC3 · 160 kbps");
    assert_eq!(rows[3].secondary, "iPhone / AirPods");
    assert_eq!(device_hint(BluetoothProtocol::SbcHigh), "Default fallback for most BT headphones");
}

/// The size that native arithmetic gives.
fn native_fit(sw: u32, sh: u32) -> (u32, u32) {
    let scale = (128.0 / sw as f32).min(128.0 / sh as f32);
    let side = |v: u32| ((v as f32 * scale).round() as u32).max(1);
    (side(sw), side(sh))
}

#[test]
fn fit_agrees_with_native_arithmetic() {
    for w in 1..400u32 {
        for h in (1..400u32).step_by(7) {
            assert_eq!(fit_size(w, h), native_fit(w, h), "{w} x {h}");
        }
    }
    let mut x = 0x9e37_79b9u32;
    for _ in 0..20_000 {
        x ^= x << 13;
        x ^= x >> 17;
        x ^= x << 5;
        let (w, h) = ((x >> 3).max(1), (x.rotate_left(11) >> 5).max(1));
        assert_eq!(fit_size(w, h), native_fit(w, h), "{w} x {h}");
    }
    assert_eq!(fit_size(u32::MAX, 1), (128, 1));
    assert_eq!(fit_size(1, 1), (128, 128));
}

#[test]
fn canvas_centres_the_image() {
    let image: Vec<u8> = vec![7; 2 * 128 * 4];
    let canvas = place_on_canvas(&image, 2, 128);
    assert_eq!(canvas.len(), 128 * 128 * 4);
    let pixel = |x: usize, y: usize| canvas[(y * 128 + x) * 4];
    assert_eq!((pixel(62, 0), pixel(63, 0), pixel(64, 127), pixel(65, 127)), (0, 7, 7, 0));
    let counted: Vec<u8> = (0..3 * 1 * 4).map(|v| v as u8 + 1).collect();
    let canvas = place_on_canvas(&counted, 3, 1);
    let at = (63 * 128 + 62) * 4;
    assert_eq!(&canvas[at..at + 12], &counted[..]);
    assert_eq!(canvas[at - 1], 0);
    assert_eq!(canvas[at + 12], 0);
}

fn encode_png(width: u32, height: u32, color: png::ColorType, data: &[u8]) -> Vec<u8> {
    let mut bytes: Vec<u8> = Vec::new();
    {
        let mut encoder = png::Encoder::new(&mut bytes, width, height);
        encoder.set_color(color);
        encoder.set_depth(png::BitDepth::Eight);
        let mut writer = encoder.write_header().unwrap();
        writer.write_image_data(data).unwrap();
    }
    bytes
}

/// A flat image stays flat through decoding and resizing, and lands centred.
#[test]
fn icons_are_decoded_fitted_and_centred() {
    let data: Vec<u8> = [10u8, 200, 30, 255].repeat(64 * 32);
    let canvas = load_icon(&encode_png(64, 32, png::ColorType::Rgba, &data)).unwrap();
    let pixel = |x: usize, y: usize| &canvas[(y * 128 + x) * 4..][..4];
    assert_eq!(pixel(64, 31), [0, 0, 0, 0]);
    assert_eq!(pixel(64, 32), [10, 200, 30, 255]);
    assert_eq!(pixel(0, 95), [10, 200, 30, 255]);
    assert_eq!(pixel(127, 96), [0, 0, 0, 0]);
    // Alpha is added to an image that has none.
    let rgb: Vec<u8> = [1u8, 2, 3].repeat(16);
    let canvas = load_icon(&encode_png(4, 4, png::ColorType::Rgb, &rgb)).unwrap();
    assert_eq!(&canvas[..4], &[1, 2, 3, 255]);
}

/// An image of the canvas's own size is taken over byte for byte.
#[test]
fn an_icon_of_the_right_size_is_copied() {
    let data: Vec<u8> = (0..128 * 128 * 4).map(|i: u32| (i * 7 % 251) as u8).collect();
    let canvas = load_icon(&encode_png(128, 128, png::ColorType::Rgba, &data)).unwrap();
    assert_eq!(canvas, data);
}

#[test]
fn what_is_no_colour_png_gives_no_icon() {
    assert!(load_icon(&vec![1, 2, 3]).is_none());
    assert!(load_icon(&Vec::new()).is_none());
    // Greyscale decodes to two bytes a pixel, too few for the resizer.
    let grey = encode_png(8, 8, png::ColorType::Grayscale, &[9u8; 64]);
    assert!(load_icon(&grey).is_none());
}

#[test]
fn recolouring_keeps_alpha_and_greys_the_rest() {
    let rgba = vec![1, 2, 3, 255, 4, 5, 6, 0, 7, 8, 9, 17];
    let grey = recolour(&rgba);
    assert_eq!(grey, vec![190, 190, 190, 255, 0, 0, 0, 0, 190, 190, 190, 17]);
    assert_eq!(recolour(&grey), grey);
}

#[test]
fn every_layout_becomes_rgba() {
    let rgb = to_rgba(PixelLayout::Rgb, &vec![1, 2, 3, 4, 5, 6]).unwrap();
    assert_eq!(rgb, vec![1, 2, 3, 255, 4, 5, 6, 255]);
    let ga = to_rgba(PixelLayout::GrayscaleAlpha, &vec![7, 8]).unwrap();
    assert_eq!(ga, vec![7, 7, 7, 8]);
    let g = to_rgba(PixelLayout::Grayscale, &vec![5, 6]).unwrap();
    assert_eq!(g, vec![5, 5, 5, 255, 6, 6, 6, 255]);
    let rgba = to_rgba(PixelLayout::Rgba, &vec![1, 2, 3, 4]).unwrap();
    assert_eq!(rgba, vec![1, 2, 3, 4]);
    assert_eq!(to_rgba(PixelLayout::Indexed, &vec![1]), None);
}

/// The recoloured file decodes to the silhouette, whatever the source's layout.
#[test]
fn recoloured_files_hold_the_silhouette() {
    let decode = |file: &Vec<u8>| {
        let mut reader = png::Decoder::new(std::io::Cursor::new(file)).read_info().unwrap();
        let mut pixels = vec![0u8; reader.output_buffer_size().unwrap()];
        let info = reader.next_frame(&mut pixels).unwrap();
        assert_eq!(info.color_type, png::ColorType::Rgba);
        (info.width, info.height, pixels)
    };
    let rgba = encode_png(2, 1, png::ColorType::Rgba, &[1, 2, 3, 0, 4, 5, 6, 77]);
    let file = recolour_png(&rgba).unwrap();
    assert_eq!(decode(&file), (2, 1, vec![0, 0, 0, 0, 190, 190, 190, 77]));
    assert_eq!(recolour_png(&file).unwrap(), file);
    let grey = encode_png(1, 2, png::ColorType::GrayscaleAlpha, &[9, 128, 9, 0]);
    let file = recolour_png(&grey).unwrap();
    assert_eq!(decode(&file), (1, 2, vec![190, 190, 190, 128, 0, 0, 0, 0]));
    let rgb = encode_png(1, 1, png::ColorType::Rgb, &[9, 8, 7]);
    assert_eq!(decode(&recolour_png(&rgb).unwrap()), (1, 1, vec![190, 190, 190, 255]));
}

#[test]
fn what_cannot_be_recoloured_is_refused() {
    assert_eq!(recolour_png(&vec![1, 2, 3]), Err(RecolourError::Decode));
    let mut deep: Vec<u8> = Vec::new();
    {
        let mut encoder = png::Encoder::new(&mut deep, 1, 1);
        encoder.set_color(png::ColorType::Grayscale);
        encoder.set_depth(png::BitDepth::Sixteen);
        encoder.write_header().unwrap().write_image_data(&[1, 2]).unwrap();
    }
    assert_eq!(recolour_png(&deep), Err(RecolourError::BitDepth(16)));
    let mut indexed: Vec<u8> = Vec::new();
    {
        let mut encoder = png::Encoder::new(&mut indexed, 1, 1);
        encoder.set_color(png::ColorType::Indexed);
        encoder.set_palette(vec![1u8, 2, 3]);
        encoder.write_header().unwrap().write_image_data(&[0]).unwrap();
    }
    assert_eq!(recolour_png(&indexed), Err(RecolourError::Indexed));
    let image = |bit_depth, layout| PlainImage {
        width: 1,
        height: 1,
        layout,
        bit_depth,
        pixels: vec![7],
    };
    assert_eq!(silhouette(&image(4, PixelLayout::Indexed)), Err(RecolourError::BitDepth(4)));
    assert_eq!(silhouette(&image(8, PixelLayout::Grayscale)), Ok(vec![190, 190, 190, 255]));
}

/// Colours are not premultiplied: that of a transparent pixel reaches into the
/// edge of its neighbour.
#[test]
fn icons_keep_the_colours_of_their_edges() {
    let row = [255u8, 0, 0, 255, 0, 255, 0, 0];
    let data: Vec<u8> = row.repeat(2);
    let canvas = load_icon(&encode_png(2, 2, png::ColorType::Rgba, &data)).unwrap();
    let edge = &canvas[(64 * 128 + 60) * 4..][..4];
    assert!(edge[0] > 0 && edge[1] > 0 && edge[3] > 0);
}
