//! The editor: what a click leads to, and what an icon looks like.

use crate::editor::icons::canvas_byte;
use crate::editor::{change_for, row_indices, state_after, Click, UiState};
use crate::params::StreamingSimulatorParams;
use crate::platforms::CodecDef;
use crate::recolor::{silhouette_bytes, PixelLayout};
use vstd::arithmetic::div_mod::*;
use vstd::prelude::*;

verus! {

/// The parameters once the change that a click asks for is made.
pub open spec fn params_after(
    params: StreamingSimulatorParams,
    click: Click,
) -> StreamingSimulatorParams {
    match change_for(params, click) {
        Some(change) => params.with(change),
        None => params,
    }
}

/// A click on something live leads to what it names: the codec of the button, the
/// preset of the row, Bluetooth or bypass the other way round. Nothing else changes,
/// and nothing is asked for that is already so.
pub proof fn law_click_leads_to_what_it_names(params: StreamingSimulatorParams, click: Click)
    ensures
        ({
            let p = params_after(params, click);
            &&& p.codec == match click {
                Click::Codec(c) if !params.bypass => c,
                _ => params.codec,
            }
            &&& p.bypass == (if click is Bypass {
                !params.bypass
            } else {
                params.bypass
            })
            &&& p.bluetooth_enabled == (if click is Bluetooth && !params.bypass {
                !params.bluetooth_enabled
            } else {
                params.bluetooth_enabled
            })
            &&& p.bluetooth_protocol == match click {
                Click::Preset(preset) => preset,
                _ => params.bluetooth_protocol,
            }
            &&& change_for(params, click) is Some <==> p != params
        }),
{
}

/// What a click does to the window: a tab is selected by its own click and no other,
/// the gear and the preset rows work the Bluetooth popup, the info button its own
/// popup, and neither touches the other's.
pub proof fn law_clicks_work_their_own_popup(
    state: UiState,
    params: StreamingSimulatorParams,
    click: Click,
)
    ensures
        ({
            let s = state_after(state, params, click);
            &&& s.selected_platform_idx == match click {
                Click::Platform(i) if !params.bypass => Some(i),
                _ => state.selected_platform_idx,
            }
            &&& click is Gear && !params.bypass ==> s.bt_popup_open == !state.bt_popup_open
            &&& click is Preset ==> !s.bt_popup_open
            &&& click is Info ==> s.info_popup_open == !state.info_popup_open
            &&& s.bt_popup_open != state.bt_popup_open ==> click is Gear || click is Preset
                || click is OutsideBluetoothPopup
            &&& s.info_popup_open != state.info_popup_open ==> click is Info || click
                is OutsideInfoPopup
            &&& click is OutsideBluetoothPopup ==> s.bt_popup_open == (state.bt_popup_open
                && state.gear_clicked)
            &&& click is OutsideInfoPopup ==> s.info_popup_open == (state.info_popup_open
                && state.info_clicked)
            &&& s.icons == state.icons
            &&& s.codec_rows == state.codec_rows
        }),
{
}

/// The codecs of a row stand in the order of the catalog, each once.
pub proof fn law_rows_keep_the_order(codecs: Seq<CodecDef>, row: u8, n: nat, a: int, b: int)
    requires
        n <= codecs.len() <= usize::MAX,
        0 <= a < b < row_indices(codecs, row, n).len(),
    ensures
        row_indices(codecs, row, n)[a] < row_indices(codecs, row, n)[b] < n,
    decreases n,
{
    if n > 0 {
        let head = row_indices(codecs, row, (n - 1) as nat);
        if b < head.len() {
            law_rows_keep_the_order(codecs, row, (n - 1) as nat, a, b);
        } else {
            lemma_row_bound(codecs, row, (n - 1) as nat, a);
        }
    }
}

proof fn lemma_row_bound(codecs: Seq<CodecDef>, row: u8, n: nat, a: int)
    requires
        n <= codecs.len() <= usize::MAX,
        0 <= a < row_indices(codecs, row, n).len(),
    ensures
        row_indices(codecs, row, n)[a] < n,
    decreases n,
{
    if n > 0 {
        let head = row_indices(codecs, row, (n - 1) as nat);
        if a < head.len() {
            lemma_row_bound(codecs, row, (n - 1) as nat, a);
        }
    }
}

/// An image stands in the middle of the canvas, the right way up and with its bytes
/// in order: byte `c` of the pixel in column `x` and row `y` is found as far down and
/// to the right as the margins, which differ by one pixel at most.
pub proof fn law_canvas_holds_the_image(
    image: Seq<u8>,
    width: int,
    height: int,
    x: int,
    y: int,
    c: int,
)
    requires
        1 <= width <= 128,
        1 <= height <= 128,
        0 <= x < width,
        0 <= y < height,
        0 <= c < 4,
    ensures
        ({
            let left = (128 - width) / 2;
            let top = (128 - height) / 2;
            &&& 0 <= 128 - width - 2 * left <= 1
            &&& 0 <= 128 - height - 2 * top <= 1
            &&& canvas_byte(image, width, height, ((y + top) * 128 + x + left) * 4 + c)
                == image[(y * width + x) * 4 + c]
        }),
{
    let left = (128 - width) / 2;
    let top = (128 - height) / 2;
    let i = ((y + top) * 128 + x + left) * 4 + c;
    let rem = (x + left) * 4 + c;
    assert(i == (y + top) * 512 + rem);
    lemma_fundamental_div_mod_converse(i, 512, y + top, rem);
    assert(y * (width * 4) + (x * 4 + c) == (y * width + x) * 4 + c) by (nonlinear_arith);
}

/// Everything beside the image is transparent.
pub proof fn law_canvas_is_transparent_elsewhere(
    image: Seq<u8>,
    width: int,
    height: int,
    x: int,
    y: int,
    c: int,
)
    requires
        1 <= width <= 128,
        1 <= height <= 128,
        0 <= x < 128,
        0 <= y < 128,
        0 <= c < 4,
        ({
            let left = (128 - width) / 2;
            let top = (128 - height) / 2;
            x < left || x >= left + width || y < top || y >= top + height
        }),
    ensures
        canvas_byte(image, width, height, (y * 128 + x) * 4 + c) == 0,
{
    let i = (y * 128 + x) * 4 + c;
    let rem = x * 4 + c;
    assert(i == y * 512 + rem);
    lemma_fundamental_div_mod_converse(i, 512, y, rem);
}

/// A silhouette has the alpha of its source, pixel by pixel, and one grey: 190 where
/// there is anything to see, and nothing at all where there is not.
pub proof fn law_silhouette_is_grey_with_the_source_s_alpha(
    layout: PixelLayout,
    pixels: Seq<u8>,
    p: int,
)
    requires
        !(layout is Indexed),
        0 <= p,
        layout is Rgba ==> 4 * p + 3 < pixels.len(),
        layout is Rgb ==> 3 * p + 2 < pixels.len(),
        layout is GrayscaleAlpha ==> 2 * p + 1 < pixels.len(),
        layout is Grayscale ==> p < pixels.len(),
    ensures
        ({
            let out = silhouette_bytes(layout, pixels);
            let alpha = out[4 * p + 3];
            let grey: u8 = if alpha == 0 {
                0
            } else {
                190
            };
            &&& out.len() >= 4 * p + 4
            &&& layout is Rgba ==> alpha == pixels[4 * p + 3]
            &&& layout is GrayscaleAlpha ==> alpha == pixels[2 * p + 1]
            &&& layout is Rgb || layout is Grayscale ==> alpha == 255
            &&& out[4 * p] == grey
            &&& out[4 * p + 1] == grey
            &&& out[4 * p + 2] == grey
        }),
{
    let n = pixels.len() as int;
    let d = layout.stride() as int;
    lemma_fundamental_div_mod(n, d);
    lemma_mod_bound(n, d);
    assert(p < n / d);
}

}
