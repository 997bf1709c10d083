//! The editor's state machine: what is selected, which popups are open, and
//! what a click does. Drawing happens elsewhere.

pub mod icons;

use crate::params::{ParamChange, StreamingSimulatorParams};
use crate::platforms::{Codec, CodecDef, Platform, PlatformDef};
use crate::processor::bluetooth::BluetoothProtocol;
use vstd::prelude::*;

verus! {

/// Sized for Spotify's 5-button row + a 2-codec-row platform like YouTube
/// Music. Single-row platforms get extra empty space below, kept constant
/// across tabs so the window doesn't resize on switch.
pub const WINDOW_WIDTH: u32 = 980;

pub const WINDOW_HEIGHT: u32 = 310;

/// Per-instance UI state retained across frames and editor open/close.
pub struct UiState {
    /// Platform icons as RGBA canvases, in tab order.
    pub icons: Vec<Vec<u8>>,
    pub bt_icon: Option<Vec<u8>>,
    pub gear_icon: Option<Vec<u8>>,
    /// Position of the currently visible tab. Initialised from whichever
    /// platform owns the persisted codec parameter.
    pub selected_platform_idx: Option<usize>,
    pub bt_popup_open: bool,
    pub info_popup_open: bool,
    /// Cached codec-index grouping per row for the active tab. Rebuilt only
    /// when `codec_rows_for` falls out of sync.
    pub codec_rows: Vec<Vec<usize>>,
    pub codec_rows_for: Option<usize>,
    /// The gear was clicked in this frame: the same click, seen as one outside
    /// the popup, must not close it again.
    pub gear_clicked: bool,
    /// Likewise for the info button.
    pub info_clicked: bool,
}

impl Default for UiState {
    fn default() -> (r: UiState)
        ensures
            r.icons@.len() == 0,
            r.bt_icon is None,
            r.gear_icon is None,
            r.selected_platform_idx is None,
            !r.bt_popup_open,
            !r.info_popup_open,
            r.codec_rows@.len() == 0,
            r.codec_rows_for is None,
            !r.gear_clicked,
            !r.info_clicked,
    {
        UiState {
            icons: Vec::new(),
            bt_icon: None,
            gear_icon: None,
            selected_platform_idx: None,
            bt_popup_open: false,
            info_popup_open: false,
            codec_rows: Vec::new(),
            codec_rows_for: None,
            gear_clicked: false,
            info_clicked: false,
        }
    }
}

/// Position of the tab that offers a codec.
pub fn platform_index_of(codec: Codec) -> (r: usize)
    ensures
        r == codec.owner().to_index(),
        r < 11,
        Platform::spec_at(r as int).tiers().contains(codec),
{
    let owner = codec.owner();
    proof {
        crate::platforms::law_codec_has_one_platform(codec, owner);
    }
    owner.to_index()
}

/// The positions, from `0` up to `n`, of the codecs of one row.
pub open spec fn row_indices(codecs: Seq<CodecDef>, row: u8, n: nat) -> Seq<usize>
    decreases n,
{
    if n == 0 {
        Seq::empty()
    } else {
        let head = row_indices(codecs, row, (n - 1) as nat);
        if codecs[n - 1].row == row {
            head.push((n - 1) as usize)
        } else {
            head
        }
    }
}

/// The rows from `1` up to `max_row`, empty ones left out.
pub open spec fn grouped(codecs: Seq<CodecDef>, max_row: nat) -> Seq<Seq<usize>>
    decreases max_row,
{
    if max_row == 0 {
        Seq::empty()
    } else {
        let above = grouped(codecs, (max_row - 1) as nat);
        let row = row_indices(codecs, max_row as u8, codecs.len());
        if row.len() == 0 {
            above
        } else {
            above.push(row)
        }
    }
}

/// The largest row among the first `n` codecs, `n` at least one.
pub open spec fn largest_row(codecs: Seq<CodecDef>, n: nat) -> u8
    decreases n,
{
    if n <= 1 {
        codecs[0].row
    } else {
        let m = largest_row(codecs, (n - 1) as nat);
        if codecs[n - 1].row > m {
            codecs[n - 1].row
        } else {
            m
        }
    }
}

/// The largest row in use; `1` where there are no codecs.
pub open spec fn top_row(codecs: Seq<CodecDef>) -> u8 {
    if codecs.len() == 0 {
        1
    } else {
        largest_row(codecs, codecs.len())
    }
}

/// The rows as plain sequences.
pub open spec fn rows_view(rows: Seq<Vec<usize>>) -> Seq<Seq<usize>> {
    Seq::new(rows.len(), |i: int| rows[i]@)
}

fn max_row(codecs: &Vec<CodecDef>) -> (r: u8)
    ensures
        r == top_row(codecs@),
{
    let n: usize = codecs.len();
    if n == 0 {
        return 1;
    }
    let mut m: u8 = codecs[0].row;
    for i in 1..n
        invariant
            n == codecs.len(),
            n >= 1,
            m == largest_row(codecs@, i as nat),
    {
        if codecs[i].row > m {
            m = codecs[i].row;
        }
    }
    m
}

fn one_row(codecs: &Vec<CodecDef>, row: u8) -> (r: Vec<usize>)
    ensures
        r@ == row_indices(codecs@, row, codecs@.len()),
{
    let n: usize = codecs.len();
    let mut r: Vec<usize> = Vec::new();
    for i in 0..n
        invariant
            n == codecs.len(),
            r@ == row_indices(codecs@, row, i as nat),
    {
        if codecs[i].row == row {
            r.push(i);
        }
    }
    r
}

/// Group codec indices by `row`, dropping empty rows. Gives positions in
/// `platform.codecs`.
pub fn compute_codec_rows(platform: &PlatformDef) -> (r: Vec<Vec<usize>>)
    ensures
        rows_view(r@) == grouped(platform.codecs@, top_row(platform.codecs@) as nat),
{
    let m = max_row(&platform.codecs);
    let mut rows: Vec<Vec<usize>> = Vec::new();
    let mut row_num: u8 = 0;
    proof {
        assert(rows_view(rows@) =~= grouped(platform.codecs@, 0));
    }
    while row_num < m
        invariant
            row_num <= m,
            rows_view(rows@) == grouped(platform.codecs@, row_num as nat),
        decreases m - row_num,
    {
        row_num = row_num + 1;
        let row = one_row(&platform.codecs, row_num);
        if row.len() > 0 {
            let ghost before = rows@;
            rows.push(row);
            proof {
                assert(rows_view(rows@) =~= rows_view(before).push(row@));
            }
        }
    }
    rows
}

/// Rebuild the cached rows only when the cached platform changed.
pub fn rebuild_codec_rows_if_stale(
    state: &mut UiState,
    platform_idx: usize,
    platform: &PlatformDef,
)
    ensures
        old(state).codec_rows_for == Some(platform_idx) ==> *final(state) == *old(state),
        old(state).codec_rows_for != Some(platform_idx) ==> {
            &&& *final(state) == (UiState {
                codec_rows: final(state).codec_rows,
                codec_rows_for: Some(platform_idx),
                ..*old(state)
            })
            &&& rows_view(final(state).codec_rows@) == grouped(
                platform.codecs@,
                top_row(platform.codecs@) as nat,
            )
        },
{
    if let Some(cached) = state.codec_rows_for {
        if cached == platform_idx {
            return;
        }
    }
    state.codec_rows = compute_codec_rows(platform);
    state.codec_rows_for = Some(platform_idx);
}

/// Close the BT-protocol popup when bypass engages: it stands for an action
/// that's invalid while bypassed.
pub fn maybe_close_popup_on_bypass(state: &mut UiState, bypassed: bool)
    ensures
        *final(state) == (UiState {
            bt_popup_open: old(state).bt_popup_open && !bypassed,
            ..*old(state)
        }),
{
    if bypassed {
        state.bt_popup_open = false;
    }
}

/// A click in the editor.
#[derive(Clone, Copy, PartialEq, Eq, Structural, Debug)]
pub enum Click {
    /// A platform tab.
    Platform(usize),
    /// A codec button.
    Codec(Codec),
    /// The Bluetooth half of the pill.
    Bluetooth,
    /// The gear half of the pill.
    Gear,
    Bypass,
    Info,
    /// A row of the Bluetooth popup.
    Preset(BluetoothProtocol),
    /// Outside the open Bluetooth popup.
    OutsideBluetoothPopup,
    /// Outside the open info popup.
    OutsideInfoPopup,
}

/// The state after a click.
pub open spec fn state_after(
    state: UiState,
    params: StreamingSimulatorParams,
    click: Click,
) -> UiState {
    match click {
        Click::Platform(i) if !params.bypass => UiState {
            selected_platform_idx: Some(i),
            ..state
        },
        Click::Gear if !params.bypass => UiState {
            bt_popup_open: !state.bt_popup_open,
            gear_clicked: true,
            ..state
        },
        Click::Info => UiState {
            info_popup_open: !state.info_popup_open,
            info_clicked: true,
            ..state
        },
        Click::Preset(_) => UiState { bt_popup_open: false, ..state },
        Click::OutsideBluetoothPopup if !state.gear_clicked => UiState {
            bt_popup_open: false,
            ..state
        },
        Click::OutsideInfoPopup if !state.info_clicked => UiState {
            info_popup_open: false,
            ..state
        },
        _ => state,
    }
}

/// The parameter change that a click asks for.
pub open spec fn change_for(
    params: StreamingSimulatorParams,
    click: Click,
) -> Option<ParamChange> {
    match click {
        Click::Codec(codec) if !params.bypass && codec != params.codec => Some(
            ParamChange::Codec(codec),
        ),
        Click::Bluetooth if !params.bypass => Some(
            ParamChange::BluetoothEnabled(!params.bluetooth_enabled),
        ),
        Click::Bypass => Some(ParamChange::Bypass(!params.bypass)),
        Click::Preset(preset) if preset != params.bluetooth_protocol => Some(
            ParamChange::BluetoothProtocol(preset),
        ),
        _ => None,
    }
}

impl UiState {
    /// Starts a frame: no click has been seen yet, and a tab is selected.
    pub fn begin_frame(&mut self, codec: Codec)
        ensures
            *final(self) == (UiState {
                gear_clicked: false,
                info_clicked: false,
                selected_platform_idx: final(self).selected_platform_idx,
                ..*old(self)
            }),
            old(self).selected_platform_idx is Some ==> final(self).selected_platform_idx == old(
                self,
            ).selected_platform_idx,
            old(self).selected_platform_idx is None ==> final(self).selected_platform_idx == Some(
                codec.owner().to_index(),
            ),
    {
        self.gear_clicked = false;
        self.info_clicked = false;
        if self.selected_platform_idx.is_none() {
            self.selected_platform_idx = Some(platform_index_of(codec));
        }
    }

    /// Takes a click, and gives the parameter change it asks for. While
    /// bypassed the tabs, the codec buttons and the Bluetooth pill are dead;
    /// the bypass and info buttons never are.
    pub fn click(&mut self, params: &StreamingSimulatorParams, click: Click) -> (r: Option<
        ParamChange,
    >)
        ensures
            *final(self) == state_after(*old(self), *params, click),
            r == change_for(*params, click),
    {
        match click {
            Click::Platform(i) => {
                if !params.bypass {
                    self.selected_platform_idx = Some(i);
                }
                None
            },
            Click::Codec(codec) => {
                if !params.bypass && codec != params.codec {
                    Some(ParamChange::Codec(codec))
                } else {
                    None
                }
            },
            Click::Bluetooth => {
                if !params.bypass {
                    Some(ParamChange::BluetoothEnabled(!params.bluetooth_enabled))
                } else {
                    None
                }
            },
            Click::Gear => {
                if !params.bypass {
                    self.bt_popup_open = !self.bt_popup_open;
                    self.gear_clicked = true;
                }
                None
            },
            Click::Bypass => Some(ParamChange::Bypass(!params.bypass)),
            Click::Info => {
                self.info_popup_open = !self.info_popup_open;
                self.info_clicked = true;
                None
            },
            Click::Preset(preset) => {
                self.bt_popup_open = false;
                if preset != params.bluetooth_protocol {
                    Some(ParamChange::BluetoothProtocol(preset))
                } else {
                    None
                }
            },
            Click::OutsideBluetoothPopup => {
                if !self.gear_clicked {
                    self.bt_popup_open = false;
                }
                None
            },
            Click::OutsideInfoPopup => {
                if !self.info_clicked {
                    self.info_popup_open = false;
                }
                None
            },
        }
    }
}

/// One row of the Bluetooth popup.
#[derive(Clone, Copy, PartialEq, Eq, Debug)]
pub struct PresetRow {
    pub preset: BluetoothProtocol,
    pub primary: &'static str,
    /// Plain-language device hint.
    pub secondary: &'static str,
}

pub open spec fn spec_device_hint(preset: BluetoothProtocol) -> &'static str {
    match preset {
        BluetoothProtocol::SbcLow => "Cheap earbuds / older speakers",
        BluetoothProtocol::SbcHigh => "Default fallback for most BT headphones",
        BluetoothProtocol::Aac128 => "Older Android phones",
        BluetoothProtocol::Aac256 => "iPhone / AirPods",
        BluetoothProtocol::Lc3_64 => "LE Audio low-power (mono)",
        BluetoothProtocol::Lc3_160 => "LE Audio high-quality",
    }
}

/// Who meets a preset in the wild.
pub fn device_hint(preset: BluetoothProtocol) -> (r: &'static str)
    ensures
        r == spec_device_hint(preset),
{
    match preset {
        BluetoothProtocol::SbcLow => "Cheap earbuds / older speakers",
        BluetoothProtocol::SbcHigh => "Default fallback for most BT headphones",
        BluetoothProtocol::Aac128 => "Older Android phones",
        BluetoothProtocol::Aac256 => "iPhone / AirPods",
        BluetoothProtocol::Lc3_64 => "LE Audio low-power (mono)",
        BluetoothProtocol::Lc3_160 => "LE Audio high-quality",
    }
}

/// `row` is the one at place `i`.
pub open spec fn is_preset_row(row: PresetRow, i: int) -> bool {
    &&& row.preset.to_index() == i
    &&& row.primary == row.preset.short_label()
    &&& row.secondary == spec_device_hint(row.preset)
}

/// The popup's rows, worst to best, so that it reads top-down from "cheap
/// earbuds" to "high-end LE Audio".
pub fn preset_rows() -> (r: Vec<PresetRow>)
    ensures
        r.len() == 6,
        forall|i: int|
            0 <= i < 6 ==> is_preset_row(#[trigger] r@[i], i),
{
    let mut r: Vec<PresetRow> = Vec::new();
    for i in 0..6usize
        invariant
            r.len() == i,
            forall|k: int|
                0 <= k < i ==> is_preset_row(#[trigger] r@[k], k),
    {
        match BluetoothProtocol::from_index(i) {
            Some(preset) => r.push(
                PresetRow {
                    preset,
                    primary: preset.short_label(),
                    secondary: device_hint(preset),
                },
            ),
            None => {
                assert(false);
            },
        }
    }
    r
}

/// Clicking bypass twice leaves everything as it was.
pub proof fn law_bypass_toggles_back(state: UiState, params: StreamingSimulatorParams)
    ensures
        change_for(params, Click::Bypass) is Some,
        ({
            let once = params.with(change_for(params, Click::Bypass)->0);
            once.with(change_for(once, Click::Bypass)->0) == params
        }),
        state_after(state, params, Click::Bypass) == state,
{
}

/// While bypassed no click but the bypass button's changes what is heard, and
/// with the popup closed none changes a parameter.
pub proof fn law_bypass_locks_the_codec(params: StreamingSimulatorParams, click: Click)
    requires
        params.bypass,
    ensures
        !(change_for(params, click) matches Some(ParamChange::Codec(_))),
        !(change_for(params, click) matches Some(ParamChange::BluetoothEnabled(_))),
        !(click is Bypass) && !(click is Preset) ==> change_for(params, click) is None,
{
}

/// The click that opens a popup never closes it again in the same frame.
pub proof fn law_opening_click_does_not_close(state: UiState, params: StreamingSimulatorParams)
    ensures
        !params.bypass ==> ({
            let opened = state_after(state, params, Click::Gear);
            state_after(opened, params, Click::OutsideBluetoothPopup) == opened
        }),
        ({
            let opened = state_after(state, params, Click::Info);
            state_after(opened, params, Click::OutsideInfoPopup) == opened
        }),
{
}

proof fn lemma_row_indices(codecs: Seq<CodecDef>, row: u8, n: nat)
    requires
        n <= codecs.len() <= usize::MAX,
    ensures
        forall|j: int|
            0 <= j < row_indices(codecs, row, n).len() ==> {
                let i = #[trigger] row_indices(codecs, row, n)[j];
                i < n && codecs[i as int].row == row
            },
        forall|i: int|
            0 <= i < n && (#[trigger] codecs[i]).row == row ==> row_indices(
                codecs,
                row,
                n,
            ).contains(i as usize),
    decreases n,
{
    if n > 0 {
        lemma_row_indices(codecs, row, (n - 1) as nat);
        let head = row_indices(codecs, row, (n - 1) as nat);
        let all = row_indices(codecs, row, n);
        assert forall|i: int| 0 <= i < n && (#[trigger] codecs[i]).row == row implies all.contains(
            i as usize,
        ) by {
            if i < n - 1 {
                assert(head.contains(i as usize));
                let j = choose|j: int| 0 <= j < head.len() && head[j] == i as usize;
                assert(all[j] == i as usize);
            } else {
                assert(all[all.len() - 1] == i as usize);
            }
        }
    }
}

/// Every codec stands in the group of its own row: the codec at position `i`
/// is among the positions of its row, and of no other.
pub proof fn law_rows_partition_the_codecs(codecs: Seq<CodecDef>, i: int, row: u8)
    requires
        0 <= i < codecs.len() <= usize::MAX,
    ensures
        row_indices(codecs, row, codecs.len()).contains(i as usize) <==> codecs[i].row == row,
{
    lemma_row_indices(codecs, row, codecs.len());
    if row_indices(codecs, row, codecs.len()).contains(i as usize) {
        let rows = row_indices(codecs, row, codecs.len());
        let j = choose|j: int| 0 <= j < rows.len() && rows[j] == i as usize;
        assert(codecs[rows[j] as int].row == row);
    }
}

proof fn lemma_largest_row(codecs: Seq<CodecDef>, n: nat, i: int)
    requires
        0 <= i < n <= codecs.len(),
    ensures
        codecs[i].row <= largest_row(codecs, n),
    decreases n,
{
    if n > 1 && i < n - 1 {
        lemma_largest_row(codecs, (n - 1) as nat, i);
    }
}

/// Each nonempty row up to `max_row` is one of the groups.
proof fn lemma_grouped(codecs: Seq<CodecDef>, max_row: nat, row: u8)
    requires
        1 <= row <= max_row <= 255,
        row_indices(codecs, row, codecs.len()).len() > 0,
    ensures
        grouped(codecs, max_row).contains(row_indices(codecs, row, codecs.len())),
    decreases max_row,
{
    let all = grouped(codecs, max_row);
    let above = grouped(codecs, (max_row - 1) as nat);
    let wanted = row_indices(codecs, row, codecs.len());
    if row < max_row {
        lemma_grouped(codecs, (max_row - 1) as nat, row);
        let k = choose|k: int| 0 <= k < above.len() && above[k] == wanted;
        assert(all[k] == wanted);
    } else {
        assert(all[all.len() - 1] == wanted);
    }
}

/// Every codec with a row is shown: the group of its row is among the rows.
pub proof fn law_every_codec_is_shown(codecs: Seq<CodecDef>, i: int)
    requires
        0 <= i < codecs.len() <= usize::MAX,
        codecs[i].row >= 1,
    ensures
        ({
            let group = row_indices(codecs, codecs[i].row, codecs.len());
            &&& group.contains(i as usize)
            &&& grouped(codecs, top_row(codecs) as nat).contains(group)
        }),
{
    lemma_largest_row(codecs, codecs.len(), i);
    law_rows_partition_the_codecs(codecs, i, codecs[i].row);
    lemma_grouped(codecs, top_row(codecs) as nat, codecs[i].row);
}

}
