//! Click handling of the area-selection overlay's toolbar and recording
//! panel: the menu and toggle state each click leaves behind, and what the
//! click delivers.

use vstd::prelude::*;

verus! {

#[derive(Debug, Clone, Copy, PartialEq, Eq)]
pub enum RecordingType {
    Video,
    Gif,
}

/// Tiles of the recording panel.
#[derive(Debug, Clone, Copy, PartialEq, Eq)]
pub enum RecordPanelTile {
    Controls,
    Size,
    Crop,
    Mic,
    Speaker,
    RecordVideo,
    RecordGif,
}

/// What a click asks the window to do.
#[derive(Debug, Clone, Copy, PartialEq, Eq)]
pub enum ClickEffect {
    Nothing,
    Redraw,
    /// Deliver the current selection.
    SendSelection,
    /// Start a recording of the given type.
    SendRecording(RecordingType),
}

/// The recording panel's menus, popups and toggles.
#[derive(Debug, Clone, Copy, PartialEq, Eq)]
pub struct PanelState {
    pub crop_menu_open: bool,
    pub hovered_crop_menu_item: i32,
    pub settings_menu_open: bool,
    pub hovered_settings_item: i32,
    pub settings_dropdown_open: Option<usize>,
    pub hovered_settings_dropdown_item: i32,
    pub mic_volume_popup_open: bool,
    pub speaker_volume_popup_open: bool,
    pub mic_toggle: bool,
    pub speaker_toggle: bool,
    pub selected_record_type: Option<RecordingType>,
    pub hover_record_tile: Option<RecordPanelTile>,
    pub hover_tool_index: Option<usize>,
}

/// `t` with the crop menu, settings menu, settings dropdown and volume
/// popups closed and the tile and tool hover cleared.
pub open spec fn closed_menus(t: PanelState) -> PanelState {
    PanelState {
        crop_menu_open: false,
        settings_menu_open: false,
        settings_dropdown_open: None,
        hovered_settings_dropdown_item: -1i32,
        mic_volume_popup_open: false,
        speaker_volume_popup_open: false,
        hover_record_tile: None,
        hover_tool_index: None,
        ..t
    }
}

/// What a click on a recording-panel tile does.
///
/// Crop toggles the aspect menu and closes the settings menu, its dropdown
/// and the volume popups. Controls toggles the settings menu and closes the
/// crop menu, the dropdown and the popups. Mic and Speaker flip their toggle
/// and close their popup. Size does nothing. A record tile first selects its
/// recording type (closing every menu); clicking the already selected type
/// starts the recording and leaves the state as it was.
pub open spec fn tile_click_spec(s: PanelState, tile: RecordPanelTile) -> (PanelState, ClickEffect) {
    match tile {
        RecordPanelTile::Crop => (
            PanelState {
                crop_menu_open: !s.crop_menu_open,
                hovered_crop_menu_item: -1i32,
                settings_menu_open: false,
                settings_dropdown_open: None,
                hovered_settings_dropdown_item: -1i32,
                mic_volume_popup_open: false,
                speaker_volume_popup_open: false,
                hover_tool_index: None,
                ..s
            },
            ClickEffect::Redraw,
        ),
        RecordPanelTile::Controls => (
            PanelState {
                settings_menu_open: !s.settings_menu_open,
                hovered_settings_item: -1i32,
                settings_dropdown_open: None,
                hovered_settings_dropdown_item: -1i32,
                crop_menu_open: false,
                mic_volume_popup_open: false,
                speaker_volume_popup_open: false,
                hover_record_tile: None,
                hover_tool_index: None,
                ..s
            },
            ClickEffect::Redraw,
        ),
        RecordPanelTile::Mic => (
            PanelState { mic_toggle: !s.mic_toggle, mic_volume_popup_open: false, ..s },
            ClickEffect::Redraw,
        ),
        RecordPanelTile::Speaker => (
            PanelState { speaker_toggle: !s.speaker_toggle, speaker_volume_popup_open: false, ..s },
            ClickEffect::Redraw,
        ),
        RecordPanelTile::Size => (s, ClickEffect::Redraw),
        RecordPanelTile::RecordVideo | RecordPanelTile::RecordGif => {
            let t = if tile is RecordGif {
                RecordingType::Gif
            } else {
                RecordingType::Video
            };
            if s.selected_record_type == Some(t) {
                (s, ClickEffect::SendRecording(t))
            } else {
                (PanelState { selected_record_type: Some(t), ..closed_menus(s) }, ClickEffect::Redraw)
            }
        },
    }
}

/// Apply a click on a recording-panel tile.
pub fn record_tile_click(state: &mut PanelState, tile: RecordPanelTile) -> (effect: ClickEffect)
    ensures
        (*final(state), effect) == tile_click_spec(*old(state), tile),
{
    match tile {
        RecordPanelTile::Crop => {
            state.crop_menu_open = !state.crop_menu_open;
            state.hovered_crop_menu_item = -1;
            state.settings_menu_open = false;
            state.settings_dropdown_open = None;
            state.hovered_settings_dropdown_item = -1;
            state.mic_volume_popup_open = false;
            state.speaker_volume_popup_open = false;
            state.hover_tool_index = None;
        },
        RecordPanelTile::Controls => {
            state.settings_menu_open = !state.settings_menu_open;
            state.hovered_settings_item = -1;
            state.settings_dropdown_open = None;
            state.hovered_settings_dropdown_item = -1;
            state.crop_menu_open = false;
            state.mic_volume_popup_open = false;
            state.speaker_volume_popup_open = false;
            state.hover_record_tile = None;
            state.hover_tool_index = None;
        },
        RecordPanelTile::Mic => {
            state.mic_toggle = !state.mic_toggle;
            state.mic_volume_popup_open = false;
        },
        RecordPanelTile::Speaker => {
            state.speaker_toggle = !state.speaker_toggle;
            state.speaker_volume_popup_open = false;
        },
        RecordPanelTile::Size => {},
        RecordPanelTile::RecordVideo | RecordPanelTile::RecordGif => {
            let record_type = if matches!(tile, RecordPanelTile::RecordGif) {
                RecordingType::Gif
            } else {
                RecordingType::Video
            };
            let same = match state.selected_record_type {
                Some(RecordingType::Gif) => matches!(record_type, RecordingType::Gif),
                Some(RecordingType::Video) => matches!(record_type, RecordingType::Video),
                None => false,
            };
            if same {
                return ClickEffect::SendRecording(record_type);
            }
            state.selected_record_type = Some(record_type);
            state.crop_menu_open = false;
            state.settings_menu_open = false;
            state.settings_dropdown_open = None;
            state.hovered_settings_dropdown_item = -1;
            state.mic_volume_popup_open = false;
            state.speaker_volume_popup_open = false;
            state.hover_record_tile = None;
            state.hover_tool_index = None;
        },
    }
    ClickEffect::Redraw
}

/// Each toggle tile flips its own setting and nothing else of it: Controls
/// opens or closes the settings menu (closing the crop menu), Crop opens or
/// closes the crop menu (closing the settings menu), Mic and Speaker flip
/// their toggle; all four only ask for a redraw, and two clicks on the same
/// tile give the setting back. Size changes nothing.
pub proof fn lemma_toggle_tiles(s: PanelState)
    ensures
        tile_click_spec(s, RecordPanelTile::Controls).0.settings_menu_open == !s.settings_menu_open,
        !tile_click_spec(s, RecordPanelTile::Controls).0.crop_menu_open,
        tile_click_spec(s, RecordPanelTile::Controls).1 == ClickEffect::Redraw,
        tile_click_spec(tile_click_spec(s, RecordPanelTile::Controls).0, RecordPanelTile::Controls).0.settings_menu_open
            == s.settings_menu_open,
        tile_click_spec(s, RecordPanelTile::Crop).0.crop_menu_open == !s.crop_menu_open,
        !tile_click_spec(s, RecordPanelTile::Crop).0.settings_menu_open,
        tile_click_spec(s, RecordPanelTile::Crop).1 == ClickEffect::Redraw,
        tile_click_spec(tile_click_spec(s, RecordPanelTile::Crop).0, RecordPanelTile::Crop).0.crop_menu_open
            == s.crop_menu_open,
        tile_click_spec(s, RecordPanelTile::Mic).0.mic_toggle == !s.mic_toggle,
        tile_click_spec(s, RecordPanelTile::Mic).0.speaker_toggle == s.speaker_toggle,
        tile_click_spec(s, RecordPanelTile::Mic).1 == ClickEffect::Redraw,
        tile_click_spec(s, RecordPanelTile::Speaker).0.speaker_toggle == !s.speaker_toggle,
        tile_click_spec(s, RecordPanelTile::Speaker).0.mic_toggle == s.mic_toggle,
        tile_click_spec(s, RecordPanelTile::Speaker).1 == ClickEffect::Redraw,
        tile_click_spec(s, RecordPanelTile::Size) == (s, ClickEffect::Redraw),
        tile_click_spec(s, RecordPanelTile::Controls).0.mic_toggle == s.mic_toggle,
        tile_click_spec(s, RecordPanelTile::Controls).0.speaker_toggle == s.speaker_toggle,
        tile_click_spec(s, RecordPanelTile::Controls).0.selected_record_type == s.selected_record_type,
        tile_click_spec(s, RecordPanelTile::Crop).0.selected_record_type == s.selected_record_type,
{
}

/// The Timer tool arms the delay on its first click (5 s unless a positive
/// delay was kept), then steps 3 → 5 → 10 → off; the tool is active exactly
/// while the delay is positive.
pub proof fn lemma_timer_clicks(seconds: i32)
    ensures
        seconds <= 0 ==> timer_click_spec(false, seconds) == (true, 5i32),
        seconds > 0 ==> timer_click_spec(false, seconds) == (true, seconds),
        timer_click_spec(true, 3) == (true, 5i32),
        timer_click_spec(true, 5) == (true, 10i32),
        timer_click_spec(true, 10) == (false, 0i32),
        timer_click_spec(true, seconds).0 == (timer_click_spec(true, seconds).1 > 0),
{
}

/// A record tile whose type is not yet selected selects it and starts
/// nothing; one whose type is selected starts that recording and changes
/// nothing.
pub proof fn lemma_record_tiles(s: PanelState)
    ensures
        s.selected_record_type != Some(RecordingType::Video) ==> {
            &&& tile_click_spec(s, RecordPanelTile::RecordVideo).0.selected_record_type == Some(RecordingType::Video)
            &&& tile_click_spec(s, RecordPanelTile::RecordVideo).1 == ClickEffect::Redraw
        },
        s.selected_record_type == Some(RecordingType::Video) ==> tile_click_spec(s, RecordPanelTile::RecordVideo)
            == (s, ClickEffect::SendRecording(RecordingType::Video)),
        s.selected_record_type != Some(RecordingType::Gif) ==> {
            &&& tile_click_spec(s, RecordPanelTile::RecordGif).0.selected_record_type == Some(RecordingType::Gif)
            &&& tile_click_spec(s, RecordPanelTile::RecordGif).1 == ClickEffect::Redraw
        },
        s.selected_record_type == Some(RecordingType::Gif) ==> tile_click_spec(s, RecordPanelTile::RecordGif)
            == (s, ClickEffect::SendRecording(RecordingType::Gif)),
{
}

/// The crop menu and the settings menu are never open together: no tile
/// click opens one without closing the other.
pub proof fn lemma_one_panel_menu_open(s: PanelState, tile: RecordPanelTile)
    requires
        !(s.crop_menu_open && s.settings_menu_open),
    ensures
        !(tile_click_spec(s, tile).0.crop_menu_open && tile_click_spec(s, tile).0.settings_menu_open),
{
}

/// Clicking a record tile twice starts that kind of recording: the first
/// click selects the type, the second sends it.
pub proof fn lemma_second_record_click_sends(s: PanelState)
    ensures
        tile_click_spec(tile_click_spec(s, RecordPanelTile::RecordVideo).0, RecordPanelTile::RecordVideo).1
            == ClickEffect::SendRecording(RecordingType::Video),
        tile_click_spec(tile_click_spec(s, RecordPanelTile::RecordGif).0, RecordPanelTile::RecordGif).1
            == ClickEffect::SendRecording(RecordingType::Gif),
{
}

/// The capture-delay timer after a click on the toolbar's Timer tool: the
/// first click arms it (5 s unless a positive delay is set), later clicks
/// step 3 → 5 → 10 → off; the timer is active exactly while the delay is
/// positive.
pub open spec fn timer_click_spec(active: bool, seconds: i32) -> (bool, i32) {
    let next = if !active {
        if seconds <= 0 {
            5
        } else {
            seconds
        }
    } else if seconds == 3 {
        5
    } else if seconds == 5 {
        10
    } else {
        0
    };
    (next > 0, next)
}

pub fn timer_click(active: bool, seconds: i32) -> (next: (bool, i32))
    ensures
        next == timer_click_spec(active, seconds),
{
    let mut delay = seconds;
    if !active {
        if delay <= 0 {
            delay = 5;
        }
    } else {
        delay = match delay {
            3 => 5,
            5 => 10,
            _ => 0,
        };
    }
    (delay > 0, delay)
}

/// What a click that hits no toolbar tool does: the capture crop panel
/// toggles its menu (when the recording panel is closed); a recording tile
/// acts as `tile_click_spec`; a double click inside a finished selection
/// delivers it; anything else does nothing.
pub fn panel_or_selection_click(
    state: &mut PanelState,
    capture_crop_menu_open: &mut bool,
    hovered_capture_crop_menu_item: &mut i32,
    crop_panel_hit: bool,
    record_hit: Option<RecordPanelTile>,
    recording_panel_open: bool,
    n_press: i32,
    completed: bool,
    inside_selection: bool,
) -> (effect: ClickEffect)
    ensures
        !recording_panel_open && crop_panel_hit ==> {
            &&& effect == ClickEffect::Redraw
            &&& *final(capture_crop_menu_open) == !*old(capture_crop_menu_open)
            &&& *final(hovered_capture_crop_menu_item) == -1
            &&& *final(state) == PanelState { hover_tool_index: None, ..*old(state) }
        },
        !(!recording_panel_open && crop_panel_hit) ==> {
            &&& *final(capture_crop_menu_open) == *old(capture_crop_menu_open)
            &&& *final(hovered_capture_crop_menu_item) == *old(hovered_capture_crop_menu_item)
            &&& match record_hit {
                Some(tile) => (*final(state), effect) == tile_click_spec(*old(state), tile),
                None => {
                    &&& *final(state) == *old(state)
                    &&& effect == (if n_press == 2 && completed && inside_selection {
                        ClickEffect::SendSelection
                    } else {
                        ClickEffect::Nothing
                    })
                },
            }
        },
{
    if !recording_panel_open && crop_panel_hit {
        *capture_crop_menu_open = !*capture_crop_menu_open;
        *hovered_capture_crop_menu_item = -1;
        state.hover_tool_index = None;
        return ClickEffect::Redraw;
    }
    if let Some(tile) = record_hit {
        return record_tile_click(state, tile);
    }
    if n_press == 2 && completed && inside_selection {
        ClickEffect::SendSelection
    } else {
        ClickEffect::Nothing
    }
}

} // verus!
