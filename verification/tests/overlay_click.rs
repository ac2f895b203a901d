use apexshot::overlay_click::{
    panel_or_selection_click, record_tile_click, timer_click, ClickEffect, PanelState,
    RecordPanelTile, RecordingType,
};

fn state() -> PanelState {
    PanelState {
        crop_menu_open: false,
        hovered_crop_menu_item: -1,
        settings_menu_open: false,
        hovered_settings_item: -1,
        settings_dropdown_open: None,
        hovered_settings_dropdown_item: -1,
        mic_volume_popup_open: false,
        speaker_volume_popup_open: false,
        mic_toggle: true,
        speaker_toggle: false,
        selected_record_type: None,
        hover_record_tile: None,
        hover_tool_index: Some(2),
    }
}

#[test]
fn crop_and_settings_menus_replace_each_other() {
    let mut s = state();
    assert_eq!(record_tile_click(&mut s, RecordPanelTile::Controls), ClickEffect::Redraw);
    assert!(s.settings_menu_open);
    record_tile_click(&mut s, RecordPanelTile::Crop);
    assert!(s.crop_menu_open);
    assert!(!s.settings_menu_open);
    assert_eq!(s.hover_tool_index, None);
    record_tile_click(&mut s, RecordPanelTile::Crop);
    assert!(!s.crop_menu_open);
}

#[test]
fn record_tiles_select_then_send() {
    let mut s = state();
    s.mic_volume_popup_open = true;
    assert_eq!(record_tile_click(&mut s, RecordPanelTile::RecordGif), ClickEffect::Redraw);
    assert_eq!(s.selected_record_type, Some(RecordingType::Gif));
    assert!(!s.mic_volume_popup_open);
    assert_eq!(
        record_tile_click(&mut s, RecordPanelTile::RecordGif),
        ClickEffect::SendRecording(RecordingType::Gif)
    );
    assert_eq!(record_tile_click(&mut s, RecordPanelTile::RecordVideo), ClickEffect::Redraw);
    assert_eq!(s.selected_record_type, Some(RecordingType::Video));
}

#[test]
fn toggles_flip() {
    let mut s = state();
    record_tile_click(&mut s, RecordPanelTile::Mic);
    record_tile_click(&mut s, RecordPanelTile::Speaker);
    assert!(!s.mic_toggle);
    assert!(s.speaker_toggle);
    let before = s;
    record_tile_click(&mut s, RecordPanelTile::Size);
    assert_eq!(s, before);
}

#[test]
fn other_clicks() {
    let mut s = state();
    let mut crop_open = false;
    let mut hovered = 4;
    let e = panel_or_selection_click(&mut s, &mut crop_open, &mut hovered, true, None, false, 1, false, false);
    assert_eq!(e, ClickEffect::Redraw);
    assert!(crop_open);
    assert_eq!(hovered, -1);
    let e = panel_or_selection_click(&mut s, &mut crop_open, &mut hovered, false, None, false, 2, true, true);
    assert_eq!(e, ClickEffect::SendSelection);
    let e = panel_or_selection_click(&mut s, &mut crop_open, &mut hovered, false, None, false, 1, true, true);
    assert_eq!(e, ClickEffect::Nothing);
    let e = panel_or_selection_click(
        &mut s,
        &mut crop_open,
        &mut hovered,
        true,
        Some(RecordPanelTile::Controls),
        true,
        1,
        false,
        false,
    );
    assert_eq!(e, ClickEffect::Redraw);
    assert!(s.settings_menu_open);
    assert!(crop_open);
}

#[test]
fn timer_tool_steps() {
    assert_eq!(timer_click(false, 0), (true, 5));
    assert_eq!(timer_click(false, 3), (true, 3));
    assert_eq!(timer_click(true, 3), (true, 5));
    assert_eq!(timer_click(true, 5), (true, 10));
    assert_eq!(timer_click(true, 10), (false, 0));
}
