use apexshot::capture_menu::{
    decimal_string, hover_index, item_is_active, item_is_disabled, item_rect, label_for, press,
    separator_after, CaptureMenuAction, CaptureMenuResult, MenuState, PANEL_HEIGHT, PANEL_WIDTH,
};

#[test]
fn menu_state_matches_the_qt_toolbar_constraints() {
    let shot = MenuState {
        recording: false,
        ocr: false,
        timer_seconds: 0,
        microphone: false,
        speaker: false,
    };
    assert!(item_is_active(0, shot));
    assert!(!item_is_disabled(2, shot));
    let timer = MenuState {
        timer_seconds: 3,
        ..shot
    };
    assert!(item_is_disabled(3, timer));
    assert!(item_is_disabled(4, timer));
    let video = MenuState {
        recording: true,
        ..shot
    };
    assert!(item_is_active(1, video));
    assert!(item_is_disabled(3, video));
    assert!(item_is_disabled(4, video));
}

#[test]
fn item_rects_match_the_cpp_toolbar_layout() {
    assert_eq!(item_rect(0).x, 8);
    assert_eq!(item_rect(1).x, 74);
    assert_eq!(item_rect(2).x, 145);
    assert_eq!(item_rect(5).x, 376);
    assert_eq!(item_rect(7).x, 519);
}

#[test]
fn items_fit_inside_the_panel() {
    let last = item_rect(7);
    assert_eq!(last.width, 52);
    assert_eq!(last.height, 66);
    assert!((last.x + last.width) as i32 <= PANEL_WIDTH);
    assert!((last.y + last.height) as i32 <= PANEL_HEIGHT);
    assert!(separator_after(1) && separator_after(4) && separator_after(6));
    assert!(!separator_after(0));
}

#[test]
fn video_mode_clears_ocr_and_timer() {
    let s = MenuState::new();
    let (s, done) = press(s, 5);
    assert!(done.is_none());
    assert!(s.ocr);
    let (s, _) = press(s, 1);
    assert!(s.recording);
    assert!(!s.ocr);
    assert_eq!(s.timer_seconds, 0);
    // In video mode item 5 is the microphone.
    let (s, _) = press(s, 5);
    assert!(s.microphone);
    let (s, _) = press(s, 6);
    assert!(s.speaker);
}

#[test]
fn timer_cycles_through_its_settings() {
    let mut s = MenuState::new();
    let mut seen = Vec::new();
    for _ in 0..4 {
        s = press(s, 6).0;
        seen.push(s.timer_seconds);
    }
    assert_eq!(seen, vec![3, 5, 10, 0]);
}

#[test]
fn finishing_items_return_the_toggles() {
    let s = MenuState::new();
    let s = press(s, 6).0;
    let (_, done) = press(s, 2);
    let r = done.unwrap();
    assert_eq!(r.action, CaptureMenuAction::Display);
    assert_eq!(r.timer_seconds, 3);
    // Area is disabled while a timer is set.
    let (same, none) = press(s, 4);
    assert_eq!(same, s);
    assert!(none.is_none());
    let (_, cancel) = press(MenuState::new(), 7);
    assert_eq!(cancel, Some(CaptureMenuResult::default()));
    assert_eq!(CaptureMenuResult::default().action, CaptureMenuAction::Cancel);
    let (_, window) = press(MenuState::new(), 3);
    assert_eq!(window.unwrap().action, CaptureMenuAction::Window);
}

#[test]
fn hover_skips_disabled_items() {
    let ocr = MenuState { ocr: true, ..MenuState::new() };
    assert_eq!(hover_index(Some(2), ocr), -1);
    assert_eq!(hover_index(Some(0), ocr), 0);
    assert_eq!(hover_index(None, ocr), -1);
    assert_eq!(hover_index(Some(9), ocr), -1);
}

#[test]
fn labels_follow_the_mode() {
    let s = MenuState::new();
    assert_eq!(label_for(0, s), "Shot");
    assert_eq!(label_for(5, s), "OCR");
    assert_eq!(label_for(6, s), "Timer");
    assert_eq!(label_for(7, s), "");
    let t = MenuState { timer_seconds: 10, ..s };
    assert_eq!(label_for(6, t), "10s");
    let v = MenuState { recording: true, ..s };
    assert_eq!(label_for(5, v), "Mic");
    assert_eq!(label_for(6, v), "Speaker");
    assert_eq!(decimal_string(0), "0");
    assert_eq!(decimal_string(7), "7");
    assert_eq!(decimal_string(42), "42");
    assert_eq!(decimal_string(255), "255");
}
