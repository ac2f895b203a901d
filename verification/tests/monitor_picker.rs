use apexshot::monitor_picker::{
    estimate_panel_width, find_monitor_at, is_primary_guess, monitor_selection, picker_key_choice,
    picker_outcome, picker_panel_size, picker_release_choice, sorted_monitor_indices,
    MonitorChoice, MonitorGeometry, MonitorSelection, PickerKey,
};

fn g(x: i32, y: i32) -> MonitorGeometry {
    MonitorGeometry { x, y, width: 1920, height: 1080 }
}

#[test]
fn estimate_panel_width_grows_with_monitors() {
    assert!(estimate_panel_width(2) > estimate_panel_width(1));
    assert!(estimate_panel_width(3) > estimate_panel_width(2));
}

#[test]
fn monitor_choice_from_fields() {
    let c = MonitorChoice {
        index: 1,
        x: 1920,
        y: 0,
        width: 2560,
        height: 1440,
        connector: "DP-2".into(),
        is_primary: false,
    };
    assert_eq!(c.connector, "DP-2");
    assert_eq!(c.width, 2560);
}

#[test]
fn panel_widths() {
    assert_eq!(estimate_panel_width(0), 360);
    assert_eq!(estimate_panel_width(1), 360);
    assert_eq!(estimate_panel_width(2), 664);
    assert_eq!(picker_panel_size(0), (360, 397));
    assert_eq!(picker_panel_size(1), (360, 397));
    assert_eq!(picker_panel_size(2), (664, 397));
    assert_eq!(picker_panel_size(3), (968, 397));
    assert_eq!(picker_panel_size(usize::MAX), (i32::MAX, 397));
}

#[test]
fn monitors_are_numbered_left_to_right_then_top_to_bottom() {
    let monitors = vec![g(1920, 0), g(0, 1080), g(0, 0), g(1920, 0)];
    assert_eq!(sorted_monitor_indices(&monitors), vec![2, 1, 0, 3]);
    assert_eq!(sorted_monitor_indices(&Vec::new()), Vec::<usize>::new());
}

#[test]
fn primary_is_the_first_monitor_nearest_the_origin() {
    let monitors = vec![g(1920, 0), g(-10, 0), g(10, 0)];
    assert!(is_primary_guess(&monitors, 1));
    assert!(!is_primary_guess(&monitors, 2));
    assert!(!is_primary_guess(&monitors, 0));
    let tied = vec![g(5, 0), g(0, 5)];
    assert!(is_primary_guess(&tied, 1));
    assert!(!is_primary_guess(&Vec::new(), 0));
}

#[test]
fn monitors_are_found_by_origin_then_by_distance() {
    let monitors = vec![g(0, 0), g(1920, 0), g(1920, 0)];
    assert_eq!(find_monitor_at(&monitors, 1920, 0), Some(1));
    assert_eq!(find_monitor_at(&monitors, 1900, 3), Some(1));
    assert_eq!(find_monitor_at(&monitors, 10, 10), Some(0));
    assert_eq!(find_monitor_at(&Vec::new(), 0, 0), None);
}

#[test]
fn keys_choose_cards_by_picker_order() {
    let order = vec![2usize, 0, 1];
    assert_eq!(picker_key_choice(&order, PickerKey::Digit(1)), Some(2));
    assert_eq!(picker_key_choice(&order, PickerKey::Digit(3)), Some(1));
    assert_eq!(picker_key_choice(&order, PickerKey::Digit(4)), None);
    assert_eq!(picker_key_choice(&order, PickerKey::Escape), Some(-1));
    assert_eq!(picker_key_choice(&order, PickerKey::Confirm), Some(2));
    assert_eq!(picker_key_choice(&order, PickerKey::Other), None);
    assert_eq!(picker_release_choice(&order, Some(1), 1, false), Some(0));
    assert_eq!(picker_release_choice(&order, Some(1), 2, false), None);
    assert_eq!(picker_release_choice(&order, None, -1, true), Some(-1));
}

#[test]
fn selection_outcomes() {
    assert_eq!(monitor_selection(0), MonitorSelection::NoMonitor);
    assert_eq!(monitor_selection(1), MonitorSelection::Single);
    assert_eq!(monitor_selection(3), MonitorSelection::Interactive);
    assert_eq!(picker_outcome(-1, 3), None);
    assert_eq!(picker_outcome(3, 3), None);
    assert_eq!(picker_outcome(2, 3), Some(2));
}

#[test]
fn choice_names_fall_back_in_order() {
    let geometry = g(10, 20);
    let c = MonitorChoice::from_monitor(0, geometry, None, Some("Model".into()), "Display 1".into(), true);
    assert_eq!(c.connector, "Model");
    assert_eq!((c.x, c.y, c.width, c.height), (10, 20, 1920, 1080));
    let d = MonitorChoice::from_monitor(1, geometry, None, None, "Display 2".into(), false);
    assert_eq!(d.connector, "Display 2");
    let e = MonitorChoice::from_monitor(1, geometry, Some("HDMI-1".into()), Some("M".into()), "x".into(), false);
    assert_eq!(e.connector, "HDMI-1");
}
