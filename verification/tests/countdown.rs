use apexshot::countdown::{confirm_selection, countdown_tick, ConfirmAction, Countdown, CountdownTick};

fn idle() -> Countdown {
    Countdown { active: false, cancel_requested: true, value: 0, hovered_cancel: true }
}

#[test]
fn confirm_with_armed_timer_starts_countdown() {
    let mut c = idle();
    assert_eq!(confirm_selection(true, 3, &mut c), ConfirmAction::StartCountdown);
    assert_eq!(c, Countdown { active: true, cancel_requested: false, value: 3, hovered_cancel: false });
    // A second confirm while counting does nothing.
    assert_eq!(confirm_selection(true, 3, &mut c), ConfirmAction::Ignore);
    assert_eq!(c.value, 3);
}

#[test]
fn confirm_without_timer_delivers_now() {
    let mut c = idle();
    assert_eq!(confirm_selection(false, 5, &mut c), ConfirmAction::Deliver);
    assert_eq!(confirm_selection(true, 0, &mut c), ConfirmAction::Deliver);
    assert_eq!(c, idle());
}

#[test]
fn countdown_fires_after_delay_seconds() {
    let mut c = idle();
    confirm_selection(true, 3, &mut c);
    assert_eq!(countdown_tick(false, &mut c), CountdownTick::Continue);
    assert_eq!(c.value, 2);
    assert_eq!(countdown_tick(false, &mut c), CountdownTick::Continue);
    assert_eq!(countdown_tick(false, &mut c), CountdownTick::Fire);
    assert!(!c.active);
    assert_eq!(c.value, 0);
}

#[test]
fn cancel_stops_countdown_without_firing() {
    let mut c = idle();
    confirm_selection(true, 5, &mut c);
    c.cancel_requested = true;
    assert_eq!(countdown_tick(false, &mut c), CountdownTick::Stopped);
    assert!(!c.active && !c.cancel_requested);
    assert_eq!(c.value, 5);

    let mut d = idle();
    confirm_selection(true, 5, &mut d);
    assert_eq!(countdown_tick(true, &mut d), CountdownTick::Stopped);
}
