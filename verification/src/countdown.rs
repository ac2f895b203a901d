//! The capture-delay countdown of the selection overlay: confirming a
//! selection while the delay timer is armed starts a countdown that ticks
//! once a second and delivers the selection when it runs out, unless it is
//! cancelled first.

use vstd::prelude::*;

verus! {

/// The countdown's state.
#[derive(Debug, Clone, Copy, PartialEq, Eq)]
pub struct Countdown {
    /// A countdown is running.
    pub active: bool,
    /// The user asked to stop the running countdown.
    pub cancel_requested: bool,
    /// Seconds left.
    pub value: i32,
    /// The pointer is over the countdown's cancel button.
    pub hovered_cancel: bool,
}

/// What confirming the selection (Enter, keypad Enter, ISO Enter or Space)
/// does.
#[derive(Debug, Clone, Copy, PartialEq, Eq)]
pub enum ConfirmAction {
    /// A countdown started; the selection is delivered when it runs out.
    StartCountdown,
    /// Deliver the selection now.
    Deliver,
    /// A countdown is already running: nothing happens.
    Ignore,
}

/// The result of one countdown tick.
#[derive(Debug, Clone, Copy, PartialEq, Eq)]
pub enum CountdownTick {
    /// The countdown was cancelled and stops without delivering.
    Stopped,
    /// Time is up: deliver the selection; the countdown stops.
    Fire,
    /// Keep ticking.
    Continue,
}

pub open spec fn confirm_spec(timer_delay_active: bool, delay_seconds: i32, c: Countdown) -> (
    ConfirmAction,
    Countdown,
) {
    if timer_delay_active && delay_seconds > 0 && !c.active {
        (
            ConfirmAction::StartCountdown,
            Countdown { active: true, cancel_requested: false, value: delay_seconds, hovered_cancel: false },
        )
    } else if !c.active {
        (ConfirmAction::Deliver, c)
    } else {
        (ConfirmAction::Ignore, c)
    }
}

/// Confirm the selection: with the delay timer armed and a positive delay,
/// start a countdown of that many seconds; otherwise deliver at once,
/// unless a countdown is already running.
pub fn confirm_selection(timer_delay_active: bool, delay_seconds: i32, countdown: &mut Countdown) -> (action:
    ConfirmAction)
    ensures
        (action, *final(countdown)) == confirm_spec(timer_delay_active, delay_seconds, *old(countdown)),
{
    if timer_delay_active && delay_seconds > 0 && !countdown.active {
        countdown.active = true;
        countdown.cancel_requested = false;
        countdown.value = delay_seconds;
        countdown.hovered_cancel = false;
        ConfirmAction::StartCountdown
    } else if !countdown.active {
        ConfirmAction::Deliver
    } else {
        ConfirmAction::Ignore
    }
}

pub open spec fn tick_spec(c: Countdown, cancelled: bool) -> (CountdownTick, Countdown) {
    if c.cancel_requested || cancelled {
        (CountdownTick::Stopped, Countdown { active: false, cancel_requested: false, ..c })
    } else if c.value - 1 <= 0 {
        (CountdownTick::Fire, Countdown { active: false, value: (c.value - 1) as i32, ..c })
    } else {
        (CountdownTick::Continue, Countdown { value: (c.value - 1) as i32, ..c })
    }
}

/// One second of the countdown: a requested cancel, or a cancelled
/// overlay, stops it; otherwise one second is taken off, and when none is
/// left the countdown stops and fires.
pub fn countdown_tick(cancelled: bool, countdown: &mut Countdown) -> (tick: CountdownTick)
    requires
        old(countdown).value > i32::MIN,
    ensures
        (tick, *final(countdown)) == tick_spec(*old(countdown), cancelled),
{
    if countdown.cancel_requested || cancelled {
        countdown.active = false;
        countdown.cancel_requested = false;
        return CountdownTick::Stopped;
    }
    countdown.value = countdown.value - 1;
    if countdown.value <= 0 {
        countdown.active = false;
        CountdownTick::Fire
    } else {
        CountdownTick::Continue
    }
}

/// The state after `k` uncancelled ticks, or the tick that ended the
/// countdown earlier together with the state it left.
pub open spec fn run_ticks(c: Countdown, k: nat) -> (Option<CountdownTick>, Countdown)
    decreases k,
{
    if k == 0 {
        (None, c)
    } else {
        let (last, before) = run_ticks(c, (k - 1) as nat);
        if last is Some && last != Some(CountdownTick::Continue) {
            (last, before)
        } else {
            let (t, after) = tick_spec(before, false);
            (Some(t), after)
        }
    }
}

/// A countdown started by confirming with a delay of `n` seconds and never
/// cancelled keeps running for `n - 1` ticks, counting down one second per
/// tick, and fires on tick `n`, stopping itself.
pub proof fn lemma_countdown_fires_after_delay(c: Countdown, n: i32, k: nat)
    requires
        n > 0,
        confirm_spec(true, n, c).0 == ConfirmAction::StartCountdown,
        1 <= k <= n,
    ensures
        ({
            let (last, after) = run_ticks(confirm_spec(true, n, c).1, k);
            &&& after.value == n - k
            &&& k < n ==> last == Some(CountdownTick::Continue) && after.active
            &&& k == n ==> last == Some(CountdownTick::Fire) && !after.active
        }),
    decreases k,
{
    let start = confirm_spec(true, n, c).1;
    if k > 1 {
        lemma_countdown_fires_after_delay(c, n, (k - 1) as nat);
    }
    assert(run_ticks(start, 0) == (None::<CountdownTick>, start));
}

/// Cancelling stops a countdown without delivering: with a cancel request
/// pending, or the overlay cancelled, the next tick stops it.
pub proof fn lemma_cancel_stops_countdown(c: Countdown, cancelled: bool)
    requires
        c.cancel_requested || cancelled,
    ensures
        tick_spec(c, cancelled).0 == CountdownTick::Stopped,
        !tick_spec(c, cancelled).1.active,
        !tick_spec(c, cancelled).1.cancel_requested,
{
}

} // verus!
