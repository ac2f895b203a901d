//! Decisions of the overlay's audio-meter worker: meters run only while the
//! recording panel is open and no recording owns the microphone, and the
//! daemon is asked for levels until it fails once, after which the overlay
//! meters audio itself.

use vstd::prelude::*;

verus! {

/// What the meter worker does on one tick.
#[derive(Debug, Clone, Copy, PartialEq, Eq)]
pub enum MeterTick {
    /// Release local meters and show silence.
    Idle,
    /// Ask the daemon for the current levels.
    PollDaemon,
    /// Make sure local meters run and read their levels.
    ReadLocal,
}

/// The tick's action: idle while the recording panel is closed or a
/// recording holds the audio devices exclusively; otherwise poll the daemon
/// while it is still trusted, else read local meters.
pub open spec fn meter_tick_spec(try_daemon: bool, panel_open: bool, recording_exclusive: bool) -> MeterTick {
    if !panel_open || recording_exclusive {
        MeterTick::Idle
    } else if try_daemon {
        MeterTick::PollDaemon
    } else {
        MeterTick::ReadLocal
    }
}

pub fn meter_tick(try_daemon: bool, panel_open: bool, recording_exclusive: bool) -> (t: MeterTick)
    ensures
        t == meter_tick_spec(try_daemon, panel_open, recording_exclusive),
{
    if !panel_open || recording_exclusive {
        MeterTick::Idle
    } else if try_daemon {
        MeterTick::PollDaemon
    } else {
        MeterTick::ReadLocal
    }
}

/// After a daemon poll: keep trusting the daemon when it answered; when it
/// did not, stop asking it and start local meters (returns the new
/// `try_daemon` and whether to start local meters).
pub fn after_daemon_poll(answered: bool) -> (next: (bool, bool))
    ensures
        next == (answered, !answered),
{
    if answered {
        (true, false)
    } else {
        (false, true)
    }
}

/// Streams are never opened while the panel is closed or a recording owns
/// the audio devices; and once the daemon has failed to answer it is never
/// polled again (only polls can change `try_daemon`, and a failed poll
/// clears it).
pub proof fn lemma_meter_decisions(try_daemon: bool, panel_open: bool, recording_exclusive: bool)
    ensures
        (!panel_open || recording_exclusive) ==> meter_tick_spec(try_daemon, panel_open, recording_exclusive)
            == MeterTick::Idle,
        !try_daemon ==> meter_tick_spec(try_daemon, panel_open, recording_exclusive) != MeterTick::PollDaemon,
{
}

/// Bookkeeping of the overlay's own level meters (a microphone stream and
/// a speaker-monitor stream, started together): whether a pair is running,
/// whether the running pair's stop signal is still registered, and how many
/// of its streams have not exited yet.
#[derive(Debug, Clone, Copy, PartialEq, Eq)]
pub struct LocalMeters {
    pub running: bool,
    pub stop_registered: bool,
    pub streams_left: u32,
}

impl LocalMeters {
    /// A pair is running exactly while one of its streams has not exited;
    /// there are never more than two.
    pub open spec fn wf(self) -> bool {
        &&& self.running == (self.streams_left > 0)
        &&& self.streams_left <= 2
    }

    /// No meters at all.
    pub fn idle() -> (m: Self)
        ensures
            m.wf(),
            !m.running,
            !m.stop_registered,
    {
        LocalMeters { running: false, stop_registered: false, streams_left: 0 }
    }
}

/// Start local meters: when a pair is already running (even one told to
/// stop whose streams have not exited yet) nothing happens; otherwise a new
/// pair is started with its stop signal registered. Returns whether the two
/// streams are to be spawned.
pub fn start_local_audio_monitoring(meters: &mut LocalMeters) -> (spawn: bool)
    requires
        old(meters).wf(),
    ensures
        final(meters).wf(),
        spawn == !old(meters).running,
        spawn ==> *final(meters) == (LocalMeters { running: true, stop_registered: true, streams_left: 2 }),
        !spawn ==> *final(meters) == *old(meters),
{
    if meters.running {
        return false;
    }
    meters.running = true;
    meters.stop_registered = true;
    meters.streams_left = 2;
    true
}

/// Release local meters: the registered stop signal, if any, is taken and
/// raised (returns whether it was); the pair keeps counting as running until
/// its streams exit.
pub fn stop_local_audio_monitoring(meters: &mut LocalMeters) -> (signalled: bool)
    requires
        old(meters).wf(),
    ensures
        final(meters).wf(),
        signalled == old(meters).stop_registered,
        *final(meters) == (LocalMeters { stop_registered: false, ..*old(meters) }),
{
    let signalled = meters.stop_registered;
    meters.stop_registered = false;
    signalled
}

/// One stream of the running pair exited; when it was the last, the pair
/// no longer runs.
pub fn meter_stream_exited(meters: &mut LocalMeters)
    requires
        old(meters).wf(),
        old(meters).streams_left > 0,
    ensures
        final(meters).wf(),
        final(meters).streams_left == old(meters).streams_left - 1,
        final(meters).running == (old(meters).streams_left > 1),
        final(meters).stop_registered == old(meters).stop_registered,
{
    meters.streams_left = meters.streams_left - 1;
    if meters.streams_left == 0 {
        meters.running = false;
    }
}

} // verus!
