use apexshot::audio::{
    after_daemon_poll, meter_stream_exited, meter_tick, start_local_audio_monitoring,
    stop_local_audio_monitoring, LocalMeters, MeterTick,
};
use apexshot::preview_launch::{
    launch_preview, should_use_direct_editor_launch, should_use_direct_preview_launch,
    PreviewLaunch,
};

#[test]
fn meters_only_run_while_the_panel_is_open() {
    assert_eq!(meter_tick(true, false, false), MeterTick::Idle);
    assert_eq!(meter_tick(true, true, true), MeterTick::Idle);
    assert_eq!(meter_tick(true, true, false), MeterTick::PollDaemon);
    assert_eq!(meter_tick(false, true, false), MeterTick::ReadLocal);
    assert_eq!(after_daemon_poll(true), (true, false));
    assert_eq!(after_daemon_poll(false), (false, true));
}

#[test]
fn preview_launch_mode() {
    assert!(!should_use_direct_editor_launch());
    assert!(should_use_direct_preview_launch(true));
    assert!(!should_use_direct_preview_launch(false));
    assert_eq!(launch_preview(true), PreviewLaunch::Direct);
    assert_eq!(launch_preview(false), PreviewLaunch::Subprocess);
}

#[test]
fn local_meters_start_once_until_both_streams_exit() {
    let mut m = LocalMeters::idle();
    assert!(start_local_audio_monitoring(&mut m));
    assert_eq!(m, LocalMeters { running: true, stop_registered: true, streams_left: 2 });
    assert!(!start_local_audio_monitoring(&mut m));
    assert!(stop_local_audio_monitoring(&mut m));
    assert!(!stop_local_audio_monitoring(&mut m));
    // Stopped but not yet exited: a restart still spawns nothing.
    assert!(!start_local_audio_monitoring(&mut m));
    meter_stream_exited(&mut m);
    assert!(m.running);
    meter_stream_exited(&mut m);
    assert!(!m.running);
    assert!(start_local_audio_monitoring(&mut m));
}
