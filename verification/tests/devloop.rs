use pithddu::device::FrameClock;
use pithddu::devloop::{
    device_step, on_sim_line, on_track_line, ListenerAction, DevPhase, DeviceAction, DeviceEvent, DeviceLoopState, MapState,
};

fn tick(now_ms: u64, connected: bool, ota_active: bool) -> DeviceEvent {
    DeviceEvent::Tick { now_ms, connected, ota_active }
}

#[test]
fn device_round_connects_polls_and_logs() {
    let mut st = DeviceLoopState::new(0);
    let a = device_step(&mut st, tick(1000, false, false));
    assert_eq!(a, vec![DeviceAction::RescanFirmware, DeviceAction::TryConnect]);
    assert_eq!(st.phase, DevPhase::Connecting);
    assert_eq!(st.fw_tick, 1);
    let a = device_step(&mut st, DeviceEvent::Connected(true));
    assert_eq!(
        a,
        vec![
            DeviceAction::ForgetAutoModel,
            DeviceAction::ApplyConnected,
            DeviceAction::ReadRace,
            DeviceAction::ReadStatus
        ]
    );
    assert!(st.connected);
    let a = device_step(&mut st, DeviceEvent::Status("OK".to_string()));
    assert_eq!(a, vec![DeviceAction::PollTelemetry, DeviceAction::TakeLogs]);
    let a = device_step(&mut st, DeviceEvent::Logs(vec!["boot".to_string()]));
    assert_eq!(
        a,
        vec![DeviceAction::AppendLogs(vec!["boot".to_string()]), DeviceAction::Sleep(160)]
    );
    assert_eq!(st.phase, DevPhase::Idle);
    let a = device_step(&mut st, DeviceEvent::Logs(vec![]));
    assert!(a.is_empty());
}

#[test]
fn device_connect_failure_waits() {
    let mut st = DeviceLoopState::new(0);
    st.race_dirty = true;
    device_step(&mut st, tick(10, false, false));
    let a = device_step(&mut st, DeviceEvent::Connected(false));
    assert_eq!(a, vec![DeviceAction::Sleep(1500)]);
    assert_eq!(st.phase, DevPhase::Idle);
    device_step(&mut st, tick(20, false, false));
    let a = device_step(&mut st, DeviceEvent::Connected(true));
    assert_eq!(
        a,
        vec![DeviceAction::ForgetAutoModel, DeviceAction::ApplyConnected, DeviceAction::ReadStatus]
    );
}

#[test]
fn device_firmware_rescan_every_twelfth_round_and_ota_pause() {
    let mut st = DeviceLoopState::new(0);
    let mut rescans = 0;
    for i in 0..24u64 {
        let a = device_step(&mut st, tick(i, true, true));
        assert_eq!(*a.last().unwrap(), DeviceAction::Sleep(120));
        if a.contains(&DeviceAction::RescanFirmware) {
            rescans += 1;
        }
    }
    assert_eq!(rescans, 2);
}

#[test]
fn device_empty_status_disconnects_and_feeding_skips_poll() {
    let mut st = DeviceLoopState::new(0);
    st.map.push_pending = true;
    device_step(&mut st, tick(5000, true, false));
    let a = device_step(&mut st, DeviceEvent::Status(String::new()));
    assert_eq!(a, vec![DeviceAction::Disconnect, DeviceAction::TakeLogs]);
    assert!(!st.connected);
    assert!(st.map.push_pending);
    device_step(&mut st, DeviceEvent::Logs(vec![]));
    st.last_sim_frame_ms = Some(6000);
    device_step(&mut st, tick(7000, true, false));
    let a = device_step(&mut st, DeviceEvent::Status("OK".to_string()));
    assert_eq!(a, vec![DeviceAction::PushUiDoc, DeviceAction::TakeLogs]);
    assert!(!st.map.push_pending);
    device_step(&mut st, DeviceEvent::Logs(vec![]));
    device_step(&mut st, tick(7500, true, false));
    let a = device_step(&mut st, DeviceEvent::Status("OK".to_string()));
    assert_eq!(a, vec![DeviceAction::PollTelemetry, DeviceAction::TakeLogs]);
}

#[test]
fn device_map_push_waits_for_saved_layout() {
    let mut st = DeviceLoopState::new(0);
    st.map.push_pending = true;
    st.race_dirty = true;
    device_step(&mut st, tick(0, true, false));
    let a = device_step(&mut st, DeviceEvent::Status("OK".to_string()));
    assert_eq!(a, vec![DeviceAction::PollTelemetry, DeviceAction::TakeLogs]);
    assert!(st.map.push_pending);
}

#[test]
fn device_event_out_of_phase_changes_nothing() {
    let mut st = DeviceLoopState::new(3);
    let before = st.clone();
    assert!(device_step(&mut st, DeviceEvent::Connected(true)).is_empty());
    assert!(device_step(&mut st, DeviceEvent::Status("x".to_string())).is_empty());
    assert_eq!(st, before);
}

#[test]
fn track_line_resets_map_only_on_new_track() {
    let mut m = MapState::new();
    m.track = "spa".to_string();
    m.learned = true;
    m.pushed = true;
    m.push_pending = true;
    let before = m.clone();
    assert!(!on_track_line(&mut m, "spa"));
    assert_eq!(m, before);
    assert!(on_track_line(&mut m, "monza"));
    assert_eq!(m.track, "monza");
    assert!(!m.learned && !m.pushed && !m.push_pending);
}

#[test]
fn sim_lines_pushed_when_due_and_connected() {
    let mut clock = FrameClock::new(0);
    let mut map = MapState::new();
    let a = on_sim_line("  @CM ferrari_488  ", false, true, 10, &mut clock, &mut map);
    assert!(matches!(a, ListenerAction::CarModel(ref m) if m == "ferrari_488"));
    let a = on_sim_line("@MAP spa", false, true, 10, &mut clock, &mut map);
    assert!(matches!(a, ListenerAction::Track(true)));
    assert_eq!(map.track, "spa");
    let a = on_sim_line("@MAP  spa ", false, true, 10, &mut clock, &mut map);
    assert!(matches!(a, ListenerAction::Track(false)));
    let a = on_sim_line("$1,2,3", false, true, 40, &mut clock, &mut map);
    assert!(matches!(a, ListenerAction::Frame { ref line, push: true, preview: false } if line == "$1,2,3"));
    let a = on_sim_line("$1,2,3", false, true, 60, &mut clock, &mut map);
    assert!(matches!(a, ListenerAction::Frame { push: false, preview: false, .. }));
    let a = on_sim_line("$1,2,3", false, false, 90, &mut clock, &mut map);
    assert!(matches!(a, ListenerAction::Frame { push: false, preview: true, .. }));
    assert_eq!(clock.last_push_ms, 90);
    let a = on_sim_line("$1,2,3", true, true, 500, &mut clock, &mut map);
    assert!(matches!(a, ListenerAction::Nothing));
    assert_eq!(clock.last_push_ms, 90);
}
