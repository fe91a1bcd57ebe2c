//! The device loop's decisions, as a step from state and event to the next
//! state and the actions to perform, and the track-map bookkeeping that the
//! plugin's `@MAP` line drives.

use vstd::prelude::*;
use crate::device::{elapsed_between, classify_line, sim_line_kind, FrameClock, SimLine};
use crate::util::trim_ws_seq;

verus! {

// ---------------------------------------------------------------- track map

/// The self-learned track map: which track it belongs to, whether an outline
/// has been learned, whether it went to the device, and whether a push waits.
#[derive(PartialEq, Eq, Debug, Clone)]
pub struct MapState {
    pub track: String,
    pub learned: bool,
    pub pushed: bool,
    pub push_pending: bool,
}

impl MapState {
    /// No track yet, nothing learned.
    pub fn new() -> (m: MapState)
        ensures
            m.track@ == Seq::<char>::empty(),
            !m.learned,
            !m.pushed,
            !m.push_pending,
    {
        MapState { track: String::new(), learned: false, pushed: false, push_pending: false }
    }
}

/// The plugin named a track (the `@MAP` line's track, trimmed, as
/// `classify_line` reports it): a different track forgets the learned outline
/// and both push flags and starts learning the new one; the same track changes
/// nothing. Returns whether the map was reset.
pub fn on_track_line(map: &mut MapState, track: &str) -> (reset: bool)
    ensures
        reset == (old(map).track@ != track@),
        !reset ==> *final(map) == *old(map),
        reset ==> final(map).track@ == track@ && !final(map).learned && !final(map).pushed
            && !final(map).push_pending,
{
    if crate::text::str_eq(map.track.as_str(), track) {
        return false;
    }
    *map = MapState { track: track.to_owned(), learned: false, pushed: false, push_pending: false };
    true
}

// ---------------------------------------------------------------- plugin lines

/// What to do with one line from the SimHub plugin.
pub enum ListenerAction {
    /// Nothing (an empty or unknown line, or a frame during a firmware update).
    Nothing,
    /// Show this car model (trimmed, not empty) as the detected car and match it.
    CarModel(String),
    /// A track line; whether it reset the learned map.
    Track(bool),
    /// A telemetry frame (the trimmed line): whether to push it to the device
    /// (a push is due and the device is connected) and whether to hand it to
    /// the preview (a preview is due).
    Frame { line: String, push: bool, preview: bool },
}

/// Acts on one line from the SimHub plugin arriving at `now_ms`: a car model
/// is reported, a track line updates the map, and a frame (ignored while a
/// firmware update runs) is pushed to the device at most every 33 ms and only
/// when it is connected, and handed to the preview at most every 80 ms.
pub fn on_sim_line(
    line: &str,
    ota_active: bool,
    connected: bool,
    now_ms: u64,
    clock: &mut FrameClock,
    map: &mut MapState,
) -> (r: ListenerAction)
    ensures
        ({
            let t = trim_ws_seq(line@);
            let (k, x) = sim_line_kind(t, ota_active);
            &&& k != 3 ==> *final(clock) == *old(clock)
            &&& k != 2 ==> *final(map) == *old(map)
            &&& k == 0 ==> r is Nothing
            &&& k == 1 ==> (r matches ListenerAction::CarModel(m) && m@ == x)
            &&& k == 2 ==> r == ListenerAction::Track(old(map).track@ != x)
            &&& k == 2 && old(map).track@ == x ==> *final(map) == *old(map)
            &&& k == 2 && old(map).track@ != x ==> final(map).track@ == x && !final(map).learned
                && !final(map).pushed && !final(map).push_pending
            &&& k == 3 ==> {
                let due_push = elapsed_between(old(clock).last_push_ms, now_ms) >= 33;
                let due_preview = elapsed_between(old(clock).last_preview_ms, now_ms) >= 80;
                &&& final(clock).last_push_ms == (if due_push { now_ms } else { old(clock).last_push_ms })
                &&& final(clock).last_preview_ms == (if due_preview {
                    now_ms
                } else {
                    old(clock).last_preview_ms
                })
                &&& (r matches ListenerAction::Frame { line: l, push, preview } && l@ == t && push
                    == (due_push && connected) && preview == due_preview)
            }
        }),
{
    match classify_line(line, ota_active) {
        SimLine::Ignore => ListenerAction::Nothing,
        SimLine::CarModel(m) => ListenerAction::CarModel(m),
        SimLine::Track(tr) => ListenerAction::Track(on_track_line(map, tr.as_str())),
        SimLine::Frame(full, _) => {
            let (p, v) = clock.on_frame(now_ms);
            ListenerAction::Frame { line: full, push: p && connected, preview: v }
        },
    }
}

/// Which of the frames arriving at `times` a clock whose last push was at
/// `last` pushes to the device.
pub open spec fn pushed(last: u64, times: Seq<u64>) -> Seq<bool>
    decreases times.len(),
{
    if times.len() == 0 {
        Seq::empty()
    } else {
        let p = elapsed_between(last, times[0]) >= 33;
        seq![p] + pushed(if p { times[0] } else { last }, times.drop_first())
    }
}

/// Are the arrival times in order?
pub open spec fn in_order(times: Seq<u64>) -> bool {
    forall|a: int, b: int| 0 <= a <= b < times.len() ==> times[a] <= times[b]
}

proof fn lemma_pushed_len(last: u64, times: Seq<u64>)
    ensures
        pushed(last, times).len() == times.len(),
    decreases times.len(),
{
    if times.len() > 0 {
        let p = elapsed_between(last, times[0]) >= 33;
        lemma_pushed_len(if p { times[0] } else { last }, times.drop_first());
    }
}

proof fn lemma_push_gap(last: u64, times: Seq<u64>, j: int)
    requires
        in_order(times),
        forall|k: int| 0 <= k < times.len() ==> last <= #[trigger] times[k],
        0 <= j < times.len(),
        pushed(last, times)[j],
    ensures
        times[j] - last >= 33,
    decreases times.len(),
{
    let p = elapsed_between(last, times[0]) >= 33;
    let l2 = if p { times[0] } else { last };
    let rest = times.drop_first();
    lemma_pushed_len(l2, rest);
    if j > 0 {
        assert(pushed(last, times)[j] == pushed(l2, rest)[j - 1]);
        assert forall|k: int| 0 <= k < rest.len() implies l2 <= #[trigger] rest[k] by {
            assert(rest[k] == times[k + 1]);
            assert(times[0] <= times[k + 1]);
        }
        assert(in_order(rest)) by {
            assert forall|a: int, b: int| 0 <= a <= b < rest.len() implies rest[a] <= rest[b] by {
                assert(rest[a] == times[a + 1] && rest[b] == times[b + 1]);
            }
        }
        lemma_push_gap(l2, rest, j - 1);
        assert(rest[j - 1] == times[j]);
    }
}

/// Law: with frames arriving in time order, any two frames pushed to the
/// device are at least 33 ms apart.
pub proof fn lemma_pushes_spaced(last: u64, times: Seq<u64>, i: int, j: int)
    requires
        in_order(times),
        0 <= i < j < times.len(),
        pushed(last, times)[i],
        pushed(last, times)[j],
    ensures
        times[j] - times[i] >= 33,
    decreases times.len(),
{
    let p = elapsed_between(last, times[0]) >= 33;
    let l2 = if p { times[0] } else { last };
    let rest = times.drop_first();
    lemma_pushed_len(l2, rest);
    assert(pushed(last, times)[j] == pushed(l2, rest)[j - 1]);
    assert(rest[j - 1] == times[j]);
    assert(in_order(rest)) by {
        assert forall|a: int, b: int| 0 <= a <= b < rest.len() implies rest[a] <= rest[b] by {
            assert(rest[a] == times[a + 1] && rest[b] == times[b + 1]);
        }
    }
    if i == 0 {
        assert(p);
        assert forall|k: int| 0 <= k < rest.len() implies l2 <= #[trigger] rest[k] by {
            assert(rest[k] == times[k + 1]);
            assert(times[0] <= times[k + 1]);
        }
        lemma_push_gap(l2, rest, j - 1);
    } else {
        assert(pushed(last, times)[i] == pushed(l2, rest)[i - 1]);
        assert(rest[i - 1] == times[i]);
        lemma_pushes_spaced(l2, rest, i - 1, j - 1);
    }
}

// ---------------------------------------------------------------- device loop

/// Where the device loop stands within one round.
#[derive(PartialEq, Eq, Structural, Debug, Clone, Copy)]
pub enum DevPhase {
    /// Between rounds: waiting for the next tick.
    Idle,
    /// A connection attempt was asked for.
    Connecting,
    /// The device status was asked for.
    Status,
    /// The device's new log lines were asked for.
    Logs,
}

/// What the device loop keeps between events.
#[derive(PartialEq, Eq, Debug, Clone)]
pub struct DeviceLoopState {
    /// Rounds started so far (wrapping); every twelfth rescans the firmware.
    pub fw_tick: u32,
    pub phase: DevPhase,
    /// Whether the device is connected, as last learnt.
    pub connected: bool,
    /// Whether a firmware update was running at this round's tick.
    pub ota_active: bool,
    /// The monotonic clock (ms) at this round's tick.
    pub now_ms: u64,
    /// Whether the race layout has unsaved local edits.
    pub race_dirty: bool,
    pub map: MapState,
    /// When the SimHub plugin last sent a frame (ms), if ever.
    pub last_sim_frame_ms: Option<u64>,
}

/// What the outside world reports to the device loop.
pub enum DeviceEvent {
    /// A new round starts: the clock, whether the device is connected, and
    /// whether a firmware update runs.
    Tick { now_ms: u64, connected: bool, ota_active: bool },
    /// The outcome of a connection attempt.
    Connected(bool),
    /// The device status line (empty when the device stopped answering).
    Status(String),
    /// Log lines the device produced since the last ask.
    Logs(Vec<String>),
}

/// What the device loop asks the outside world to do, in order.
#[derive(PartialEq, Eq, Debug, Clone)]
pub enum DeviceAction {
    /// Look for a locally built firmware image again.
    RescanFirmware,
    /// Try to connect; answer with `Connected`.
    TryConnect,
    /// Forget the last auto-applied car, so the next car report pushes it again.
    ForgetAutoModel,
    /// Show the fresh connection (capabilities and status).
    ApplyConnected,
    /// Pull the layout saved on the device into the editor.
    ReadRace,
    /// Wait this many milliseconds.
    Sleep(u64),
    /// Ask for the device status; answer with `Status`.
    ReadStatus,
    /// Close the link and show the device as disconnected.
    Disconnect,
    /// Apply the status and poll the device for telemetry.
    PollTelemetry,
    /// Push the UI document with the learned track map to the device.
    PushUiDoc,
    /// Ask for the device's new log lines; answer with `Logs`.
    TakeLogs,
    /// Add these lines to the device log.
    AppendLogs(Vec<String>),
}

/// The round counter after one more round (wrapping at `u32::MAX`).
pub open spec fn next_tick(t: u32) -> u32 {
    if t == u32::MAX {
        0
    } else {
        (t + 1) as u32
    }
}

/// Did the SimHub plugin send a frame within 1500 ms before `now`?
pub open spec fn plugin_feeding(last: Option<u64>, now: u64) -> bool {
    match last {
        Some(t) => elapsed_between(t, now) < 1500,
        None => false,
    }
}

/// After the connection check: pause 120 ms while a firmware update runs,
/// else ask for the status.
pub open spec fn after_connect(st: DeviceLoopState) -> (DeviceLoopState, Seq<DeviceAction>) {
    if st.ota_active {
        (DeviceLoopState { phase: DevPhase::Idle, ..st }, seq![DeviceAction::Sleep(120)])
    } else {
        (DeviceLoopState { phase: DevPhase::Status, ..st }, seq![DeviceAction::ReadStatus])
    }
}

/// After the status: push a pending track map when connected and the layout
/// has no unsaved edits (clearing the pending flag).
pub open spec fn map_push(st: DeviceLoopState) -> (DeviceLoopState, Seq<DeviceAction>) {
    if st.connected && st.map.push_pending && !st.race_dirty {
        (
            DeviceLoopState { map: MapState { push_pending: false, ..st.map }, ..st },
            seq![DeviceAction::PushUiDoc],
        )
    } else {
        (st, Seq::empty())
    }
}

/// One step of the device loop. A round: on the tick, rescan the firmware
/// every twelfth round; when not connected, try to connect (on success forget
/// the last auto-applied car, show the connection and, unless the layout has
/// unsaved edits, read it from the device; on failure wait 1500 ms and end the
/// round); while a firmware update runs, wait 120 ms and end the round; ask
/// the status: empty means disconnect, else poll telemetry unless the plugin
/// sent a frame in the last 1500 ms; push a pending track map; take the
/// device's new log lines, append them, and wait 160 ms. An event that does
/// not fit the phase changes nothing.
pub open spec fn device_step_spec(st: DeviceLoopState, ev: DeviceEvent) -> (DeviceLoopState, Seq<DeviceAction>) {
    match ev {
        DeviceEvent::Tick { now_ms, connected, ota_active } => if st.phase is Idle {
            let rescan = if st.fw_tick % 12 == 0 {
                seq![DeviceAction::RescanFirmware]
            } else {
                Seq::empty()
            };
            let s1 = DeviceLoopState { fw_tick: next_tick(st.fw_tick), now_ms, connected, ota_active, ..st };
            if !connected {
                (DeviceLoopState { phase: DevPhase::Connecting, ..s1 }, rescan.push(DeviceAction::TryConnect))
            } else {
                (after_connect(s1).0, rescan + after_connect(s1).1)
            }
        } else {
            (st, Seq::empty())
        },
        DeviceEvent::Connected(ok) => if st.phase is Connecting {
            if ok {
                let s1 = DeviceLoopState { connected: true, ..st };
                let first = if st.race_dirty {
                    seq![DeviceAction::ForgetAutoModel, DeviceAction::ApplyConnected]
                } else {
                    seq![DeviceAction::ForgetAutoModel, DeviceAction::ApplyConnected, DeviceAction::ReadRace]
                };
                (after_connect(s1).0, first + after_connect(s1).1)
            } else {
                (DeviceLoopState { phase: DevPhase::Idle, ..st }, seq![DeviceAction::Sleep(1500)])
            }
        } else {
            (st, Seq::empty())
        },
        DeviceEvent::Status(s) => if st.phase is Status {
            let (s1, a1) = if s@.len() == 0 {
                (DeviceLoopState { connected: false, ..st }, seq![DeviceAction::Disconnect])
            } else if plugin_feeding(st.last_sim_frame_ms, st.now_ms) {
                (st, Seq::empty())
            } else {
                (st, seq![DeviceAction::PollTelemetry])
            };
            let (s2, a2) = map_push(s1);
            (DeviceLoopState { phase: DevPhase::Logs, ..s2 }, a1 + a2 + seq![DeviceAction::TakeLogs])
        } else {
            (st, Seq::empty())
        },
        DeviceEvent::Logs(new) => if st.phase is Logs {
            let a = if new@.len() > 0 {
                seq![DeviceAction::AppendLogs(new)]
            } else {
                Seq::empty()
            };
            (DeviceLoopState { phase: DevPhase::Idle, ..st }, a.push(DeviceAction::Sleep(160)))
        } else {
            (st, Seq::empty())
        },
    }
}

impl DeviceLoopState {
    /// Before the first round: not connected, no plugin frame yet, clock `now_ms`.
    pub fn new(now_ms: u64) -> (s: DeviceLoopState)
        ensures
            s.fw_tick == 0,
            s.phase is Idle,
            !s.connected,
            !s.ota_active,
            s.now_ms == now_ms,
            !s.race_dirty,
            s.map.track@ == Seq::<char>::empty(),
            !s.map.learned && !s.map.pushed && !s.map.push_pending,
            s.last_sim_frame_ms is None,
    {
        DeviceLoopState {
            fw_tick: 0,
            phase: DevPhase::Idle,
            connected: false,
            ota_active: false,
            now_ms,
            race_dirty: false,
            map: MapState::new(),
            last_sim_frame_ms: None,
        }
    }
}

fn push_after_connect(st: &mut DeviceLoopState, acts: &mut Vec<DeviceAction>)
    ensures
        *final(st) == after_connect(*old(st)).0,
        final(acts)@ == old(acts)@ + after_connect(*old(st)).1,
{
    if st.ota_active {
        st.phase = DevPhase::Idle;
        acts.push(DeviceAction::Sleep(120));
    } else {
        st.phase = DevPhase::Status;
        acts.push(DeviceAction::ReadStatus);
    }
}

/// Advances the device loop by one event (see `device_step_spec`).
pub fn device_step(st: &mut DeviceLoopState, ev: DeviceEvent) -> (acts: Vec<DeviceAction>)
    ensures
        (*final(st), acts@) == device_step_spec(*old(st), ev),
{
    let mut acts: Vec<DeviceAction> = Vec::new();
    match ev {
        DeviceEvent::Tick { now_ms, connected, ota_active } => {
            if !matches!(st.phase, DevPhase::Idle) {
                return acts;
            }
            if st.fw_tick % 12 == 0 {
                acts.push(DeviceAction::RescanFirmware);
            }
            st.fw_tick = if st.fw_tick == u32::MAX {
                0
            } else {
                st.fw_tick + 1
            };
            st.now_ms = now_ms;
            st.connected = connected;
            st.ota_active = ota_active;
            if !connected {
                st.phase = DevPhase::Connecting;
                acts.push(DeviceAction::TryConnect);
            } else {
                push_after_connect(st, &mut acts);
            }
        },
        DeviceEvent::Connected(ok) => {
            if !matches!(st.phase, DevPhase::Connecting) {
                return acts;
            }
            if ok {
                st.connected = true;
                acts.push(DeviceAction::ForgetAutoModel);
                acts.push(DeviceAction::ApplyConnected);
                if !st.race_dirty {
                    acts.push(DeviceAction::ReadRace);
                }
                push_after_connect(st, &mut acts);
            } else {
                st.phase = DevPhase::Idle;
                acts.push(DeviceAction::Sleep(1500));
            }
        },
        DeviceEvent::Status(s) => {
            if !matches!(st.phase, DevPhase::Status) {
                return acts;
            }
            if crate::text::chars_of(s.as_str()).len() == 0 {
                st.connected = false;
                acts.push(DeviceAction::Disconnect);
            } else {
                let feeding = match st.last_sim_frame_ms {
                    Some(t) => {
                        let el: u64 = if st.now_ms >= t {
                            st.now_ms - t
                        } else {
                            0
                        };
                        el < 1500
                    },
                    None => false,
                };
                if !feeding {
                    acts.push(DeviceAction::PollTelemetry);
                }
            }
            if st.connected && st.map.push_pending && !st.race_dirty {
                st.map.push_pending = false;
                acts.push(DeviceAction::PushUiDoc);
            }
            st.phase = DevPhase::Logs;
            acts.push(DeviceAction::TakeLogs);
        },
        DeviceEvent::Logs(new) => {
            if !matches!(st.phase, DevPhase::Logs) {
                return acts;
            }
            if new.len() > 0 {
                acts.push(DeviceAction::AppendLogs(new));
            }
            st.phase = DevPhase::Idle;
            acts.push(DeviceAction::Sleep(160));
        },
    }
    acts
}

} // verus!
