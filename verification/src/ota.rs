//! The decisions of a firmware update over USB: whether it may start, what
//! the firmware panel shows at each stage, and how the outcome is reported.

use vstd::prelude::*;

verus! {

/// The firmware panel's state.
#[derive(PartialEq, Eq, Structural, Clone, Copy, Debug)]
pub enum FwState {
    Idle,
    Flashing,
    Success,
    Failure,
}

/// What the firmware panel is told: a new state and progress (percent) when
/// they change, and the status line.
#[derive(PartialEq, Eq, Debug, Clone)]
pub struct FwView {
    pub state: Option<FwState>,
    pub progress_pct: Option<u32>,
    pub status: String,
}

/// Whether an update may start.
#[derive(PartialEq, Eq, Structural, Clone, Copy, Debug)]
pub enum OtaStart {
    /// No device is connected.
    NotConnected,
    /// No image file was chosen.
    NoFile,
    /// Read the image and upload it.
    Start,
}

/// An update starts only with a connected device and a chosen image file.
pub open spec fn ota_start_of(connected: bool, path: Seq<char>) -> OtaStart {
    if !connected {
        OtaStart::NotConnected
    } else if path.len() == 0 {
        OtaStart::NoFile
    } else {
        OtaStart::Start
    }
}

/// Decides whether an update of the image at `path` may start.
pub fn ota_start(connected: bool, path: &str) -> (r: OtaStart)
    ensures
        r == ota_start_of(connected, path@),
{
    if !connected {
        OtaStart::NotConnected
    } else if crate::text::chars_of(path).len() == 0 {
        OtaStart::NoFile
    } else {
        OtaStart::Start
    }
}

/// What the panel shows when an update is asked for: the refusal, or
/// "flashing" at 0% while the image is read.
pub open spec fn start_view_of(s: OtaStart) -> (Option<FwState>, Option<u32>, Seq<char>) {
    match s {
        OtaStart::NotConnected => (None, None, "Not connected"@),
        OtaStart::NoFile => (None, None, "No firmware .bin selected"@),
        OtaStart::Start => (Some(FwState::Flashing), Some(0u32), "Reading firmware..."@),
    }
}

/// The panel's view for the start decision `s`.
pub fn ota_start_view(s: OtaStart) -> (v: FwView)
    ensures
        (v.state, v.progress_pct, v.status@) == start_view_of(s),
{
    match s {
        OtaStart::NotConnected => FwView { state: None, progress_pct: None, status: "Not connected".to_owned() },
        OtaStart::NoFile => FwView { state: None, progress_pct: None, status: "No firmware .bin selected".to_owned() },
        OtaStart::Start => FwView {
            state: Some(FwState::Flashing),
            progress_pct: Some(0),
            status: "Reading firmware...".to_owned(),
        },
    }
}

/// After reading the image (`None` when it could not be read, else its length):
/// an unreadable or empty image fails the update; otherwise the upload starts.
pub open spec fn read_view_of(image_len: Option<usize>) -> (bool, (Option<FwState>, Option<u32>, Seq<char>)) {
    match image_len {
        Some(n) if n > 0 => (true, (None, None, "Uploading over USB..."@)),
        _ => (false, (Some(FwState::Failure), None, "Cannot read .bin file"@)),
    }
}

/// Whether to upload an image of `image_len` bytes, and what the panel shows.
pub fn ota_after_read(image_len: Option<usize>) -> (r: (bool, FwView))
    ensures
        (r.0, (r.1.state, r.1.progress_pct, r.1.status@)) == read_view_of(image_len),
{
    match image_len {
        Some(n) => if n > 0 {
            (true, FwView { state: None, progress_pct: None, status: "Uploading over USB...".to_owned() })
        } else {
            (false, FwView { state: Some(FwState::Failure), progress_pct: None, status: "Cannot read .bin file".to_owned() })
        },
        None => (false, FwView { state: Some(FwState::Failure), progress_pct: None, status: "Cannot read .bin file".to_owned() }),
    }
}

/// The outcome of the upload: success at 100% (the device reboots), or failure
/// at 0%.
pub open spec fn outcome_view_of(ok: bool) -> (Option<FwState>, Option<u32>, Seq<char>) {
    if ok {
        (Some(FwState::Success), Some(100u32), "Updated — device rebooting"@)
    } else {
        (Some(FwState::Failure), Some(0u32), "Update failed (port busy?)"@)
    }
}

/// The panel's view once the upload reported `upload_ok`.
pub fn ota_outcome(upload_ok: bool) -> (v: FwView)
    ensures
        (v.state, v.progress_pct, v.status@) == outcome_view_of(upload_ok),
{
    if upload_ok {
        FwView { state: Some(FwState::Success), progress_pct: Some(100), status: "Updated — device rebooting".to_owned() }
    } else {
        FwView { state: Some(FwState::Failure), progress_pct: Some(0), status: "Update failed (port busy?)".to_owned() }
    }
}

// ---------------------------------------------------------------- update check

/// The newest firmware version known: the latest release's tag, else the
/// version bundled with the app.
pub fn latest_version(latest_tag: Option<&str>, app_version: &str) -> (r: String)
    ensures
        r@ == (match latest_tag {
            Some(t) => t@,
            None => app_version@,
        }),
{
    match latest_tag {
        Some(t) => t.to_owned(),
        None => app_version.to_owned(),
    }
}

/// A version as the firmware panel shows it: with a leading `v`.
pub fn version_label(v: &str) -> (r: String)
    ensures
        r@ == (if v@.len() > 0 && v@[0] == 'v' {
            v@
        } else {
            seq!['v'] + v@
        }),
{
    let c = crate::text::chars_of(v);
    if c.len() > 0 && c[0] == 'v' {
        return v.to_owned();
    }
    let mut out: Vec<char> = Vec::new();
    out.push('v');
    crate::format::push_all(&mut out, &c);
    assert(out@ =~= seq!['v'] + v@);
    crate::text::string_from_chars(&out)
}

/// Whether an update is offered: the device is connected, its firmware
/// version is known, and the latest version is newer (`latest_newer`, the
/// version comparison's verdict). A finished update's panel (`Success`)
/// returns to `Idle` when one is offered.
pub fn update_offer(connected: bool, device_fw: &str, latest_newer: bool, state: FwState) -> (r: (bool, FwState))
    ensures
        r.0 == (connected && device_fw@.len() > 0 && latest_newer),
        r.1 == (if r.0 && state == FwState::Success {
            FwState::Idle
        } else {
            state
        }),
{
    let upd = connected && crate::text::chars_of(device_fw).len() > 0 && latest_newer;
    let st = if upd && matches!(state, FwState::Success) {
        FwState::Idle
    } else {
        state
    };
    (upd, st)
}

} // verus!
