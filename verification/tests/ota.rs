use pithddu::ota::{
    latest_version, ota_after_read, ota_outcome, ota_start, ota_start_view, update_offer,
    version_label, FwState, OtaStart,
};

#[test]
fn ota_start_needs_device_and_file() {
    assert_eq!(ota_start(false, "fw.bin"), OtaStart::NotConnected);
    assert_eq!(ota_start(true, ""), OtaStart::NoFile);
    assert_eq!(ota_start(true, "fw.bin"), OtaStart::Start);
    let v = ota_start_view(OtaStart::NotConnected);
    assert_eq!((v.state, v.progress_pct, v.status.as_str()), (None, None, "Not connected"));
    let v = ota_start_view(OtaStart::NoFile);
    assert_eq!(v.status, "No firmware .bin selected");
    let v = ota_start_view(OtaStart::Start);
    assert_eq!((v.state, v.progress_pct), (Some(FwState::Flashing), Some(0)));
    assert_eq!(v.status, "Reading firmware...");
}

#[test]
fn ota_image_read_and_outcome() {
    let (go, v) = ota_after_read(None);
    assert!(!go);
    assert_eq!((v.state, v.status.as_str()), (Some(FwState::Failure), "Cannot read .bin file"));
    let (go, _) = ota_after_read(Some(0));
    assert!(!go);
    let (go, v) = ota_after_read(Some(4096));
    assert!(go);
    assert_eq!((v.state, v.status.as_str()), (None, "Uploading over USB..."));
    let v = ota_outcome(true);
    assert_eq!((v.state, v.progress_pct), (Some(FwState::Success), Some(100)));
    assert_eq!(v.status, "Updated — device rebooting");
    let v = ota_outcome(false);
    assert_eq!((v.state, v.progress_pct), (Some(FwState::Failure), Some(0)));
    assert_eq!(v.status, "Update failed (port busy?)");
}

#[test]
fn update_check_labels_and_offer() {
    assert_eq!(latest_version(Some("v1.4.0"), "1.2.0"), "v1.4.0");
    assert_eq!(latest_version(None, "1.2.0"), "1.2.0");
    assert_eq!(version_label("1.2.0"), "v1.2.0");
    assert_eq!(version_label("v1.2.0"), "v1.2.0");
    assert_eq!(version_label(""), "v");
    assert_eq!(update_offer(true, "1.1.0", true, FwState::Success), (true, FwState::Idle));
    assert_eq!(update_offer(true, "1.1.0", true, FwState::Failure), (true, FwState::Failure));
    assert_eq!(update_offer(false, "1.1.0", true, FwState::Success), (false, FwState::Success));
    assert_eq!(update_offer(true, "", true, FwState::Idle), (false, FwState::Idle));
    assert_eq!(update_offer(true, "1.1.0", false, FwState::Success), (false, FwState::Success));
}
