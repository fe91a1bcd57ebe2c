use pithddu::frame::{frame_from_telem, parse_line};
use pithddu::telemetry::Telemetry;

#[test]
fn roundtrips_through_parser() {
    let mut t = Telemetry::idle();
    t.gear = b'3';
    t.speed_kmh = 212;
    t.rpm = 6800;
    t.max_rpm = 7500;
    t.shift_rpm = 7400;
    t.position = 4;
    t.cur_lap_ms = 84012;
    t.delta_ms = -3000;
    t.throttle = 100;
    t.pos_x = -1234;
    t.pos_z = 5678;
    let frame = frame_from_telem(&t);
    let back = parse_line(&frame).expect("serialized frame must parse");
    assert_eq!(back, t);
}

#[test]
fn frame_text_layout() {
    let mut t = Telemetry::idle();
    t.gear = b'R';
    t.speed_kmh = 12;
    t.rpm = -5;
    let f = frame_from_telem(&t);
    assert!(f.starts_with("$R;12;-5;0;"));
    assert_eq!(f.matches(';').count(), 70);
}

#[test]
fn extreme_values_roundtrip() {
    let mut t = Telemetry::idle();
    t.gear = 0;
    t.speed_kmh = i32::MIN;
    t.rpm = i32::MAX;
    t.pos_z = -1;
    let back = parse_line(&frame_from_telem(&t)).unwrap();
    assert_eq!(back, t);
}

#[test]
fn short_frame_leaves_rest_zero() {
    let t = parse_line("$4;180;7200").unwrap();
    assert_eq!(t.gear, b'4');
    assert_eq!(t.speed_kmh, 180);
    assert_eq!(t.rpm, 7200);
    assert_eq!(t.max_rpm, 0);
}

#[test]
fn malformed_frames_rejected() {
    assert!(parse_line("").is_none());
    assert!(parse_line("4;180").is_none());
    assert!(parse_line("$;1").is_none()); // empty gear
    assert!(parse_line("$NN;1").is_none()); // two-character gear
    assert!(parse_line("$N;1x").is_none());
    assert!(parse_line("$N;-").is_none());
    assert!(parse_line("$N;2147483648").is_none()); // out of i32 range
    assert!(parse_line("$N;-2147483648").is_some());
    let too_many = format!("$N{}", ";1".repeat(71));
    assert!(parse_line(&too_many).is_none());
    let just_right = format!("$N{}", ";1".repeat(70));
    assert!(parse_line(&just_right).is_some());
}
