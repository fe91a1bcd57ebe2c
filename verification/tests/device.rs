use pithddu::device::{
    accept_report, append_device_log, classify_line, device_log_text, hid_reports, take_line,
    FrameClock, SimLine,
};

#[test]
fn reports_split_and_reassemble() {
    let data: Vec<u8> = (0..130u32).map(|i| i as u8).collect();
    let reps = hid_reports(&data);
    assert_eq!(reps.len(), 3);
    assert_eq!((reps[0][0], reps[0][1]), (2, 61));
    assert_eq!((reps[2][0], reps[2][1]), (2, 8));
    assert_eq!(reps[1][2], 61);
    assert_eq!(reps[2][9], 129);
    assert_eq!(reps[2][10], 0);
    let mut rx = Vec::new();
    for r in &reps {
        accept_report(&mut rx, r, 64);
    }
    assert_eq!(rx, data);
    let empty = hid_reports(&[]);
    assert_eq!(empty.len(), 1);
    assert_eq!(empty[0][..3], [2, 0, 0]);
    assert_eq!(hid_reports(&[7u8; 61]).len(), 1);
    assert_eq!(hid_reports(&[7u8; 62]).len(), 2);
}

#[test]
fn input_reports_are_filtered() {
    let mut rx = vec![1u8];
    let mut buf = [0u8; 64];
    buf[0] = 2;
    buf[1] = 10;
    buf[2] = b'o';
    buf[3] = b'k';
    accept_report(&mut rx, &buf, 4);
    assert_eq!(rx, vec![1, b'o', b'k']);
    buf[0] = 3;
    accept_report(&mut rx, &buf, 64);
    accept_report(&mut rx, &buf, 1);
    assert_eq!(rx.len(), 3);
}

#[test]
fn lines_come_out_whole() {
    let mut rx = b"ok 1\r\r\npartial".to_vec();
    assert_eq!(take_line(&mut rx).as_deref(), Some("ok 1"));
    assert_eq!(rx, b"partial".to_vec());
    assert_eq!(take_line(&mut rx), None);
    assert_eq!(rx, b"partial".to_vec());
    let mut bad = vec![b'a', 0xff, b'\n'];
    assert_eq!(take_line(&mut bad).as_deref(), Some("a\u{FFFD}"));
    assert!(bad.is_empty());
}

#[test]
fn device_log_keeps_newest_lines() {
    let mut log: Vec<String> = (0..1990).map(|i| i.to_string()).collect();
    append_device_log(&mut log, (1990..2010).map(|i| i.to_string()).collect());
    assert_eq!(log.len(), 2000);
    assert_eq!(log[0], "10");
    assert_eq!(log[1999], "2009");
    let mut small = vec!["a".to_string()];
    append_device_log(&mut small, vec!["b".to_string()]);
    assert_eq!(small, vec!["a", "b"]);
}

#[test]
fn plugin_lines_are_classified() {
    assert!(matches!(classify_line("   ", false), SimLine::Ignore));
    match classify_line("  @CM  porsche_963 \n", false) {
        SimLine::CarModel(m) => assert_eq!(m, "porsche_963"),
        _ => panic!("car model expected"),
    }
    assert!(matches!(classify_line("@CM   ", false), SimLine::Ignore));
    match classify_line("@MAP Spa ", false) {
        SimLine::Track(t) => assert_eq!(t, "Spa"),
        _ => panic!("track expected"),
    }
    match classify_line(" $3;120;5000 ", false) {
        SimLine::Frame(l, p) => {
            assert_eq!(l, "$3;120;5000");
            assert_eq!(p, "3;120;5000");
        }
        _ => panic!("frame expected"),
    }
    assert!(matches!(classify_line("$3;120", true), SimLine::Ignore));
    assert!(matches!(classify_line("hello", false), SimLine::Ignore));
}

#[test]
fn frames_are_rate_limited() {
    let mut c = FrameClock::new(1000);
    assert_eq!(c.on_frame(1010), (false, false));
    assert_eq!(c.on_frame(1033), (true, false));
    assert_eq!(c.last_push_ms, 1033);
    assert_eq!(c.on_frame(1080), (true, true));
    assert_eq!(c.on_frame(1100), (false, false));
    assert_eq!(c.on_frame(500), (false, false));
}

#[test]
fn device_log_joins_lines() {
    assert_eq!(device_log_text(&vec!["a".to_string(), "bc".to_string(), "".to_string()]), "a\nbc\n");
    assert_eq!(device_log_text(&vec!["x".to_string()]), "x");
    assert_eq!(device_log_text(&Vec::new()), "");
}
