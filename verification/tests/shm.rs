use pithddu::le::{gear_byte, le_i32, le_u16};
use pithddu::shm::{
    ac_physics_base, ac_static_identity, acc_graphics_ints, map_acc_flag, r3e_base, rf2_base,
    rf2_identity, rf2_player_id, set_tyre,
};
use pithddu::telemetry::Telemetry;

#[test]
fn ac_static_car_and_track() {
    let mut s = vec![0u8; 420];
    for (i, u) in "ferrari_488_gt3".encode_utf16().enumerate() {
        s[68 + i * 2..70 + i * 2].copy_from_slice(&u.to_le_bytes());
    }
    for (i, u) in "spa".encode_utf16().enumerate() {
        s[134 + i * 2..136 + i * 2].copy_from_slice(&u.to_le_bytes());
    }
    let (car, track) = ac_static_identity(&s);
    assert_eq!(car.as_deref(), Some("ferrari_488_gt3"));
    assert_eq!(track.as_deref(), Some("spa"));
}

#[test]
fn rf2_car_and_track() {
    let mut s = vec![0u8; 560 + 584];
    s[16..21].copy_from_slice(b"Sebr\0");
    s[116..120].copy_from_slice(&1i32.to_le_bytes());
    s[560 + 196] = 1;
    s[560 + 36..560 + 36 + 9].copy_from_slice(b"BMW M4\0\0\0");
    let (car, track) = rf2_identity(&[], &s);
    assert_eq!(car.as_deref(), Some("BMW M4"));
    assert_eq!(track.as_deref(), Some("Sebr"));
}

#[test]
fn ac_static_short_page_has_no_names() {
    let s = vec![0u8; 199];
    assert_eq!(ac_static_identity(&s), (None, None));
}

#[test]
fn ac_static_decodes_surrogates_and_trims() {
    let mut s = vec![0u8; 300];
    // " é😀 " : a space, U+00E9, a surrogate pair, a space.
    let units: Vec<u16> = " \u{e9}\u{1F600} ".encode_utf16().collect();
    for (i, u) in units.iter().enumerate() {
        s[68 + i * 2..70 + i * 2].copy_from_slice(&u.to_le_bytes());
    }
    // a lone high surrogate becomes U+FFFD
    s[134..136].copy_from_slice(&0xD800u16.to_le_bytes());
    s[136..138].copy_from_slice(&(b'x' as u16).to_le_bytes());
    let (car, track) = ac_static_identity(&s);
    assert_eq!(car.as_deref(), Some("\u{e9}\u{1F600}"));
    assert_eq!(track.as_deref(), Some("\u{FFFD}x"));
}

#[test]
fn rf2_identity_without_player_or_track() {
    let mut s = vec![0u8; 560 + 584];
    s[116..120].copy_from_slice(&1i32.to_le_bytes());
    s[16..20].copy_from_slice(b"   \0");
    let (car, track) = rf2_identity(&[], &s);
    assert_eq!(car, None);
    assert_eq!(track, None);
    let (car, track) = rf2_identity(&[], &s[..79]);
    assert_eq!((car, track), (None, None));
}

#[test]
fn little_endian_readers() {
    let b = [0x34u8, 0x12, 0xff, 0xff, 0xff, 0x7f];
    assert_eq!(le_u16(&b, 0), 0x1234);
    assert_eq!(le_i32(&b, 2), 0x7fff_ffff);
    assert_eq!(le_i32(&[0xfe, 0xff, 0xff, 0xff], 0), -2);
    assert_eq!(le_i32(&[0, 0, 0, 0x80], 0), i32::MIN);
}

#[test]
fn gear_glyphs() {
    assert_eq!(gear_byte(-1), b'R');
    assert_eq!(gear_byte(-7), b'R');
    assert_eq!(gear_byte(0), b'N');
    assert_eq!(gear_byte(1), b'1');
    assert_eq!(gear_byte(9), b'9');
    assert_eq!(gear_byte(12), b'9');
}

#[test]
fn acc_flag_codes() {
    let expect = [(0, 0), (1, 3), (2, 2), (3, 6), (4, 4), (5, 5), (6, 0), (7, 1), (8, 0)];
    for (f, code) in expect {
        assert_eq!(map_acc_flag(f), code);
    }
}

#[test]
fn tyre_temperature_fills_all_zones() {
    let mut t = Telemetry::idle();
    set_tyre(&mut t, 80, 81, 82, 83);
    assert_eq!((t.tt_fl_i, t.tt_fl_m, t.tt_fl_o), (80, 80, 80));
    assert_eq!((t.tt_fr_i, t.tt_fr_m, t.tt_fr_o), (81, 81, 81));
    assert_eq!((t.tt_rl_i, t.tt_rl_m, t.tt_rl_o), (82, 82, 82));
    assert_eq!((t.tt_rr_i, t.tt_rr_m, t.tt_rr_o), (83, 83, 83));
    assert_eq!(t.rpm, 0);
}

fn put_i32(b: &mut [u8], o: usize, v: i32) {
    b[o..o + 4].copy_from_slice(&v.to_le_bytes());
}

#[test]
fn ac_physics_integer_channels() {
    let mut b = vec![0u8; 64];
    assert_eq!(ac_physics_base(&b), None);
    put_i32(&mut b, 0, 123);
    put_i32(&mut b, 16, 4);
    put_i32(&mut b, 20, 7600);
    let t = ac_physics_base(&b).unwrap();
    assert_eq!(t.gear, b'3');
    assert_eq!(t.rpm, 7600);
    assert_eq!(t.pit_limiter, 0);
    put_i32(&mut b, 16, 0);
    put_i32(&mut b, 20, -5);
    let t = ac_physics_base(&b).unwrap();
    assert_eq!(t.gear, b'R');
    assert_eq!(t.rpm, 0);
    assert_eq!(ac_physics_base(&b[..31]), None);

    let mut full = vec![0u8; 800];
    put_i32(&mut full, 0, 1);
    put_i32(&mut full, 16, 1);
    put_i32(&mut full, 248, 1);
    put_i32(&mut full, 772, 1);
    let t = ac_physics_base(&full).unwrap();
    assert_eq!(t.gear, b'N');
    assert_eq!((t.pit_limiter, t.ignition), (1, 1));
    let t = ac_physics_base(&full[..300]).unwrap();
    assert_eq!((t.pit_limiter, t.ignition), (1, 0));
}

#[test]
fn acc_graphics_merge_fields() {
    let mut g = vec![0u8; 1308];
    put_i32(&mut g, 132, 12);
    put_i32(&mut g, 136, -1);
    put_i32(&mut g, 1268, 3);
    put_i32(&mut g, 1280, 2);
    put_i32(&mut g, 1296, 2);
    put_i32(&mut g, 1304, -3);
    put_i32(&mut g, 1224, 7);
    let mut t = Telemetry::idle();
    t.rpm = 5000;
    acc_graphics_ints(&mut t, &g);
    assert_eq!(t.laps_done, 12);
    assert_eq!(t.position, 0);
    assert_eq!((t.tc, t.abs), (3, 2));
    assert_eq!(t.headlights, 1);
    assert_eq!(t.wipers, 0);
    assert_eq!(t.flag, 1);
    assert_eq!(t.rpm, 5000);
    let mut u = Telemetry::idle();
    acc_graphics_ints(&mut u, &g[..1307]);
    assert_eq!(u, Telemetry::idle());
}

#[test]
fn r3e_integer_channels() {
    let mut b = vec![0u8; 1624];
    put_i32(&mut b, 1408, 3);
    put_i32(&mut b, 988, 5);
    put_i32(&mut b, 1028, 7);
    put_i32(&mut b, 1572, 1);
    put_i32(&mut b, 1620, 1);
    let t = r3e_base(&b);
    assert_eq!(t.gear, b'3');
    assert_eq!((t.position, t.laps_done), (5, 7));
    assert_eq!((t.pit_limiter, t.headlights), (1, 1));
    put_i32(&mut b, 1408, -2);
    assert_eq!(r3e_base(&b).gear, b'N');
    put_i32(&mut b, 1408, -1);
    assert_eq!(r3e_base(&b).gear, b'R');
    let t = r3e_base(&b[..1520]);
    assert_eq!((t.pit_limiter, t.headlights), (0, 0));
}

#[test]
fn rf2_player_match_picks_record() {
    let mut s = vec![0u8; 560 + 584];
    s[116..120].copy_from_slice(&1i32.to_le_bytes());
    s[560..564].copy_from_slice(&42i32.to_le_bytes());
    s[560 + 196] = 1;
    assert_eq!(rf2_player_id(&s), Some(42));
    let mut t = vec![0u8; 16 + 2 * 1888];
    t[12..16].copy_from_slice(&2i32.to_le_bytes());
    t[16..20].copy_from_slice(&7i32.to_le_bytes());
    let p = 16 + 1888;
    t[p..p + 4].copy_from_slice(&42i32.to_le_bytes());
    t[p + 352..p + 356].copy_from_slice(&3i32.to_le_bytes());
    t[p + 543] = 1;
    let (base, out) = rf2_base(&t, &s).unwrap();
    assert_eq!(base, p);
    assert_eq!(out.gear, b'3');
    assert_eq!(out.headlights, 1);
    // no player: falls back to the first record
    let (base, _) = rf2_base(&t, &[]).unwrap();
    assert_eq!(base, 16);
    assert_eq!(rf2_player_id(&[]), None);
    assert_eq!(rf2_base(&t[..1903], &s), None);
}

#[test]
fn parses_ac_physics_head_integer_channels() {
    let mut b = vec![0u8; 64];
    b[0..4].copy_from_slice(&123i32.to_le_bytes());
    b[4..8].copy_from_slice(&1.0f32.to_le_bytes());
    b[12..16].copy_from_slice(&42.5f32.to_le_bytes());
    b[16..20].copy_from_slice(&4i32.to_le_bytes());
    b[20..24].copy_from_slice(&7600i32.to_le_bytes());
    b[28..32].copy_from_slice(&188.0f32.to_le_bytes());
    let t = ac_physics_base(&b).unwrap();
    assert_eq!(t.rpm, 7600);
    assert_eq!(t.gear, b'3');
}

#[test]
fn parses_r3e_integer_channels() {
    let mut b = vec![0u8; 1600];
    b[1392..1396].copy_from_slice(&50.0f32.to_le_bytes());
    b[1396..1400].copy_from_slice(&785.40f32.to_le_bytes());
    b[1408..1412].copy_from_slice(&3i32.to_le_bytes());
    b[1500..1504].copy_from_slice(&1.0f32.to_le_bytes());
    let t = r3e_base(&b);
    assert_eq!(t.gear, b'3');
    assert_eq!((t.position, t.laps_done), (0, 0));
    assert_eq!((t.pit_limiter, t.headlights), (0, 0));
}

#[test]
fn parses_rf2_with_player_match_integer_channels() {
    let mut s = vec![0u8; 560 + 584];
    s[116..120].copy_from_slice(&1i32.to_le_bytes());
    s[560..564].copy_from_slice(&42i32.to_le_bytes());
    s[560 + 196] = 1;
    let mut t = vec![0u8; 16 + 2 * 1888];
    t[12..16].copy_from_slice(&2i32.to_le_bytes());
    t[16..20].copy_from_slice(&7i32.to_le_bytes());
    let p = 16 + 1888;
    t[p..p + 4].copy_from_slice(&42i32.to_le_bytes());
    t[p + 352..p + 356].copy_from_slice(&3i32.to_le_bytes());
    t[p + 356..p + 364].copy_from_slice(&7200.0f64.to_le_bytes());
    t[p + 532..p + 540].copy_from_slice(&8000.0f64.to_le_bytes());
    t[p + 184..p + 192].copy_from_slice(&30.0f64.to_le_bytes());
    let (base, out) = rf2_base(&t, &s).unwrap();
    assert_eq!(base, p);
    assert_eq!(out.gear, b'3');
}
