use pithddu::bridge::{
    btn_model, detect_game, on_game_detected, pull_shift_scalars, push_car_results,
    push_led_model, push_shift_scalars, push_sim_fields, rebuild_classes, rebuild_filtered,
    regen_simhub, track_index, GameChange, ShiftScalars,
};
use pithddu::bridge::{button_page, push_games, refresh_serial_ports, PortInfo};
use pithddu::catalog::{seed_buttons, seed_sim};
use pithddu::state::{CarItem, LedCfg, SimRow, State};

fn car(sim: &str, name: &str, id: &str, klass: &str) -> CarItem {
    CarItem {
        sim: sim.to_string(),
        name: name.to_string(),
        id: id.to_string(),
        path: format!("{sim}/{id}.json"),
        klass: klass.to_string(),
        redline: 0,
        led_n: 0,
        led_cols: Vec::new(),
    }
}

fn library() -> State {
    let mut s = State::new();
    s.sims = vec![
        ("iRacing".to_string(), "iracing".to_string()),
        ("ACC".to_string(), "assettocorsacompetizione".to_string()),
    ];
    s.all_cars = vec![
        car("iracing", "Porsche 911 GT3 R", "porsche_911_gt3_r", "GT3"),
        car("assettocorsacompetizione", "Ferrari 296 GT3", "ferrari_296_gt3", "GT3"),
        car("iracing", "Mazda MX-5", "mx5_cup", "Cup"),
        car("iracing", "BMW M4 GT3", "bmw_m4_gt3", "GT3"),
        car("iracing", "Dallara IR18", "ir18", ""),
    ];
    s
}

#[test]
fn button_tiles_follow_the_page() {
    let mut s = State::new();
    seed_buttons(&mut s);
    let tiles = btn_model(&s, 0);
    assert_eq!(tiles.len(), s.btn_pages[0].len());
    for (i, t) in tiles.iter().enumerate() {
        let b = &s.btn_pages[0][i];
        assert_eq!(t.pos, i as i32);
        assert_eq!(t.label, b.label);
        assert_eq!(t.game_field, b.field);
        let expect = match b.field.as_str() {
            "headlights" => 1,
            "wipers" => 2,
            "pit_limiter" => 3,
            "ignition" => 4,
            "tc_active" => 5,
            "abs_active" => 6,
            _ => 0,
        };
        assert_eq!(t.field_idx, expect);
    }
    assert!(btn_model(&s, -1).is_empty());
    assert!(btn_model(&s, s.btn_pages.len() as i32).is_empty());
}

#[test]
fn filter_by_game_class_and_query() {
    let mut s = library();
    s.game = 0;
    rebuild_filtered(&mut s);
    assert_eq!(s.filtered, vec![0, 2, 3, 4]);
    s.class_list = vec!["All classes".to_string(), "Cup".to_string(), "GT3".to_string()];
    s.klass = 2;
    rebuild_filtered(&mut s);
    assert_eq!(s.filtered, vec![0, 3]);
    s.query = "BMW".to_string();
    rebuild_filtered(&mut s);
    assert_eq!(s.filtered, vec![3]);
    s.klass = 0;
    s.query = "gt3".to_string();
    rebuild_filtered(&mut s);
    assert_eq!(s.filtered, vec![0, 3]);
    s.game = 1;
    s.query.clear();
    rebuild_filtered(&mut s);
    assert_eq!(s.filtered, vec![1]);
    s.game = 7;
    rebuild_filtered(&mut s);
    assert!(s.filtered.is_empty());
}

#[test]
fn class_list_is_sorted_and_unique() {
    let mut s = library();
    s.all_cars.push(car("iracing", "Ligier JS P320", "ligier", "LMP3"));
    s.all_cars.push(car("iracing", "Audi R8", "r8", "GT3"));
    s.game = 0;
    s.klass = 9;
    rebuild_classes(&mut s);
    assert_eq!(s.class_list, vec!["All classes", "Cup", "GT3", "LMP3"]);
    assert_eq!(s.klass, 0);
    s.klass = 2;
    rebuild_classes(&mut s);
    assert_eq!(s.klass, 2);
}

#[test]
fn car_rows_mark_duplicates_and_active_car() {
    let mut s = library();
    s.all_cars.push(car("iracing", "BMW M4 GT3", "bmw_m4_gt3_evo", "GT3"));
    s.all_cars[0].led_n = 12;
    s.all_cars[0].led_cols = vec![0xff0000, 0x00ff00];
    s.all_cars[0].redline = 9000;
    s.game = 0;
    s.car_id = "mx5_cup".to_string();
    rebuild_filtered(&mut s);
    let rows = push_car_results(&s);
    assert_eq!(rows.len(), 5);
    assert_eq!(rows[0].badge, "Por");
    assert_eq!(rows[0].make, "Porsche");
    assert_eq!(rows[0].power, "12 LED");
    assert_eq!(rows[0].leds, vec![0xff0000, 0x00ff00]);
    assert_eq!(rows[0].redline, 9000);
    assert_eq!(rows[0].name, "Porsche 911 GT3 R");
    assert!(!rows[0].active);
    assert!(rows[1].active);
    assert_eq!(rows[1].power, "");
    assert_eq!(rows[2].name, "BMW M4 GT3");
    assert_eq!(rows[4].name, "BMW M4 GT3 \u{b7} evo");
    assert_eq!(rows[3].badge, "Dal");
    assert_eq!(rows[3].make, "Dallara");
}

#[test]
fn led_row_of_selected_gear() {
    let mut s = State::new();
    s.sel_gear = 3;
    s.leds[3][5] = LedCfg { rgb: 0x123456, threshold: 77 };
    let v = push_led_model(&s);
    assert_eq!(v.len(), 12);
    assert_eq!(v[5].rgb, 0x123456);
    assert_eq!(v[5].threshold, 77);
    assert_eq!(v[0].rgb, 0);
}

#[test]
fn shift_scalars_round_trip() {
    let mut s = State::new();
    s.redline_rpm = 8500;
    s.first_led_pct = 60;
    s.blink_enabled = true;
    s.car_name = "Porsche".to_string();
    let v = push_shift_scalars(&s);
    assert_eq!((v.redline_rpm, v.first_led_pct, v.blink_enabled), (8500, 60, true));
    assert_eq!(v.car_name, "Porsche");
    let w = ShiftScalars {
        redline_rpm: 7000,
        first_led_pct: 55,
        blink_enabled: false,
        blink_hz: 4,
        animation: 2,
        brightness: 80,
        rpm_source: 1,
        sel_gear: 6,
        car_name: "x".to_string(),
        car_game: "y".to_string(),
    };
    pull_shift_scalars(&mut s, &w);
    assert_eq!(s.redline_rpm, 7000);
    assert_eq!(s.brightness, 80);
    assert_eq!(s.sel_gear, 1);
    assert_eq!(s.car_name, "Porsche");
}

#[test]
fn sim_fields_search_label_and_expression() {
    let mut s = State::new();
    s.sim = vec![
        SimRow { id: "a".into(), label: "Speed".into(), expr: "[SpeedKmh]".into(), enabled: true, builtin: true },
        SimRow { id: "b".into(), label: "Gear".into(), expr: "[Gear]".into(), enabled: false, builtin: true },
    ];
    assert_eq!(push_sim_fields(&s).len(), 2);
    s.sim_query = "SPEEDKMH".into();
    let v = push_sim_fields(&s);
    assert_eq!(v.len(), 1);
    assert_eq!(v[0].id, "a");
    s.sim_query = "d [g".into();
    let v = push_sim_fields(&s);
    assert_eq!(v.len(), 0);
    s.sim_query = "r [g".into();
    assert_eq!(push_sim_fields(&s)[0].id, "b");
}

#[test]
fn simhub_expression_joins_fields() {
    let mut s = State::new();
    s.sim = vec![
        SimRow { id: "a".into(), label: "Speed".into(), expr: "[SpeedKmh]".into(), enabled: true, builtin: true },
        SimRow { id: "b".into(), label: "Gear".into(), expr: "[Gear]".into(), enabled: false, builtin: true },
    ];
    let (expr, cm) = regen_simhub(&s);
    assert_eq!(expr, "'$' + ([SpeedKmh]) + ';' + '0' + '\\n'");
    assert_eq!(cm, "'@CM' + isnull([CarModel],'') + '\\n'");
    let empty = State::new();
    assert_eq!(regen_simhub(&empty).0, "'$' +  + '\\n'");
}

#[test]
fn seeded_simhub_expression_has_every_field() {
    let mut s = State::new();
    seed_sim(&mut s);
    let (expr, _) = regen_simhub(&s);
    assert!(expr.starts_with("'$' + ("));
    assert_eq!(expr.matches(" + ';' + ").count(), s.sim.len() - 1);
}

#[test]
fn track_names_index() {
    assert_eq!(track_index("Oval"), 1);
    assert_eq!(track_index("Infield Road"), 3);
    assert_eq!(track_index("Nowhere"), 0);
    assert_eq!(track_index("(none)"), 0);
}

#[test]
fn detects_running_game() {
    let sims = vec![
        ("iRacing".to_string(), "iracing".to_string()),
        ("ACC".to_string(), "assettocorsacompetizione".to_string()),
        ("LMU".to_string(), "lmu".to_string()),
    ];
    let procs = vec!["/usr/bin/bash".to_string(), "Z:\\Games\\AC2-Win64-Shipping.exe -x".to_string()];
    assert_eq!(detect_game(&sims, &procs), 1);
    let procs = vec!["C:\\Program Files\\Le Mans Ultimate\\LMU.exe".to_string()];
    assert_eq!(detect_game(&sims, &procs), 2);
    let procs = vec!["rrre64.exe".to_string()];
    assert_eq!(detect_game(&sims, &procs), -1);
    assert_eq!(detect_game(&sims, &Vec::new()), -1);
}

#[test]
fn game_switch_resets_library_view() {
    let mut s = library();
    s.game = 1;
    s.klass = 2;
    s.detected_model = "bmw_m4_gt3".to_string();
    s.last_auto_model = "old".to_string();
    match on_game_detected(&mut s, 0, false) {
        GameChange::Switched(m) => assert_eq!(m, "bmw_m4_gt3"),
        _ => panic!("expected a switch"),
    }
    assert_eq!(s.game, 0);
    assert_eq!(s.klass, 0);
    assert_eq!(s.sel_car, -1);
    assert_eq!(s.last_auto_model, "");
    assert_eq!(s.class_list, vec!["All classes", "Cup", "GT3"]);
    assert_eq!(s.filtered, vec![0, 2, 3, 4]);
    assert!(matches!(on_game_detected(&mut s, 0, false), GameChange::Same));
    assert!(matches!(on_game_detected(&mut s, -1, true), GameChange::Kept));
    assert_eq!(s.detected_model, "bmw_m4_gt3");
    assert!(matches!(on_game_detected(&mut s, -1, false), GameChange::Lost));
    assert_eq!(s.detected_model, "");
    assert_eq!(s.detected_game_idx, -1);
}

#[test]
fn serial_port_labels_and_selection() {
    let p = |dev: &str, m: &str, pr: &str, dash: bool, esp: bool| PortInfo {
        device: dev.into(),
        manufacturer: m.into(),
        product: pr.into(),
        is_dash: dash,
        is_esp: esp,
    };
    let ports = vec![
        p("/dev/ttyUSB0", "FTDI", "FT232", false, false),
        p("/dev/ttyACM0", "", "", true, true),
        p("/dev/ttyACM1", "Espressif", "", false, true),
        p("/dev/ttyS0", "", "", false, false),
    ];
    let v = refresh_serial_ports(&ports, 7);
    assert_eq!(v.labels[0], "/dev/ttyUSB0  \u{b7}  FTDI \u{b7} FT232");
    assert_eq!(v.labels[1], "/dev/ttyACM0  \u{b7}  Pith DDU  [ESP]");
    assert_eq!(v.labels[2], "/dev/ttyACM1  \u{b7}  Espressif  [ESP]");
    assert_eq!(v.labels[3], "/dev/ttyS0  \u{b7}  unknown device");
    assert_eq!(v.esp_count, 2);
    assert_eq!(v.selected, 1);
    assert_eq!(refresh_serial_ports(&ports, 3).selected, 3);
    assert_eq!(refresh_serial_ports(&ports[..1].iter().map(|x| p(&x.device, "", "", false, false)).collect(), -1).selected, 0);
}

#[test]
fn button_page_and_game_names() {
    assert_eq!(button_page(5, 3), 2);
    assert_eq!(button_page(1, 3), 1);
    assert_eq!(button_page(0, 0), -1);
    let s = library();
    assert_eq!(push_games(&s), vec!["iRacing", "ACC"]);
}
