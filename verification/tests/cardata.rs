use pithddu::cardata::{active_car_status, auto_car_status};
use pithddu::cardata::{
    apply_active_car, apply_car_details, auto_match_car, best_car_match, car_dedup_sig,
    car_details, derive_redline, load_car_into_leds, parse_car_led_colors, parse_manifest,
    prefetch_work, profile_thresholds_fit, AutoMatch, CarProfile, GearRpm, ManifestCar,
    ManifestSim,
};
use pithddu::state::{CarItem, LedCfg, State};
use pithddu::util::clean_car_name;

fn gear(k: &str, pts: &[i64]) -> GearRpm {
    GearRpm { gear: k.to_string(), rpm: Some(pts.iter().map(|&p| Some(p)).collect()) }
}

fn profile() -> CarProfile {
    CarProfile {
        led_rpm: Some(vec![
            gear("1", &[0, 5000, 6000, 7000]),
            gear("2", &[0, 5500, 6500, 8000]),
            GearRpm { gear: "3".to_string(), rpm: None },
        ]),
        led_color: Some(vec!["".into(), "#FF0000".into(), "00ff00".into(), "zz".into()]),
        led_number: Some(3),
        car_class: Some("GT3".to_string()),
    }
}

#[test]
fn redline_is_highest_point() {
    assert_eq!(derive_redline(&profile()), 8000);
    let none = CarProfile { led_rpm: None, led_color: None, led_number: None, car_class: None };
    assert_eq!(derive_redline(&none), 0);
    let neg = CarProfile {
        led_rpm: Some(vec![gear("1", &[-5, -7])]),
        led_color: None,
        led_number: None,
        car_class: None,
    };
    assert_eq!(derive_redline(&neg), 0);
}

#[test]
fn led_colours_skip_entry_zero() {
    assert_eq!(parse_car_led_colors(&profile()), vec![0xFF0000, 0x00FF00, 0]);
    let mut p = profile();
    p.led_number = Some(14);
    p.led_color = Some((0..16).map(|i| format!("#{:06x}", i)).collect());
    let cols = parse_car_led_colors(&p);
    assert_eq!(cols.len(), 12);
    assert_eq!(cols[0], 3);
    assert_eq!(cols[11], 14);
    p.led_color = None;
    assert!(parse_car_led_colors(&p).is_empty());
    p.led_color = Some(vec![]);
    p.led_number = Some(-2);
    assert!(parse_car_led_colors(&p).is_empty());
}

#[test]
fn loading_profile_sets_thresholds() {
    let p = profile();
    assert!(profile_thresholds_fit(&p));
    let mut s = State::new();
    s.leds[0][0] = LedCfg { rgb: 7, threshold: 7 };
    load_car_into_leds(&mut s, &p);
    assert_eq!(s.leds[1][0], LedCfg { rgb: 0xFF0000, threshold: 62 });
    assert_eq!(s.leds[1][1], LedCfg { rgb: 0x00FF00, threshold: 75 });
    assert_eq!(s.leds[1][2], LedCfg { rgb: 0, threshold: 87 });
    assert_eq!(s.leds[1][3], LedCfg { rgb: 0, threshold: 0 });
    assert_eq!(s.leds[2][2], LedCfg { rgb: 0, threshold: 100 });
    assert_eq!(s.leds[3][0], LedCfg { rgb: 0xFF0000, threshold: 0 });
    assert_eq!(s.leds[0][0], LedCfg { rgb: 7, threshold: 7 });
    let mut t = State::new();
    let mut q = profile();
    q.led_color = None;
    load_car_into_leds(&mut t, &q);
    assert_eq!(t.leds[1][0], LedCfg { rgb: 0, threshold: 0 });
}

#[test]
fn oversized_points_are_refused() {
    let mut p = profile();
    p.led_rpm = Some(vec![gear("1", &[0, 30_000_000])]);
    assert!(!profile_thresholds_fit(&p));
}

#[test]
fn details_of_a_car_document() {
    let d = car_details(&Some(profile()));
    assert_eq!((d.redline, d.led_n), (8000, 3));
    assert_eq!(d.klass, "GT3");
    assert_eq!(d.led_cols, vec![0xFF0000, 0x00FF00, 0]);
    let d = car_details(&None);
    assert_eq!((d.redline, d.led_n, d.klass.as_str(), d.led_cols.len()), (0, 0, "", 0));
    let mut s = State::new();
    s.all_cars.push(CarItem { sim: "a".into(), name: "n".into(), id: "i".into(), path: "p".into(), ..Default::default() });
    apply_car_details(&mut s, 0, car_details(&Some(profile())));
    assert_eq!(s.all_cars[0].redline, 8000);
    assert_eq!(s.all_cars[0].klass, "GT3");
    assert_eq!(s.all_cars[0].name, "n");
    apply_car_details(&mut s, 5, car_details(&None));
    assert_eq!(s.all_cars.len(), 1);
}

#[test]
fn dedup_key_ignores_car_id_line() {
    let body = "{\n  \"carName\": \"X\",\n  \"carId\": \"x_1\",\n  \"ledNumber\": 8\n}";
    assert_eq!(
        car_dedup_sig("ac", "x_1", body),
        "ac\u{1f}{\n  \"carName\": \"X\",\n  \n  \"ledNumber\": 8\n}"
    );
    assert_eq!(car_dedup_sig("ac", "x_1", ""), "ac\u{1f}#x_1");
    assert_eq!(car_dedup_sig("ac", "x", "{\"carId\": 1}"), "ac\u{1f}{");
}

fn entry(name: &str, id: &str, body: &str) -> ManifestCar {
    ManifestCar { name: name.into(), id: id.into(), path: format!("p/{id}"), body: body.into() }
}

#[test]
fn manifest_drops_duplicates_and_unnamed() {
    let mut s = State::new();
    s.all_cars.push(CarItem::default());
    let m = Some(vec![
        ManifestSim {
            sim: "ac".into(),
            cars: vec![
                entry(" Ferrari 488 ", "f488", "{\"carId\": \"f488\"\n\"a\":1}"),
                entry("Ferrari 488 Evo", "f488evo", "{\"carId\": \"f488evo\"\n\"a\":1}"),
                entry("  ", "blank", ""),
                entry("BMW", "bmw", ""),
            ],
        },
        ManifestSim { sim: "acc".into(), cars: vec![entry("BMW", "bmw", "")] },
    ]);
    parse_manifest(&mut s, &m);
    let names: Vec<(&str, &str)> = s.all_cars.iter().map(|c| (c.sim.as_str(), c.name.as_str())).collect();
    assert_eq!(names, vec![("ac", "Ferrari 488"), ("ac", "BMW"), ("acc", "BMW")]);
    assert_eq!(s.all_cars[0].path, "p/f488");
    parse_manifest(&mut s, &None);
    assert!(s.all_cars.is_empty());
}

#[test]
fn prefetch_lists_cars_without_details() {
    let mut s = State::new();
    s.sims = vec![("AC".into(), "ac".into())];
    s.all_cars = vec![
        CarItem { sim: "ac".into(), path: "a".into(), ..Default::default() },
        CarItem { sim: "ac".into(), path: "b".into(), redline: 7000, ..Default::default() },
        CarItem { sim: "acc".into(), path: "c".into(), ..Default::default() },
        CarItem { sim: "ac".into(), path: "d".into(), klass: "GT3".into(), ..Default::default() },
        CarItem { sim: "ac".into(), path: "e".into(), ..Default::default() },
    ];
    let w = prefetch_work(&s);
    assert_eq!(w, vec![(0, "a".to_string()), (4, "e".to_string())]);
}

#[test]
fn car_model_matching() {
    assert_eq!(clean_car_name("  Porsche 963 #23:WEC"), "Porsche 963");
    assert_eq!(clean_car_name("bmw_m4"), "bmw_m4");
    let mut s = State::new();
    s.sims = vec![("AC".into(), "ac".into())];
    s.all_cars = vec![
        CarItem { sim: "ac".into(), name: "Porsche 911 GT3 R".into(), id: "p911".into(), ..Default::default() },
        CarItem { sim: "ac".into(), name: "Porsche 963".into(), id: "porsche_963".into(), ..Default::default() },
        CarItem { sim: "acc".into(), name: "Porsche 963".into(), id: "porsche_963".into(), ..Default::default() },
    ];
    assert_eq!(best_car_match(&s, "porsche963"), 1);
    assert_eq!(best_car_match(&s, "porsche"), 0);
    assert_eq!(best_car_match(&s, "ferrari"), -1);
    assert!(matches!(auto_match_car(&mut s, "Porsche 963 #23:WEC"), AutoMatch::Found(1)));
    assert_eq!(s.last_auto_model, "Porsche 963 #23:WEC");
    assert!(matches!(auto_match_car(&mut s, "Porsche 963 #23:WEC"), AutoMatch::Unchanged));
    assert!(matches!(auto_match_car(&mut s, ""), AutoMatch::Unchanged));
    assert!(matches!(auto_match_car(&mut s, "###"), AutoMatch::Unnamed));
    assert!(matches!(auto_match_car(&mut s, "Ferrari"), AutoMatch::NoMatch));
}

#[test]
fn activating_a_car() {
    let mut s = State::new();
    s.shift_custom = true;
    s.redline_rpm = 5000;
    let car = CarItem { sim: "ac".into(), name: "Porsche".into(), id: "p".into(), ..Default::default() };
    apply_active_car(&mut s, &car, &Some(profile()));
    assert_eq!((s.car_name.as_str(), s.car_game.as_str(), s.car_id.as_str()), ("Porsche", "ac", "p"));
    assert_eq!(s.redline_rpm, 8000);
    assert!(!s.shift_custom);
    assert_eq!(s.leds[2][2].threshold, 100);
    let mut t = State::new();
    t.shift_custom = true;
    t.redline_rpm = 5000;
    apply_active_car(&mut t, &car, &None);
    assert_eq!(t.redline_rpm, 5000);
    assert!(t.shift_custom);
}

#[test]
fn car_status_lines() {
    assert_eq!(active_car_status("BMW", true, true, true), "Sent BMW");
    assert_eq!(active_car_status("BMW", true, true, false), "device rejected");
    assert_eq!(active_car_status("BMW", true, false, false), "sent (offline cache) \u{b7} connect to push");
    assert_eq!(active_car_status("BMW", false, true, false), "car parse error");
    assert_eq!(auto_car_status("BMW", true), "Auto: BMW");
    assert_eq!(auto_car_status("BMW", false), "Matched BMW (offline)");
}

#[test]
fn filtered_row_maps_to_library_index() {
    let mut s = pithddu::state::State::new();
    s.all_cars = vec![
        pithddu::state::CarItem::default(),
        pithddu::state::CarItem::default(),
        pithddu::state::CarItem::default(),
    ];
    s.filtered = vec![2, 0];
    assert_eq!(pithddu::cardata::filtered_car(&s, 0), Some(2));
    assert_eq!(pithddu::cardata::filtered_car(&s, 1), Some(0));
    assert_eq!(pithddu::cardata::filtered_car(&s, 2), None);
    assert_eq!(pithddu::cardata::filtered_car(&s, -1), None);
}

#[test]
fn prefetch_works_only_for_the_current_generation() {
    let mut s = State::new();
    s.sims = vec![("ACC".to_string(), "acc".to_string()), ("iRacing".to_string(), "iracing".to_string())];
    s.game = 0;
    let car = |sim: &str, redline: i32, klass: &str| {
        let mut c = CarItem::default();
        c.sim = sim.to_string();
        c.redline = redline;
        c.klass = klass.to_string();
        c.path = format!("{sim}/{redline}");
        c
    };
    s.all_cars = vec![car("acc", 0, ""), car("iracing", 0, ""), car("acc", 8000, ""), car("acc", 0, "GT3")];
    let job = pithddu::cardata::prefetch_start(&s, 6);
    assert_eq!(job.gen, 7);
    assert_eq!(job.work.len(), 1);
    assert_eq!(job.work[0].0, 0);
    let details = || pithddu::cardata::CarDetails {
        redline: 7200,
        led_n: 12,
        klass: "GT3".to_string(),
        led_cols: vec![],
    };
    assert!(!pithddu::cardata::prefetch_store(&job, 8, &mut s, 0, details()));
    assert_eq!(s.all_cars[0].redline, 0);
    assert!(pithddu::cardata::prefetch_store(&job, 7, &mut s, 0, details()));
    assert_eq!((s.all_cars[0].redline, s.all_cars[0].led_n), (7200, 12));
    assert_eq!(s.all_cars[0].klass, "GT3");
    assert_eq!(pithddu::cardata::prefetch_start(&s, usize::MAX).gen, 0);
}
