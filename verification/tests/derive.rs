use pithddu::derive::Derived;
use pithddu::telemetry::Telemetry;

#[test]
fn best_lap_from_completed() {
    let mut d = Derived::default();
    // Each frame is a fresh parse_line where the source leaves best_lap_ms = 0.
    let frame = |d: &mut Derived, lap, last| {
        let mut t = Telemetry::idle();
        t.laps_done = lap;
        t.last_lap_ms = last;
        d.update(&mut t);
        t.best_lap_ms
    };
    assert_eq!(frame(&mut d, 2, 84_000), 84_000);
    assert_eq!(frame(&mut d, 3, 82_500), 82_500); // faster
    assert_eq!(frame(&mut d, 4, 83_000), 82_500); // slower → best stays
}

#[test]
fn fuel_per_lap_from_burn() {
    let mut d = Derived::default();
    let mut t = Telemetry::idle();
    t.laps_done = 1;
    t.fuel_dl = 500;
    d.update(&mut t);
    t.laps_done = 2;
    t.fuel_dl = 476; // burned 2.4 L
    d.update(&mut t);
    assert_eq!(t.fuel_per_lap_ml, 2400);
    assert_eq!(t.fuel_laps_x10, 476 * 1000 / 2400);
}

#[test]
fn best_lap_forgotten_on_new_session() {
    let mut d = Derived::new();
    let mut t = Telemetry::idle();
    t.laps_done = 5;
    t.last_lap_ms = 80_000;
    d.update_at(&mut t, 0);
    assert_eq!(t.best_lap_ms, 80_000);
    let mut t = Telemetry::idle();
    t.laps_done = 1; // counter went back: new session
    t.last_lap_ms = 90_000;
    d.update_at(&mut t, 0);
    assert_eq!(t.best_lap_ms, 90_000);
}

#[test]
fn source_values_win() {
    let mut d = Derived::new();
    let mut t = Telemetry::idle();
    t.laps_done = 3;
    t.last_lap_ms = 70_000;
    t.best_lap_ms = 75_000;
    t.cur_lap_ms = 12_345;
    t.delta_ms = -42;
    t.fuel_per_lap_ml = 2000;
    t.fuel_laps_x10 = 7;
    t.fuel_dl = 100;
    let before = t;
    d.update_at(&mut t, 1_000);
    assert_eq!(t, before);
}

#[test]
fn current_lap_timed_by_clock() {
    let mut d = Derived::new();
    let mut t = Telemetry::idle();
    t.laps_done = 1;
    d.update_at(&mut t, 10_000);
    assert_eq!(t.cur_lap_ms, 0);
    let mut t = Telemetry::idle();
    t.laps_done = 1;
    d.update_at(&mut t, 13_500);
    assert_eq!(t.cur_lap_ms, 3_500);
    let mut t = Telemetry::idle();
    t.laps_done = 2; // lap rolled: clock restarts
    d.update_at(&mut t, 20_000);
    assert_eq!(t.cur_lap_ms, 0);
}

#[test]
fn fuel_laps_left_from_source_per_lap() {
    let mut d = Derived::new();
    let mut t = Telemetry::idle();
    t.fuel_dl = 300;
    t.fuel_per_lap_ml = 2500;
    d.update_at(&mut t, 0);
    assert_eq!(t.fuel_per_lap_ml, 2500);
    assert_eq!(t.fuel_laps_x10, 300 * 1000 / 2500);
}

#[test]
fn fuel_average_is_exponential() {
    let mut d = Derived::new();
    let mut t = Telemetry::idle();
    t.laps_done = 1;
    t.fuel_dl = 500;
    d.update_at(&mut t, 0);
    let mut t = Telemetry::idle();
    t.laps_done = 2;
    t.fuel_dl = 480; // 2000 ml
    d.update_at(&mut t, 0);
    assert_eq!(t.fuel_per_lap_ml, 2000);
    let mut t = Telemetry::idle();
    t.laps_done = 3;
    t.fuel_dl = 452; // 2800 ml
    d.update_at(&mut t, 0);
    assert_eq!(t.fuel_per_lap_ml, (2000 * 3 + 2800) / 4);
}

#[test]
fn delta_against_reference_lap() {
    let mut d = Derived::new();
    // lap 1: 40 s at the half-way bucket
    let mut t = Telemetry::idle();
    t.laps_done = 1;
    t.track_pct = 500;
    t.cur_lap_ms = 40_000;
    d.update_at(&mut t, 0);
    assert_eq!(t.delta_ms, 0);
    // lap 2 starts: lap 1 (80 s) becomes the reference
    let mut t = Telemetry::idle();
    t.laps_done = 2;
    t.last_lap_ms = 80_000;
    t.track_pct = 500;
    t.cur_lap_ms = 39_000;
    d.update_at(&mut t, 0);
    assert_eq!(t.delta_ms, (39_000 - 40_000) * 10);
}

#[test]
fn best_lap_is_fastest_of_current_session() {
    let mut d = Derived::new();
    let mut feed = |lap: i32, last: i32| {
        let mut t = Telemetry::idle();
        t.laps_done = lap;
        t.last_lap_ms = last;
        d.update_at(&mut t, 0);
        t.best_lap_ms
    };
    assert_eq!(feed(1, 0), 0);
    assert_eq!(feed(2, 91_000), 91_000);
    assert_eq!(feed(3, 85_000), 85_000);
    assert_eq!(feed(3, 85_000), 85_000);
    assert_eq!(feed(0, 0), 0); // counter went back: the session restarts, no lap yet
    assert_eq!(feed(1, 95_000), 95_000);
    assert_eq!(feed(2, 97_000), 95_000);
}

#[test]
fn current_lap_restarts_at_each_lap_roll() {
    let mut d = Derived::new();
    let mut feed = |lap: i32, now: u64| {
        let mut t = Telemetry::idle();
        t.laps_done = lap;
        d.update_at(&mut t, now);
        t.cur_lap_ms
    };
    assert_eq!(feed(1, 1_000), 0);
    assert_eq!(feed(1, 4_000), 3_000);
    assert_eq!(feed(2, 5_000), 0);
    assert_eq!(feed(2, 7_500), 2_500);
    assert_eq!(feed(1, 8_000), 0); // any change of the counter starts a lap
    assert_eq!(feed(1, 8_250), 250);
}

#[test]
fn large_fuel_passes_when_no_fuel_arithmetic_runs() {
    let mut d = Derived::new();
    let mut t = Telemetry::idle();
    t.fuel_dl = -2_000_000_000;
    t.fuel_per_lap_ml = 2_000_000_000;
    t.fuel_laps_x10 = 3;
    assert!(d.fuel_fits(&t));
    let before = t;
    d.update_at(&mut t, 0);
    assert_eq!(t.fuel_per_lap_ml, before.fuel_per_lap_ml);
    assert_eq!(t.fuel_laps_x10, 3);
    let mut u = Telemetry::idle();
    u.fuel_dl = 3_000_000;
    assert!(d.fuel_fits(&u) == false);
    u.fuel_laps_x10 = 1;
    assert!(d.fuel_fits(&u));
}
