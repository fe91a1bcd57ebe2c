use pithddu::catalog::{
    default_spec, mod_name, seed_boards, seed_buttons, seed_presets, seed_shift, seed_sim,
    zone_index, SHIFT_RAMP, SHIFT_THRESHOLDS,
};
use pithddu::state::State;

#[test]
fn zones_and_widget_names() {
    assert_eq!(zone_index("center"), 2);
    assert_eq!(zone_index("bottom"), 4);
    assert_eq!(zone_index("nowhere"), 0);
    assert_eq!(mod_name("fuel"), "Fuel");
    assert_eq!(mod_name("tcAbs"), "TC / ABS");
    assert_eq!(mod_name("custom"), "custom");
}

#[test]
fn default_widget_specs() {
    let d = default_spec("lapDelta");
    assert_eq!((d.kind.as_str(), d.field.as_str(), d.label.as_str(), d.base.as_str()), ("stat", "delta_ms", "DELTA", "amber"));
    assert_eq!(d.rules.len(), 2);
    assert_eq!((d.rules[0].op.as_str(), d.rules[0].v, d.rules[0].color.as_str()), ("<", 0, "green"));
    assert!(d.enabled);
    assert_eq!(d.templ, "lapDelta");
    let w = default_spec("water");
    assert_eq!((w.unit.as_str(), w.rules[0].v), ("\u{00B0}", 105));
    let t = default_spec("tyres");
    assert_eq!((t.kind.as_str(), t.field.as_str()), ("tyreGrid", "tt_fl_m"));
    let f = default_spec("flag");
    assert_eq!((f.kind.as_str(), f.base.as_str()), ("flag", "green"));
    let c = default_spec("clock");
    assert_eq!((c.kind.as_str(), c.field.as_str(), c.label.as_str()), ("stat", "speed_kmh", "Session Clock"));
}

#[test]
fn seeds_fill_the_state() {
    let mut s = State::new();
    seed_presets(&mut s);
    assert_eq!(s.presets.len(), 5);
    assert_eq!(s.presets[0].name, "Endurance");
    assert_eq!(s.uid, 28);
    assert_eq!(s.zones.len(), s.presets[0].zones.len());
    seed_shift(&mut s);
    for g in 1..=6 {
        for i in 0..12 {
            assert_eq!(s.leds[g][i].rgb, SHIFT_RAMP[i]);
            assert_eq!(s.leds[g][i].threshold, SHIFT_THRESHOLDS[i]);
        }
    }
    assert_eq!(s.leds[0][0].threshold, 0);
    seed_buttons(&mut s);
    assert_eq!(s.btn_pages.len(), 3);
    seed_boards(&mut s);
    assert!(!s.boards.is_empty());
    seed_sim(&mut s);
    assert_eq!(s.sim.len(), 61);
    assert!(s.sim.iter().all(|r| r.enabled && r.builtin));
}
