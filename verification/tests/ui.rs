use pithddu::format::{Fmt, Op};
use pithddu::telemetry::Telemetry;
use pithddu::ui::{render_screen, render_screen_diff, screen_drawable};
use pithddu::ui::{
    draw_ops, drawable, node_sig, pal, plan_repaint, rgb888, rule_color, screen_sigs, Align,
    DrawOp, Framebuffer, Kind, Node, Pal, Rect, RenderCache, Rule, Screen,
};

#[test]
fn palette_in_rgb565() {
    assert_eq!(pal(Pal::Bg), (1, 2, 1));
    assert_eq!(pal(Pal::White), (29, 59, 30));
    assert_eq!(rgb888(0xFF8040), (31, 32, 8));
}

#[test]
fn first_matching_rule_colours() {
    let rules = vec![
        Rule { op: Op::Lt, threshold: 0, color: Pal::Green },
        Rule { op: Op::Gt, threshold: 0, color: Pal::Red },
    ];
    assert_eq!(rule_color(-5, Pal::Amber, &rules), Pal::Green);
    assert_eq!(rule_color(5, Pal::Amber, &rules), Pal::Red);
    assert_eq!(rule_color(0, Pal::Amber, &rules), Pal::Amber);
    assert_eq!(rule_color(0, Pal::Cyan, &vec![]), Pal::Cyan);
}

#[test]
fn node_signatures_hash_what_they_show() {
    let mut t = Telemetry::idle();
    t.tc = 3;
    t.abs = 2;
    assert_eq!(node_sig(&Kind::TcDual, &t, 0), 0x835ec07b4ee4fb0);
    assert_eq!(node_sig(&Kind::Panel { color: Pal::Bg, radius: 3 }, &t, 0), 0);
    t.delta_ms = -1;
    let stat = Kind::Stat {
        field: 10,
        label: "DELTA".into(),
        fmt: None,
        scale: 0,
        unit: String::new(),
        base: Pal::Amber,
        rules: vec![],
        size: 0,
    };
    assert_eq!(node_sig(&stat, &t, 0), 0x509c41b379fe466e);
}

#[test]
fn repaint_plan_redraws_changes_only() {
    let mut cache = RenderCache::new();
    let (full, redraw) = plan_repaint(&mut cache, &vec![1, 2, 3]);
    assert!(full);
    assert_eq!(redraw, vec![true, true, true]);
    let (full, redraw) = plan_repaint(&mut cache, &vec![1, 5, 3]);
    assert!(!full);
    assert_eq!(redraw, vec![false, true, false]);
    let (full, redraw) = plan_repaint(&mut cache, &vec![1, 5, 3]);
    assert!(!full);
    assert_eq!(redraw, vec![false, false, false]);
    cache.invalidate();
    assert!(plan_repaint(&mut cache, &vec![1, 5, 3]).0);
}

#[test]
fn screen_signatures_per_node() {
    let mut t = Telemetry::idle();
    t.tc = 3;
    t.abs = 2;
    let s = Screen {
        display: 0,
        w: 480,
        h: 320,
        bg: Pal::Bg,
        nodes: vec![
            Node { rect: Rect { x: 0, y: 0, w: 10, h: 10 }, kind: Kind::TrackMap },
            Node { rect: Rect { x: 0, y: 0, w: 10, h: 10 }, kind: Kind::TcDual },
        ],
    };
    assert_eq!(screen_sigs(&s, &t, 0), vec![0, 0x835ec07b4ee4fb0]);
}

fn text_of(op: &DrawOp) -> (&str, i32, i32, u32, Align) {
    match op {
        DrawOp::Text { text, x, y, size, align, .. } => (text.as_str(), *x, *y, *size, *align),
        _ => panic!("text expected"),
    }
}

#[test]
fn stat_widget_draws_label_and_value() {
    let mut t = Telemetry::idle();
    t.fuel_dl = 425;
    let r = Rect { x: 348, y: 50, w: 128, h: 90 };
    let k = Kind::Stat {
        field: 23,
        label: "FUEL".into(),
        fmt: Some(Fmt::Fixed1),
        scale: 10,
        unit: "L".into(),
        base: Pal::Amber,
        rules: vec![],
        size: 0,
    };
    assert!(drawable(&r, &k, &t));
    let ops = draw_ops(&r, &k, &t);
    assert_eq!(ops.len(), 2);
    assert_eq!(text_of(&ops[0]), ("FUEL", 412, 61, 11, Align::Center));
    assert_eq!(text_of(&ops[1]), ("42.5L", 412, 101, 22, Align::Center));
    match &ops[1] {
        DrawOp::Text { color, .. } => assert_eq!(*color, pal(Pal::Amber)),
        _ => unreachable!(),
    }
}

#[test]
fn gear_speed_and_position_widgets() {
    let mut t = Telemetry::idle();
    t.gear = b'4';
    t.speed_kmh = 212;
    t.position = 4;
    t.field_size = 20;
    let r = Rect { x: 136, y: 50, w: 208, h: 200 };
    let ops = draw_ops(&r, &Kind::GearSpeed { speed: true }, &t);
    assert_eq!(ops.len(), 3);
    assert_eq!(text_of(&ops[0]), ("4", 240, 144, 40, Align::Center));
    assert_eq!(text_of(&ops[1]), ("212", 240, 224, 24, Align::Center));
    assert_eq!(text_of(&ops[2]), ("KM/H", 240, 242, 11, Align::Center));
    let t0 = Telemetry { gear: 0, ..Telemetry::idle() };
    assert_eq!(text_of(&draw_ops(&r, &Kind::GearSpeed { speed: false }, &t0)[0]).0, "N");
    let ops = draw_ops(&r, &Kind::Position { label: "POS".into() }, &t);
    assert_eq!(text_of(&ops[1]).0, "P4/20");
}

#[test]
fn bar_tyres_sectors_and_strip() {
    let mut t = Telemetry::idle();
    t.throttle = 50;
    let r = Rect { x: 0, y: 0, w: 108, h: 30 };
    let bar = Kind::Bar { field: 51, label: "THR".into(), scale: 100, base: Pal::Green, rules: vec![] };
    let ops = draw_ops(&r, &bar, &t);
    match &ops[2] {
        DrawOp::FillRect { x, y, w, h, .. } => assert_eq!((*x, *y, *w, *h), (4, 15, 50, 10)),
        _ => panic!("fill expected"),
    }
    t.tt_fl_m = 100;
    t.tt_fr_m = 85;
    t.tt_rl_m = 70;
    let grid = draw_ops(&Rect { x: 4, y: 150, w: 128, h: 120 }, &Kind::TyreGrid, &t);
    assert_eq!(grid.len(), 8);
    assert_eq!(text_of(&grid[1]).0, "100");
    match (&grid[1], &grid[3], &grid[5]) {
        (DrawOp::Text { color: a, .. }, DrawOp::Text { color: b, .. }, DrawOp::Text { color: c, .. }) => {
            assert_eq!((*a, *b, *c), (pal(Pal::Red), pal(Pal::Amber), pal(Pal::Green)));
        }
        _ => panic!("texts expected"),
    }
    assert_eq!((text_of(&grid[7]).1, text_of(&grid[7]).2), (4 + 64 + 32, 150 + 60 + 30));
    t.s1_ms = 31_234;
    t.bs1_ms = 31_500;
    let secs = draw_ops(&Rect { x: 0, y: 0, w: 300, h: 40 }, &Kind::Sectors, &t);
    assert_eq!(text_of(&secs[0]), ("31.234", 50, 20, 12, Align::Center));
    assert_eq!(text_of(&secs[1]).0, "--.---");
    let strip = draw_ops(&Rect { x: 0, y: 2, w: 480, h: 42 }, &Kind::RpmStrip, &t);
    assert_eq!(strip.len(), 12);
    match &strip[11] {
        DrawOp::RevSegment { index, x, y, w, h } => assert_eq!((*index, *x, *y, *w, *h), (11, 441, 6, 38, 34)),
        _ => panic!("segment expected"),
    }
}

#[test]
fn out_of_range_values_are_not_drawable() {
    let mut t = Telemetry::idle();
    t.throttle = 30_000_000;
    let bar = Kind::Bar { field: 51, label: "THR".into(), scale: 100, base: Pal::Green, rules: vec![] };
    assert!(!drawable(&Rect { x: 0, y: 0, w: 10, h: 10 }, &bar, &t));
    assert!(drawable(&Rect { x: 0, y: 0, w: 2_000_000, h: 10 }, &Kind::TrackMap, &t));
    assert!(!drawable(&Rect { x: i32::MIN, y: 0, w: 0, h: 30 }, &Kind::TrackMap, &t));
    let no_scale = Kind::Bar { field: 51, label: "THR".into(), scale: 0, base: Pal::Green, rules: vec![] };
    assert!(drawable(&Rect { x: 0, y: 0, w: 10, h: 10 }, &no_scale, &t));
    t.throttle = 100;
    assert!(!drawable(&Rect { x: 0, y: 0, w: 30_000_000, h: 10 }, &bar, &t));
    assert!(drawable(&Rect { x: 0, y: 0, w: 20_000_000, h: 10 }, &bar, &t));
}

#[test]
fn framebuffer_clips_and_exports() {
    let mut f = Framebuffer::new(2, 2);
    f.set_pixel(1, 0, (31, 63, 31));
    f.set_pixel(5, 0, (1, 1, 1));
    f.set_pixel(-1, 1, (1, 1, 1));
    f.set_pixel(0, 1, (16, 32, 1));
    let px = f.to_rgba8();
    assert_eq!(px.len(), 16);
    assert_eq!(&px[0..4], &[0, 0, 0, 255]);
    assert_eq!(&px[4..8], &[255, 255, 255, 255]);
    assert_eq!(&px[8..12], &[132, 130, 8, 255]);
}

#[test]
fn demo_screen_and_frame() {
    let d = pithddu::ui::demo_doc();
    assert_eq!(d.version, 1);
    assert_eq!(d.screens.len(), 1);
    let s = &d.screens[0];
    assert_eq!((s.w, s.h, s.nodes.len()), (480, 320, 12));
    assert!(matches!(s.nodes[0].kind, Kind::RpmStrip));
    assert!(matches!(s.nodes[11].kind, Kind::LapPair));
    let t = pithddu::ui::demo_telem();
    assert_eq!((t.gear, t.speed_kmh, t.delta_ms), (b'4', 212, -3000));
    let ops = draw_ops(&s.nodes[4].rect, &s.nodes[4].kind, &t);
    assert_eq!(text_of(&ops[1]).0, "-0.3000");
    match &ops[1] {
        DrawOp::Text { color, .. } => assert_eq!(*color, pal(Pal::Green)),
        _ => unreachable!(),
    }
    let ops = draw_ops(&s.nodes[11].rect, &s.nodes[11].kind, &t);
    assert_eq!(text_of(&ops[1]).0, "1:24.318");
    assert_eq!(text_of(&ops[3]).0, "1:22.900");
}

#[test]
fn full_and_dirty_repaints() {
    let d = pithddu::ui::demo_doc();
    let s = &d.screens[0];
    let mut t = pithddu::ui::demo_telem();
    assert!(screen_drawable(s, &t));
    let full = render_screen(s, &t);
    assert!(matches!(full[0], DrawOp::Clear { .. }));
    let mut cache = RenderCache::new();
    let first = render_screen_diff(s, &t, 0, &mut cache);
    assert_eq!(first.len(), full.len());
    assert!(matches!(first[0], DrawOp::Clear { .. }));
    assert!(render_screen_diff(s, &t, 10, &mut cache).is_empty());
    t.tc = 5;
    t.fuel_dl = 400;
    let again = render_screen_diff(s, &t, 20, &mut cache);
    // only the fuel stat changed: erased, then its label and value
    assert_eq!(again.len(), 3);
    match &again[0] {
        DrawOp::FillRect { x, y, w, h, color } => {
            assert_eq!((*x, *y, *w, *h), (348, 50, 128, 90));
            assert_eq!(*color, pal(Pal::Bg));
        }
        _ => panic!("erase expected"),
    }
    assert_eq!(text_of(&again[2]).0, "40.0");
}

#[test]
fn drawable_accepts_large_rects_and_refuses_overflow() {
    let t = Telemetry::idle();
    let big = Rect { x: 5_000_000, y: -5_000_000, w: 40_000_000, h: 30_000_000 };
    assert!(drawable(&big, &Kind::RpmStrip, &t));
    assert_eq!(draw_ops(&big, &Kind::RpmStrip, &t).len(), 12);
    assert!(drawable(&big, &Kind::TyreGrid, &t));
    let edge = Rect { x: i32::MAX - 3, y: 0, w: 0, h: 8 };
    assert!(drawable(&edge, &Kind::Panel { color: Pal::Bg, radius: 0 }, &t));
    assert!(!drawable(&edge, &Kind::Flag { field: 0, base: Pal::Green, rules: vec![] }, &t));
    let wide = Rect { x: 0, y: 0, w: 1_000_000_000, h: 10 };
    assert!(!drawable(&wide, &Kind::TcDual, &t));
    assert!(drawable(&wide, &Kind::Sectors, &t));
    // sizes above i32::MAX wrap to negative ones, as the renderer converts them
    let huge = Rect { x: 0, y: 0, w: u32::MAX, h: 10 };
    assert!(drawable(&huge, &Kind::Panel { color: Pal::Bg, radius: 0 }, &t));
    let wrap = Rect { x: 0, y: 0, w: 0x8000_0000, h: 10 };
    assert!(!drawable(&wrap, &Kind::Flag { field: 0, base: Pal::Green, rules: vec![] }, &t));
    match &draw_ops(&huge, &Kind::Panel { color: Pal::Bg, radius: 0 }, &t)[0] {
        DrawOp::FillRound { w, .. } => assert_eq!(*w, -1),
        _ => panic!("panel expected"),
    }
}
