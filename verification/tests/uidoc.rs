use pithddu::format::Fmt;
use pithddu::state::ModSpec;
use pithddu::ui::{Pal, Rect};
use pithddu::uidoc::{screen_layout, screen_of, uidoc_displays, uidoc_of, widget_params};

fn spec(display: u8, enabled: bool, x: i32, w: i32) -> ModSpec {
    let mut m = ModSpec::default();
    m.display = display;
    m.enabled = enabled;
    m.x = x;
    m.y = 5;
    m.w = w;
    m.h = -3;
    m
}

#[test]
fn layout_keeps_enabled_widgets_of_the_display() {
    let specs = vec![spec(0, true, 1, 100), spec(1, true, 2, 50), spec(0, false, 3, 10), spec(0, true, 4, -7)];
    let l = screen_layout(&specs, 0);
    assert_eq!(l.len(), 2);
    assert_eq!(l[0].0, 0);
    assert_eq!((l[0].1.x, l[0].1.y, l[0].1.w, l[0].1.h), (1, 5, 100, 0));
    assert_eq!(l[1].0, 3);
    assert_eq!((l[1].1.w, l[1].1.h), (0, 0));
    assert_eq!(screen_layout(&specs, 1).len(), 1);
    assert_eq!(uidoc_displays(&specs), vec![0, 1]);
    assert_eq!(uidoc_displays(&specs[..1].to_vec()), vec![0]);
    let _ = Rect { x: 0, y: 0, w: 0, h: 0 };
}

#[test]
fn widget_params_from_text() {
    let mut m = ModSpec::default();
    m.field = "fuel_dl".to_string();
    m.fmt_type = String::new();
    m.size_pct = 300;
    let (id, fmt, size) = widget_params(&m);
    assert!(id > 0);
    assert_eq!(fmt, None);
    assert_eq!(size, 255);
    m.field = "no_such_channel".to_string();
    m.fmt_type = "int".to_string();
    m.size_pct = -4;
    let (id, fmt, size) = widget_params(&m);
    assert_eq!((id, fmt, size), (0, Some(Fmt::Int), 0));
}

#[test]
fn screens_and_document_frame() {
    let s = screen_of(1, vec![]);
    assert_eq!((s.display, s.w, s.h), (1, 480, 320));
    assert_eq!(s.bg, Pal::Bg);
    let d = uidoc_of(vec![screen_of(0, vec![])]);
    assert_eq!(d.version, 1);
    assert_eq!(d.screens.len(), 1);
}
