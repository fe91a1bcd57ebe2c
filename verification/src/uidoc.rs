//! From the layout editor's widgets to the screens of a UI document: which
//! widgets land on a display and where, the widget parameters read from the
//! editor's text, and the document's fixed frame (480 x 320 panels, version 1).

use vstd::prelude::*;
use crate::state::ModSpec;
use crate::ui::{Node, Pal, Rect, Screen, UiDoc};
use crate::format::{Fmt, fmt_of, fmt_from_str};
use crate::registry::{field_id_from_str, FIELD_COUNT, FIELD_NAMES, FIELD_NONE};

verus! {

/// Width of a race panel (landscape).
pub const SCREEN_W: u32 = 480;

/// Height of a race panel (landscape).
pub const SCREEN_H: u32 = 320;

/// A widget's rectangle: its position, and its size with negatives as 0.
pub open spec fn rect_of(m: ModSpec) -> Rect {
    Rect {
        x: m.x,
        y: m.y,
        w: if m.w < 0 { 0u32 } else { m.w as u32 },
        h: if m.h < 0 { 0u32 } else { m.h as u32 },
    }
}

/// The enabled widgets among the first `n` assigned to `display`, in order:
/// each one's index and rectangle.
pub open spec fn layout_of(specs: Seq<ModSpec>, display: u8, n: int) -> Seq<(usize, Rect)>
    decreases n,
{
    if n <= 0 {
        Seq::empty()
    } else {
        let prev = layout_of(specs, display, n - 1);
        let m = specs[n - 1];
        if m.display == display && m.enabled {
            prev.push(((n - 1) as usize, rect_of(m)))
        } else {
            prev
        }
    }
}

/// The widgets of `display` (enabled ones only, in editor order): the index
/// of each and its rectangle.
pub fn screen_layout(specs: &Vec<ModSpec>, display: u8) -> (v: Vec<(usize, Rect)>)
    ensures
        v@ == layout_of(specs@, display, specs@.len() as int),
{
    let mut v: Vec<(usize, Rect)> = Vec::new();
    let mut i: usize = 0;
    while i < specs.len()
        invariant
            i <= specs@.len(),
            v@ == layout_of(specs@, display, i as int),
        decreases specs.len() - i,
    {
        let m = &specs[i];
        if m.display == display && m.enabled {
            let w: u32 = if m.w < 0 { 0 } else { m.w as u32 };
            let h: u32 = if m.h < 0 { 0 } else { m.h as u32 };
            v.push((i, Rect { x: m.x, y: m.y, w, h }));
        }
        i += 1;
    }
    v
}

/// The displays a document has screens for: display 0 always, display 1 when
/// some widget is assigned to it.
pub fn uidoc_displays(specs: &Vec<ModSpec>) -> (v: Vec<u8>)
    ensures
        v@ == (if exists|i: int| 0 <= i < specs@.len() && #[trigger] specs@[i].display == 1 {
            seq![0u8, 1u8]
        } else {
            seq![0u8]
        }),
{
    let mut any = false;
    let mut i: usize = 0;
    while i < specs.len()
        invariant
            i <= specs@.len(),
            any == exists|j: int| 0 <= j < i && #[trigger] specs@[j].display == 1,
        decreases specs.len() - i,
    {
        if specs[i].display == 1 {
            any = true;
        }
        i += 1;
    }
    let mut v: Vec<u8> = Vec::new();
    v.push(0);
    if any {
        v.push(1);
    }
    v
}

/// The parameters a widget's text gives its drawing: the channel id (0 when
/// the name is unknown), the format (none when empty), and the size in
/// percent clamped to 0..=255.
pub open spec fn widget_params_of(m: ModSpec) -> (Option<Fmt>, u8) {
    (
        if m.fmt_type@.len() == 0 {
            None
        } else {
            Some(fmt_of(m.fmt_type@))
        },
        if m.size_pct < 0 {
            0u8
        } else if m.size_pct > 255 {
            255u8
        } else {
            m.size_pct as u8
        },
    )
}

/// Reads a widget's drawing parameters: its channel id, format and size.
pub fn widget_params(m: &ModSpec) -> (r: (u8, Option<Fmt>, u8))
    ensures
        (r.0 as int) < FIELD_COUNT,
        r.0 as int == FIELD_NONE <==> forall|i: int| 1 <= i < FIELD_COUNT ==> FIELD_NAMES@[i]@ != m.field@,
        r.0 as int != FIELD_NONE ==> FIELD_NAMES@[r.0 as int]@ == m.field@,
        (r.1, r.2) == widget_params_of(*m),
{
    let id = field_id_from_str(m.field.as_str());
    let fmt = if crate::text::chars_of(m.fmt_type.as_str()).len() == 0 {
        None
    } else {
        Some(fmt_from_str(m.fmt_type.as_str()))
    };
    let size: u8 = if m.size_pct < 0 {
        0
    } else if m.size_pct > 255 {
        255
    } else {
        m.size_pct as u8
    };
    (id as u8, fmt, size)
}

/// The screen of `display` with these nodes: a 480 x 320 panel on the
/// background colour.
pub fn screen_of(display: u8, nodes: Vec<Node>) -> (s: Screen)
    ensures
        s.display == display,
        s.w == SCREEN_W && s.h == SCREEN_H,
        s.bg == Pal::Bg,
        s.nodes@ == nodes@,
{
    Screen { display, w: SCREEN_W, h: SCREEN_H, bg: Pal::Bg, nodes }
}

/// The UI document with these screens (format version 1).
pub fn uidoc_of(screens: Vec<Screen>) -> (d: UiDoc)
    ensures
        d.version == 1,
        d.screens@ == screens@,
{
    UiDoc { version: 1, screens }
}

} // verus!
