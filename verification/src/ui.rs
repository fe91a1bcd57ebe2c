//! The screen engine's model and its drawing decisions: the palette and
//! colour conversions, rule colours, each widget's change signature, the
//! dirty-rect repaint plan, and the preview framebuffer.

use vstd::prelude::*;
use crate::format::{Fmt, Op, rule_match, tdiv};
use crate::telemetry::Telemetry;

verus! {

// ---------------------------------------------------------------- palette

/// The named colours of the screen engine.
#[derive(Clone, Copy, PartialEq, Eq, Debug, Structural)]
pub enum Pal {
    Bg,
    Panel,
    White,
    Dim,
    Green,
    Amber,
    Red,
    Cyan,
    Blue,
    Purple,
}

/// The 8-bit RGB value of a palette colour.
pub open spec fn pal_rgb(p: Pal) -> (u8, u8, u8) {
    match p {
        Pal::Bg => (8, 10, 14),
        Pal::Panel => (28, 32, 40),
        Pal::White => (235, 238, 245),
        Pal::Dim => (120, 128, 140),
        Pal::Green => (40, 220, 90),
        Pal::Amber => (255, 180, 40),
        Pal::Red => (240, 60, 60),
        Pal::Cyan => (40, 210, 230),
        Pal::Blue => (60, 130, 255),
        Pal::Purple => (180, 110, 255),
    }
}

/// The RGB565 components (5, 6 and 5 bits) of an 8-bit RGB colour: the high
/// bits of each channel.
pub open spec fn rgb565_of(c: (u8, u8, u8)) -> (u8, u8, u8) {
    ((c.0 / 8) as u8, (c.1 / 4) as u8, (c.2 / 8) as u8)
}

/// RGB565 components of an 8-bit RGB colour.
pub fn rgb(r: u8, g: u8, b: u8) -> (c: (u8, u8, u8))
    ensures
        c == rgb565_of((r, g, b)),
{
    assert(r >> 3u8 == r / 8) by (bit_vector);
    assert(g >> 2u8 == g / 4) by (bit_vector);
    assert(b >> 3u8 == b / 8) by (bit_vector);
    (r >> 3u8, g >> 2u8, b >> 3u8)
}

/// RGB565 components of a palette colour.
pub fn pal(p: Pal) -> (c: (u8, u8, u8))
    ensures
        c == rgb565_of(pal_rgb(p)),
{
    match p {
        Pal::Bg => rgb(8, 10, 14),
        Pal::Panel => rgb(28, 32, 40),
        Pal::White => rgb(235, 238, 245),
        Pal::Dim => rgb(120, 128, 140),
        Pal::Green => rgb(40, 220, 90),
        Pal::Amber => rgb(255, 180, 40),
        Pal::Red => rgb(240, 60, 60),
        Pal::Cyan => rgb(40, 210, 230),
        Pal::Blue => rgb(60, 130, 255),
        Pal::Purple => rgb(180, 110, 255),
    }
}

/// The 8-bit channels of a `0xRRGGBB` value.
pub open spec fn channels(c: u32) -> (u8, u8, u8) {
    (((c / 0x10000) % 256) as u8, ((c / 0x100) % 256) as u8, (c % 256) as u8)
}

/// RGB565 components of a `0xRRGGBB` colour.
pub fn rgb888(c: u32) -> (r: (u8, u8, u8))
    ensures
        r == rgb565_of(channels(c)),
{
    let red = (c >> 16u32) as u8;
    let green = (c >> 8u32) as u8;
    let blue = c as u8;
    assert(((c >> 16u32) as u8) == ((c / 0x10000) % 256) as u8) by (bit_vector);
    assert(((c >> 8u32) as u8) == ((c / 0x100) % 256) as u8) by (bit_vector);
    assert((c as u8) == (c % 256) as u8) by (bit_vector);
    rgb(red, green, blue)
}

// ---------------------------------------------------------------- model

/// A node's rectangle on its screen.
#[derive(Clone, Copy, PartialEq, Eq, Debug, Structural)]
pub struct Rect {
    pub x: i32,
    pub y: i32,
    pub w: u32,
    pub h: u32,
}

/// Horizontal alignment of a label.
#[derive(Clone, Copy, PartialEq, Eq, Debug, Structural)]
pub enum Align {
    Left,
    Center,
    Right,
}

/// A colour rule: when `op(value, threshold)` holds, use `color` (the first
/// matching rule wins).
#[derive(Clone, Copy, PartialEq, Eq, Debug, Structural)]
pub struct Rule {
    pub op: Op,
    pub threshold: i32,
    pub color: Pal,
}

/// What a node draws; `field` is a 1-based telemetry field id (0: none).
pub enum Kind {
    Panel { color: Pal, radius: u8 },
    Label { text: String, color: Pal, size: u8, align: Align },
    Stat {
        field: u8,
        label: String,
        fmt: Option<Fmt>,
        scale: i32,
        unit: String,
        base: Pal,
        rules: Vec<Rule>,
        size: u8,
    },
    Bar { field: u8, label: String, scale: i32, base: Pal, rules: Vec<Rule> },
    GearSpeed { speed: bool },
    RpmStrip,
    TyreGrid,
    TcDual,
    Sectors,
    LapPair,
    Position { label: String },
    Flag { field: u8, base: Pal, rules: Vec<Rule> },
    TrackMap,
}

/// A positioned node.
pub struct Node {
    pub rect: Rect,
    pub kind: Kind,
}

/// One screen, for one display.
pub struct Screen {
    pub display: u8,
    pub w: u32,
    pub h: u32,
    pub bg: Pal,
    pub nodes: Vec<Node>,
}

// ---------------------------------------------------------------- rule colours

/// The colour of the first rule from `i` on that `raw` satisfies, else `base`.
pub open spec fn rule_color_from(raw: i32, base: Pal, rules: Seq<Rule>, i: int) -> Pal
    decreases rules.len() - i,
{
    if i < 0 || i >= rules.len() {
        base
    } else if match rules[i].op {
        Op::Lt => raw < rules[i].threshold,
        Op::Le => raw <= rules[i].threshold,
        Op::Eq => raw == rules[i].threshold,
        Op::Ge => raw >= rules[i].threshold,
        Op::Gt => raw > rules[i].threshold,
    } {
        rules[i].color
    } else {
        rule_color_from(raw, base, rules, i + 1)
    }
}

/// The colour a value is drawn in: the first matching rule's colour, else the
/// base colour.
pub fn rule_color(raw: i32, base: Pal, rules: &Vec<Rule>) -> (c: Pal)
    ensures
        c == rule_color_from(raw, base, rules@, 0),
{
    let mut i: usize = 0;
    while i < rules.len()
        invariant
            i <= rules@.len(),
            rule_color_from(raw, base, rules@, 0) == rule_color_from(raw, base, rules@, i as int),
        decreases rules.len() - i,
    {
        let r = rules[i];
        if rule_match(raw, r.op, r.threshold) {
            return r.color;
        }
        i += 1;
    }
    base
}

// ---------------------------------------------------------------- signatures

/// FNV-1a offset basis and prime (64-bit).
pub const FNV_OFFSET: u64 = 0xcbf29ce484222325;

pub const FNV_PRIME: u64 = 0x100000001b3;

/// FNV-1a over the first `n` values, each taken as its 64-bit pattern.
pub open spec fn fnv(vals: Seq<i64>, n: int) -> u64
    decreases n,
{
    if n <= 0 {
        FNV_OFFSET
    } else {
        vstd::wrapping::u64_specs::wrapping_mul(fnv(vals, n - 1) ^ (vals[n - 1] as u64), FNV_PRIME)
    }
}

/// The telemetry a node's pixels depend on (empty for static nodes).
pub open spec fn sig_values(kind: Kind, t: Telemetry, now_ms: i64) -> Seq<i64> {
    match kind {
        Kind::Panel { .. } | Kind::Label { .. } | Kind::TrackMap => Seq::empty(),
        Kind::Stat { field, .. } | Kind::Bar { field, .. } | Kind::Flag { field, .. } => seq![
            t.field(field as int) as i64,
        ],
        Kind::GearSpeed { speed } => seq![
            t.gear as i64,
            if speed {
                t.speed_kmh as i64
            } else {
                0i64
            },
        ],
        Kind::RpmStrip => seq![
            t.rpm as i64,
            t.max_rpm as i64,
            t.shift_rpm as i64,
            tdiv(now_ms as int, 80) as i64,
        ],
        Kind::TyreGrid => seq![
            t.tt_fl_m as i64,
            t.tt_fr_m as i64,
            t.tt_rl_m as i64,
            t.tt_rr_m as i64,
        ],
        Kind::TcDual => seq![t.tc as i64, t.abs as i64],
        Kind::Sectors => seq![
            t.s1_ms as i64,
            t.s2_ms as i64,
            t.s3_ms as i64,
            t.bs1_ms as i64,
            t.bs2_ms as i64,
            t.bs3_ms as i64,
        ],
        Kind::LapPair => seq![t.cur_lap_ms as i64, t.best_lap_ms as i64],
        Kind::Position { .. } => seq![t.position as i64, t.field_size as i64],
    }
}

/// Does a node of this kind never change?
pub open spec fn is_static(kind: Kind) -> bool {
    kind is Panel || kind is Label || kind is TrackMap
}

/// A node's change signature: 0 for static nodes, else the FNV-1a hash of the
/// telemetry its pixels depend on.
pub open spec fn node_sig_of(kind: Kind, t: Telemetry, now_ms: i64) -> u64 {
    if is_static(kind) {
        0
    } else {
        let v = sig_values(kind, t, now_ms);
        fnv(v, v.len() as int)
    }
}

fn fnv_hash(vals: &Vec<i64>) -> (h: u64)
    ensures
        h == fnv(vals@, vals@.len() as int),
{
    let mut x: u64 = 0xcbf29ce484222325;
    let mut i: usize = 0;
    while i < vals.len()
        invariant
            i <= vals@.len(),
            x == fnv(vals@, i as int),
        decreases vals.len() - i,
    {
        x = x ^ (vals[i] as u64);
        x = x.wrapping_mul(0x100000001b3);
        i += 1;
    }
    x
}

/// A node's change signature (see `node_sig_of`).
pub fn node_sig(kind: &Kind, t: &Telemetry, now_ms: i64) -> (h: u64)
    ensures
        h == node_sig_of(*kind, *t, now_ms),
{
    let vals: Vec<i64> = match kind {
        Kind::Panel { .. } | Kind::Label { .. } | Kind::TrackMap => {
            return 0;
        },
        Kind::Stat { field, .. } | Kind::Bar { field, .. } | Kind::Flag { field, .. } => {
            vec![t.field_value(*field as usize) as i64]
        },
        Kind::GearSpeed { speed } => vec![
            t.gear as i64,
            if *speed {
                t.speed_kmh as i64
            } else {
                0i64
            },
        ],
        Kind::RpmStrip => vec![t.rpm as i64, t.max_rpm as i64, t.shift_rpm as i64, now_ms / 80],
        Kind::TyreGrid => vec![
            t.tt_fl_m as i64,
            t.tt_fr_m as i64,
            t.tt_rl_m as i64,
            t.tt_rr_m as i64,
        ],
        Kind::TcDual => vec![t.tc as i64, t.abs as i64],
        Kind::Sectors => vec![
            t.s1_ms as i64,
            t.s2_ms as i64,
            t.s3_ms as i64,
            t.bs1_ms as i64,
            t.bs2_ms as i64,
            t.bs3_ms as i64,
        ],
        Kind::LapPair => vec![t.cur_lap_ms as i64, t.best_lap_ms as i64],
        Kind::Position { .. } => vec![t.position as i64, t.field_size as i64],
    };
    assert(vals@ =~= sig_values(*kind, *t, now_ms));
    fnv_hash(&vals)
}

// ---------------------------------------------------------------- repaint plan

/// The signatures of the nodes as last drawn.
pub struct RenderCache {
    pub sigs: Vec<u64>,
}

impl RenderCache {
    /// An empty cache: the next repaint is a full one.
    pub fn new() -> (c: RenderCache)
        ensures
            c.sigs@.len() == 0,
    {
        RenderCache { sigs: Vec::new() }
    }

    /// Forces a full repaint next time.
    pub fn invalidate(&mut self)
        ensures
            final(self).sigs@.len() == 0,
    {
        self.sigs.clear();
    }
}

/// Which nodes a dirty-rect repaint redraws, given the cached signatures and
/// the current ones: all of them (after clearing the screen) when the node
/// count changed, else those whose signature changed.
pub open spec fn redraw_of(cached: Seq<u64>, sigs: Seq<u64>) -> (bool, Seq<bool>) {
    let full = cached.len() != sigs.len();
    (full, Seq::new(sigs.len(), |i: int| full || cached[i] != sigs[i]))
}

/// Plans a dirty-rect repaint: whether the screen is cleared first and which
/// nodes are redrawn (see `redraw_of`); the cache then holds the current
/// signatures.
pub fn plan_repaint(cache: &mut RenderCache, sigs: &Vec<u64>) -> (r: (bool, Vec<bool>))
    ensures
        (r.0, r.1@) == redraw_of(old(cache).sigs@, sigs@),
        final(cache).sigs@ == sigs@,
{
    let full = cache.sigs.len() != sigs.len();
    let ghost cached = cache.sigs@;
    let mut redraw: Vec<bool> = Vec::new();
    let mut next: Vec<u64> = Vec::new();
    let mut i: usize = 0;
    while i < sigs.len()
        invariant
            i <= sigs@.len(),
            cache.sigs@ == cached,
            full == (cached.len() != sigs@.len()),
            redraw@.len() == i,
            next@ == sigs@.take(i as int),
            forall|j: int| 0 <= j < i ==> #[trigger] redraw@[j] == (full || cached[j] != sigs@[j]),
        decreases sigs.len() - i,
    {
        let changed = full || cache.sigs[i] != sigs[i];
        redraw.push(changed);
        next.push(sigs[i]);
        i += 1;
        assert(next@ =~= sigs@.take(i as int));
    }
    assert(next@ =~= sigs@);
    assert(redraw@ =~= redraw_of(cached, sigs@).1);
    cache.sigs = next;
    (full, redraw)
}

/// The node signatures of a screen against telemetry `t` at `now_ms`.
pub fn screen_sigs(s: &Screen, t: &Telemetry, now_ms: i64) -> (v: Vec<u64>)
    ensures
        v@.len() == s.nodes@.len(),
        forall|i: int| 0 <= i < v@.len() ==> #[trigger] v@[i] == node_sig_of(s.nodes@[i].kind, *t, now_ms),
{
    let mut v: Vec<u64> = Vec::new();
    let mut i: usize = 0;
    while i < s.nodes.len()
        invariant
            i <= s.nodes@.len(),
            v@.len() == i,
            forall|j: int| 0 <= j < i ==> #[trigger] v@[j] == node_sig_of(s.nodes@[j].kind, *t, now_ms),
        decreases s.nodes.len() - i,
    {
        v.push(node_sig(&s.nodes[i].kind, t, now_ms));
        i += 1;
    }
    v
}

/// Repainting right after a repaint, with unchanged signatures, redraws
/// nothing and does not clear the screen.
pub proof fn lemma_repaint_settles(sigs: Seq<u64>)
    ensures
        !redraw_of(sigs, sigs).0,
        forall|i: int| 0 <= i < sigs.len() ==> !#[trigger] redraw_of(sigs, sigs).1[i],
{
}

// ---------------------------------------------------------------- drawing

/// One drawing primitive of a widget (colours as RGB565 components).
pub enum DrawOp {
    FillRect { x: i32, y: i32, w: i32, h: i32, color: (u8, u8, u8) },
    FillRound { x: i32, y: i32, w: i32, h: i32, r: i32, color: (u8, u8, u8) },
    /// Text anchored at (`x`, `y`): vertically centred, aligned by `align`.
    Text { text: String, x: i32, y: i32, size: u32, color: (u8, u8, u8), align: Align },
    /// A one-pixel circle outline in the square at (`x`, `y`) of side `d`.
    Circle { x: i32, y: i32, d: u32, color: (u8, u8, u8) },
    /// Segment `index` of the rev strip, coloured by the shift-light logic.
    RevSegment { index: i32, x: i32, y: i32, w: i32, h: i32 },
    /// The whole screen filled with one colour.
    Clear { color: (u8, u8, u8) },
}

pub enum DrawOpV {
    FillRect { x: i32, y: i32, w: i32, h: i32, color: (u8, u8, u8) },
    FillRound { x: i32, y: i32, w: i32, h: i32, r: i32, color: (u8, u8, u8) },
    Text { text: Seq<char>, x: i32, y: i32, size: u32, color: (u8, u8, u8), align: Align },
    Circle { x: i32, y: i32, d: u32, color: (u8, u8, u8) },
    RevSegment { index: i32, x: i32, y: i32, w: i32, h: i32 },
    Clear { color: (u8, u8, u8) },
}

impl View for DrawOp {
    type V = DrawOpV;

    open spec fn view(&self) -> DrawOpV {
        match self {
            DrawOp::FillRect { x, y, w, h, color } => DrawOpV::FillRect {
                x: *x,
                y: *y,
                w: *w,
                h: *h,
                color: *color,
            },
            DrawOp::FillRound { x, y, w, h, r, color } => DrawOpV::FillRound {
                x: *x,
                y: *y,
                w: *w,
                h: *h,
                r: *r,
                color: *color,
            },
            DrawOp::Text { text, x, y, size, color, align } => DrawOpV::Text {
                text: text@,
                x: *x,
                y: *y,
                size: *size,
                color: *color,
                align: *align,
            },
            DrawOp::Circle { x, y, d, color } => DrawOpV::Circle { x: *x, y: *y, d: *d, color: *color },
            DrawOp::RevSegment { index, x, y, w, h } => DrawOpV::RevSegment {
                index: *index,
                x: *x,
                y: *y,
                w: *w,
                h: *h,
            },
            DrawOp::Clear { color } => DrawOpV::Clear { color: *color },
        }
    }
}

/// The fill of a bar, in percent: the field times 100 over the scale
/// (truncating), clamped to 0..=100; 0 without a positive scale.
pub open spec fn bar_pct(raw: i32, scale: i32) -> int {
    if scale > 0 {
        let p = tdiv(raw * 100, scale as int);
        if p < 0 {
            0
        } else if p > 100 {
            100
        } else {
            p
        }
    } else {
        0
    }
}

/// Does `v` fit in an `i32`?
pub open spec fn fits(v: int) -> bool {
    i32::MIN <= v <= i32::MAX
}

/// The rectangle's position and size as the renderer computes with them: the
/// sizes converted to `i32` (a size above `i32::MAX` wraps to a negative one).
pub open spec fn geom(r: Rect) -> (int, int, int, int) {
    (r.x as int, r.y as int, (r.w as i32) as int, (r.h as i32) as int)
}

/// Do the coordinates that drawing `kind` in `r` computes stay within `i32`?
/// Each sum, difference and product the renderer forms for this kind must
/// fit (where an offset runs over segments or cells, its first and last).
pub open spec fn geometry_ok(r: Rect, kind: Kind) -> bool {
    let (x, y, w, h) = geom(r);
    &&& fits(x + tdiv(w, 2))
    &&& match kind {
        Kind::Panel { .. } => true,
        Kind::Label { align, .. } => fits(y + tdiv(h, 2)) && match align {
            Align::Left => fits(x + 2),
            Align::Center => true,
            Align::Right => fits(x + w) && fits(x + w - 2),
        },
        Kind::Stat { .. } => fits(y + 11) && fits(y + tdiv(h, 2)) && fits(y + tdiv(h, 2) + 6),
        Kind::Bar { .. } => fits(x + 4) && fits(y + 10) && fits(y + tdiv(h, 2)) && fits(w - 8),
        Kind::GearSpeed { speed } => fits(y + tdiv(h, 2)) && fits(y + tdiv(h, 2) - 6) && (speed ==> fits(
            y + h,
        ) && fits(y + h - 26)),
        Kind::RpmStrip => fits(x + 1) && fits(x + 11 * tdiv(w, 12)) && fits(x + 11 * tdiv(w, 12) + 1)
            && fits(y + 4) && fits(h - 8),
        Kind::TyreGrid => {
            let (bw, bh) = (tdiv(w, 2), tdiv(h, 2));
            &&& fits(x + 2) && fits(x + bw + 2) && fits(x + tdiv(bw, 2)) && fits(x + bw + tdiv(bw, 2))
            &&& fits(y + bh) && fits(y + 2) && fits(y + bh + 2) && fits(y + tdiv(bh, 2)) && fits(
                y + bh + tdiv(bh, 2),
            )
        },
        Kind::TcDual => fits(x + tdiv(w, 4)) && fits(3 * w) && fits(x + tdiv(3 * w, 4)) && fits(y + 12)
            && fits(y + tdiv(h, 2)) && fits(y + tdiv(h, 2) + 6),
        Kind::Sectors => {
            let sw = tdiv(w, 3);
            fits(x + tdiv(sw, 2)) && fits(x + 2 * sw) && fits(x + 2 * sw + tdiv(sw, 2)) && fits(
                y + tdiv(h, 2),
            )
        },
        Kind::LapPair => fits(y + 10) && fits(y + tdiv(h, 4)) && fits(y + tdiv(h, 4) + 6) && fits(
            y + tdiv(h, 2),
        ) && fits(y + tdiv(h, 2) + 8) && fits(3 * h) && fits(y + tdiv(3 * h, 4)) && fits(
            y + tdiv(3 * h, 4) + 4,
        ),
        Kind::Position { .. } => fits(y + 12) && fits(y + tdiv(h, 2)) && fits(y + tdiv(h, 2) + 4),
        Kind::Flag { .. } => fits(x + 4) && fits(y + 4) && fits(w - 8) && fits(h - 8),
        Kind::TrackMap => fits(x + tdiv(w, 2) - tdiv(h, 3)) && fits(y + tdiv(h, 6)),
    }
}

/// The format a stat shows its field in: its own, else the field's registry
/// format, else plain integer.
pub open spec fn stat_fmt(fmt: Option<Fmt>, field: u8) -> Fmt {
    match fmt {
        Some(f) => f,
        None => if (field as int) < crate::registry::FIELD_COUNT {
            crate::registry::FIELD_FMTS@[field as int]
        } else {
            Fmt::Int
        },
    }
}

/// The scale a stat divides its field by: its own when positive, else the
/// field's registry scale, else 1.
pub open spec fn stat_scale(scale: i32, field: u8) -> i32 {
    if scale > 0 {
        scale
    } else if (field as int) < crate::registry::FIELD_COUNT {
        crate::registry::FIELD_SCALES@[field as int]
    } else {
        1
    }
}

/// Can `kind` be drawn in `r` against `t` without overflow: its coordinates
/// (`geometry_ok`), a stat's value within its format's range, a bar's value
/// times 100 (with a positive scale) and its fill width times the percentage
/// within `i32`?
pub open spec fn draw_ok(r: Rect, kind: Kind, t: Telemetry) -> bool {
    &&& geometry_ok(r, kind)
    &&& match kind {
        Kind::Stat { field, fmt, .. } => crate::format::fmtc_in_range(
            t.field(field as int),
            stat_fmt(fmt, field),
        ),
        Kind::Bar { field, scale, .. } => (scale > 0 ==> -21474836 <= t.field(field as int) <= 21474836)
            && fits((geom(r).2 - 8) * bar_pct(t.field(field as int), scale)),
        _ => true,
    }
}

/// The colour of a tyre temperature: red above 95, amber above 80, else green.
pub open spec fn tyre_color(temp: i32) -> Pal {
    if temp > 95 {
        Pal::Red
    } else if temp > 80 {
        Pal::Amber
    } else {
        Pal::Green
    }
}

/// Text op with colour `c` (palette), size and alignment.
pub open spec fn text_v(text: Seq<char>, x: int, y: int, size: int, c: Pal, align: Align) -> DrawOpV {
    DrawOpV::Text {
        text,
        x: x as i32,
        y: y as i32,
        size: size as u32,
        color: rgb565_of(pal_rgb(c)),
        align,
    }
}

/// The rev strip's twelve segments across `r`.
pub open spec fn rev_ops_of(r: Rect) -> Seq<DrawOpV> {
    let (x, y, w, h) = geom(r);
    let sw = tdiv(w, 12);
    Seq::new(12, |i: int| rev_segment(x, y, h, sw, i))
}

/// Segment `i` of a rev strip at (`x`, `y`), `h` high, `sw` per segment.
pub open spec fn rev_segment(x: int, y: int, h: int, sw: int, i: int) -> DrawOpV {
    DrawOpV::RevSegment {
        index: i as i32,
        x: (x + i * sw + 1) as i32,
        y: (y + 4) as i32,
        w: (sw - 2) as i32,
        h: (h - 8) as i32,
    }
}

/// Tyre `i` (FL, FR, RL, RR) of a 2x2 grid in `r`: its panel and its value.
pub open spec fn tyre_cell(r: Rect, temp: i32, i: int) -> Seq<DrawOpV> {
    let (x, y, w, h) = geom(r);
    let (bw, bh) = (tdiv(w, 2), tdiv(h, 2));
    let (cxx, cyy) = (x + (i % 2) * bw, y + (i / 2) * bh);
    seq![
        DrawOpV::FillRound {
            x: (cxx + 2) as i32,
            y: (cyy + 2) as i32,
            w: (bw - 4) as i32,
            h: (bh - 4) as i32,
            r: 4,
            color: rgb565_of(pal_rgb(Pal::Panel)),
        },
        text_v(crate::frame::int_text(temp as int), cxx + tdiv(bw, 2), cyy + tdiv(bh, 2), 14, tyre_color(temp), Align::Center),
    ]
}

/// The tyre grid: the cells of FL, FR, RL and RR in turn.
pub open spec fn tyre_ops_of(r: Rect, t: Telemetry) -> Seq<DrawOpV> {
    tyre_cell(r, t.tt_fl_m, 0) + tyre_cell(r, t.tt_fr_m, 1) + tyre_cell(r, t.tt_rl_m, 2) + tyre_cell(r, t.tt_rr_m, 3)
}

/// Sector `i`'s time, green when it is a personal best, else amber.
pub open spec fn sector_text(r: Rect, sec: i32, best: i32, i: int) -> DrawOpV {
    let (x, y, w, h) = geom(r);
    let sw = tdiv(w, 3);
    text_v(
        crate::format::formatted(sec, Fmt::Sector, 1, Seq::empty()),
        x + i * sw + tdiv(sw, 2),
        y + tdiv(h, 2),
        12,
        if sec > 0 && best > 0 && sec <= best {
            Pal::Green
        } else {
            Pal::Amber
        },
        Align::Center,
    )
}

/// The three sector times.
pub open spec fn sector_ops_of(r: Rect, t: Telemetry) -> Seq<DrawOpV> {
    seq![sector_text(r, t.s1_ms, t.bs1_ms, 0), sector_text(r, t.s2_ms, t.bs2_ms, 1), sector_text(r, t.s3_ms, t.bs3_ms, 2)]
}

/// The primitives that draw `kind` in rectangle `r` against telemetry `t`.
pub open spec fn ops_of(r: Rect, kind: Kind, t: Telemetry) -> Seq<DrawOpV> {
    let (x, y, w, h) = geom(r);
    let cx = x + tdiv(w, 2);
    match kind {
        Kind::Panel { color, radius } => seq![
            DrawOpV::FillRound {
                x: x as i32,
                y: y as i32,
                w: w as i32,
                h: h as i32,
                r: radius as i32,
                color: rgb565_of(pal_rgb(color)),
            },
        ],
        Kind::Label { text, color, size, align } => {
            let sz = if size == 0 {
                14
            } else {
                size as int
            };
            let ax = match align {
                Align::Left => x + 2,
                Align::Center => cx,
                Align::Right => x + w - 2,
            };
            seq![text_v(text@, ax, y + tdiv(h, 2), sz, color, align)]
        },
        Kind::Stat { field, label, fmt, scale, unit, base, rules, size } => {
            let raw = t.field(field as int);
            let sz = if size == 0 {
                22
            } else {
                size as int
            };
            seq![
                text_v(label@, cx, y + 11, 11, Pal::Dim, Align::Center),
                DrawOpV::Text {
                    text: crate::format::formatted(raw, stat_fmt(fmt, field), stat_scale(scale, field), unit@),
                    x: cx as i32,
                    y: (y + tdiv(h, 2) + 6) as i32,
                    size: sz as u32,
                    color: rgb565_of(pal_rgb(rule_color_from(raw, base, rules@, 0))),
                    align: Align::Center,
                },
            ]
        },
        Kind::Bar { field, label, scale, base, rules } => {
            let raw = t.field(field as int);
            let pct = bar_pct(raw, scale);
            seq![
                text_v(label@, x + 4, y + 10, 11, Pal::Dim, Align::Left),
                DrawOpV::FillRect {
                    x: (x + 4) as i32,
                    y: (y + tdiv(h, 2)) as i32,
                    w: (w - 8) as i32,
                    h: (tdiv(h, 3)) as i32,
                    color: rgb565_of(pal_rgb(Pal::Panel)),
                },
                DrawOpV::FillRect {
                    x: (x + 4) as i32,
                    y: (y + tdiv(h, 2)) as i32,
                    w: tdiv((w - 8) * pct, 100) as i32,
                    h: (tdiv(h, 3)) as i32,
                    color: rgb565_of(pal_rgb(rule_color_from(raw, base, rules@, 0))),
                },
            ]
        },
        Kind::GearSpeed { speed } => {
            let g = if t.gear == 0 {
                'N'
            } else {
                t.gear as char
            };
            let glyph = seq![text_v(seq![g], cx, y + tdiv(h, 2) - 6, 40, Pal::White, Align::Center)];
            if speed {
                glyph + seq![
                    text_v(crate::frame::int_text(t.speed_kmh as int), cx, y + h - 26, 24, Pal::White, Align::Center),
                    text_v("KM/H"@, cx, y + h - 8, 11, Pal::Dim, Align::Center),
                ]
            } else {
                glyph
            }
        },
        Kind::RpmStrip => rev_ops_of(r),
        Kind::TyreGrid => tyre_ops_of(r, t),
        Kind::TcDual => seq![
            text_v("TC"@, x + tdiv(w, 4), y + 12, 11, Pal::Dim, Align::Center),
            text_v("ABS"@, x + tdiv(3 * w, 4), y + 12, 11, Pal::Dim, Align::Center),
            text_v(crate::frame::int_text(t.tc as int), x + tdiv(w, 4), y + tdiv(h, 2) + 6, 22, Pal::White, Align::Center),
            text_v(crate::frame::int_text(t.abs as int), x + tdiv(3 * w, 4), y + tdiv(h, 2) + 6, 22, Pal::White, Align::Center),
        ],
        Kind::Sectors => sector_ops_of(r, t),
        Kind::LapPair => seq![
            text_v("CURRENT"@, cx, y + 10, 11, Pal::Dim, Align::Center),
            text_v(crate::format::formatted(t.cur_lap_ms, Fmt::Time, 1, Seq::empty()), cx, y + tdiv(h, 4) + 6, 18, Pal::White, Align::Center),
            text_v("BEST"@, cx, y + tdiv(h, 2) + 8, 11, Pal::Dim, Align::Center),
            text_v(crate::format::formatted(t.best_lap_ms, Fmt::Time, 1, Seq::empty()), cx, y + tdiv(3 * h, 4) + 4, 18, Pal::Cyan, Align::Center),
        ],
        Kind::Position { label } => seq![
            text_v(label@, cx, y + 12, 11, Pal::Dim, Align::Center),
            text_v(
                seq!['P'] + crate::frame::int_text(t.position as int) + seq!['/'] + crate::frame::int_text(t.field_size as int),
                cx,
                y + tdiv(h, 2) + 4,
                22,
                Pal::White,
                Align::Center,
            ),
        ],
        Kind::Flag { field, base, rules } => seq![
            DrawOpV::FillRound {
                x: (x + 4) as i32,
                y: (y + 4) as i32,
                w: (w - 8) as i32,
                h: (h - 8) as i32,
                r: 4,
                color: rgb565_of(pal_rgb(rule_color_from(t.field(field as int), base, rules@, 0))),
            },
        ],
        Kind::TrackMap => seq![
            DrawOpV::Circle {
                x: (cx - tdiv(h, 3)) as i32,
                y: (y + tdiv(h, 6)) as i32,
                d: if tdiv(h, 3) > 1 {
                    (tdiv(h, 3)) as u32
                } else {
                    1u32
                },
                color: rgb565_of(pal_rgb(Pal::Dim)),
            },
        ],
    }
}

fn text_op(text: String, x: i32, y: i32, size: u32, c: Pal, align: Align) -> (op: DrawOp)
    ensures
        op@ == (DrawOpV::Text { text: text@, x, y, size, color: rgb565_of(pal_rgb(c)), align }),
{
    DrawOp::Text { text, x, y, size, color: pal(c), align }
}

fn str_op(text: &str, x: i32, y: i32, size: u32, c: Pal, align: Align) -> (op: DrawOp)
    ensures
        op@ == (DrawOpV::Text { text: text@, x, y, size, color: rgb565_of(pal_rgb(c)), align }),
{
    text_op(text.to_owned(), x, y, size, c, align)
}

fn position_text(pos: i32, of: i32) -> (s: String)
    ensures
        s@ == seq!['P'] + crate::frame::int_text(pos as int) + seq!['/'] + crate::frame::int_text(of as int),
{
    let mut c: Vec<char> = Vec::new();
    c.push('P');
    crate::frame::push_int_text(&mut c, pos);
    c.push('/');
    crate::frame::push_int_text(&mut c, of);
    assert(c@ =~= seq!['P'] + crate::frame::int_text(pos as int) + seq!['/'] + crate::frame::int_text(of as int));
    crate::text::string_from_chars(&c)
}

fn int_string(v: i32) -> (s: String)
    ensures
        s@ == crate::frame::int_text(v as int),
{
    let mut out: Vec<char> = Vec::new();
    crate::frame::push_int_text(&mut out, v);
    crate::text::string_from_chars(&out)
}

fn rev_ops(r: &Rect) -> (v: Vec<DrawOp>)
    requires
        geometry_ok(*r, Kind::RpmStrip),
    ensures
        v@.map_values(|o: DrawOp| o@) == rev_ops_of(*r),
{
    let (x, y, w, h) = (r.x, r.y, r.w as i32, r.h as i32);
    let sw = w / 12;
    let mut v: Vec<DrawOp> = Vec::new();
    let mut i: i32 = 0;
    while i < 12
        invariant
            0 <= i <= 12,
            geometry_ok(*r, Kind::RpmStrip),
            x == r.x && y == r.y,
            (w as int, h as int) == (geom(*r).2, geom(*r).3),
            sw as int == tdiv(w as int, 12),
            v@.map_values(|o: DrawOp| o@) == rev_ops_of(*r).take(i as int),
        decreases 12 - i,
    {
        assert((sw >= 0 ==> 0 <= i * sw <= 11 * sw) && (sw < 0 ==> 11 * sw <= i * sw <= 0)) by (nonlinear_arith)
            requires
                0 <= i <= 11,
        ;
        let ghost before = v@.map_values(|o: DrawOp| o@);
        v.push(DrawOp::RevSegment { index: i, x: x + i * sw + 1, y: y + 4, w: sw - 2, h: h - 8 });
        proof {
            assert(rev_ops_of(*r)[i as int] == rev_segment(x as int, y as int, h as int, sw as int, i as int));
            assert(v@.map_values(|o: DrawOp| o@) =~= before.push(rev_segment(x as int, y as int, h as int, sw as int, i as int)));
            assert(rev_ops_of(*r).take(i + 1) =~= rev_ops_of(*r).take(i as int).push(rev_ops_of(*r)[i as int]));
        }
        i += 1;
    }
    assert(rev_ops_of(*r).take(12) =~= rev_ops_of(*r));
    v
}

fn tyre_cell_ops(v: &mut Vec<DrawOp>, r: &Rect, temp: i32, i: i32)
    requires
        geometry_ok(*r, Kind::TyreGrid),
        0 <= i < 4,
    ensures
        final(v)@.map_values(|o: DrawOp| o@) == old(v)@.map_values(|o: DrawOp| o@) + tyre_cell(*r, temp, i as int),
{
    let (x, y, w, h) = (r.x, r.y, r.w as i32, r.h as i32);
    let (bw, bh) = (w / 2, h / 2);
    assert(((i % 2) * bw == 0 || (i % 2) * bw == bw) && ((i / 2) * bh == 0 || (i / 2) * bh == bh)) by (nonlinear_arith)
        requires
            0 <= i < 4,
    ;
    let (cxx, cyy) = (x + (i % 2) * bw, y + (i / 2) * bh);
    let col = if temp > 95 {
        Pal::Red
    } else if temp > 80 {
        Pal::Amber
    } else {
        Pal::Green
    };
    let ghost before = v@.map_values(|o: DrawOp| o@);
    v.push(DrawOp::FillRound { x: cxx + 2, y: cyy + 2, w: bw - 4, h: bh - 4, r: 4, color: pal(Pal::Panel) });
    v.push(text_op(int_string(temp), cxx + bw / 2, cyy + bh / 2, 14, col, Align::Center));
    assert(v@.map_values(|o: DrawOp| o@) =~= before + tyre_cell(*r, temp, i as int));
}

fn tyre_ops(r: &Rect, t: &Telemetry) -> (v: Vec<DrawOp>)
    requires
        geometry_ok(*r, Kind::TyreGrid),
    ensures
        v@.map_values(|o: DrawOp| o@) == tyre_ops_of(*r, *t),
{
    let mut v: Vec<DrawOp> = Vec::new();
    tyre_cell_ops(&mut v, r, t.tt_fl_m, 0);
    tyre_cell_ops(&mut v, r, t.tt_fr_m, 1);
    tyre_cell_ops(&mut v, r, t.tt_rl_m, 2);
    tyre_cell_ops(&mut v, r, t.tt_rr_m, 3);
    assert(v@.map_values(|o: DrawOp| o@) =~= tyre_ops_of(*r, *t));
    v
}

fn sector_op(r: &Rect, sec: i32, best: i32, i: i32) -> (op: DrawOp)
    requires
        geometry_ok(*r, Kind::Sectors),
        0 <= i < 3,
    ensures
        op@ == sector_text(*r, sec, best, i as int),
{
    let (x, y, w, h) = (r.x, r.y, r.w as i32, r.h as i32);
    let sw = w / 3;
    assert((sw >= 0 ==> 0 <= i * sw <= 2 * sw) && (sw < 0 ==> 2 * sw <= i * sw <= 0)) by (nonlinear_arith)
        requires
            0 <= i < 3,
    ;
    let col = if sec > 0 && best > 0 && sec <= best {
        Pal::Green
    } else {
        Pal::Amber
    };
    let s = crate::format::fmtc_format(sec, Fmt::Sector, 1, "");
    proof {
        reveal_strlit("");
    }
    text_op(s, x + i * sw + sw / 2, y + h / 2, 12, col, Align::Center)
}

fn sector_ops(r: &Rect, t: &Telemetry) -> (v: Vec<DrawOp>)
    requires
        geometry_ok(*r, Kind::Sectors),
    ensures
        v@.map_values(|o: DrawOp| o@) == sector_ops_of(*r, *t),
{
    let mut v: Vec<DrawOp> = Vec::new();
    v.push(sector_op(r, t.s1_ms, t.bs1_ms, 0));
    v.push(sector_op(r, t.s2_ms, t.bs2_ms, 1));
    v.push(sector_op(r, t.s3_ms, t.bs3_ms, 2));
    assert(v@.map_values(|o: DrawOp| o@) =~= sector_ops_of(*r, *t));
    v
}

/// The primitives that draw `kind` in `r` against telemetry `t` (see `ops_of`).
#[verifier::rlimit(40)]
pub fn draw_ops(r: &Rect, kind: &Kind, t: &Telemetry) -> (v: Vec<DrawOp>)
    requires
        draw_ok(*r, *kind, *t),
    ensures
        v@.map_values(|o: DrawOp| o@) == ops_of(*r, *kind, *t),
{
    let (x, y, w, h) = (r.x, r.y, r.w as i32, r.h as i32);
    let cx = x + w / 2;
    let mut v: Vec<DrawOp> = Vec::new();
    match kind {
        Kind::Panel { color, radius } => {
            v.push(DrawOp::FillRound { x, y, w, h, r: *radius as i32, color: pal(*color) });
        },
        Kind::Label { text, color, size, align } => {
            let sz: u32 = if *size == 0 {
                14
            } else {
                *size as u32
            };
            let ax = match align {
                Align::Left => x + 2,
                Align::Center => cx,
                Align::Right => x + w - 2,
            };
            v.push(text_op(text.clone(), ax, y + h / 2, sz, *color, *align));
        },
        Kind::Stat { field, label, fmt, scale, unit, base, rules, size } => {
            let raw = t.field_value(*field as usize);
            let def = crate::registry::field_def(*field as usize);
            let f = match fmt {
                Some(f) => *f,
                None => match def {
                    Some(d) => d.fmt,
                    None => Fmt::Int,
                },
            };
            let sc = if *scale > 0 {
                *scale
            } else {
                match def {
                    Some(d) => d.scale,
                    None => 1,
                }
            };
            let sz: u32 = if *size == 0 {
                22
            } else {
                *size as u32
            };
            v.push(text_op(label.clone(), cx, y + 11, 11, Pal::Dim, Align::Center));
            let s = crate::format::fmtc_format(raw, f, sc, unit.as_str());
            let c = rule_color(raw, *base, rules);
            v.push(text_op(s, cx, y + h / 2 + 6, sz, c, Align::Center));
        },
        Kind::Bar { field, label, scale, base, rules } => {
            let raw = t.field_value(*field as usize);
            let pct: i32 = if *scale > 0 {
                let p = raw * 100 / *scale;
                if p < 0 {
                    0
                } else if p > 100 {
                    100
                } else {
                    p
                }
            } else {
                0
            };
            v.push(text_op(label.clone(), x + 4, y + 10, 11, Pal::Dim, Align::Left));
            v.push(DrawOp::FillRect { x: x + 4, y: y + h / 2, w: w - 8, h: h / 3, color: pal(Pal::Panel) });
            let c = rule_color(raw, *base, rules);
            v.push(DrawOp::FillRect { x: x + 4, y: y + h / 2, w: (w - 8) * pct / 100, h: h / 3, color: pal(c) });
        },
        Kind::GearSpeed { speed } => {
            let g: char = if t.gear == 0 {
                'N'
            } else {
                t.gear as char
            };
            let gv = vec![g];
            assert(gv@ =~= seq![g]);
            v.push(text_op(crate::text::string_from_chars(&gv), cx, y + h / 2 - 6, 40, Pal::White, Align::Center));
            if *speed {
                v.push(text_op(int_string(t.speed_kmh), cx, y + h - 26, 24, Pal::White, Align::Center));
                v.push(str_op("KM/H", cx, y + h - 8, 11, Pal::Dim, Align::Center));
            }
        },
        Kind::RpmStrip => {
            v = rev_ops(r);
        },
        Kind::TyreGrid => {
            v = tyre_ops(r, t);
        },
        Kind::TcDual => {
            v.push(str_op("TC", x + w / 4, y + 12, 11, Pal::Dim, Align::Center));
            v.push(str_op("ABS", x + 3 * w / 4, y + 12, 11, Pal::Dim, Align::Center));
            v.push(text_op(int_string(t.tc), x + w / 4, y + h / 2 + 6, 22, Pal::White, Align::Center));
            v.push(text_op(int_string(t.abs), x + 3 * w / 4, y + h / 2 + 6, 22, Pal::White, Align::Center));
        },
        Kind::Sectors => {
            v = sector_ops(r, t);
        },
        Kind::LapPair => {
            proof {
                reveal_strlit("");
            }
            let cur = crate::format::fmtc_format(t.cur_lap_ms, Fmt::Time, 1, "");
            let best = crate::format::fmtc_format(t.best_lap_ms, Fmt::Time, 1, "");
            v.push(str_op("CURRENT", cx, y + 10, 11, Pal::Dim, Align::Center));
            v.push(text_op(cur, cx, y + h / 4 + 6, 18, Pal::White, Align::Center));
            v.push(str_op("BEST", cx, y + h / 2 + 8, 11, Pal::Dim, Align::Center));
            v.push(text_op(best, cx, y + 3 * h / 4 + 4, 18, Pal::Cyan, Align::Center));
        },
        Kind::Position { label } => {
            v.push(text_op(label.clone(), cx, y + 12, 11, Pal::Dim, Align::Center));
            v.push(text_op(position_text(t.position, t.field_size), cx, y + h / 2 + 4, 22, Pal::White, Align::Center));
        },
        Kind::Flag { field, base, rules } => {
            let raw = t.field_value(*field as usize);
            let c = rule_color(raw, *base, rules);
            v.push(DrawOp::FillRound { x: x + 4, y: y + 4, w: w - 8, h: h - 8, r: 4, color: pal(c) });
        },
        Kind::TrackMap => {
            let third = h / 3;
            let d: u32 = if third > 1 {
                third as u32
            } else {
                1
            };
            v.push(DrawOp::Circle { x: cx - h / 3, y: y + h / 6, d, color: pal(Pal::Dim) });
        },
    }
    v
}

fn fits64(v: i64) -> (b: bool)
    ensures
        b == fits(v as int),
{
    -2147483648 <= v && v <= 2147483647
}

/// Checks `geometry_ok`: whether the coordinates of `kind` in `r` fit.
pub fn geometry_fits(r: &Rect, kind: &Kind) -> (b: bool)
    ensures
        b == geometry_ok(*r, *kind),
{
    let (x, y, w, h) = (r.x as i64, r.y as i64, (r.w as i32) as i64, (r.h as i32) as i64);
    if !fits64(x + w / 2) {
        return false;
    }
    match kind {
        Kind::Panel { .. } => true,
        Kind::Label { align, .. } => fits64(y + h / 2) && match align {
            Align::Left => fits64(x + 2),
            Align::Center => true,
            Align::Right => fits64(x + w) && fits64(x + w - 2),
        },
        Kind::Stat { .. } => fits64(y + 11) && fits64(y + h / 2) && fits64(y + h / 2 + 6),
        Kind::Bar { .. } => fits64(x + 4) && fits64(y + 10) && fits64(y + h / 2) && fits64(w - 8),
        Kind::GearSpeed { speed } => fits64(y + h / 2) && fits64(y + h / 2 - 6) && (!*speed || (fits64(y + h)
            && fits64(y + h - 26))),
        Kind::RpmStrip => fits64(x + 1) && fits64(x + 11 * (w / 12)) && fits64(x + 11 * (w / 12) + 1)
            && fits64(y + 4) && fits64(h - 8),
        Kind::TyreGrid => {
            let (bw, bh) = (w / 2, h / 2);
            fits64(x + 2) && fits64(x + bw + 2) && fits64(x + bw / 2) && fits64(x + bw + bw / 2) && fits64(y + bh)
                && fits64(y + 2) && fits64(y + bh + 2) && fits64(y + bh / 2) && fits64(y + bh + bh / 2)
        },
        Kind::TcDual => fits64(x + w / 4) && fits64(3 * w) && fits64(x + 3 * w / 4) && fits64(y + 12)
            && fits64(y + h / 2) && fits64(y + h / 2 + 6),
        Kind::Sectors => {
            let sw = w / 3;
            fits64(x + sw / 2) && fits64(x + 2 * sw) && fits64(x + 2 * sw + sw / 2) && fits64(y + h / 2)
        },
        Kind::LapPair => fits64(y + 10) && fits64(y + h / 4) && fits64(y + h / 4 + 6) && fits64(y + h / 2)
            && fits64(y + h / 2 + 8) && fits64(3 * h) && fits64(y + 3 * h / 4) && fits64(y + 3 * h / 4 + 4),
        Kind::Position { .. } => fits64(y + 12) && fits64(y + h / 2) && fits64(y + h / 2 + 4),
        Kind::Flag { .. } => fits64(x + 4) && fits64(y + 4) && fits64(w - 8) && fits64(h - 8),
        Kind::TrackMap => fits64(x + w / 2 - h / 3) && fits64(y + h / 6),
    }
}

/// Checks `draw_ok`: whether a node can be drawn against `t`.
pub fn drawable(r: &Rect, kind: &Kind, t: &Telemetry) -> (b: bool)
    ensures
        b == draw_ok(*r, *kind, *t),
{
    if !geometry_fits(r, kind) {
        return false;
    }
    match kind {
        Kind::Stat { field, fmt, .. } => {
            let raw = t.field_value(*field as usize);
            let f = match fmt {
                Some(f) => *f,
                None => match crate::registry::field_def(*field as usize) {
                    Some(d) => d.fmt,
                    None => Fmt::Int,
                },
            };
            match f {
                Fmt::Fixed1 => -214748364 <= raw && raw <= 214748364,
                Fmt::Fixed2 => -21474836 <= raw && raw <= 21474836,
                _ => true,
            }
        },
        Kind::Bar { field, scale, .. } => {
            let raw = t.field_value(*field as usize);
            if *scale > 0 && !(-21474836 <= raw && raw <= 21474836) {
                return false;
            }
            let pct: i64 = if *scale > 0 {
                let p = (raw * 100 / *scale) as i64;
                if p < 0 {
                    0
                } else if p > 100 {
                    100
                } else {
                    p
                }
            } else {
                0
            };
            let w8 = (r.w as i32) as i64 - 8;
            assert(-214_748_365_600 <= w8 * pct <= 214_748_364_700) by (nonlinear_arith)
                requires
                    -2_147_483_656 <= w8 <= 2_147_483_639,
                    0 <= pct <= 100,
            ;
            fits64(w8 * pct)
        },
        _ => true,
    }
}

// ---------------------------------------------------------------- screens

/// Can every node of `nodes` be drawn against `t`?
pub open spec fn nodes_ok(nodes: Seq<Node>, t: Telemetry) -> bool {
    forall|i: int| 0 <= i < nodes.len() ==> #[trigger] draw_ok(nodes[i].rect, nodes[i].kind, t)
}

/// The primitives of the first `n` nodes, in order (those with `redraw[i]`
/// set; each erased to `bg` first when `erase`).
pub open spec fn nodes_ops(nodes: Seq<Node>, t: Telemetry, redraw: Seq<bool>, erase: bool, bg: Pal, n: int) -> Seq<DrawOpV>
    decreases n,
{
    if n <= 0 {
        Seq::empty()
    } else {
        let prev = nodes_ops(nodes, t, redraw, erase, bg, n - 1);
        let node = nodes[n - 1];
        if redraw[n - 1] {
            let r = node.rect;
            let wipe = if erase {
                seq![
                    DrawOpV::FillRect {
                        x: r.x,
                        y: r.y,
                        w: r.w as i32,
                        h: r.h as i32,
                        color: rgb565_of(pal_rgb(bg)),
                    },
                ]
            } else {
                Seq::empty()
            };
            prev + wipe + ops_of(r, node.kind, t)
        } else {
            prev
        }
    }
}

fn push_node_ops(out: &mut Vec<DrawOp>, node: &Node, t: &Telemetry, erase: bool, bg: Pal)
    requires
        draw_ok(node.rect, node.kind, *t),
    ensures
        final(out)@.map_values(|o: DrawOp| o@) == old(out)@.map_values(|o: DrawOp| o@) + (if erase {
            seq![
                DrawOpV::FillRect {
                    x: node.rect.x,
                    y: node.rect.y,
                    w: node.rect.w as i32,
                    h: node.rect.h as i32,
                    color: rgb565_of(pal_rgb(bg)),
                },
            ]
        } else {
            Seq::empty()
        }) + ops_of(node.rect, node.kind, *t),
{
    let ghost before = out@.map_values(|o: DrawOp| o@);
    if erase {
        let r = node.rect;
        out.push(DrawOp::FillRect { x: r.x, y: r.y, w: r.w as i32, h: r.h as i32, color: pal(bg) });
    }
    let ghost mid = out@.map_values(|o: DrawOp| o@);
    let mut ops = draw_ops(&node.rect, &node.kind, t);
    let ghost add = ops@.map_values(|o: DrawOp| o@);
    out.append(&mut ops);
    assert(out@.map_values(|o: DrawOp| o@) =~= mid + add);
    if erase {
        assert(mid =~= before + seq![
            DrawOpV::FillRect {
                x: node.rect.x,
                y: node.rect.y,
                w: node.rect.w as i32,
                h: node.rect.h as i32,
                color: rgb565_of(pal_rgb(bg)),
            },
        ]);
    } else {
        assert(mid =~= before + Seq::<DrawOpV>::empty());
    }
}

/// Checks `nodes_ok`: whether every node of the screen can be drawn.
pub fn screen_drawable(s: &Screen, t: &Telemetry) -> (b: bool)
    ensures
        b == nodes_ok(s.nodes@, *t),
{
    let mut i: usize = 0;
    while i < s.nodes.len()
        invariant
            i <= s.nodes@.len(),
            forall|j: int| 0 <= j < i ==> #[trigger] draw_ok(s.nodes@[j].rect, s.nodes@[j].kind, *t),
        decreases s.nodes.len() - i,
    {
        if !drawable(&s.nodes[i].rect, &s.nodes[i].kind, t) {
            return false;
        }
        i += 1;
    }
    true
}

/// A full repaint: clear to the screen's background, then every node.
pub fn render_screen(s: &Screen, t: &Telemetry) -> (v: Vec<DrawOp>)
    requires
        nodes_ok(s.nodes@, *t),
    ensures
        v@.map_values(|o: DrawOp| o@) == full_ops(s.nodes@, *t, s.bg),
        v@.map_values(|o: DrawOp| o@) == seq![DrawOpV::Clear { color: rgb565_of(pal_rgb(s.bg)) }] + nodes_ops(
            s.nodes@,
            *t,
            Seq::new(s.nodes@.len(), |i: int| true),
            false,
            s.bg,
            s.nodes@.len() as int,
        ),
{
    let ghost all = Seq::new(s.nodes@.len(), |i: int| true);
    let mut v: Vec<DrawOp> = Vec::new();
    v.push(DrawOp::Clear { color: pal(s.bg) });
    let mut i: usize = 0;
    while i < s.nodes.len()
        invariant
            i <= s.nodes@.len(),
            nodes_ok(s.nodes@, *t),
            all == Seq::new(s.nodes@.len(), |i: int| true),
            v@.map_values(|o: DrawOp| o@) == seq![DrawOpV::Clear { color: rgb565_of(pal_rgb(s.bg)) }] + nodes_ops(
                s.nodes@,
                *t,
                all,
                false,
                s.bg,
                i as int,
            ),
        decreases s.nodes.len() - i,
    {
        assert(draw_ok(s.nodes@[i as int].rect, s.nodes@[i as int].kind, *t));
        push_node_ops(&mut v, &s.nodes[i], t, false, s.bg);
        i += 1;
    }
    v
}

/// A dirty-rect repaint: with the cache of signatures as last drawn, redraw
/// only the nodes whose signature changed, each erased to the background first
/// (all nodes after a clear when the node count changed); the cache then holds
/// the current signatures.
pub fn render_screen_diff(s: &Screen, t: &Telemetry, now_ms: i64, cache: &mut RenderCache) -> (v: Vec<DrawOp>)
    requires
        nodes_ok(s.nodes@, *t),
    ensures
        ({
            let sigs = Seq::new(s.nodes@.len(), |i: int| node_sig_of(s.nodes@[i].kind, *t, now_ms));
            let (full, redraw) = redraw_of(old(cache).sigs@, sigs);
            &&& final(cache).sigs@ == sigs
            &&& v@.map_values(|o: DrawOp| o@) == diff_ops(s.nodes@, *t, now_ms, s.bg, old(cache).sigs@)
            &&& v@.map_values(|o: DrawOp| o@) == (if full {
                seq![DrawOpV::Clear { color: rgb565_of(pal_rgb(s.bg)) }]
            } else {
                Seq::empty()
            }) + nodes_ops(s.nodes@, *t, redraw, !full, s.bg, s.nodes@.len() as int)
        }),
{
    let sigs = screen_sigs(s, t, now_ms);
    let ghost gs = Seq::new(s.nodes@.len(), |i: int| node_sig_of(s.nodes@[i].kind, *t, now_ms));
    assert(sigs@ =~= gs);
    let (full, redraw) = plan_repaint(cache, &sigs);
    let mut v: Vec<DrawOp> = Vec::new();
    if full {
        v.push(DrawOp::Clear { color: pal(s.bg) });
    }
    let ghost head = v@.map_values(|o: DrawOp| o@);
    let mut i: usize = 0;
    while i < s.nodes.len()
        invariant
            i <= s.nodes@.len(),
            nodes_ok(s.nodes@, *t),
            redraw@.len() == s.nodes@.len(),
            v@.map_values(|o: DrawOp| o@) == head + nodes_ops(s.nodes@, *t, redraw@, !full, s.bg, i as int),
        decreases s.nodes.len() - i,
    {
        if redraw[i] {
            assert(draw_ok(s.nodes@[i as int].rect, s.nodes@[i as int].kind, *t));
            push_node_ops(&mut v, &s.nodes[i], t, !full, s.bg);
        }
        i += 1;
    }
    proof {
        if full {
            assert(head =~= seq![DrawOpV::Clear { color: rgb565_of(pal_rgb(s.bg)) }]);
        } else {
            assert(head =~= Seq::<DrawOpV>::empty());
        }
    }
    v
}

// ---------------------------------------------------------------- framebuffer

/// An RGB565 framebuffer (each pixel as its 5/6/5-bit components), the
/// preview's drawing target.
pub struct Framebuffer {
    pub w: u32,
    pub h: u32,
    pub buf: Vec<(u8, u8, u8)>,
}

/// An 8-bit channel widened from 5 bits (the high bits repeated below).
pub open spec fn widen5(v: u8) -> u8 {
    (v * 8 + v / 4) as u8
}

/// An 8-bit channel widened from 6 bits.
pub open spec fn widen6(v: u8) -> u8 {
    (v * 4 + v / 16) as u8
}

/// Is every pixel's component within its 5/6/5 bits?
pub open spec fn pixels_ok(buf: Seq<(u8, u8, u8)>) -> bool {
    forall|i: int| 0 <= i < buf.len() ==> #[trigger] buf[i].0 < 32 && buf[i].1 < 64 && buf[i].2 < 32
}

impl Framebuffer {
    /// A black `w` by `h` framebuffer.
    pub fn new(w: u32, h: u32) -> (f: Framebuffer)
        requires
            w * h <= usize::MAX,
        ensures
            f.w == w,
            f.h == h,
            f.buf@ == Seq::new((w * h) as nat, |i: int| (0u8, 0u8, 0u8)),
    {
        let n = (w as usize) * (h as usize);
        let mut buf: Vec<(u8, u8, u8)> = Vec::new();
        let mut i: usize = 0;
        while i < n
            invariant
                i <= n,
                n == w * h,
                buf@ == Seq::new(i as nat, |k: int| (0u8, 0u8, 0u8)),
            decreases n - i,
        {
            buf.push((0u8, 0u8, 0u8));
            i += 1;
            assert(buf@ =~= Seq::new(i as nat, |k: int| (0u8, 0u8, 0u8)));
        }
        Framebuffer { w, h, buf }
    }

    /// Sets pixel (`x`, `y`) when it lies on the framebuffer; other points are
    /// clipped.
    pub fn set_pixel(&mut self, x: i32, y: i32, c: (u8, u8, u8))
        requires
            old(self).buf@.len() == old(self).w * old(self).h,
        ensures
            final(self).w == old(self).w,
            final(self).h == old(self).h,
            0 <= x < old(self).w && 0 <= y < old(self).h ==> final(self).buf@ == old(self).buf@.update(
                y * old(self).w + x,
                c,
            ),
            !(0 <= x < old(self).w && 0 <= y < old(self).h) ==> final(self).buf@ == old(self).buf@,
    {
        if x >= 0 && y >= 0 && (x as u32) < self.w && (y as u32) < self.h {
            let xx = x as u32 as u64;
            let yy = y as u32 as u64;
            let ww = self.w as u64;
            proof {
                assert(yy * ww + xx < (self.h as int) * ww) by (nonlinear_arith)
                    requires
                        yy < self.h,
                        xx < ww,
                ;
                assert((self.h as int) * ww <= 0xFFFF_FFFFu64 * 0xFFFF_FFFFu64) by (nonlinear_arith)
                    requires
                        self.h <= 0xFFFF_FFFFu64,
                        ww <= 0xFFFF_FFFFu64,
                ;
            }
            assert(xx == x && yy == y && ww == self.w);
            assert((self.h as int) * ww == self.w * self.h) by (nonlinear_arith)
                requires
                    ww == self.w,
            ;
            let pos: u64 = yy * ww + xx;
            let n = self.buf.len();
            assert(pos == y * self.w + x);
            assert(pos < n);
            let idx = pos as usize;
            assert(idx == y * self.w + x);
            self.buf.set(idx, c);
        }
    }

    /// The pixels as RGBA8 bytes (opaque), row by row.
    pub fn to_rgba8(&self) -> (out: Vec<u8>)
        requires
            pixels_ok(self.buf@),
            self.buf@.len() * 4 <= usize::MAX,
        ensures
            out@.len() == 4 * self.buf@.len(),
            forall|i: int|
                0 <= i < self.buf@.len() ==> {
                    &&& #[trigger] out@[4 * i] == widen5(self.buf@[i].0)
                    &&& out@[4 * i + 1] == widen6(self.buf@[i].1)
                    &&& out@[4 * i + 2] == widen5(self.buf@[i].2)
                    &&& out@[4 * i + 3] == 255
                },
    {
        let mut out: Vec<u8> = Vec::new();
        let mut i: usize = 0;
        while i < self.buf.len()
            invariant
                i <= self.buf@.len(),
                pixels_ok(self.buf@),
                out@.len() == 4 * i,
                forall|k: int|
                    0 <= k < i ==> {
                        &&& #[trigger] out@[4 * k] == widen5(self.buf@[k].0)
                        &&& out@[4 * k + 1] == widen6(self.buf@[k].1)
                        &&& out@[4 * k + 2] == widen5(self.buf@[k].2)
                        &&& out@[4 * k + 3] == 255
                    },
            decreases self.buf.len() - i,
        {
            let (r, g, b) = self.buf[i];
            assert(r < 32 && g < 64 && b < 32);
            assert(r < 32 ==> ((r << 3u8) | (r >> 2u8)) == (r * 8 + r / 4) as u8) by (bit_vector);
            assert(g < 64 ==> ((g << 2u8) | (g >> 4u8)) == (g * 4 + g / 16) as u8) by (bit_vector);
            assert(b < 32 ==> ((b << 3u8) | (b >> 2u8)) == (b * 8 + b / 4) as u8) by (bit_vector);
            let ghost before = out@;
            out.push((r << 3u8) | (r >> 2u8));
            out.push((g << 2u8) | (g >> 4u8));
            out.push((b << 3u8) | (b >> 2u8));
            out.push(255u8);
            proof {
                assert forall|k: int|
                    0 <= k < i + 1 implies {
                        &&& #[trigger] out@[4 * k] == widen5(self.buf@[k].0)
                        &&& out@[4 * k + 1] == widen6(self.buf@[k].1)
                        &&& out@[4 * k + 2] == widen5(self.buf@[k].2)
                        &&& out@[4 * k + 3] == 255
                    } by {
                    if k < i {
                        assert(out@[4 * k] == before[4 * k]);
                        assert(out@[4 * k + 1] == before[4 * k + 1]);
                        assert(out@[4 * k + 2] == before[4 * k + 2]);
                        assert(out@[4 * k + 3] == before[4 * k + 3]);
                    }
                }
            }
            i += 1;
        }
        out
    }
}

// ---------------------------------------------------------------- demo

/// A complete UI: one screen per display.
pub struct UiDoc {
    pub version: u16,
    pub screens: Vec<Screen>,
}

/// A believable race frame for previews without a device.
pub fn demo_telem() -> (t: Telemetry)
    ensures
        t == (Telemetry {
            gear: 52u8,
            speed_kmh: 212,
            rpm: 7100,
            max_rpm: 8200,
            shift_rpm: 7800,
            delta_ms: -3000i32,
            fuel_dl: 486,
            position: 4,
            field_size: 20,
            cur_lap_ms: 84318,
            best_lap_ms: 82900,
            tt_fl_m: 88,
            tt_fr_m: 90,
            tt_rl_m: 97,
            tt_rr_m: 86,
            ..Telemetry::idle_value()
        }),
{
    let mut t = Telemetry::idle();
    t.gear = 52u8;
    t.speed_kmh = 212;
    t.rpm = 7100;
    t.max_rpm = 8200;
    t.shift_rpm = 7800;
    t.delta_ms = -3000;
    t.fuel_dl = 486;
    t.position = 4;
    t.field_size = 20;
    t.cur_lap_ms = 84318;
    t.best_lap_ms = 82900;
    t.tt_fl_m = 88;
    t.tt_fr_m = 90;
    t.tt_rl_m = 97;
    t.tt_rr_m = 86;
    t
}

/// The demo screen's node rectangles, in drawing order.
pub open spec fn demo_rects() -> Seq<Rect> {
    seq![
        Rect { x: 0, y: 2, w: 480, h: 42 },
        Rect { x: 136, y: 50, w: 208, h: 200 },
        Rect { x: 136, y: 50, w: 208, h: 200 },
        Rect { x: 4, y: 50, w: 128, h: 90 },
        Rect { x: 4, y: 50, w: 128, h: 90 },
        Rect { x: 4, y: 150, w: 128, h: 120 },
        Rect { x: 4, y: 150, w: 128, h: 120 },
        Rect { x: 348, y: 50, w: 128, h: 90 },
        Rect { x: 348, y: 50, w: 128, h: 90 },
        Rect { x: 348, y: 150, w: 128, h: 120 },
        Rect { x: 348, y: 150, w: 128, h: 120 },
        Rect { x: 0, y: 276, w: 480, h: 42 },
    ]
}

/// What node `i` of the demo screen draws.
pub open spec fn demo_kind_ok(k: Kind, i: int) -> bool {
    if i == 0 {
        k is RpmStrip
    } else if i == 1 || i == 3 || i == 5 || i == 7 || i == 9 {
        k == Kind::Panel { color: Pal::Panel, radius: 12 }
    } else if i == 2 {
        k == Kind::GearSpeed { speed: true }
    } else if i == 4 {
        k matches Kind::Stat { field, label, fmt, scale, unit, base, rules, size } && field == 10
            && label@ == "DELTA"@ && fmt is None && scale == 0 && unit@.len() == 0 && base == Pal::Amber
            && rules@ == seq![
            Rule { op: Op::Lt, threshold: 0, color: Pal::Green },
            Rule { op: Op::Gt, threshold: 0, color: Pal::Red },
        ] && size == 0
    } else if i == 6 {
        k is TyreGrid
    } else if i == 8 {
        k matches Kind::Stat { field, label, fmt, scale, unit, base, rules, size } && field == 23
            && label@ == "FUEL"@ && fmt is None && scale == 0 && unit@.len() == 0 && base == Pal::Amber
            && rules@.len() == 0 && size == 0
    } else if i == 10 {
        k matches Kind::Position { label } && label@ == "POS"@
    } else {
        k is LapPair
    }
}

fn demo_stat(x: i32, y: i32, w: u32, h: u32, label: &str, field: u8, base: Pal, rules: Vec<Rule>) -> (n: Node)
    ensures
        n.rect == (Rect { x, y, w, h }),
        n.kind matches Kind::Stat { field: f, label: l, fmt, scale, unit, base: b, rules: r, size }
            && f == field && l@ == label@ && fmt is None && scale == 0 && unit@.len() == 0 && b == base
            && r@ == rules@ && size == 0,
{
    Node {
        rect: Rect { x, y, w, h },
        kind: Kind::Stat {
            field,
            label: label.to_owned(),
            fmt: None,
            scale: 0,
            unit: String::new(),
            base,
            rules,
            size: 0,
        },
    }
}

fn demo_panel(x: i32, y: i32, w: u32, h: u32) -> (n: Node)
    ensures
        n.rect == (Rect { x, y, w, h }),
        n.kind == (Kind::Panel { color: Pal::Panel, radius: 12 }),
{
    Node { rect: Rect { x, y, w, h }, kind: Kind::Panel { color: Pal::Panel, radius: 12 } }
}

/// A built-in sample race screen (480x320): rev strip, gear and speed, delta,
/// tyres, fuel, position and lap times.
pub fn demo_doc() -> (d: UiDoc)
    ensures
        d.version == 1,
        d.screens@.len() == 1,
        d.screens@[0].display == 0,
        d.screens@[0].w == 480,
        d.screens@[0].h == 320,
        d.screens@[0].bg == Pal::Bg,
        d.screens@[0].nodes@.len() == 12,
        forall|i: int| 0 <= i < 12 ==> (#[trigger] d.screens@[0].nodes@[i]).rect == demo_rects()[i]
            && demo_kind_ok(d.screens@[0].nodes@[i].kind, i),
{
    let mut nodes: Vec<Node> = Vec::new();
    nodes.push(Node { rect: Rect { x: 0, y: 2, w: 480, h: 42 }, kind: Kind::RpmStrip });
    nodes.push(demo_panel(136, 50, 208, 200));
    nodes.push(Node { rect: Rect { x: 136, y: 50, w: 208, h: 200 }, kind: Kind::GearSpeed { speed: true } });
    nodes.push(demo_panel(4, 50, 128, 90));
    let delta_rules = vec![
        Rule { op: Op::Lt, threshold: 0, color: Pal::Green },
        Rule { op: Op::Gt, threshold: 0, color: Pal::Red },
    ];
    nodes.push(demo_stat(4, 50, 128, 90, "DELTA", 10, Pal::Amber, delta_rules));
    nodes.push(demo_panel(4, 150, 128, 120));
    nodes.push(Node { rect: Rect { x: 4, y: 150, w: 128, h: 120 }, kind: Kind::TyreGrid });
    nodes.push(demo_panel(348, 50, 128, 90));
    nodes.push(demo_stat(348, 50, 128, 90, "FUEL", 23, Pal::Amber, Vec::new()));
    nodes.push(demo_panel(348, 150, 128, 120));
    nodes.push(Node { rect: Rect { x: 348, y: 150, w: 128, h: 120 }, kind: Kind::Position { label: "POS".to_owned() } });
    nodes.push(Node { rect: Rect { x: 0, y: 276, w: 480, h: 42 }, kind: Kind::LapPair });
    let mut screens: Vec<Screen> = Vec::new();
    screens.push(Screen { display: 0, w: 480, h: 320, bg: Pal::Bg, nodes });
    UiDoc { version: 1, screens }
}

/// Static nodes (panels, labels, the track map) sign the same whatever the
/// telemetry and time, so after their first draw they are never repainted.
pub proof fn lemma_static_nodes_settle(kind: Kind, t1: Telemetry, t2: Telemetry, n1: i64, n2: i64)
    requires
        is_static(kind),
    ensures
        node_sig_of(kind, t1, n1) == node_sig_of(kind, t2, n2),
{
}



proof fn lemma_nodes_ops_none(nodes: Seq<Node>, t: Telemetry, redraw: Seq<bool>, erase: bool, bg: Pal, m: int)
    requires
        forall|i: int| 0 <= i < m ==> !#[trigger] redraw[i],
    ensures
        nodes_ops(nodes, t, redraw, erase, bg, m) == Seq::<DrawOpV>::empty(),
    decreases m,
{
    if m > 0 {
        lemma_nodes_ops_none(nodes, t, redraw, erase, bg, m - 1);
        assert(!redraw[m - 1]);
    }
}

proof fn lemma_nodes_ops_same(nodes: Seq<Node>, t: Telemetry, a: Seq<bool>, b: Seq<bool>, erase: bool, bg: Pal, m: int)
    requires
        forall|i: int| 0 <= i < m ==> a[i] == b[i],
    ensures
        nodes_ops(nodes, t, a, erase, bg, m) == nodes_ops(nodes, t, b, erase, bg, m),
    decreases m,
{
    if m > 0 {
        lemma_nodes_ops_same(nodes, t, a, b, erase, bg, m - 1);
    }
}

/// The primitives a dirty-rect repaint of `nodes` gives against `cached`
/// signatures (see `render_screen_diff`).
pub open spec fn diff_ops(nodes: Seq<Node>, t: Telemetry, now_ms: i64, bg: Pal, cached: Seq<u64>) -> Seq<DrawOpV> {
    let sigs = Seq::new(nodes.len(), |i: int| node_sig_of(nodes[i].kind, t, now_ms));
    let (full, redraw) = redraw_of(cached, sigs);
    (if full {
        seq![DrawOpV::Clear { color: rgb565_of(pal_rgb(bg)) }]
    } else {
        Seq::empty()
    }) + nodes_ops(nodes, t, redraw, !full, bg, nodes.len() as int)
}

/// The primitives a full repaint of `nodes` gives (see `render_screen`).
pub open spec fn full_ops(nodes: Seq<Node>, t: Telemetry, bg: Pal) -> Seq<DrawOpV> {
    seq![DrawOpV::Clear { color: rgb565_of(pal_rgb(bg)) }] + nodes_ops(
        nodes,
        t,
        Seq::new(nodes.len(), |i: int| true),
        false,
        bg,
        nodes.len() as int,
    )
}

/// Law: with a fresh or invalidated cache (no signatures), a dirty-rect
/// repaint of a screen with nodes is exactly a full repaint.
pub proof fn lemma_diff_after_reset_is_full(nodes: Seq<Node>, t: Telemetry, now_ms: i64, bg: Pal)
    requires
        nodes.len() > 0,
    ensures
        diff_ops(nodes, t, now_ms, bg, Seq::empty()) == full_ops(nodes, t, bg),
{
    let sigs = Seq::new(nodes.len(), |i: int| node_sig_of(nodes[i].kind, t, now_ms));
    let (full, redraw) = redraw_of(Seq::empty(), sigs);
    assert(full);
    lemma_nodes_ops_same(nodes, t, redraw, Seq::new(nodes.len(), |i: int| true), false, bg, nodes.len() as int);
}

/// Law: a second dirty-rect repaint right after one (the cache holding the
/// signatures it left, nothing changed) draws nothing.
pub proof fn lemma_second_diff_draws_nothing(nodes: Seq<Node>, t: Telemetry, now_ms: i64, bg: Pal)
    ensures
        diff_ops(nodes, t, now_ms, bg, Seq::new(nodes.len(), |i: int| node_sig_of(nodes[i].kind, t, now_ms)))
            == Seq::<DrawOpV>::empty(),
{
    let sigs = Seq::new(nodes.len(), |i: int| node_sig_of(nodes[i].kind, t, now_ms));
    let (full, redraw) = redraw_of(sigs, sigs);
    assert(!full);
    lemma_nodes_ops_none(nodes, t, redraw, true, bg, nodes.len() as int);
    assert(Seq::<DrawOpV>::empty() + Seq::<DrawOpV>::empty() =~= Seq::<DrawOpV>::empty());
}


proof fn lemma_field_sig(kind: Kind, field: u8, t1: Telemetry, t2: Telemetry, n1: i64, n2: i64)
    requires
        sig_values(kind, t1, n1) == sig_values(kind, t2, n2),
        sig_values(kind, t1, n1) == seq![t1.field(field as int) as i64],
        sig_values(kind, t2, n2) == seq![t2.field(field as int) as i64],
    ensures
        t1.field(field as int) == t2.field(field as int),
{
    let a = t1.field(field as int);
    let b = t2.field(field as int);
    assert(seq![a as i64][0] == seq![b as i64][0]);
}

proof fn lemma_sig_covers_field_kinds(r: Rect, kind: Kind, t1: Telemetry, t2: Telemetry, n1: i64, n2: i64)
    requires
        sig_values(kind, t1, n1) == sig_values(kind, t2, n2),
        kind is Stat || kind is Bar || kind is Flag,
    ensures
        ops_of(r, kind, t1) == ops_of(r, kind, t2),
{
    match kind {
        Kind::Stat { field, .. } => lemma_field_sig(kind, field, t1, t2, n1, n2),
        Kind::Bar { field, .. } => lemma_field_sig(kind, field, t1, t2, n1, n2),
        Kind::Flag { field, .. } => lemma_field_sig(kind, field, t1, t2, n1, n2),
        _ => {},
    }
}

proof fn lemma_sig_covers_other_kinds(r: Rect, kind: Kind, t1: Telemetry, t2: Telemetry, n1: i64, n2: i64)
    requires
        sig_values(kind, t1, n1) == sig_values(kind, t2, n2),
        !(kind is Stat || kind is Bar || kind is Flag),
    ensures
        ops_of(r, kind, t1) == ops_of(r, kind, t2),
{
    let v1 = sig_values(kind, t1, n1);
    let v2 = sig_values(kind, t2, n2);
    match kind {
        Kind::GearSpeed { speed } => {
            assert(v1[0] == v2[0] && v1[1] == v2[1]);
        },
        Kind::TyreGrid => {
            assert(v1[0] == v2[0] && v1[1] == v2[1] && v1[2] == v2[2] && v1[3] == v2[3]);
            assert(tyre_ops_of(r, t1) == tyre_ops_of(r, t2));
        },
        Kind::TcDual => {
            assert(v1[0] == v2[0] && v1[1] == v2[1]);
        },
        Kind::Sectors => {
            assert(v1[0] == v2[0] && v1[1] == v2[1] && v1[2] == v2[2]);
            assert(v1[3] == v2[3] && v1[4] == v2[4] && v1[5] == v2[5]);
            assert(sector_ops_of(r, t1) == sector_ops_of(r, t2));
        },
        Kind::LapPair => {
            assert(v1[0] == v2[0] && v1[1] == v2[1]);
        },
        Kind::Position { .. } => {
            assert(v1[0] == v2[0] && v1[1] == v2[1]);
        },
        _ => {},
    }
}

/// Law: a node's signature covers everything it draws: two samples (at any
/// times) whose signature values agree give the same drawing primitives, so a
/// node whose pixels change always gets a new value list.
pub proof fn lemma_sig_covers_drawing(r: Rect, kind: Kind, t1: Telemetry, t2: Telemetry, n1: i64, n2: i64)
    requires
        sig_values(kind, t1, n1) == sig_values(kind, t2, n2),
    ensures
        ops_of(r, kind, t1) == ops_of(r, kind, t2),
{
    if kind is Stat || kind is Bar || kind is Flag {
        lemma_sig_covers_field_kinds(r, kind, t1, t2, n1, n2);
    } else {
        lemma_sig_covers_other_kinds(r, kind, t1, t2, n1, n2);
    }
}

} // verus!
