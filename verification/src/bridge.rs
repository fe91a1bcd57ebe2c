//! What the settings window shows: the rows of its lists and the scalar
//! values of its panels, computed from the dashboard state (the window layer
//! only copies them into its widgets).

use vstd::prelude::*;
use crate::state::{State, BtnData, BtnV, LedCfg, SimRow, CarItem};
use crate::catalog::{BUTTON_FIELDS, GAME_PROC_NEEDLES, GAME_PROC_SIMS};
use crate::text::{chars_of, string_from_chars, str_eq, contains_chars, contains_seq, position_of, index_in, contains_string};
use crate::format::push_all;
use crate::text::find_seq;
use crate::util::car_variant_of;
use crate::frame::int_text;

verus! {

// ---------------------------------------------------------------- lower case

/// What `str::to_lowercase` makes of `s`.
pub uninterp spec fn lowercase(s: Seq<char>) -> Seq<char>;

/// `str::to_lowercase`: the Unicode lower-case mapping of the string.
#[verifier::external_body]
fn to_lowercase(s: &str) -> (r: String)
    ensures
        r@ == lowercase(s@),
{
    s.to_lowercase()
}

// ---------------------------------------------------------------- buttons

/// One tile of the button editor.
pub struct ButtonRow {
    pub pos: i32,
    pub label: String,
    pub is_toggle: bool,
    pub is_on: bool,
    pub action: String,
    pub active_col: u32,
    pub sync_from_game: bool,
    pub game_field: String,
    pub field_available: bool,
    pub field_idx: i32,
}

pub struct ButtonRowV {
    pub pos: i32,
    pub label: Seq<char>,
    pub is_toggle: bool,
    pub is_on: bool,
    pub action: Seq<char>,
    pub active_col: u32,
    pub sync_from_game: bool,
    pub game_field: Seq<char>,
    pub field_available: bool,
    pub field_idx: i32,
}

impl View for ButtonRow {
    type V = ButtonRowV;

    open spec fn view(&self) -> ButtonRowV {
        ButtonRowV {
            pos: self.pos,
            label: self.label@,
            is_toggle: self.is_toggle,
            is_on: self.is_on,
            action: self.action@,
            active_col: self.active_col,
            sync_from_game: self.sync_from_game,
            game_field: self.game_field@,
            field_available: self.field_available,
            field_idx: self.field_idx,
        }
    }
}

/// Index of a game field in the button field list (0 when it is not listed).
pub open spec fn button_field_index(f: Seq<char>) -> i32 {
    let i = index_in(BUTTON_FIELDS@, f);
    if i < 0 {
        0
    } else {
        i as i32
    }
}

/// The tile shown for button `b` at position `i` of its page.
pub open spec fn button_row(b: BtnV, i: int) -> ButtonRowV {
    ButtonRowV {
        pos: i as i32,
        label: b.label,
        is_toggle: b.toggle,
        is_on: b.on,
        action: b.action,
        active_col: b.col,
        sync_from_game: b.sync,
        game_field: b.field,
        field_available: b.avail,
        field_idx: button_field_index(b.field),
    }
}

fn button_tile(b: &BtnData, i: usize) -> (r: ButtonRow)
    requires
        i <= i32::MAX,
    ensures
        r@ == button_row(b@, i as int),
{
    let fi: i32 = match position_of(BUTTON_FIELDS.as_slice(), b.field.as_str()) {
        Some(k) => k as i32,
        None => 0,
    };
    ButtonRow {
        pos: i as i32,
        label: b.label.clone(),
        is_toggle: b.toggle,
        is_on: b.on,
        action: b.action.clone(),
        active_col: b.col,
        sync_from_game: b.sync,
        game_field: b.field.clone(),
        field_available: b.avail,
        field_idx: fi,
    }
}

/// The tiles of button page `page`, in order; none for a page that does not
/// exist.
pub fn btn_model(s: &State, page: i32) -> (v: Vec<ButtonRow>)
    requires
        0 <= page < s.btn_pages@.len() ==> s.btn_pages@[page as int]@.len() <= i32::MAX,
    ensures
        page < 0 || page >= s.btn_pages@.len() ==> v@.len() == 0,
        0 <= page < s.btn_pages@.len() ==> v@.len() == s.btn_pages@[page as int]@.len() && forall|
            i: int,
        | 0 <= i < v@.len() ==> #[trigger] v@[i]@ == button_row(
            s.btn_pages@[page as int]@[i]@,
            i,
        ),
{
    let mut v: Vec<ButtonRow> = Vec::new();
    if page < 0 || page as usize >= s.btn_pages.len() {
        return v;
    }
    let p = &s.btn_pages[page as usize];
    let mut i: usize = 0;
    while i < p.len()
        invariant
            p@ == s.btn_pages@[page as int]@,
            p@.len() <= i32::MAX,
            i <= p@.len(),
            v@.len() == i,
            forall|j: int| 0 <= j < i ==> #[trigger] v@[j]@ == button_row(p@[j]@, j),
        decreases p.len() - i,
    {
        let row = button_tile(&p[i], i);
        v.push(row);
        i += 1;
    }
    v
}

/// The button page shown: the current one, or the last page when the current
/// one is beyond the page count.
pub fn button_page(page: i32, page_count: i32) -> (r: i32)
    requires
        page_count >= 0,
    ensures
        r == (if page >= page_count {
            page_count - 1
        } else {
            page as int
        }),
{
    if page >= page_count {
        page_count - 1
    } else {
        page
    }
}

/// The game names offered by the game picker.
pub fn push_games(s: &State) -> (v: Vec<String>)
    ensures
        v@.len() == s.sims@.len(),
        forall|i: int| 0 <= i < v@.len() ==> #[trigger] v@[i]@ == s.sims@[i].0@,
{
    let mut v: Vec<String> = Vec::new();
    let mut i: usize = 0;
    while i < s.sims.len()
        invariant
            i <= s.sims@.len(),
            v@.len() == i,
            forall|j: int| 0 <= j < i ==> #[trigger] v@[j]@ == s.sims@[j].0@,
        decreases s.sims.len() - i,
    {
        v.push(s.sims[i].0.clone());
        i += 1;
    }
    v
}

// ---------------------------------------------------------------- car library

/// The class picked in the class filter (none for "All classes" at 0 or an
/// index out of range).
pub open spec fn class_selection(s: State) -> Seq<char> {
    if s.klass > 0 && s.klass < s.class_list@.len() {
        s.class_list@[s.klass as int]@
    } else {
        Seq::empty()
    }
}

/// Is car `c` listed for game `sim`, class filter `klass` (empty: any) and
/// lower-case query `q` (empty: any), given its lower-case name `name_lower`?
pub open spec fn car_shown(c: CarItem, sim: Seq<char>, klass: Seq<char>, q: Seq<char>, name_lower: Seq<char>) -> bool {
    &&& c.sim@ == sim
    &&& (klass.len() == 0 || c.klass@ == klass)
    &&& (q.len() == 0 || contains_seq(name_lower, q))
}

/// Indices below `n` of the cars listed for the given filters, ascending.
pub open spec fn shown_cars(cars: Seq<CarItem>, sim: Seq<char>, klass: Seq<char>, q: Seq<char>, n: int) -> Seq<usize>
    decreases n,
{
    if n <= 0 {
        Seq::empty()
    } else {
        let rest = shown_cars(cars, sim, klass, q, n - 1);
        if car_shown(cars[n - 1], sim, klass, q, lowercase(cars[n - 1].name@)) {
            rest.push((n - 1) as usize)
        } else {
            rest
        }
    }
}

/// The car filter applied to one car, given its lower-cased name.
pub fn car_matches(c: &CarItem, sim: &str, klass: &str, q: &str, name_lower: &str) -> (r: bool)
    ensures
        r == car_shown(*c, sim@, klass@, q@, name_lower@),
{
    if !str_eq(c.sim.as_str(), sim) {
        return false;
    }
    let k = chars_of(klass);
    if k.len() > 0 && !str_eq(c.klass.as_str(), klass) {
        return false;
    }
    let qc = chars_of(q);
    if qc.len() == 0 {
        return true;
    }
    let h = chars_of(name_lower);
    contains_chars(&h, &qc)
}

/// Recomputes the filtered car list: the indices of the cars of the selected
/// game that belong to the selected class and whose lower-case name contains
/// the lower-case query. Nothing else changes.
pub fn rebuild_filtered(s: &mut State)
    requires
        old(s).all_cars@.len() <= usize::MAX,
    ensures
        final(s).filtered@ == shown_cars(
            old(s).all_cars@,
            old(s).sim_key(old(s).game),
            class_selection(*old(s)),
            lowercase(old(s).query@),
            old(s).all_cars@.len() as int,
        ),
        *final(s) == (State { filtered: final(s).filtered, ..*old(s) }),
{
    let sim = s.sim_of(s.game);
    let q = to_lowercase(s.query.as_str());
    let klass_sel: String = if s.klass > 0 && (s.klass as usize) < s.class_list.len() {
        s.class_list[s.klass as usize].clone()
    } else {
        String::new()
    };
    let qn = chars_of(q.as_str());
    let mut out: Vec<usize> = Vec::new();
    let mut i: usize = 0;
    while i < s.all_cars.len()
        invariant
            i <= s.all_cars@.len(),
            sim@ == s.sim_key(s.game),
            q@ == lowercase(s.query@),
            qn@ == q@,
            klass_sel@ == class_selection(*s),
            out@ == shown_cars(s.all_cars@, sim@, klass_sel@, q@, i as int),
        decreases s.all_cars.len() - i,
    {
        let c = &s.all_cars[i];
        let lname = if qn.len() == 0 {
            String::new()
        } else {
            to_lowercase(c.name.as_str())
        };
        let keep = car_matches(c, sim.as_str(), klass_sel.as_str(), q.as_str(), lname.as_str());
        if keep {
            out.push(i);
        }
        i += 1;
    }
    s.filtered = out;
}

/// One row of the car library's result list.
pub struct CarRowData {
    pub id: String,
    pub badge: String,
    pub name: String,
    pub make: String,
    pub klass: String,
    pub year: i32,
    pub power: String,
    pub redline: i32,
    pub active: bool,
    pub leds: Vec<u32>,
}

/// How many of the listed cars (indices `f[..n]`) have lower-case name `ln`.
pub open spec fn name_count(cars: Seq<CarItem>, f: Seq<usize>, ln: Seq<char>, n: int) -> int
    decreases n,
{
    if n <= 0 {
        0
    } else {
        name_count(cars, f, ln, n - 1) + if lowercase(cars[f[n - 1] as int].name@) == ln {
            1int
        } else {
            0
        }
    }
}

/// The text of `s` before its first space (all of it when there is none).
pub open spec fn first_word(s: Seq<char>) -> Seq<char> {
    match find_seq(s, seq![' ']) {
        Some(p) => s.take(p),
        None => s,
    }
}

/// The name a car is listed under: its name, followed by ` · ` and its
/// variant when another listed car has the same name (ignoring case) and the
/// variant is not empty.
pub open spec fn display_name(c: CarItem, count: int) -> Seq<char> {
    let v = car_variant_of(c.id@, c.name@);
    if count > 1 && v.len() > 0 {
        c.name@ + " \u{b7} "@ + v
    } else {
        c.name@
    }
}

/// Is `c` the active car (same game, and the same id when one is set, else
/// the same name)?
pub open spec fn is_active_car(s: State, c: CarItem) -> bool {
    c.sim@ == s.sim_key(s.game) && if s.car_id@.len() > 0 {
        c.id@ == s.car_id@
    } else {
        c.name@ == s.car_name@
    }
}

/// The result row shown for library car `c`.
pub open spec fn car_row_ok(r: CarRowData, s: State, c: CarItem) -> bool {
    &&& r.id@ == c.id@
    &&& r.badge@ == c.name@.take(if c.name@.len() < 3 { c.name@.len() as int } else { 3 })
    &&& r.name@ == display_name(c, name_count(s.all_cars@, s.filtered@, lowercase(c.name@), s.filtered@.len() as int))
    &&& r.make@ == first_word(c.name@)
    &&& r.klass@ == c.klass@
    &&& r.year == 0
    &&& r.power@ == (if c.led_n != 0 { int_text(c.led_n as int) + " LED"@ } else { Seq::empty() })
    &&& r.redline == c.redline
    &&& r.active == is_active_car(s, c)
    &&& r.leds@ == c.led_cols@
}

fn count_name(s: &State, ln: &str) -> (r: usize)
    requires
        forall|k: int| 0 <= k < s.filtered@.len() ==> #[trigger] s.filtered@[k] < s.all_cars@.len(),
    ensures
        r == name_count(s.all_cars@, s.filtered@, ln@, s.filtered@.len() as int),
{
    let mut n: usize = 0;
    let mut k: usize = 0;
    while k < s.filtered.len()
        invariant
            k <= s.filtered@.len(),
            n <= k,
            forall|j: int| 0 <= j < s.filtered@.len() ==> #[trigger] s.filtered@[j] < s.all_cars@.len(),
            n == name_count(s.all_cars@, s.filtered@, ln@, k as int),
        decreases s.filtered.len() - k,
    {
        let idx = s.filtered[k];
        let l = to_lowercase(s.all_cars[idx].name.as_str());
        if str_eq(l.as_str(), ln) {
            n += 1;
        }
        k += 1;
    }
    n
}

fn car_row(s: &State, c: &CarItem, sim: &String) -> (r: CarRowData)
    requires
        sim@ == s.sim_key(s.game),
        forall|k: int| 0 <= k < s.filtered@.len() ==> #[trigger] s.filtered@[k] < s.all_cars@.len(),
    ensures
        car_row_ok(r, *s, *c),
{
    let ln = to_lowercase(c.name.as_str());
    let count = count_name(s, ln.as_str());
    let name_chars = chars_of(c.name.as_str());
    let mut disp = c.name.clone();
    if count > 1 {
        let v = crate::util::car_variant(c.id.as_str(), c.name.as_str());
        let vc = chars_of(v.as_str());
        if vc.len() > 0 {
            let mut d = name_chars.clone();
            let sep = chars_of(" \u{b7} ");
            push_all(&mut d, &sep);
            push_all(&mut d, &vc);
            disp = string_from_chars(&d);
        }
    }
    let bn: usize = if name_chars.len() < 3 {
        name_chars.len()
    } else {
        3
    };
    let badge = crate::text::string_from_range(&name_chars, 0, bn);
    let sp = vec![' '];
    assert(sp@ =~= seq![' ']);
    let make = match crate::text::find_chars(&name_chars, &sp) {
        Some(p) => crate::text::string_from_range(&name_chars, 0, p),
        None => c.name.clone(),
    };
    assert(name_chars@.subrange(0, bn as int) =~= c.name@.take(bn as int));
    let power = if c.led_n != 0 {
        let mut t: Vec<char> = Vec::new();
        crate::frame::push_int_text(&mut t, c.led_n);
        let suffix = chars_of(" LED");
        push_all(&mut t, &suffix);
        string_from_chars(&t)
    } else {
        String::new()
    };
    let cid = chars_of(s.car_id.as_str());
    let active = str_eq(c.sim.as_str(), sim.as_str()) && if cid.len() > 0 {
        str_eq(c.id.as_str(), s.car_id.as_str())
    } else {
        str_eq(c.name.as_str(), s.car_name.as_str())
    };
    let mut leds: Vec<u32> = Vec::new();
    let mut i: usize = 0;
    while i < c.led_cols.len()
        invariant
            i <= c.led_cols@.len(),
            leds@ == c.led_cols@.take(i as int),
        decreases c.led_cols.len() - i,
    {
        leds.push(c.led_cols[i]);
        i += 1;
        assert(leds@ =~= c.led_cols@.take(i as int));
    }
    assert(c.led_cols@.take(c.led_cols@.len() as int) =~= c.led_cols@);
    CarRowData {
        id: c.id.clone(),
        badge,
        name: disp,
        make,
        klass: c.klass.clone(),
        year: 0,
        power,
        redline: c.redline,
        active,
        leds,
    }
}

/// The result list of the car library: one row per filtered car, in order.
pub fn push_car_results(s: &State) -> (v: Vec<CarRowData>)
    requires
        forall|k: int| 0 <= k < s.filtered@.len() ==> #[trigger] s.filtered@[k] < s.all_cars@.len(),
    ensures
        v@.len() == s.filtered@.len(),
        forall|k: int| 0 <= k < v@.len() ==> #[trigger] car_row_ok(v@[k], *s, s.all_cars@[s.filtered@[k] as int]),
{
    let sim = s.sim_of(s.game);
    let mut v: Vec<CarRowData> = Vec::new();
    let mut k: usize = 0;
    while k < s.filtered.len()
        invariant
            k <= s.filtered@.len(),
            sim@ == s.sim_key(s.game),
            forall|j: int| 0 <= j < s.filtered@.len() ==> #[trigger] s.filtered@[j] < s.all_cars@.len(),
            v@.len() == k,
            forall|j: int| 0 <= j < k ==> #[trigger] car_row_ok(v@[j], *s, s.all_cars@[s.filtered@[j] as int]),
        decreases s.filtered.len() - k,
    {
        let row = car_row(s, &s.all_cars[s.filtered[k]], &sim);
        v.push(row);
        k += 1;
    }
    v
}

// ---------------------------------------------------------------- serial ports

/// A serial port as the port scan reports it.
pub struct PortInfo {
    pub device: String,
    pub manufacturer: String,
    pub product: String,
    pub is_dash: bool,
    pub is_esp: bool,
}

/// What the firmware panel shows of the serial ports: one label per port, how
/// many are ESP boards, and the selected port.
pub struct SerialPortsView {
    pub labels: Vec<String>,
    pub esp_count: i32,
    pub selected: i32,
}

/// A port's description: manufacturer and product (joined by ` · `), or, when
/// both are empty, "Pith DDU" for our device and "unknown device" otherwise.
pub open spec fn port_desc(p: PortInfo) -> Seq<char> {
    let d = if p.product@.len() == 0 {
        p.manufacturer@
    } else if p.manufacturer@.len() == 0 {
        p.product@
    } else {
        p.manufacturer@ + " \u{b7} "@ + p.product@
    };
    if d.len() == 0 {
        if p.is_dash {
            "Pith DDU"@
        } else {
            "unknown device"@
        }
    } else {
        d
    }
}

/// A port's label: device, `  ·  `, description, and `  [ESP]` for ESP boards.
pub open spec fn port_label(p: PortInfo) -> Seq<char> {
    p.device@ + "  \u{b7}  "@ + port_desc(p) + if p.is_esp {
        "  [ESP]"@
    } else {
        Seq::empty()
    }
}

/// Number of ESP boards among the first `n` ports.
pub open spec fn esp_count_of(ports: Seq<PortInfo>, n: int) -> int
    decreases n,
{
    if n <= 0 {
        0
    } else {
        esp_count_of(ports, n - 1) + if ports[n - 1].is_esp {
            1int
        } else {
            0
        }
    }
}

/// Index of the first ESP board among the first `n` ports, or -1.
pub open spec fn first_esp_of(ports: Seq<PortInfo>, n: int) -> int
    decreases n,
{
    if n <= 0 {
        -1
    } else {
        let f = first_esp_of(ports, n - 1);
        if f < 0 && ports[n - 1].is_esp {
            n - 1
        } else {
            f
        }
    }
}

proof fn lemma_esp_bounds(ports: Seq<PortInfo>, n: int)
    requires
        0 <= n,
    ensures
        0 <= esp_count_of(ports, n) <= n,
        -1 <= first_esp_of(ports, n) < n,
    decreases n,
{
    if n > 0 {
        lemma_esp_bounds(ports, n - 1);
    }
}

fn push_str_to(out: &mut Vec<char>, s: &str)
    ensures
        final(out)@ == old(out)@ + s@,
{
    let c = chars_of(s);
    push_all(out, &c);
}

fn port_label_of(p: &PortInfo) -> (r: String)
    ensures
        r@ == port_label(*p),
{
    let mut d: Vec<char> = chars_of(p.manufacturer.as_str());
    let pc = chars_of(p.product.as_str());
    if pc.len() > 0 {
        if d.len() > 0 {
            push_str_to(&mut d, " \u{b7} ");
        }
        push_all(&mut d, &pc);
    }
    if d.len() == 0 {
        d = if p.is_dash {
            chars_of("Pith DDU")
        } else {
            chars_of("unknown device")
        };
    }
    assert(d@ == port_desc(*p));
    let mut lab = chars_of(p.device.as_str());
    push_str_to(&mut lab, "  \u{b7}  ");
    push_all(&mut lab, &d);
    if p.is_esp {
        push_str_to(&mut lab, "  [ESP]");
    }
    assert(lab@ =~= port_label(*p));
    string_from_chars(&lab)
}

/// The serial-port list of the firmware panel: each port's label, the number
/// of ESP boards, and the selection: `sel` when it is a port, else the first
/// ESP board, else port 0.
pub fn refresh_serial_ports(ports: &Vec<PortInfo>, sel: i32) -> (v: SerialPortsView)
    requires
        ports@.len() <= i32::MAX,
    ensures
        v.labels@.len() == ports@.len(),
        forall|i: int| 0 <= i < ports@.len() ==> #[trigger] v.labels@[i]@ == port_label(ports@[i]),
        v.esp_count == esp_count_of(ports@, ports@.len() as int),
        v.selected == (if 0 <= sel < ports@.len() {
            sel as int
        } else if first_esp_of(ports@, ports@.len() as int) >= 0 {
            first_esp_of(ports@, ports@.len() as int)
        } else {
            0
        }),
{
    let mut labels: Vec<String> = Vec::new();
    let mut esp: i32 = 0;
    let mut first: i32 = -1;
    let mut i: usize = 0;
    while i < ports.len()
        invariant
            i <= ports@.len() <= i32::MAX,
            labels@.len() == i,
            forall|j: int| 0 <= j < i ==> #[trigger] labels@[j]@ == port_label(ports@[j]),
            esp == esp_count_of(ports@, i as int),
            first == first_esp_of(ports@, i as int),
        decreases ports.len() - i,
    {
        proof {
            lemma_esp_bounds(ports@, i as int);
        }
        labels.push(port_label_of(&ports[i]));
        if ports[i].is_esp {
            esp += 1;
            if first < 0 {
                first = i as i32;
            }
        }
        i += 1;
    }
    let selected = if sel < 0 || sel as usize >= ports.len() {
        if first >= 0 {
            first
        } else {
            0
        }
    } else {
        sel
    };
    SerialPortsView { labels, esp_count: esp, selected }
}

// ---------------------------------------------------------------- shift lights

/// The LED row (colour and threshold of the 12 LEDs) of the selected gear.
pub fn push_led_model(s: &State) -> (v: Vec<LedCfg>)
    requires
        0 <= s.sel_gear < 7,
    ensures
        v@.len() == 12,
        forall|i: int| 0 <= i < 12 ==> #[trigger] v@[i] == s.leds[s.sel_gear as int][i],
{
    let g = s.sel_gear as usize;
    let mut v: Vec<LedCfg> = Vec::new();
    let mut i: usize = 0;
    while i < 12
        invariant
            g == s.sel_gear,
            0 <= g < 7,
            i <= 12,
            v@.len() == i,
            forall|j: int| 0 <= j < i ==> #[trigger] v@[j] == s.leds[g as int][j],
        decreases 12 - i,
    {
        v.push(s.leds[g][i]);
        i += 1;
    }
    v
}

/// The scalar settings of the shift-light panel.
pub struct ShiftScalars {
    pub redline_rpm: i32,
    pub first_led_pct: i32,
    pub blink_enabled: bool,
    pub blink_hz: i32,
    pub animation: i32,
    pub brightness: i32,
    pub rpm_source: i32,
    pub sel_gear: i32,
    pub car_name: String,
    pub car_game: String,
}

/// The shift-light panel's values, read from the state.
pub fn push_shift_scalars(s: &State) -> (r: ShiftScalars)
    ensures
        r.redline_rpm == s.redline_rpm,
        r.first_led_pct == s.first_led_pct,
        r.blink_enabled == s.blink_enabled,
        r.blink_hz == s.blink_hz,
        r.animation == s.animation,
        r.brightness == s.brightness,
        r.rpm_source == s.rpm_source,
        r.sel_gear == s.sel_gear,
        r.car_name@ == s.car_name@,
        r.car_game@ == s.car_game@,
{
    ShiftScalars {
        redline_rpm: s.redline_rpm,
        first_led_pct: s.first_led_pct,
        blink_enabled: s.blink_enabled,
        blink_hz: s.blink_hz,
        animation: s.animation,
        brightness: s.brightness,
        rpm_source: s.rpm_source,
        sel_gear: s.sel_gear,
        car_name: s.car_name.clone(),
        car_game: s.car_game.clone(),
    }
}

/// Takes the editable shift-light values back from the panel (the selected
/// gear and the car stay as they are).
pub fn pull_shift_scalars(s: &mut State, v: &ShiftScalars)
    ensures
        *final(s) == (State {
            redline_rpm: v.redline_rpm,
            first_led_pct: v.first_led_pct,
            blink_enabled: v.blink_enabled,
            blink_hz: v.blink_hz,
            animation: v.animation,
            brightness: v.brightness,
            rpm_source: v.rpm_source,
            ..*old(s)
        }),
{
    s.redline_rpm = v.redline_rpm;
    s.first_led_pct = v.first_led_pct;
    s.blink_enabled = v.blink_enabled;
    s.blink_hz = v.blink_hz;
    s.animation = v.animation;
    s.brightness = v.brightness;
    s.rpm_source = v.rpm_source;
}

// ---------------------------------------------------------------- SimHub fields

/// The text a SimHub field is searched by: its label, a space, its expression.
pub open spec fn sim_search_text(r: SimRow) -> Seq<char> {
    r.label@ + seq![' '] + r.expr@
}

/// Is a field whose lower-case search text is `text_lower` shown for the
/// lower-case query `q`?
pub open spec fn sim_field_shown(q: Seq<char>, text_lower: Seq<char>) -> bool {
    q.len() == 0 || contains_seq(text_lower, q)
}

/// The first `n` rows of `rows` that match the lower-case query `q`.
pub open spec fn shown_sim_rows(rows: Seq<SimRow>, q: Seq<char>, n: int) -> Seq<SimRow>
    decreases n,
{
    if n <= 0 {
        Seq::empty()
    } else {
        let rest = shown_sim_rows(rows, q, n - 1);
        if sim_field_shown(q, lowercase(sim_search_text(rows[n - 1]))) {
            rest.push(rows[n - 1])
        } else {
            rest
        }
    }
}

/// The field filter applied to one field, given its lower-cased search text.
pub fn sim_field_matches(q: &str, text_lower: &str) -> (r: bool)
    ensures
        r == sim_field_shown(q@, text_lower@),
{
    let qc = chars_of(q);
    if qc.len() == 0 {
        return true;
    }
    let h = chars_of(text_lower);
    contains_chars(&h, &qc)
}

fn copy_sim_row(r: &SimRow) -> (c: SimRow)
    ensures
        c == *r,
{
    SimRow {
        id: r.id.clone(),
        label: r.label.clone(),
        expr: r.expr.clone(),
        enabled: r.enabled,
        builtin: r.builtin,
    }
}

/// The SimHub fields listed for the current search: those whose lower-case
/// "label expression" text contains the lower-case query, in order.
pub fn push_sim_fields(s: &State) -> (v: Vec<SimRow>)
    ensures
        v@ == shown_sim_rows(s.sim@, lowercase(s.sim_query@), s.sim@.len() as int),
{
    let q = to_lowercase(s.sim_query.as_str());
    let qn = chars_of(q.as_str());
    let mut v: Vec<SimRow> = Vec::new();
    let mut i: usize = 0;
    while i < s.sim.len()
        invariant
            i <= s.sim@.len(),
            q@ == lowercase(s.sim_query@),
            qn@ == q@,
            v@ == shown_sim_rows(s.sim@, q@, i as int),
        decreases s.sim.len() - i,
    {
        let r = &s.sim[i];
        let keep = if qn.len() == 0 {
            true
        } else {
            let mut text = chars_of(r.label.as_str());
            text.push(' ');
            let e = chars_of(r.expr.as_str());
            push_all(&mut text, &e);
            assert(text@ =~= sim_search_text(*r));
            let t = string_from_chars(&text);
            let tl = to_lowercase(t.as_str());
            sim_field_matches(q.as_str(), tl.as_str())
        };
        if keep {
            v.push(copy_sim_row(r));
        }
        i += 1;
    }
    v
}

/// The term one field contributes to the SimHub expression: the expression in
/// brackets when enabled, the literal `'0'` otherwise.
pub open spec fn sim_term(r: SimRow) -> Seq<char> {
    if r.enabled {
        seq!['('] + r.expr@ + seq![')']
    } else {
        "'0'"@
    }
}

/// The terms of the first `n` fields joined by ` + ';' + `.
pub open spec fn sim_terms(rows: Seq<SimRow>, n: int) -> Seq<char>
    decreases n,
{
    if n <= 0 {
        Seq::empty()
    } else if n == 1 {
        sim_term(rows[0])
    } else {
        sim_terms(rows, n - 1) + " + ';' + "@ + sim_term(rows[n - 1])
    }
}

/// The SimHub custom-protocol expression: `'$' + ` then the joined terms, then
/// ` + '\n'`.
pub open spec fn simhub_expr(rows: Seq<SimRow>) -> Seq<char> {
    "'$' + "@ + sim_terms(rows, rows.len() as int) + " + '\\n'"@
}

fn push_str_chars(out: &mut Vec<char>, s: &str)
    ensures
        final(out)@ == old(out)@ + s@,
{
    let c = chars_of(s);
    push_all(out, &c);
}

/// The generated SimHub expression, and the car-model message expression that
/// goes with it.
pub fn regen_simhub(s: &State) -> (r: (String, String))
    ensures
        r.0@ == simhub_expr(s.sim@),
        r.1@ == "'@CM' + isnull([CarModel],'') + '\\n'"@,
{
    let mut out: Vec<char> = Vec::new();
    push_str_chars(&mut out, "'$' + ");
    let ghost head = out@;
    let mut i: usize = 0;
    while i < s.sim.len()
        invariant
            i <= s.sim@.len(),
            head == "'$' + "@,
            out@ == head + sim_terms(s.sim@, i as int),
        decreases s.sim.len() - i,
    {
        let ghost before = out@;
        if i > 0 {
            push_str_chars(&mut out, " + ';' + ");
        }
        let r = &s.sim[i];
        if r.enabled {
            out.push('(');
            let e = chars_of(r.expr.as_str());
            push_all(&mut out, &e);
            out.push(')');
        } else {
            push_str_chars(&mut out, "'0'");
        }
        proof {
            let t = sim_term(s.sim@[i as int]);
            if i == 0 {
                assert(out@ =~= before + t);
                assert(sim_terms(s.sim@, 0) =~= Seq::<char>::empty());
                assert(out@ =~= head + sim_terms(s.sim@, 1));
            } else {
                assert(out@ =~= before + " + ';' + "@ + t);
                assert(out@ =~= head + (sim_terms(s.sim@, i as int) + " + ';' + "@ + t));
            }
        }
        i += 1;
    }
    push_str_chars(&mut out, " + '\\n'");
    assert(out@ =~= "'$' + "@ + sim_terms(s.sim@, s.sim@.len() as int) + " + '\\n'"@);
    let expr = string_from_chars(&out);
    (expr, "'@CM' + isnull([CarModel],'') + '\\n'".to_owned())
}

// ---------------------------------------------------------------- track maps

/// Selectable track names; index 0 means no map.
pub const TRACK_NAMES: [&'static str; 4] = ["(none)", "Oval", "Club Circuit", "Infield Road"];

/// Index of a track name in `TRACK_NAMES` (0 when it is not listed).
pub fn track_index(name: &str) -> (r: i32)
    ensures
        r == (if index_in(TRACK_NAMES@, name@) >= 0 {
            index_in(TRACK_NAMES@, name@)
        } else {
            0
        }),
{
    match position_of(TRACK_NAMES.as_slice(), name) {
        Some(i) => i as i32,
        None => 0,
    }
}

/// The bundled outline of "Club Circuit" (flat x,y pairs in 0..=1000).
pub const CLUB_OUTLINE: [u16; 26] = [
    120, 820, 120, 300, 260, 140, 520, 120, 640, 220, 560, 360, 700, 420, 880, 360, 900, 560, 760,
    700, 820, 840, 560, 900, 300, 880,
];

/// The bundled outline of "Infield Road" (flat x,y pairs in 0..=1000).
pub const INFIELD_OUTLINE: [u16; 28] = [
    100, 500, 220, 200, 500, 120, 780, 200, 900, 500, 760, 560, 640, 420, 500, 520, 640, 660, 760,
    560, 900, 500, 780, 800, 500, 880, 220, 800,
];

/// Which outline a track name has.
pub enum Outline {
    /// No bundled outline.
    Empty,
    /// The oval (computed from its half-extents 480 x 320, 64 points).
    Oval,
    /// A fixed list of x,y pairs.
    Points(Vec<u16>),
}

fn points_of(a: &[u16]) -> (v: Vec<u16>)
    ensures
        v@ == a@,
{
    let mut v: Vec<u16> = Vec::new();
    let mut i: usize = 0;
    while i < a.len()
        invariant
            i <= a@.len(),
            v@ == a@.take(i as int),
        decreases a.len() - i,
    {
        v.push(a[i]);
        i += 1;
        assert(v@ =~= a@.take(i as int));
    }
    assert(a@.take(a@.len() as int) =~= a@);
    v
}

/// The outline of track `name`: "Oval" the oval, "Club Circuit" and
/// "Infield Road" their bundled points, any other name none.
pub fn outline_of(name: &str) -> (r: Outline)
    ensures
        index_in(TRACK_NAMES@, name@) == 1 <==> r is Oval,
        index_in(TRACK_NAMES@, name@) == 2 <==> (r matches Outline::Points(v) && v@ == CLUB_OUTLINE@),
        index_in(TRACK_NAMES@, name@) == 3 <==> (r matches Outline::Points(v) && v@ == INFIELD_OUTLINE@),
        r is Empty <==> !(1 <= index_in(TRACK_NAMES@, name@) <= 3),
{
    let i = track_index(name);
    proof {
        assert(CLUB_OUTLINE@ != INFIELD_OUTLINE@) by {
            assert(CLUB_OUTLINE@.len() != INFIELD_OUTLINE@.len());
        }
    }
    if i == 1 {
        Outline::Oval
    } else if i == 2 {
        Outline::Points(points_of(&CLUB_OUTLINE))
    } else if i == 3 {
        Outline::Points(points_of(&INFIELD_OUTLINE))
    } else {
        Outline::Empty
    }
}

// ---------------------------------------------------------------- game detection

/// Index of the first game whose library key is `id`, or -1.
pub open spec fn game_index_from(sims: Seq<(String, String)>, id: Seq<char>, i: int) -> int
    decreases sims.len() - i,
{
    if i < 0 || i >= sims.len() {
        -1
    } else if sims[i].1@ == id {
        i
    } else {
        game_index_from(sims, id, i + 1)
    }
}

/// The game a lower-case command line means: for the first executable
/// fragment (from `k` on) it contains whose game is in `sims`, that game's
/// index; -1 when there is none.
pub open spec fn proc_game_from(cmd: Seq<char>, sims: Seq<(String, String)>, k: int) -> int
    decreases 13 - k,
{
    if k < 0 || k >= 13 {
        -1
    } else if contains_seq(cmd, GAME_PROC_NEEDLES@[k]@) && game_index_from(
        sims,
        GAME_PROC_SIMS@[k]@,
        0,
    ) >= 0 {
        game_index_from(sims, GAME_PROC_SIMS@[k]@, 0)
    } else {
        proc_game_from(cmd, sims, k + 1)
    }
}

/// The game of the first command line (from `p` on) that means one, or -1.
pub open spec fn detect_from(cmds: Seq<Seq<char>>, sims: Seq<(String, String)>, p: int) -> int
    decreases cmds.len() - p,
{
    if p < 0 || p >= cmds.len() {
        -1
    } else if proc_game_from(cmds[p], sims, 0) >= 0 {
        proc_game_from(cmds[p], sims, 0)
    } else {
        detect_from(cmds, sims, p + 1)
    }
}

/// The command lines' characters.
pub open spec fn strings_view(v: Seq<String>) -> Seq<Seq<char>> {
    v.map_values(|s: String| s@)
}

fn game_index(sims: &[(String, String)], id: &str) -> (r: i32)
    requires
        sims@.len() <= i32::MAX,
    ensures
        r == game_index_from(sims@, id@, 0),
{
    let mut i: usize = 0;
    while i < sims.len()
        invariant
            i <= sims@.len() <= i32::MAX,
            game_index_from(sims@, id@, 0) == game_index_from(sims@, id@, i as int),
        decreases sims.len() - i,
    {
        if str_eq(sims[i].1.as_str(), id) {
            return i as i32;
        }
        i += 1;
    }
    -1
}

/// The running game, from command lines already in lower case: the first
/// command line containing a known executable fragment whose game is in
/// `sims` gives that game's index; -1 when none does.
pub fn detect_game_lowered(sims: &[(String, String)], cmds: &Vec<String>) -> (r: i32)
    requires
        sims@.len() <= i32::MAX,
    ensures
        r == detect_from(strings_view(cmds@), sims@, 0),
{
    let ghost cv = strings_view(cmds@);
    let mut p: usize = 0;
    while p < cmds.len()
        invariant
            p <= cmds@.len(),
            sims@.len() <= i32::MAX,
            cv == strings_view(cmds@),
            detect_from(cv, sims@, 0) == detect_from(cv, sims@, p as int),
        decreases cmds.len() - p,
    {
        let cmd = chars_of(cmds[p].as_str());
        assert(cv[p as int] == cmds@[p as int]@);
        let mut k: usize = 0;
        while k < 13
            invariant
                k <= 13,
                p < cmds@.len(),
                sims@.len() <= i32::MAX,
                cv == strings_view(cmds@),
                cmd@ == cv[p as int],
                proc_game_from(cmd@, sims@, 0) == proc_game_from(cmd@, sims@, k as int),
                detect_from(cv, sims@, 0) == detect_from(cv, sims@, p as int),
            decreases 13 - k,
        {
            let needle = chars_of(GAME_PROC_NEEDLES[k]);
            if contains_chars(&cmd, &needle) {
                let gi = game_index(sims, GAME_PROC_SIMS[k]);
                if gi >= 0 {
                    return gi;
                }
            }
            k += 1;
        }
        p += 1;
    }
    -1
}

/// The running game, from the running processes' command lines: each is
/// lower-cased, then matched as `detect_game_lowered` does.
pub fn detect_game(sims: &[(String, String)], procs: &Vec<String>) -> (r: i32)
    requires
        sims@.len() <= i32::MAX,
    ensures
        r == detect_from(
            strings_view(procs@).map_values(|c: Seq<char>| lowercase(c)),
            sims@,
            0,
        ),
{
    let mut lowered: Vec<String> = Vec::new();
    let mut i: usize = 0;
    while i < procs.len()
        invariant
            i <= procs@.len(),
            lowered@.len() == i,
            strings_view(lowered@) == strings_view(procs@).take(i as int).map_values(
                |c: Seq<char>| lowercase(c),
            ),
        decreases procs.len() - i,
    {
        let l = to_lowercase(procs[i].as_str());
        let ghost prev = lowered@;
        lowered.push(l);
        proof {
            let a = strings_view(lowered@);
            let b = strings_view(procs@).take(i + 1).map_values(|c: Seq<char>| lowercase(c));
            assert forall|k: int| 0 <= k < a.len() implies a[k] == b[k] by {
                if k < i {
                    assert(lowered@[k] == prev[k]);
                    assert(strings_view(prev)[k] == a[k]);
                }
            }
            assert(a =~= b);
        }
        i += 1;
    }
    assert(strings_view(procs@).take(procs@.len() as int) =~= strings_view(procs@));
    detect_game_lowered(sims, &lowered)
}

// ---------------------------------------------------------------- class list

/// Lexicographic order of character sequences (the order of `String`'s `<`).
pub open spec fn seq_lt(a: Seq<char>, b: Seq<char>) -> bool
    decreases a.len(),
{
    if a.len() == 0 {
        b.len() > 0
    } else if b.len() == 0 {
        false
    } else if a[0] != b[0] {
        a[0] < b[0]
    } else {
        seq_lt(a.drop_first(), b.drop_first())
    }
}

proof fn lemma_lt_total(a: Seq<char>, b: Seq<char>)
    requires
        a != b,
    ensures
        seq_lt(a, b) || seq_lt(b, a),
    decreases a.len(),
{
    if a.len() == 0 || b.len() == 0 {
        if a.len() == 0 && b.len() == 0 {
            assert(a =~= b);
        }
    } else if a[0] != b[0] {
    } else if a.drop_first() =~= b.drop_first() {
        assert forall|i: int| 0 <= i < a.len() implies a[i] == b[i] by {
            if i > 0 {
                assert(a[i] == a.drop_first()[i - 1]);
                assert(b[i] == b.drop_first()[i - 1]);
            }
        }
        assert(a =~= b);
    } else {
        lemma_lt_total(a.drop_first(), b.drop_first());
    }
}

/// Each element strictly below the next.
pub open spec fn sorted_strict(s: Seq<Seq<char>>) -> bool {
    forall|i: int| 0 <= i < s.len() - 1 ==> #[trigger] seq_lt(s[i], s[i + 1])
}

fn chars_lt(a: &Vec<char>, b: &Vec<char>) -> (r: bool)
    ensures
        r == seq_lt(a@, b@),
{
    let mut i: usize = 0;
    assert(a@.skip(0) =~= a@);
    assert(b@.skip(0) =~= b@);
    while i < a.len() && i < b.len() && a[i] == b[i]
        invariant
            i <= a@.len(),
            i <= b@.len(),
            seq_lt(a@, b@) == seq_lt(a@.skip(i as int), b@.skip(i as int)),
        decreases a.len() - i,
    {
        assert(a@.skip(i as int).drop_first() =~= a@.skip(i + 1));
        assert(b@.skip(i as int).drop_first() =~= b@.skip(i + 1));
        assert(a@.skip(i as int)[0] == b@.skip(i as int)[0]);
        i += 1;
    }
    if i == a.len() {
        i < b.len()
    } else if i == b.len() {
        false
    } else {
        assert(a@.skip(i as int)[0] == a@[i as int]);
        assert(b@.skip(i as int)[0] == b@[i as int]);
        a[i] < b[i]
    }
}

/// Inserts `x` into a strictly sorted list that does not hold it yet.
fn insert_sorted(v: &mut Vec<String>, x: String)
    requires
        sorted_strict(strings_view(old(v)@)),
        !strings_view(old(v)@).contains(x@),
    ensures
        sorted_strict(strings_view(final(v)@)),
        final(v)@.len() == old(v)@.len() + 1,
        forall|y: Seq<char>| #[trigger] strings_view(final(v)@).contains(y) <==> (strings_view(
            old(v)@,
        ).contains(y) || y == x@),
{
    let xc = chars_of(x.as_str());
    let ghost ov = strings_view(v@);
    let mut i: usize = 0;
    while i < v.len()
        invariant
            i <= v@.len(),
            ov == strings_view(v@),
            xc@ == x@,
            forall|j: int| 0 <= j < i ==> !seq_lt(x@, #[trigger] ov[j]),
        ensures
            i <= v@.len(),
            ov == strings_view(v@),
            forall|j: int| 0 <= j < i ==> !seq_lt(x@, #[trigger] ov[j]),
            i == v@.len() || seq_lt(x@, ov[i as int]),
        decreases v.len() - i,
    {
        let vc = chars_of(v[i].as_str());
        if chars_lt(&xc, &vc) {
            break;
        }
        i += 1;
    }
    let ghost at = i as int;
    v.insert(i, x);
    proof {
        let nv = strings_view(v@);
        assert(nv =~= ov.insert(at, x@));
        if at > 0 {
            assert(ov.contains(ov[at - 1]));
            assert(ov[at - 1] != x@);
            lemma_lt_total(x@, ov[at - 1]);
            assert(!seq_lt(x@, ov[at - 1]));
        }
        assert forall|k: int| 0 <= k < nv.len() - 1 implies #[trigger] seq_lt(nv[k], nv[k + 1]) by {
            if k < at - 1 {
                assert(nv[k] == ov[k] && nv[k + 1] == ov[k + 1]);
                assert(seq_lt(ov[k], ov[k + 1]));
            } else if k == at - 1 {
                assert(nv[k] == ov[at - 1] && nv[k + 1] == x@);
            } else if k == at {
                assert(nv[k] == x@ && nv[k + 1] == ov[at]);
            } else {
                let kk = k - 1;
                assert(nv[k] == ov[kk] && nv[k + 1] == ov[kk + 1]);
                assert(seq_lt(ov[kk], ov[kk + 1]));
            }
        }
        assert forall|y: Seq<char>| #[trigger] nv.contains(y) <==> (ov.contains(y) || y == x@) by {
            if nv.contains(y) {
                let k = choose|k: int| 0 <= k < nv.len() && #[trigger] nv[k] == y;
                if k < at {
                    assert(ov[k] == y);
                } else if k > at {
                    assert(ov[k - 1] == y);
                }
            }
            if ov.contains(y) {
                let k = choose|k: int| 0 <= k < ov.len() && #[trigger] ov[k] == y;
                if k < at {
                    assert(nv[k] == y);
                } else {
                    assert(nv[k + 1] == y);
                }
            }
            if y == x@ {
                assert(nv[at] == y);
            }
        }
    }
}

/// The class list before sorting: "All classes", then each non-empty class of
/// the game's first `n` cars in order of first appearance.
pub open spec fn classes_seen(cars: Seq<CarItem>, sim: Seq<char>, n: int) -> Seq<Seq<char>>
    decreases n,
{
    if n <= 0 {
        seq!["All classes"@]
    } else {
        let r = classes_seen(cars, sim, n - 1);
        let c = cars[n - 1];
        if c.sim@ == sim && c.klass@.len() > 0 && !r.contains(c.klass@) {
            r.push(c.klass@)
        } else {
            r
        }
    }
}

/// No element occurs twice.
pub open spec fn no_dups(s: Seq<Seq<char>>) -> bool {
    forall|i: int, j: int| 0 <= i < j < s.len() ==> s[i] != s[j]
}

proof fn lemma_classes_seen(cars: Seq<CarItem>, sim: Seq<char>, n: int)
    ensures
        no_dups(classes_seen(cars, sim, n)),
        classes_seen(cars, sim, n).len() >= 1,
        classes_seen(cars, sim, n)[0] == "All classes"@,
    decreases n,
{
    if n > 0 {
        lemma_classes_seen(cars, sim, n - 1);
        let r = classes_seen(cars, sim, n - 1);
        let c = cars[n - 1];
        if c.sim@ == sim && c.klass@.len() > 0 && !r.contains(c.klass@) {
            assert forall|i: int, j: int| 0 <= i < j < r.push(c.klass@).len() implies r.push(
                c.klass@,
            )[i] != r.push(c.klass@)[j] by {
                if j == r.len() {
                    assert(r.contains(r[i]));
                }
            }
        }
    }
}

/// Recomputes the class filter's list for the selected game: "All classes"
/// first, then every non-empty class of the game's cars once, sorted; a
/// selected class index beyond the list goes back to 0. Nothing else changes.
pub fn rebuild_classes(s: &mut State)
    ensures
        ({
            let u = classes_seen(old(s).all_cars@, old(s).sim_key(old(s).game), old(s).all_cars@.len() as int);
            let cl = strings_view(final(s).class_list@);
            &&& cl.len() == u.len()
            &&& cl[0] == "All classes"@
            &&& sorted_strict(cl.skip(1))
            &&& forall|y: Seq<char>| #[trigger] cl.skip(1).contains(y) <==> u.skip(1).contains(y)
        }),
        final(s).klass == (if old(s).klass >= final(s).class_list@.len() {
            0
        } else {
            old(s).klass
        }),
        *final(s) == (State { class_list: final(s).class_list, klass: final(s).klass, ..*old(s) }),
{
    let sim = s.sim_of(s.game);
    let mut cl: Vec<String> = Vec::new();
    cl.push("All classes".to_owned());
    let mut i: usize = 0;
    while i < s.all_cars.len()
        invariant
            i <= s.all_cars@.len(),
            sim@ == s.sim_key(s.game),
            strings_view(cl@) == classes_seen(s.all_cars@, sim@, i as int),
        decreases s.all_cars.len() - i,
    {
        let c = &s.all_cars[i];
        let kc = chars_of(c.klass.as_str());
        if str_eq(c.sim.as_str(), sim.as_str()) && kc.len() > 0 && !contains_string(
            &cl,
            c.klass.as_str(),
        ) {
            let ghost before = cl@;
            cl.push(c.klass.clone());
            assert(strings_view(cl@) =~= strings_view(before).push(c.klass@));
        }
        i += 1;
    }
    let ghost u = strings_view(cl@);
    proof {
        lemma_classes_seen(s.all_cars@, sim@, s.all_cars@.len() as int);
    }
    let mut sorted: Vec<String> = Vec::new();
    let mut k: usize = 1;
    while k < cl.len()
        invariant
            1 <= k <= cl@.len(),
            u == strings_view(cl@),
            no_dups(u),
            sorted_strict(strings_view(sorted@)),
            sorted@.len() == k - 1,
            forall|y: Seq<char>| #[trigger] strings_view(sorted@).contains(y) <==> u.subrange(1, k as int).contains(y),
        decreases cl.len() - k,
    {
        proof {
            let w0 = u.subrange(1, k as int);
            if strings_view(sorted@).contains(u[k as int]) {
                let j = choose|j: int| 0 <= j < w0.len() && #[trigger] w0[j] == u[k as int];
                assert(u[j + 1] == u[k as int]);
            }
        }
        insert_sorted(&mut sorted, cl[k].clone());
        proof {
            let w0 = u.subrange(1, k as int);
            let w1 = u.subrange(1, k + 1);
            assert forall|y: Seq<char>| #[trigger] strings_view(sorted@).contains(y) <==> w1.contains(y) by {
                if w1.contains(y) {
                    let j = choose|j: int| 0 <= j < w1.len() && #[trigger] w1[j] == y;
                    if j < k - 1 {
                        assert(w0[j] == y);
                    }
                }
                if w0.contains(y) {
                    let j = choose|j: int| 0 <= j < w0.len() && #[trigger] w0[j] == y;
                    assert(w1[j] == y);
                }
                if y == u[k as int] {
                    assert(w1[k - 1] == y);
                }
            }
        }
        k += 1;
    }
    let mut out: Vec<String> = Vec::new();
    out.push("All classes".to_owned());
    let ghost head = out@;
    let ghost sb = sorted@;
    out.append(&mut sorted);
    proof {
        assert(out@ =~= head + sb);
        let ov = strings_view(out@);
        assert forall|j: int| 0 <= j < ov.skip(1).len() implies ov.skip(1)[j] == strings_view(
            sb,
        )[j] by {
            assert(out@[j + 1] == sb[j]);
        }
        assert(ov.skip(1) =~= strings_view(sb));
        assert(u.subrange(1, u.len() as int) =~= u.skip(1));
    }
    s.class_list = out;
    if s.klass >= 0 && s.klass as usize >= s.class_list.len() {
        s.klass = 0;
    }
}

// ---------------------------------------------------------------- game switch

/// What a change of the detected game did.
pub enum GameChange {
    /// No game is running but the plugin is feeding us: nothing changed.
    Kept,
    /// No game is running: the detected car was forgotten.
    Lost,
    /// Another game is running and was selected; the library view was rebuilt
    /// for it. Carries the detected car model to match again.
    Switched(String),
    /// The selected game is running.
    Same,
}

/// Reacts to the game detector reporting game `gi` (-1: none). With no game
/// but a live plugin feed nothing changes. Otherwise the detected game is
/// recorded; with no game, the detected and last matched car models are
/// cleared; with a game other than the selected one, it is selected with the
/// class filter reset, no car selected, the class list and the filtered list
/// rebuilt, and the last matched model cleared.
pub fn on_game_detected(s: &mut State, gi: i32, feeding: bool) -> (r: GameChange)
    requires
        old(s).all_cars@.len() <= usize::MAX,
    ensures
        gi < 0 && feeding ==> r is Kept && *final(s) == *old(s),
        gi < 0 && !feeding ==> r is Lost && final(s).detected_model@.len() == 0
            && final(s).last_auto_model@.len() == 0 && *final(s) == (State {
            detected_game_idx: gi,
            detected_model: final(s).detected_model,
            last_auto_model: final(s).last_auto_model,
            ..*old(s)
        }),
        gi >= 0 && gi == old(s).game ==> r is Same && *final(s) == (State {
            detected_game_idx: gi,
            ..*old(s)
        }),
        gi >= 0 && gi != old(s).game ==> {
            &&& r matches GameChange::Switched(m) && m@ == old(s).detected_model@
            &&& final(s).detected_game_idx == gi
            &&& final(s).game == gi
            &&& final(s).sel_car == -1
            &&& final(s).last_auto_model@.len() == 0
            &&& final(s).all_cars == old(s).all_cars
            &&& final(s).klass == 0
            &&& final(s).filtered@ == shown_cars(
                old(s).all_cars@,
                final(s).sim_key(gi),
                Seq::empty(),
                lowercase(old(s).query@),
                old(s).all_cars@.len() as int,
            )
        },
{
    if gi < 0 && feeding {
        return GameChange::Kept;
    }
    s.detected_game_idx = gi;
    if gi < 0 {
        s.detected_model = String::new();
        s.last_auto_model = String::new();
        return GameChange::Lost;
    }
    if gi != s.game {
        s.game = gi;
        s.klass = 0;
        s.sel_car = -1;
        rebuild_classes(s);
        rebuild_filtered(s);
        s.last_auto_model = String::new();
        return GameChange::Switched(s.detected_model.clone());
    }
    GameChange::Same
}

// ---------------------------------------------------------------- laws

/// The filtered car list holds, in ascending order, exactly the indices of
/// the cars that pass the filter.
pub proof fn lemma_filtered_exact(cars: Seq<CarItem>, sim: Seq<char>, klass: Seq<char>, q: Seq<char>, n: int)
    requires
        0 <= n <= cars.len(),
        n <= usize::MAX,
    ensures
        ({
            let r = shown_cars(cars, sim, klass, q, n);
            &&& forall|k: int| 0 <= k < r.len() ==> (#[trigger] r[k]) < n && car_shown(
                cars[r[k] as int],
                sim,
                klass,
                q,
                lowercase(cars[r[k] as int].name@),
            )
            &&& forall|k1: int, k2: int| 0 <= k1 < k2 < r.len() ==> r[k1] < r[k2]
            &&& forall|j: int|
                0 <= j < n && car_shown(cars[j], sim, klass, q, lowercase(cars[j].name@))
                    ==> #[trigger] r.contains(j as usize)
        }),
    decreases n,
{
    if n > 0 {
        lemma_filtered_exact(cars, sim, klass, q, n - 1);
        let rest = shown_cars(cars, sim, klass, q, n - 1);
        let r = shown_cars(cars, sim, klass, q, n);
        if car_shown(cars[n - 1], sim, klass, q, lowercase(cars[n - 1].name@)) {
            assert(r == rest.push((n - 1) as usize));
            assert forall|j: int|
                0 <= j < n && car_shown(cars[j], sim, klass, q, lowercase(cars[j].name@)) implies #[trigger] r.contains(j as usize) by {
                if j < n - 1 {
                    assert(rest.contains(j as usize));
                    let k = choose|k: int| 0 <= k < rest.len() && #[trigger] rest[k] == j as usize;
                    assert(r[k] == rest[k]);
                } else {
                    assert(r[rest.len() as int] == j as usize);
                }
            }
        }
    }
}

proof fn lemma_game_index_bounds(sims: Seq<(String, String)>, id: Seq<char>, i: int)
    requires
        0 <= i,
    ensures
        -1 <= game_index_from(sims, id, i) < sims.len(),
    decreases sims.len() - i,
{
    if i < sims.len() && sims[i].1@ != id {
        lemma_game_index_bounds(sims, id, i + 1);
    }
}

proof fn lemma_proc_game_bounds(cmd: Seq<char>, sims: Seq<(String, String)>, k: int)
    requires
        0 <= k,
    ensures
        -1 <= proc_game_from(cmd, sims, k) < sims.len(),
    decreases 13 - k,
{
    if k < 13 {
        lemma_game_index_bounds(sims, GAME_PROC_SIMS@[k]@, 0);
        lemma_proc_game_bounds(cmd, sims, k + 1);
    }
}

/// The detected game is -1 or the index of one of the listed games.
pub proof fn lemma_detect_in_range(cmds: Seq<Seq<char>>, sims: Seq<(String, String)>, p: int)
    requires
        0 <= p,
    ensures
        -1 <= detect_from(cmds, sims, p) < sims.len(),
    decreases cmds.len() - p,
{
    if p < cmds.len() {
        lemma_proc_game_bounds(cmds[p], sims, 0);
        lemma_detect_in_range(cmds, sims, p + 1);
    }
}

} // verus!
