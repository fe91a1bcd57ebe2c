//! The car library: reading a car's LED profile (shift-light colours and
//! per-gear rpm points), building the library from the manifest with
//! duplicates dropped, and matching a game's car model to a library car.

use vstd::prelude::*;
use crate::state::{State, CarItem, LedCfg};
use crate::text::{chars_of, string_from_chars, str_eq, find_chars, contains_chars, find_seq, contains_seq, contains_string};
use crate::util::{hex_prefix, hex_prefix_value, trim, trim_blanks, norm_name, norm_seq};
use crate::format::{push_all, tdiv};

verus! {

// ---------------------------------------------------------------- car profile

/// The rpm points of one gear of `ledRpm[0]`: the gear key and, when its
/// value is an array, each entry read as an integer (`None` when it is not a
/// number).
pub struct GearRpm {
    pub gear: String,
    pub rpm: Option<Vec<Option<i64>>>,
}

/// What the car logic reads of a car's JSON document.
pub struct CarProfile {
    /// The entries of `ledRpm[0]`, in document order, when `ledRpm` is an
    /// array whose first element is an object.
    pub led_rpm: Option<Vec<GearRpm>>,
    /// `ledColor` when it is an array: each entry's text (empty when it is not
    /// a string).
    pub led_color: Option<Vec<String>>,
    /// `ledNumber` when it is an integer.
    pub led_number: Option<i64>,
    /// `carClass` when it is a string.
    pub car_class: Option<String>,
}

/// Largest of `acc` and the integer entries among the first `n` of `items`.
pub open spec fn max_entries(items: Seq<Option<i64>>, n: int, acc: i32) -> i32
    decreases n,
{
    if n <= 0 {
        acc
    } else {
        let m = max_entries(items, n - 1, acc);
        match items[n - 1] {
            Some(v) => if (v as i32) > m {
                v as i32
            } else {
                m
            },
            None => m,
        }
    }
}

/// Largest rpm point (as `i32`) over the first `n` gears, at least 0.
pub open spec fn max_over_gears(gears: Seq<GearRpm>, n: int) -> i32
    decreases n,
{
    if n <= 0 {
        0
    } else {
        let acc = max_over_gears(gears, n - 1);
        match gears[n - 1].rpm {
            Some(a) => max_entries(a@, a@.len() as int, acc),
            None => acc,
        }
    }
}

/// The redline of a car: its largest rpm point, or 0 when it has none.
pub open spec fn redline_of(p: CarProfile) -> i32 {
    match p.led_rpm {
        Some(g) => max_over_gears(g@, g@.len() as int),
        None => 0,
    }
}

fn max_of_entries(items: &Vec<Option<i64>>, acc: i32) -> (r: i32)
    ensures
        r == max_entries(items@, items@.len() as int, acc),
{
    let mut m = acc;
    let mut i: usize = 0;
    while i < items.len()
        invariant
            i <= items@.len(),
            m == max_entries(items@, i as int, acc),
        decreases items.len() - i,
    {
        match items[i] {
            Some(v) => {
                let x = v as i32;
                if x > m {
                    m = x;
                }
            },
            None => {},
        }
        i += 1;
    }
    m
}

/// The car's redline: the largest `ledRpm` point over all gears (0 if none).
pub fn derive_redline(p: &CarProfile) -> (r: i32)
    ensures
        r == redline_of(*p),
{
    match &p.led_rpm {
        None => 0,
        Some(g) => {
            let mut acc: i32 = 0;
            let mut k: usize = 0;
            while k < g.len()
                invariant
                    k <= g@.len(),
                    acc == max_over_gears(g@, k as int),
                decreases g.len() - k,
            {
                match &g[k].rpm {
                    Some(a) => {
                        acc = max_of_entries(a, acc);
                    },
                    None => {},
                }
                k += 1;
            }
            acc
        },
    }
}

/// `ledNumber` as the `i32` the profile code works with (0 when absent).
pub open spec fn led_number_of(p: CarProfile) -> i32 {
    match p.led_number {
        Some(n) => n as i32,
        None => 0,
    }
}

/// How many leading profile LEDs are skipped: a profile with more than 12 LEDs
/// keeps its last 12.
pub open spec fn led_skip(p: CarProfile) -> int {
    let raw = led_number_of(p);
    if raw > 12 {
        raw - 12
    } else {
        0
    }
}

/// How many LEDs the strip takes from the profile (at most 12, at least 0).
pub open spec fn led_take(p: CarProfile) -> int {
    let raw = led_number_of(p);
    if raw > 12 {
        12
    } else if raw < 0 {
        0
    } else {
        raw as int
    }
}

/// `s` without one leading `#`.
pub open spec fn strip_hash(s: Seq<char>) -> Seq<char> {
    if s.len() > 0 && s[0] == '#' {
        s.drop_first()
    } else {
        s
    }
}

/// The colour text of `ledColor[idx]` (empty when out of range).
pub open spec fn color_text(colors: Seq<String>, idx: int) -> Seq<char> {
    if 0 <= idx < colors.len() {
        strip_hash(colors[idx]@)
    } else {
        Seq::empty()
    }
}

/// The strip colours of a profile: entry `skip + i + 1` of `ledColor` (entry 0
/// is not an LED) read as hex RGB, for each of the LEDs taken.
pub open spec fn led_colors_of(p: CarProfile) -> Seq<u32> {
    match p.led_color {
        Some(c) => Seq::new(
            led_take(p) as nat,
            |i: int| hex_prefix_value(color_text(c@, led_skip(p) + i + 1)) & 0xFFFFFFu32,
        ),
        None => Seq::empty(),
    }
}

/// The strip colours of a car profile.
pub fn parse_car_led_colors(p: &CarProfile) -> (v: Vec<u32>)
    ensures
        v@ == led_colors_of(*p),
{
    let mut out: Vec<u32> = Vec::new();
    let arr = match &p.led_color {
        Some(a) => a,
        None => {
            return out;
        },
    };
    let raw: i32 = match p.led_number {
        Some(n) => n as i32,
        None => 0,
    };
    let n: i32 = if raw > 12 {
        12
    } else if raw < 0 {
        0
    } else {
        raw
    };
    let skip: i32 = if raw > 12 {
        raw - 12
    } else {
        0
    };
    let mut i: i32 = 0;
    while i < n
        invariant
            p.led_color == Some(*arr),
            raw == led_number_of(*p),
            n == led_take(*p),
            skip == led_skip(*p),
            0 <= i <= n <= 12,
            out@.len() == i,
            forall|j: int|
                0 <= j < i ==> #[trigger] out@[j] == hex_prefix_value(color_text(arr@, skip + j + 1))
                    & 0xFFFFFFu32,
        decreases n - i,
    {
        let idx = (skip + i + 1) as usize;
        let mut text: Vec<char> = Vec::new();
        if idx < arr.len() {
            let cs = chars_of(arr[idx].as_str());
            if cs.len() > 0 && cs[0] == '#' {
                let mut k: usize = 1;
                while k < cs.len()
                    invariant
                        1 <= k <= cs@.len(),
                        text@ == cs@.subrange(1, k as int),
                    decreases cs.len() - k,
                {
                    text.push(cs[k]);
                    k += 1;
                }
                assert(text@ =~= cs@.drop_first());
            } else {
                text = cs;
            }
        }
        assert(text@ == color_text(arr@, skip + i + 1));
        let st = string_from_chars(&text);
        let h = hex_prefix(st.as_str());
        out.push(h & 0xFFFFFF);
        i += 1;
    }
    assert(out@ =~= led_colors_of(*p));
    out
}

/// The shift-table key of gear `g` (its decimal digit).
pub const GEAR_KEYS: [&'static str; 7] = ["0", "1", "2", "3", "4", "5", "6"];

/// Index of the first gear entry (from `k` on) whose key is `key`, or -1.
pub open spec fn gear_entry_from(gears: Seq<GearRpm>, key: Seq<char>, k: int) -> int
    decreases gears.len() - k,
{
    if k < 0 || k >= gears.len() {
        -1
    } else if gears[k].gear@ == key {
        k
    } else {
        gear_entry_from(gears, key, k + 1)
    }
}

/// The rpm points of gear `g` (1..=6), when the profile lists that gear with
/// an array.
pub open spec fn gear_points(p: CarProfile, g: int) -> Option<Seq<Option<i64>>> {
    match p.led_rpm {
        Some(gs) => {
            let k = gear_entry_from(gs@, GEAR_KEYS@[g]@, 0);
            if k >= 0 {
                match gs@[k].rpm {
                    Some(a) => Some(a@),
                    None => None,
                }
            } else {
                None
            }
        },
        None => None,
    }
}

/// The rpm point read for LED `i` of gear `g`, if it is an integer.
pub open spec fn led_point(p: CarProfile, g: int, i: int) -> Option<i64> {
    match gear_points(p, g) {
        Some(a) => {
            let idx = led_skip(p) + i + 1;
            if 0 <= idx < a.len() {
                a[idx]
            } else {
                None
            }
        },
        None => None,
    }
}

/// Does the percentage `point * 100` stay within `i32` for every LED point of
/// gears 1..=6?
pub open spec fn thresholds_fit(p: CarProfile) -> bool {
    forall|g: int, i: int|
        1 <= g <= 6 && 0 <= i < 12 ==> match #[trigger] led_point(p, g, i) {
            Some(v) => i32::MIN <= (v as i32) * 100 <= i32::MAX,
            None => true,
        }
}

/// LED `i` of gear `g` after loading the profile with redline `redline`: the
/// profile colour (dark beyond the profile's LEDs) and the point as a
/// percentage of the redline (0 when there is no point).
pub open spec fn loaded_led(p: CarProfile, g: int, i: int, redline: i32) -> LedCfg {
    let cols = led_colors_of(p);
    LedCfg {
        rgb: if i < cols.len() {
            cols[i]
        } else {
            0
        },
        threshold: match led_point(p, g, i) {
            Some(v) => tdiv((v as i32) * 100, redline as int) as i32,
            None => 0,
        },
    }
}

fn gear_entry(gs: &Vec<GearRpm>, key: &str) -> (r: Option<usize>)
    ensures
        match r {
            Some(k) => gear_entry_from(gs@, key@, 0) == k && k < gs@.len(),
            None => gear_entry_from(gs@, key@, 0) == -1,
        },
{
    let mut k: usize = 0;
    while k < gs.len()
        invariant
            k <= gs@.len(),
            gear_entry_from(gs@, key@, 0) == gear_entry_from(gs@, key@, k as int),
        decreases gs.len() - k,
    {
        if str_eq(gs[k].gear.as_str(), key) {
            return Some(k);
        }
        k += 1;
    }
    None
}

/// Checks `thresholds_fit` (the rpm points the LED thresholds are computed
/// from must not overflow when taken as percentages).
pub fn profile_thresholds_fit(p: &CarProfile) -> (r: bool)
    ensures
        r == thresholds_fit(*p),
{
    let mut g: usize = 1;
    while g <= 6
        invariant
            1 <= g <= 7,
            forall|gg: int, i: int|
                1 <= gg < g && 0 <= i < 12 ==> match #[trigger] led_point(*p, gg, i) {
                    Some(v) => i32::MIN <= (v as i32) * 100 <= i32::MAX,
                    None => true,
                },
        decreases 7 - g,
    {
        let mut i: usize = 0;
        while i < 12
            invariant
                1 <= g <= 6,
                i <= 12,
                forall|gg: int, ii: int|
                    1 <= gg < g && 0 <= ii < 12 ==> match #[trigger] led_point(*p, gg, ii) {
                        Some(v) => i32::MIN <= (v as i32) * 100 <= i32::MAX,
                        None => true,
                    },
                forall|ii: int|
                    0 <= ii < i ==> match #[trigger] led_point(*p, g as int, ii) {
                        Some(v) => i32::MIN <= (v as i32) * 100 <= i32::MAX,
                        None => true,
                    },
            decreases 12 - i,
        {
            match point_at(p, g, i) {
                Some(v) => {
                    let x = v as i32 as i64;
                    if x * 100 < i32::MIN as i64 || x * 100 > i32::MAX as i64 {
                        assert(!match led_point(*p, g as int, i as int) {
                            Some(v) => i32::MIN <= (v as i32) * 100 <= i32::MAX,
                            None => true,
                        });
                        return false;
                    }
                },
                None => {},
            }
            i += 1;
        }
        g += 1;
    }
    true
}

fn point_at(p: &CarProfile, g: usize, i: usize) -> (r: Option<i64>)
    requires
        1 <= g <= 6,
        i < 12,
    ensures
        r == led_point(*p, g as int, i as int),
{
    let gs = match &p.led_rpm {
        Some(gs) => gs,
        None => {
            return None;
        },
    };
    let k = match gear_entry(gs, GEAR_KEYS[g]) {
        Some(k) => k,
        None => {
            return None;
        },
    };
    let a = match &gs[k].rpm {
        Some(a) => a,
        None => {
            return None;
        },
    };
    let raw: i32 = match p.led_number {
        Some(n) => n as i32,
        None => 0,
    };
    let skip: usize = if raw > 12 {
        (raw - 12) as usize
    } else {
        0
    };
    let idx = skip + i + 1;
    if idx < a.len() {
        a[idx]
    } else {
        None
    }
}

/// Loads a car profile into the shift table: for gears 1..=6, each of the 12
/// LEDs gets the profile colour and its rpm point as a percentage of the
/// redline. A profile without colours or without a positive redline changes
/// nothing; gear 0 and the rest of the state never change.
pub fn load_car_into_leds(s: &mut State, p: &CarProfile)
    requires
        thresholds_fit(*p),
    ensures
        led_colors_of(*p).len() == 0 || redline_of(*p) <= 0 ==> *final(s) == *old(s),
        led_colors_of(*p).len() > 0 && redline_of(*p) > 0 ==> {
            &&& forall|g: int, i: int|
                1 <= g < 7 && 0 <= i < 12 ==> #[trigger] final(s).leds[g][i] == loaded_led(
                    *p,
                    g,
                    i,
                    redline_of(*p),
                )
            &&& forall|i: int| 0 <= i < 12 ==> #[trigger] final(s).leds[0][i] == old(s).leds[0][i]
            &&& *final(s) == (State { leds: final(s).leds, ..*old(s) })
        },
{
    let cols = parse_car_led_colors(p);
    let redline = derive_redline(p);
    if cols.len() == 0 || redline <= 0 {
        return ;
    }
    let ghost start = *s;
    let mut g: usize = 1;
    while g <= 6
        invariant
            1 <= g <= 7,
            redline == redline_of(*p),
            redline > 0,
            cols@ == led_colors_of(*p),
            thresholds_fit(*p),
            forall|gg: int, i: int|
                1 <= gg < g && 0 <= i < 12 ==> #[trigger] s.leds[gg][i] == loaded_led(
                    *p,
                    gg,
                    i,
                    redline,
                ),
            forall|gg: int, i: int|
                (gg == 0 || g <= gg < 7) && 0 <= i < 12 ==> #[trigger] s.leds[gg][i]
                    == start.leds[gg][i],
            *s == (State { leds: s.leds, ..start }),
        decreases 7 - g,
    {
        let mut i: usize = 0;
        while i < 12
            invariant
                1 <= g <= 6,
                i <= 12,
                redline == redline_of(*p),
                redline > 0,
                cols@ == led_colors_of(*p),
                thresholds_fit(*p),
                forall|gg: int, ii: int|
                    1 <= gg < g && 0 <= ii < 12 ==> #[trigger] s.leds[gg][ii] == loaded_led(
                        *p,
                        gg,
                        ii,
                        redline,
                    ),
                forall|ii: int| 0 <= ii < i ==> #[trigger] s.leds[g as int][ii] == loaded_led(
                    *p,
                    g as int,
                    ii,
                    redline,
                ),
                forall|gg: int, ii: int|
                    (gg == 0 || g < gg < 7) && 0 <= ii < 12 ==> #[trigger] s.leds[gg][ii]
                        == start.leds[gg][ii],
                forall|ii: int| i <= ii < 12 ==> #[trigger] s.leds[g as int][ii]
                    == start.leds[g as int][ii],
                *s == (State { leds: s.leds, ..start }),
            decreases 12 - i,
        {
            let col: u32 = if i < cols.len() {
                cols[i]
            } else {
                0
            };
            let mut thr: i32 = 0;
            match point_at(p, g, i) {
                Some(v) => {
                    assert(led_point(*p, g as int, i as int) == Some(v));
                    let x = v as i32;
                    thr = x * 100 / redline;
                },
                None => {},
            }
            s.leds[g][i] = LedCfg { rgb: col, threshold: thr };
            i += 1;
        }
        g += 1;
    }
}

/// What a car's document tells the library: redline, LED count, class and
/// strip colours.
pub struct CarDetails {
    pub redline: i32,
    pub led_n: i32,
    pub klass: String,
    pub led_cols: Vec<u32>,
}

/// The details of a car whose document was read as `p` (`None`: the document
/// could not be read, which gives no redline, no LEDs, no class).
pub fn car_details(p: &Option<CarProfile>) -> (d: CarDetails)
    ensures
        match p {
            Some(q) => d.redline == redline_of(*q) && d.led_n == led_number_of(*q) && d.klass@ == (
            match q.car_class {
                Some(c) => c@,
                None => Seq::empty(),
            }) && d.led_cols@ == led_colors_of(*q),
            None => d.redline == 0 && d.led_n == 0 && d.klass@.len() == 0 && d.led_cols@.len() == 0,
        },
{
    match p {
        Some(q) => {
            let klass = match &q.car_class {
                Some(c) => c.clone(),
                None => String::new(),
            };
            let led_n: i32 = match q.led_number {
                Some(n) => n as i32,
                None => 0,
            };
            CarDetails {
                redline: derive_redline(q),
                led_n,
                klass,
                led_cols: parse_car_led_colors(q),
            }
        },
        None => CarDetails { redline: 0, led_n: 0, klass: String::new(), led_cols: Vec::new() },
    }
}

/// Stores fetched details on library car `idx` (nothing when there is no
/// such car).
pub fn apply_car_details(s: &mut State, idx: usize, d: CarDetails)
    ensures
        idx >= old(s).all_cars@.len() ==> *final(s) == *old(s),
        idx < old(s).all_cars@.len() ==> final(s).all_cars@ == old(s).all_cars@.update(
            idx as int,
            CarItem {
                redline: d.redline,
                led_n: d.led_n,
                klass: d.klass,
                led_cols: d.led_cols,
                ..old(s).all_cars@[idx as int]
            },
        ) && *final(s) == (State { all_cars: final(s).all_cars, ..*old(s) }),
{
    if idx < s.all_cars.len() {
        let c = CarItem {
            sim: s.all_cars[idx].sim.clone(),
            name: s.all_cars[idx].name.clone(),
            id: s.all_cars[idx].id.clone(),
            path: s.all_cars[idx].path.clone(),
            klass: d.klass,
            redline: d.redline,
            led_n: d.led_n,
            led_cols: d.led_cols,
        };
        s.all_cars.set(idx, c);
    }
}

/// The cars whose details still have to be fetched: those of the selected
/// game with no redline and no class yet, with their data paths, in order.
pub open spec fn pending_from(cars: Seq<CarItem>, sim: Seq<char>, n: int) -> Seq<(usize, Seq<char>)>
    decreases n,
{
    if n <= 0 {
        Seq::empty()
    } else {
        let rest = pending_from(cars, sim, n - 1);
        let c = cars[n - 1];
        if c.sim@ == sim && c.redline == 0 && c.klass@.len() == 0 {
            rest.push(((n - 1) as usize, c.path@))
        } else {
            rest
        }
    }
}

/// The work list of the detail prefetch for the selected game.
pub fn prefetch_work(s: &State) -> (v: Vec<(usize, String)>)
    ensures
        v@.map_values(|w: (usize, String)| (w.0, w.1@)) == pending_from(
            s.all_cars@,
            s.sim_key(s.game),
            s.all_cars@.len() as int,
        ),
{
    let sim = s.sim_of(s.game);
    let mut v: Vec<(usize, String)> = Vec::new();
    let mut i: usize = 0;
    while i < s.all_cars.len()
        invariant
            i <= s.all_cars@.len(),
            sim@ == s.sim_key(s.game),
            v@.map_values(|w: (usize, String)| (w.0, w.1@)) == pending_from(
                s.all_cars@,
                sim@,
                i as int,
            ),
        decreases s.all_cars.len() - i,
    {
        let c = &s.all_cars[i];
        let ks = chars_of(c.klass.as_str());
        if str_eq(c.sim.as_str(), sim.as_str()) && c.redline == 0 && ks.len() == 0 {
            let ghost before = v@;
            v.push((i, c.path.clone()));
            assert(v@.map_values(|w: (usize, String)| (w.0, w.1@)) =~= before.map_values(
                |w: (usize, String)| (w.0, w.1@),
            ).push((i, c.path@)));
        }
        i += 1;
    }
    v
}

// ---------------------------------------------------------------- manifest

/// One car entry of the manifest (`carName`, `carId`, `path`, each empty when
/// missing or not a string) with the text of its data file (empty when there
/// is none).
pub struct ManifestCar {
    pub name: String,
    pub id: String,
    pub path: String,
    pub body: String,
}

/// One game of the manifest's `cars` object and its entries (none when its
/// value is not an array).
pub struct ManifestSim {
    pub sim: String,
    pub cars: Vec<ManifestCar>,
}

/// `b` without its `"carId"` line: from the first `"carId"` up to (not
/// including) the next newline, or to the end.
pub open spec fn strip_car_id(b: Seq<char>) -> Seq<char> {
    match find_seq(b, "\"carId\""@) {
        Some(p) => {
            let e = match find_seq(b.skip(p), seq!['\n']) {
                Some(o) => p + o,
                None => b.len() as int,
            };
            b.take(p) + b.skip(e)
        },
        None => b,
    }
}

/// The duplicate key of a car: its game, a unit separator, and its data file
/// without the `carId` line; or, with no data file, `#` and the car id.
pub open spec fn dedup_sig_of(sim: Seq<char>, id: Seq<char>, body: Seq<char>) -> Seq<char> {
    if body.len() > 0 {
        sim + seq!['\u{1f}'] + strip_car_id(body)
    } else {
        sim + seq!['\u{1f}', '#'] + id
    }
}

/// The duplicate key of a car entry, given its game and data file text.
pub fn car_dedup_sig(sim: &str, id: &str, body: &str) -> (r: String)
    ensures
        r@ == dedup_sig_of(sim@, id@, body@),
{
    let mut out = chars_of(sim);
    out.push('\u{1f}');
    let b = chars_of(body);
    if b.len() > 0 {
        let key = chars_of("\"carId\"");
        match find_chars(&b, &key) {
            Some(p) => {
                let mut rest: Vec<char> = Vec::new();
                let mut k = p;
                while k < b.len()
                    invariant
                        p <= k <= b@.len(),
                        rest@ == b@.subrange(p as int, k as int),
                    decreases b.len() - k,
                {
                    rest.push(b[k]);
                    k += 1;
                }
                assert(rest@ =~= b@.skip(p as int));
                let nl = vec!['\n'];
                assert(nl@ =~= seq!['\n']);
                let e = match find_chars(&rest, &nl) {
                    Some(o) => p + o,
                    None => b.len(),
                };
                let mut j: usize = 0;
                let ghost head = out@;
                while j < p
                    invariant
                        j <= p <= b@.len(),
                        out@ == head + b@.take(j as int),
                    decreases p - j,
                {
                    out.push(b[j]);
                    j += 1;
                    assert(out@ =~= head + b@.take(j as int));
                }
                let mut m = e;
                let ghost mid = out@;
                while m < b.len()
                    invariant
                        e <= m <= b@.len(),
                        out@ == mid + b@.subrange(e as int, m as int),
                    decreases b.len() - m,
                {
                    out.push(b[m]);
                    m += 1;
                    assert(out@ =~= mid + b@.subrange(e as int, m as int));
                }
                assert(b@.subrange(e as int, b@.len() as int) =~= b@.skip(e as int));
                assert(out@ =~= sim@ + seq!['\u{1f}'] + strip_car_id(body@));
            },
            None => {
                push_all(&mut out, &b);
                assert(out@ =~= sim@ + seq!['\u{1f}'] + strip_car_id(body@));
            },
        }
    } else {
        out.push('#');
        let ic = chars_of(id);
        push_all(&mut out, &ic);
        assert(out@ =~= sim@ + seq!['\u{1f}', '#'] + id@);
    }
    string_from_chars(&out)
}

/// A library car as the manifest lists it: game, trimmed name, id and path;
/// no details yet.
pub open spec fn manifest_item(sim: Seq<char>, e: ManifestCar) -> (Seq<char>, Seq<char>, Seq<char>, Seq<char>) {
    (sim, trim_blanks(e.name@), e.id@, e.path@)
}

/// Library built so far (cars as tuples, and their duplicate keys) after also
/// taking entry `e` of game `sim`: kept when its trimmed name is not empty and
/// its key is new.
pub open spec fn manifest_step(
    acc: (Seq<(Seq<char>, Seq<char>, Seq<char>, Seq<char>)>, Seq<Seq<char>>),
    sim: Seq<char>,
    e: ManifestCar,
) -> (Seq<(Seq<char>, Seq<char>, Seq<char>, Seq<char>)>, Seq<Seq<char>>) {
    let sig = dedup_sig_of(sim, e.id@, e.body@);
    if trim_blanks(e.name@).len() == 0 || acc.1.contains(sig) {
        acc
    } else {
        (acc.0.push(manifest_item(sim, e)), acc.1.push(sig))
    }
}

/// The library after the first `n` entries of one game.
pub open spec fn manifest_entries(
    acc: (Seq<(Seq<char>, Seq<char>, Seq<char>, Seq<char>)>, Seq<Seq<char>>),
    sim: Seq<char>,
    es: Seq<ManifestCar>,
    n: int,
) -> (Seq<(Seq<char>, Seq<char>, Seq<char>, Seq<char>)>, Seq<Seq<char>>)
    decreases n,
{
    if n <= 0 {
        acc
    } else {
        manifest_step(manifest_entries(acc, sim, es, n - 1), sim, es[n - 1])
    }
}

/// The library after the first `n` games of the manifest.
pub open spec fn manifest_games(ms: Seq<ManifestSim>, n: int) -> (Seq<(Seq<char>, Seq<char>, Seq<char>, Seq<char>)>, Seq<Seq<char>>)
    decreases n,
{
    if n <= 0 {
        (Seq::empty(), Seq::empty())
    } else {
        manifest_entries(
            manifest_games(ms, n - 1),
            ms[n - 1].sim@,
            ms[n - 1].cars@,
            ms[n - 1].cars@.len() as int,
        )
    }
}

/// A library car as a tuple of game, name, id and path, when it has no
/// details yet.
pub open spec fn bare_item(c: CarItem) -> Option<(Seq<char>, Seq<char>, Seq<char>, Seq<char>)> {
    if c.redline == 0 && c.led_n == 0 && c.klass@.len() == 0 && c.led_cols@.len() == 0 {
        Some((c.sim@, c.name@, c.id@, c.path@))
    } else {
        None
    }
}

/// The library cars, each as `bare_item`.
pub open spec fn bare_items(v: Seq<CarItem>) -> Seq<Option<(Seq<char>, Seq<char>, Seq<char>, Seq<char>)>> {
    v.map_values(|c: CarItem| bare_item(c))
}

/// Tuples wrapped in `Some`.
pub open spec fn some_items(v: Seq<(Seq<char>, Seq<char>, Seq<char>, Seq<char>)>) -> Seq<Option<(Seq<char>, Seq<char>, Seq<char>, Seq<char>)>> {
    v.map_values(|x: (Seq<char>, Seq<char>, Seq<char>, Seq<char>)| Some(x))
}

/// Rebuilds the car library from a manifest (`None`: the manifest could not
/// be read or has no `cars` object, which leaves the library empty). Games and
/// entries are taken in order; an entry is skipped when its trimmed name is
/// empty or its duplicate key was already taken. Nothing else changes.
pub fn parse_manifest(s: &mut State, m: &Option<Vec<ManifestSim>>)
    ensures
        bare_items(final(s).all_cars@) == some_items(
            match m {
                Some(ms) => manifest_games(ms@, ms@.len() as int).0,
                None => Seq::empty(),
            },
        ),
        *final(s) == (State { all_cars: final(s).all_cars, ..*old(s) }),
{
    let mut cars: Vec<CarItem> = Vec::new();
    match m {
        None => {},
        Some(ms) => {
            let mut seen: Vec<String> = Vec::new();
            let mut gi: usize = 0;
            while gi < ms.len()
                invariant
                    gi <= ms@.len(),
                    bare_items(cars@) == some_items(manifest_games(ms@, gi as int).0),
                    seen@.map_values(|x: String| x@) == manifest_games(ms@, gi as int).1,
                decreases ms.len() - gi,
            {
                let g = &ms[gi];
                let mut ei: usize = 0;
                while ei < g.cars.len()
                    invariant
                        gi < ms@.len(),
                        *g == ms@[gi as int],
                        ei <= g.cars@.len(),
                        bare_items(cars@) == some_items(
                            manifest_entries(
                                manifest_games(ms@, gi as int),
                                g.sim@,
                                g.cars@,
                                ei as int,
                            ).0,
                        ),
                        seen@.map_values(|x: String| x@) == manifest_entries(
                            manifest_games(ms@, gi as int),
                            g.sim@,
                            g.cars@,
                            ei as int,
                        ).1,
                    decreases g.cars.len() - ei,
                {
                    let e = &g.cars[ei];
                    let name = trim(e.name.as_str());
                    let nc = chars_of(name.as_str());
                    if nc.len() > 0 {
                        let sig = car_dedup_sig(g.sim.as_str(), e.id.as_str(), e.body.as_str());
                        if !contains_string(&seen, sig.as_str()) {
                            let item = CarItem {
                                sim: g.sim.clone(),
                                name,
                                id: e.id.clone(),
                                path: e.path.clone(),
                                klass: String::new(),
                                redline: 0,
                                led_n: 0,
                                led_cols: Vec::new(),
                            };
                            let ghost cb = cars@;
                            let ghost sb = seen@;
                            cars.push(item);
                            seen.push(sig);
                            assert(bare_items(cars@) =~= bare_items(cb).push(
                                Some(manifest_item(g.sim@, *e)),
                            ));
                            assert(seen@.map_values(|x: String| x@) =~= sb.map_values(
                                |x: String| x@,
                            ).push(dedup_sig_of(g.sim@, e.id@, e.body@)));
                            assert(some_items(
                                manifest_entries(
                                    manifest_games(ms@, gi as int),
                                    g.sim@,
                                    g.cars@,
                                    ei + 1,
                                ).0,
                            ) =~= some_items(
                                manifest_entries(
                                    manifest_games(ms@, gi as int),
                                    g.sim@,
                                    g.cars@,
                                    ei as int,
                                ).0,
                            ).push(Some(manifest_item(g.sim@, *e))));
                        }
                    }
                    ei += 1;
                }
                gi += 1;
            }
        },
    }
    s.all_cars = cars;
}

// ---------------------------------------------------------------- matching a car

/// How well a library name key `cand` matches the model key `nm`: 1000 for
/// equal keys, else the length of the shorter when one contains the other,
/// else 0 (and 0 for an empty `cand`).
pub open spec fn match_score(cand: Seq<char>, nm: Seq<char>) -> int {
    if cand.len() == 0 {
        0
    } else if cand == nm {
        1000
    } else if contains_seq(cand, nm) {
        nm.len() as int
    } else if contains_seq(nm, cand) {
        cand.len() as int
    } else {
        0
    }
}

/// The score of a library car: the better of its name's and its id's.
pub open spec fn car_score(c: CarItem, nm: Seq<char>) -> int {
    let a = match_score(norm_seq(c.name@), nm);
    let b = match_score(norm_seq(c.id@), nm);
    if a >= b {
        a
    } else {
        b
    }
}

/// The best-scoring car of game `sim` among the first `n` (the first one on
/// ties; -1 when no car scores above 0), with its score.
pub open spec fn best_match(cars: Seq<CarItem>, sim: Seq<char>, nm: Seq<char>, n: int) -> (int, int)
    decreases n,
{
    if n <= 0 {
        (-1, 0)
    } else {
        let prev = best_match(cars, sim, nm, n - 1);
        let c = cars[n - 1];
        if c.sim@ == sim && car_score(c, nm) > prev.1 {
            (n - 1, car_score(c, nm))
        } else {
            prev
        }
    }
}

proof fn lemma_best_match_bounds(cars: Seq<CarItem>, sim: Seq<char>, nm: Seq<char>, n: int)
    requires
        n >= 0,
    ensures
        -1 <= best_match(cars, sim, nm, n).0 < n,
        best_match(cars, sim, nm, n).0 == -1 <==> best_match(cars, sim, nm, n).1 == 0,
        best_match(cars, sim, nm, n).1 >= 0,
    decreases n,
{
    if n > 0 {
        lemma_best_match_bounds(cars, sim, nm, n - 1);
    }
}

fn score_of(cand: &str, nm: &str) -> (r: usize)
    ensures
        r == match_score(cand@, nm@),
{
    let c = chars_of(cand);
    let n = chars_of(nm);
    if c.len() == 0 {
        return 0;
    }
    if str_eq(cand, nm) {
        return 1000;
    }
    if contains_chars(&c, &n) {
        return n.len();
    }
    if contains_chars(&n, &c) {
        return c.len();
    }
    0
}

/// The library car of the selected game that best matches the model key `nm`
/// (see `best_match`), or -1.
pub fn best_car_match(s: &State, nm: &str) -> (r: i32)
    requires
        s.all_cars@.len() <= i32::MAX,
    ensures
        r == best_match(s.all_cars@, s.sim_key(s.game), nm@, s.all_cars@.len() as int).0,
{
    let sim = s.sim_of(s.game);
    let mut best: i32 = -1;
    let mut best_score: usize = 0;
    let mut i: usize = 0;
    while i < s.all_cars.len()
        invariant
            i <= s.all_cars@.len() <= i32::MAX,
            sim@ == s.sim_key(s.game),
            best == best_match(s.all_cars@, sim@, nm@, i as int).0,
            best_score == best_match(s.all_cars@, sim@, nm@, i as int).1,
        decreases s.all_cars.len() - i,
    {
        let c = &s.all_cars[i];
        if str_eq(c.sim.as_str(), sim.as_str()) {
            let kn = norm_name(c.name.as_str());
            let ki = norm_name(c.id.as_str());
            let a = score_of(kn.as_str(), nm);
            let b = score_of(ki.as_str(), nm);
            let score = if a >= b {
                a
            } else {
                b
            };
            if score > best_score {
                best_score = score;
                best = i as i32;
            }
        }
        i += 1;
    }
    best
}

/// What matching a reported car model came to.
pub enum AutoMatch {
    /// Empty model, or the one already handled: nothing was done.
    Unchanged,
    /// The model has no letters or digits to match by.
    Unnamed,
    /// No library car of the selected game matches.
    NoMatch,
    /// This library car matches best.
    Found(usize),
}

/// The model key of a reported car model: the model without an entry or
/// livery suffix, as a name key.
pub open spec fn model_key(model: Seq<char>) -> Seq<char> {
    norm_seq(crate::util::clean_car_seq(model))
}

/// Matches a car model reported by the game: an empty model or the one last
/// handled changes nothing; otherwise it becomes the last handled model and
/// the best library match of the selected game is returned.
pub fn auto_match_car(s: &mut State, model: &str) -> (r: AutoMatch)
    requires
        old(s).all_cars@.len() <= i32::MAX,
    ensures
        model@.len() == 0 || model@ == old(s).last_auto_model@ ==> r is Unchanged && *final(s)
            == *old(s),
        model@.len() > 0 && model@ != old(s).last_auto_model@ ==> {
            &&& final(s).last_auto_model@ == model@
            &&& *final(s) == (State { last_auto_model: final(s).last_auto_model, ..*old(s) })
            &&& (model_key(model@).len() == 0 ==> r is Unnamed)
            &&& (model_key(model@).len() > 0 ==> {
                let b = best_match(
                    old(s).all_cars@,
                    old(s).sim_key(old(s).game),
                    model_key(model@),
                    old(s).all_cars@.len() as int,
                ).0;
                &&& (b < 0 ==> r is NoMatch)
                &&& (b >= 0 ==> r == AutoMatch::Found(b as usize))
            })
        },
{
    let mc = chars_of(model);
    if mc.len() == 0 || str_eq(model, s.last_auto_model.as_str()) {
        return AutoMatch::Unchanged;
    }
    s.last_auto_model = model.to_owned();
    let cleaned = crate::util::clean_car_name(model);
    let nm = norm_name(cleaned.as_str());
    let nc = chars_of(nm.as_str());
    if nc.len() == 0 {
        return AutoMatch::Unnamed;
    }
    let b = best_car_match(s, nm.as_str());
    proof {
        lemma_best_match_bounds(s.all_cars@, s.sim_key(s.game), nm@, s.all_cars@.len() as int);
    }
    if b < 0 {
        AutoMatch::NoMatch
    } else {
        AutoMatch::Found(b as usize)
    }
}

/// A detail prefetch for the selected game: its generation (a newer prefetch
/// supersedes it) and the cars it fetches (index and document path).
pub struct Prefetch {
    pub gen: usize,
    pub work: Vec<(usize, String)>,
}

/// The generation after `g` (wrapping).
pub open spec fn next_gen(g: usize) -> usize {
    if g == usize::MAX {
        0
    } else {
        (g + 1) as usize
    }
}

proof fn lemma_pending_cars(cars: Seq<CarItem>, sim: Seq<char>, n: int)
    requires
        0 <= n <= cars.len() <= usize::MAX,
    ensures
        forall|k: int|
            0 <= k < pending_from(cars, sim, n).len() ==> {
                let (i, path) = #[trigger] pending_from(cars, sim, n)[k];
                &&& (i as int) < n
                &&& cars[i as int].sim@ == sim
                &&& cars[i as int].redline == 0
                &&& cars[i as int].klass@.len() == 0
                &&& path == cars[i as int].path@
            },
    decreases n,
{
    if n > 0 {
        lemma_pending_cars(cars, sim, n - 1);
        let rest = pending_from(cars, sim, n - 1);
        let all = pending_from(cars, sim, n);
        assert forall|k: int| 0 <= k < all.len() implies {
            let (i, path) = #[trigger] all[k];
            &&& (i as int) < n
            &&& cars[i as int].sim@ == sim
            &&& cars[i as int].redline == 0
            &&& cars[i as int].klass@.len() == 0
            &&& path == cars[i as int].path@
        } by {
            if k < rest.len() {
                assert(all[k] == rest[k]);
            }
        }
    }
}

/// Starts a detail prefetch after generation `prev_gen`: the next generation,
/// and as work the cars of the selected game with neither a redline nor a
/// class yet.
pub fn prefetch_start(s: &State, prev_gen: usize) -> (p: Prefetch)
    ensures
        p.gen == next_gen(prev_gen),
        p.work@.map_values(|w: (usize, String)| (w.0, w.1@)) == pending_from(
            s.all_cars@,
            s.sim_key(s.game),
            s.all_cars@.len() as int,
        ),
        forall|k: int|
            0 <= k < p.work@.len() ==> {
                let i = (#[trigger] p.work@[k]).0 as int;
                &&& i < s.all_cars@.len()
                &&& s.all_cars@[i].sim@ == s.sim_key(s.game)
                &&& s.all_cars@[i].redline == 0
                &&& s.all_cars@[i].klass@.len() == 0
            },
{
    let work = prefetch_work(s);
    let n: usize = s.all_cars.len();
    proof {
        lemma_pending_cars(s.all_cars@, s.sim_key(s.game), n as int);
        let m = work@.map_values(|w: (usize, String)| (w.0, w.1@));
        assert forall|k: int| 0 <= k < work@.len() implies {
            let i = (#[trigger] work@[k]).0 as int;
            &&& i < s.all_cars@.len()
            &&& s.all_cars@[i].sim@ == s.sim_key(s.game)
            &&& s.all_cars@[i].redline == 0
            &&& s.all_cars@[i].klass@.len() == 0
        } by {
            assert(m[k] == (work@[k].0, work@[k].1@));
        }
    }
    let gen: usize = if prev_gen == usize::MAX {
        0
    } else {
        prev_gen + 1
    };
    Prefetch { gen, work }
}

/// Stores the fetched details `d` of work item `k` of prefetch `p`, unless a
/// newer prefetch started (`current_gen` is not `p`'s) or the car is gone.
/// Returns whether they were stored.
pub fn prefetch_store(p: &Prefetch, current_gen: usize, s: &mut State, k: usize, d: CarDetails) -> (stored: bool)
    requires
        k < p.work@.len(),
    ensures
        stored == (p.gen == current_gen && p.work@[k as int].0 < old(s).all_cars@.len()),
        !stored ==> *final(s) == *old(s),
        stored ==> final(s).all_cars@ == old(s).all_cars@.update(
            p.work@[k as int].0 as int,
            CarItem {
                redline: d.redline,
                led_n: d.led_n,
                klass: d.klass,
                led_cols: d.led_cols,
                ..old(s).all_cars@[p.work@[k as int].0 as int]
            },
        ) && *final(s) == (State { all_cars: final(s).all_cars, ..*old(s) }),
{
    let idx = p.work[k].0;
    if p.gen != current_gen || idx >= s.all_cars.len() {
        return false;
    }
    apply_car_details(s, idx, d);
    true
}

/// The library index of the car on row `row` of the filtered list, or `None`
/// when there is no such row.
pub fn filtered_car(s: &State, row: i32) -> (r: Option<usize>)
    requires
        0 <= row < s.filtered@.len() ==> s.filtered@[row as int] < s.all_cars@.len(),
    ensures
        r == (if 0 <= row < s.filtered@.len() {
            Some(s.filtered@[row as int])
        } else {
            None::<usize>
        }),
        r matches Some(i) ==> i < s.all_cars@.len(),
{
    if row < 0 || row as usize >= s.filtered.len() {
        None
    } else {
        Some(s.filtered[row as usize])
    }
}

/// Makes `car` the active car: its name, game and id; its redline (the
/// library's, or the document's when the library has none) when positive,
/// which also ends a custom shift setup; and, when its document was read,
/// its LED profile.
pub fn apply_active_car(s: &mut State, car: &CarItem, p: &Option<CarProfile>)
    requires
        p matches Some(q) ==> thresholds_fit(*q),
    ensures
        final(s).car_name@ == car.name@,
        final(s).car_game@ == car.sim@,
        final(s).car_id@ == car.id@,
        ({
            let rl = match p {
                Some(q) => if car.redline == 0 {
                    redline_of(*q)
                } else {
                    car.redline
                },
                None => car.redline,
            };
            &&& rl > 0 ==> final(s).redline_rpm == rl && !final(s).shift_custom
            &&& rl <= 0 ==> final(s).redline_rpm == old(s).redline_rpm && final(s).shift_custom
                == old(s).shift_custom
        }),
        match p {
            Some(q) => led_colors_of(*q).len() > 0 && redline_of(*q) > 0 ==> forall|g: int, i: int|
                1 <= g < 7 && 0 <= i < 12 ==> #[trigger] final(s).leds[g][i] == loaded_led(
                    *q,
                    g,
                    i,
                    redline_of(*q),
                ),
            None => final(s).leds == old(s).leds,
        },
        p matches Some(q) && (led_colors_of(*q).len() == 0 || redline_of(*q) <= 0) ==> final(s).leds
            == old(s).leds,
        *final(s) == (State {
            car_name: final(s).car_name,
            car_game: final(s).car_game,
            car_id: final(s).car_id,
            redline_rpm: final(s).redline_rpm,
            shift_custom: final(s).shift_custom,
            leds: final(s).leds,
            ..*old(s)
        }),
{
    let mut redline = car.redline;
    match p {
        Some(q) => {
            if redline == 0 {
                redline = derive_redline(q);
            }
        },
        None => {},
    }
    s.car_name = car.name.clone();
    s.car_game = car.sim.clone();
    s.car_id = car.id.clone();
    if redline > 0 {
        s.redline_rpm = redline;
        s.shift_custom = false;
    }
    match p {
        Some(q) => {
            load_car_into_leds(s, q);
        },
        None => {},
    }
}

// ---------------------------------------------------------------- status lines

/// The status after choosing a car: with its document read and the device
/// connected, whether the device took it; with no device, that it was kept
/// for later; with the device but an unreadable document, a parse error.
pub open spec fn active_status(name: Seq<char>, parsed: bool, connected: bool, pushed: bool) -> Seq<char> {
    if parsed && connected {
        if pushed {
            "Sent "@ + name
        } else {
            "device rejected"@
        }
    } else if !connected {
        "sent (offline cache) \u{b7} connect to push"@
    } else {
        "car parse error"@
    }
}

fn concat_str(a: &str, b: &str) -> (r: String)
    ensures
        r@ == a@ + b@,
{
    let mut c = chars_of(a);
    let d = chars_of(b);
    push_all(&mut c, &d);
    string_from_chars(&c)
}

/// The status line after choosing car `name` (see `active_status`).
pub fn active_car_status(name: &str, parsed: bool, connected: bool, pushed: bool) -> (r: String)
    ensures
        r@ == active_status(name@, parsed, connected, pushed),
{
    if parsed && connected {
        if pushed {
            concat_str("Sent ", name)
        } else {
            "device rejected".to_owned()
        }
    } else if !connected {
        "sent (offline cache) \u{b7} connect to push".to_owned()
    } else {
        "car parse error".to_owned()
    }
}

/// The status line after a car was matched automatically: `Auto: ` and its
/// name when the device took its profile, else that it was matched offline.
pub fn auto_car_status(name: &str, pushed: bool) -> (r: String)
    ensures
        r@ == (if pushed {
            "Auto: "@ + name@
        } else {
            "Matched "@ + name@ + " (offline)"@
        }),
{
    if pushed {
        concat_str("Auto: ", name)
    } else {
        let m = concat_str("Matched ", name);
        concat_str(m.as_str(), " (offline)")
    }
}

// ---------------------------------------------------------------- laws

proof fn lemma_entries_keep(
    acc: (Seq<(Seq<char>, Seq<char>, Seq<char>, Seq<char>)>, Seq<Seq<char>>),
    sim: Seq<char>,
    es: Seq<ManifestCar>,
    n: int,
)
    requires
        acc.0.len() == acc.1.len(),
        forall|i: int, j: int| 0 <= i < j < acc.1.len() ==> acc.1[i] != acc.1[j],
        forall|i: int| 0 <= i < acc.0.len() ==> (#[trigger] acc.0[i]).1.len() > 0,
    ensures
        ({
            let r = manifest_entries(acc, sim, es, n);
            &&& r.0.len() == r.1.len()
            &&& forall|i: int, j: int| 0 <= i < j < r.1.len() ==> r.1[i] != r.1[j]
            &&& forall|i: int| 0 <= i < r.0.len() ==> (#[trigger] r.0[i]).1.len() > 0
        }),
    decreases n,
{
    if n > 0 {
        lemma_entries_keep(acc, sim, es, n - 1);
        let prev = manifest_entries(acc, sim, es, n - 1);
        let e = es[n - 1];
        let sig = dedup_sig_of(sim, e.id@, e.body@);
        if !(trim_blanks(e.name@).len() == 0 || prev.1.contains(sig)) {
            let r = manifest_entries(acc, sim, es, n);
            assert(r == (prev.0.push(manifest_item(sim, e)), prev.1.push(sig)));
            assert forall|i: int, j: int| 0 <= i < j < r.1.len() implies r.1[i] != r.1[j] by {
                if j == prev.1.len() {
                    assert(prev.1.contains(prev.1[i]));
                }
            }
            assert forall|i: int| 0 <= i < r.0.len() implies (#[trigger] r.0[i]).1.len() > 0 by {
                if i < prev.0.len() {
                    assert(r.0[i] == prev.0[i]);
                }
            }
        }
    }
}

/// A library built from a manifest holds no two cars with the same duplicate
/// key (one key per car), and no car with an empty name.
pub proof fn lemma_manifest_no_duplicates(ms: Seq<ManifestSim>, n: int)
    ensures
        ({
            let r = manifest_games(ms, n);
            &&& r.0.len() == r.1.len()
            &&& forall|i: int, j: int| 0 <= i < j < r.1.len() ==> r.1[i] != r.1[j]
            &&& forall|i: int| 0 <= i < r.0.len() ==> (#[trigger] r.0[i]).1.len() > 0
        }),
    decreases n,
{
    if n > 0 {
        lemma_manifest_no_duplicates(ms, n - 1);
        lemma_entries_keep(manifest_games(ms, n - 1), ms[n - 1].sim@, ms[n - 1].cars@, ms[n - 1].cars@.len() as int);
    }
}

proof fn lemma_max_entries(items: Seq<Option<i64>>, n: int, acc: i32)
    requires
        0 <= n <= items.len(),
    ensures
        max_entries(items, n, acc) >= acc,
        forall|j: int| 0 <= j < n ==> (#[trigger] items[j] matches Some(v) ==> max_entries(items, n, acc) >= v as i32),
    decreases n,
{
    if n > 0 {
        lemma_max_entries(items, n - 1, acc);
    }
}

/// Entry `j` of gear `k`'s rpm points, if there is one and it is an integer.
pub open spec fn point_in(gears: Seq<GearRpm>, k: int, j: int) -> Option<i64> {
    match gears[k].rpm {
        Some(a) => if 0 <= j < a@.len() {
            a@[j]
        } else {
            None
        },
        None => None,
    }
}

proof fn lemma_max_over_gears(gears: Seq<GearRpm>, n: int)
    requires
        0 <= n <= gears.len(),
    ensures
        max_over_gears(gears, n) >= 0,
        forall|k: int, j: int|
            0 <= k < n ==> (#[trigger] point_in(gears, k, j) matches Some(v) ==> max_over_gears(
                gears,
                n,
            ) >= v as i32),
    decreases n,
{
    if n > 0 {
        lemma_max_over_gears(gears, n - 1);
        let acc = max_over_gears(gears, n - 1);
        match gears[n - 1].rpm {
            Some(a) => {
                lemma_max_entries(a@, a@.len() as int, acc);
            },
            None => {},
        }
    }
}

proof fn lemma_gear_entry_bounds(gears: Seq<GearRpm>, key: Seq<char>, k: int)
    requires
        0 <= k,
    ensures
        gear_entry_from(gears, key, k) == -1 || k <= gear_entry_from(gears, key, k) < gears.len(),
    decreases gears.len() - k,
{
    if k < gears.len() && gears[k].gear@ != key {
        lemma_gear_entry_bounds(gears, key, k + 1);
    }
}

/// The redline of a car is at least each rpm point it lists, so a loaded LED
/// threshold never exceeds 100 %.
pub proof fn lemma_threshold_at_most_full(p: CarProfile, g: int, i: int)
    requires
        1 <= g <= 6,
        0 <= i < 12,
        redline_of(p) > 0,
        thresholds_fit(p),
    ensures
        loaded_led(p, g, i, redline_of(p)).threshold <= 100,
{
    let rl = redline_of(p);
    match led_point(p, g, i) {
        Some(v) => {
            let gs = p.led_rpm.unwrap();
            let k = gear_entry_from(gs@, GEAR_KEYS@[g]@, 0);
            lemma_gear_entry_bounds(gs@, GEAR_KEYS@[g]@, 0);
            let idx = led_skip(p) + i + 1;
            lemma_max_over_gears(gs@, gs@.len() as int);
            assert(point_in(gs@, k, idx) == Some(v));
            let x = v as i32;
            assert(x <= rl);
            assert(i32::MIN <= x * 100 <= i32::MAX);
            let t = tdiv(x * 100, rl as int);
            if x >= 0 {
                assert((x * 100) / (rl as int) <= 100) by (nonlinear_arith)
                    requires
                        0 <= x <= rl,
                        rl > 0,
                ;
                assert((x * 100) / (rl as int) >= 0) by (nonlinear_arith)
                    requires
                        0 <= x,
                        rl > 0,
                ;
            } else {
                assert((-(x * 100)) / (rl as int) >= 0) by (nonlinear_arith)
                    requires
                        x < 0,
                        rl > 0,
                ;
                assert((-(x * 100)) / (rl as int) <= -(x * 100)) by (nonlinear_arith)
                    requires
                        x < 0,
                        rl > 0,
                ;
            }
            assert(i32::MIN <= t <= 100);
        },
        None => {},
    }
}

proof fn lemma_car_score_nonneg(c: CarItem, nm: Seq<char>)
    ensures
        car_score(c, nm) >= 0,
{
}

/// The car picked for a model scores at least as well as every car of the
/// game; when one is picked it belongs to the game and scores above 0.
pub proof fn lemma_best_match_is_best(cars: Seq<CarItem>, sim: Seq<char>, nm: Seq<char>, n: int)
    requires
        0 <= n <= cars.len(),
    ensures
        ({
            let (b, sc) = best_match(cars, sim, nm, n);
            &&& forall|j: int| 0 <= j < n && (#[trigger] cars[j]).sim@ == sim ==> car_score(cars[j], nm) <= sc
            &&& b >= 0 ==> cars[b].sim@ == sim && car_score(cars[b], nm) == sc && sc > 0
        }),
    decreases n,
{
    if n > 0 {
        lemma_best_match_is_best(cars, sim, nm, n - 1);
        lemma_best_match_bounds(cars, sim, nm, n - 1);
        lemma_car_score_nonneg(cars[n - 1], nm);
    }
}


/// Law: each LED reads one profile entry for both its colour and its rpm
/// point: LED `i` of gear `g` takes entry `skip + i + 1` (entry 0 is not an
/// LED; a profile with `n` > 12 LEDs skips its first `n - 12`) of `ledColor`
/// for its colour and of that gear's `ledRpm` array for its point, which
/// becomes a percentage of the redline (0 without an integer point there).
pub proof fn lemma_led_same_entry(p: CarProfile, g: int, i: int, redline: i32)
    requires
        1 <= g <= 6,
        0 <= i < 12,
    ensures
        ({
            let n = led_number_of(p);
            let j = (if n > 12 { n - 12 } else { 0 }) + i + 1;
            let led = loaded_led(p, g, i, redline);
            &&& (p.led_color is Some && i < led_take(p)) ==> led.rgb == hex_prefix_value(
                color_text(p.led_color->0@, j),
            ) & 0xFFFFFFu32
            &&& (p.led_color is None || i >= led_take(p)) ==> led.rgb == 0
            &&& match gear_points(p, g) {
                Some(a) => led.threshold == (if 0 <= j < a.len() && a[j] is Some {
                    tdiv(((a[j]->0) as i32) * 100, redline as int) as i32
                } else {
                    0i32
                }),
                None => led.threshold == 0,
            }
        }),
{
}

/// Law (LED count): the strip takes as many colours as the profile has LEDs,
/// at most 12 (the last ones when it has more) and none without `ledColor`.
pub proof fn lemma_led_count(p: CarProfile)
    ensures
        led_colors_of(p).len() == (if p.led_color is None {
            0
        } else {
            let n = led_number_of(p);
            if n > 12 {
                12
            } else if n < 0 {
                0
            } else {
                n as int
            }
        }),
{
}
} // verus!
