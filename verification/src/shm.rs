//! Integer-coded parts of the sims' shared-memory pages: the layout offsets,
//! the length gates, gears, flags and status words, the rFactor 2 player
//! lookup, and the car / track names. (The floating-point channels are read by
//! the application on top of what is decoded here.)

use vstd::prelude::*;
use crate::le::{le_i32, le_u16, gear_byte, le_i32_at, le_u16_at, gear_glyph, nonneg};
use crate::telemetry::Telemetry;
use crate::util::{trim_ws_seq, ws_trim_range};
use crate::text::{chars_of, string_from_range};
use vstd::utf8::{valid_utf8, decode_utf8};

verus! {

// ---------------------------------------------------------------- flags, tyres

/// Our flag code for an ACC `AC_FLAG_TYPE` (0 none, 1 green, 2 yellow, 3 blue,
/// 4 white, 5 chequered, 6 black).
pub open spec fn acc_flag(f: i32) -> i32 {
    if f == 1 {
        3
    } else if f == 2 {
        2
    } else if f == 3 {
        6
    } else if f == 4 {
        4
    } else if f == 5 {
        5
    } else if f == 7 {
        1
    } else {
        0
    }
}

/// Maps an ACC `AC_FLAG_TYPE` to our flag code.
pub fn map_acc_flag(f: i32) -> (r: i32)
    ensures
        r == acc_flag(f),
{
    match f {
        1 => 3,
        2 => 2,
        3 => 6,
        4 => 4,
        5 => 5,
        7 => 1,
        _ => 0,
    }
}

/// Sets all three zones (inner, middle, outer) of each tyre to that tyre's
/// single temperature.
pub fn set_tyre(t: &mut Telemetry, fl: i32, fr: i32, rl: i32, rr: i32)
    ensures
        *final(t) == (Telemetry {
            tt_fl_i: fl,
            tt_fl_m: fl,
            tt_fl_o: fl,
            tt_fr_i: fr,
            tt_fr_m: fr,
            tt_fr_o: fr,
            tt_rl_i: rl,
            tt_rl_m: rl,
            tt_rl_o: rl,
            tt_rr_i: rr,
            tt_rr_m: rr,
            tt_rr_o: rr,
            ..*old(t)
        }),
{
    t.tt_fl_i = fl;
    t.tt_fl_m = fl;
    t.tt_fl_o = fl;
    t.tt_fr_i = fr;
    t.tt_fr_m = fr;
    t.tt_fr_o = fr;
    t.tt_rl_i = rl;
    t.tt_rl_m = rl;
    t.tt_rl_o = rl;
    t.tt_rr_i = rr;
    t.tt_rr_m = rr;
    t.tt_rr_o = rr;
}

fn max0(v: i32) -> (r: i32)
    ensures
        r == nonneg(v),
{
    if v < 0 {
        0
    } else {
        v
    }
}

// ---------------------------------------------------------------- AC / ACC

/// The integer channels of an AC / ACC physics page of at least 32 bytes:
/// gear (`raw - 1`, raw 0 = reverse), rpm, and, on the longer layouts, the
/// pit limiter (from 256 bytes) and ignition (ACC's full 800-byte page).
pub open spec fn ac_physics_ints(b: Seq<u8>) -> Telemetry {
    let t0 = Telemetry {
        gear: gear_glyph(le_i32_at(b, 16) - 1),
        rpm: nonneg(le_i32_at(b, 20)),
        ..Telemetry::idle_value()
    };
    let t1 = if b.len() >= 256 {
        Telemetry { pit_limiter: le_i32_at(b, 248), ..t0 }
    } else {
        t0
    };
    if b.len() >= 800 {
        Telemetry { ignition: le_i32_at(b, 772), ..t1 }
    } else {
        t1
    }
}

/// Decodes the integer channels of an AC / ACC physics page. `None` when the
/// page is shorter than 32 bytes or its packet id is 0 (no data yet).
pub fn ac_physics_base(b: &[u8]) -> (r: Option<Telemetry>)
    ensures
        r is None <==> (b.len() < 32 || le_i32_at(b@, 0) == 0),
        r is Some ==> r->0 == ac_physics_ints(b@),
{
    if b.len() < 32 || le_i32(b, 0) == 0 {
        return None;
    }
    let mut t = Telemetry::idle();
    let raw = le_i32(b, 16);
    t.gear = if raw == i32::MIN {
        gear_byte(-1)
    } else {
        gear_byte(raw - 1)
    };
    t.rpm = max0(le_i32(b, 20));
    if b.len() >= 256 {
        t.pit_limiter = le_i32(b, 248);
    }
    if b.len() >= 800 {
        t.ignition = le_i32(b, 772);
    }
    Some(t)
}

/// `t` with the integer fields of an ACC graphics page of at least 1308 bytes
/// merged in: laps, position, TC and ABS levels, headlights, wipers, flag.
pub open spec fn acc_graphics_merge(t: Telemetry, g: Seq<u8>) -> Telemetry {
    Telemetry {
        laps_done: nonneg(le_i32_at(g, 132)),
        position: nonneg(le_i32_at(g, 136)),
        tc: le_i32_at(g, 1268),
        abs: le_i32_at(g, 1280),
        headlights: if le_i32_at(g, 1296) > 0 {
            1
        } else {
            0
        },
        wipers: nonneg(le_i32_at(g, 1304)),
        flag: acc_flag(le_i32_at(g, 1224)),
        ..t
    }
}

/// Merges the integer fields of an ACC graphics page into `t`; a page shorter
/// than 1308 bytes leaves `t` unchanged.
pub fn acc_graphics_ints(t: &mut Telemetry, g: &[u8])
    ensures
        g.len() < 1308 ==> *final(t) == *old(t),
        g.len() >= 1308 ==> *final(t) == acc_graphics_merge(*old(t), g@),
{
    if g.len() < 1308 {
        return ;
    }
    t.laps_done = max0(le_i32(g, 132));
    t.position = max0(le_i32(g, 136));
    t.tc = le_i32(g, 1268);
    t.abs = le_i32(g, 1280);
    t.headlights = if le_i32(g, 1296) > 0 {
        1
    } else {
        0
    };
    t.wipers = max0(le_i32(g, 1304));
    t.flag = map_acc_flag(le_i32(g, 1224));
}

// ---------------------------------------------------------------- RaceRoom

/// The integer channels of a RaceRoom page of at least 1520 bytes: gear (-2
/// "n/a" shown as neutral), position and laps; from 1624 bytes also the pit
/// limiter (state 1) and headlights.
pub open spec fn r3e_ints(b: Seq<u8>) -> Telemetry {
    let raw = le_i32_at(b, 1408);
    let t0 = Telemetry {
        gear: gear_glyph(
            if raw < -1 {
                0
            } else {
                raw as int
            },
        ),
        position: nonneg(le_i32_at(b, 988)),
        laps_done: nonneg(le_i32_at(b, 1028)),
        ..Telemetry::idle_value()
    };
    if b.len() >= 1624 {
        Telemetry {
            pit_limiter: if le_i32_at(b, 1572) == 1 {
                1
            } else {
                0
            },
            headlights: if le_i32_at(b, 1620) > 0 {
                1
            } else {
                0
            },
            ..t0
        }
    } else {
        t0
    }
}

/// Decodes the integer channels of a RaceRoom page.
pub fn r3e_base(b: &[u8]) -> (t: Telemetry)
    requires
        b.len() >= 1520,
    ensures
        t == r3e_ints(b@),
{
    let mut t = Telemetry::idle();
    let raw = le_i32(b, 1408);
    t.gear = gear_byte(
        if raw < -1 {
            0
        } else {
            raw
        },
    );
    t.position = max0(le_i32(b, 988));
    t.laps_done = max0(le_i32(b, 1028));
    if b.len() >= 1624 {
        t.pit_limiter = if le_i32(b, 1572) == 1 {
            1
        } else {
            0
        };
        t.headlights = if le_i32(b, 1620) > 0 {
            1
        } else {
            0
        };
    }
    t
}

// ---------------------------------------------------------------- rFactor 2 / LMU

/// A count word clamped to `0..=128`.
pub open spec fn count_at(b: Seq<u8>, o: int) -> int {
    let n = le_i32_at(b, o);
    if n < 0 {
        0
    } else if n > 128 {
        128
    } else {
        n as int
    }
}

/// Start of scoring vehicle `i` (560 bytes of header, 584 bytes each).
pub open spec fn vehicle_base(i: int) -> int {
    560 + i * 584
}

/// First vehicle from `i` on (below `n`, and before the first one that does
/// not fit in `s`) whose `mIsPlayer` byte is set.
pub open spec fn player_from(s: Seq<u8>, n: int, i: int) -> Option<int>
    decreases n - i,
{
    if i >= n || s.len() < vehicle_base(i) + 584 {
        None
    } else if s[vehicle_base(i) + 196] != 0 {
        Some(i)
    } else {
        player_from(s, n, i + 1)
    }
}

/// Index of the player's vehicle in an rF2 scoring buffer, if any.
pub open spec fn rf2_player(s: Seq<u8>) -> Option<int> {
    if s.len() < 120 {
        None
    } else {
        player_from(s, count_at(s, 116), 0)
    }
}

proof fn lemma_player_from_bounds(s: Seq<u8>, n: int, i: int)
    requires
        0 <= i,
    ensures
        player_from(s, n, i) matches Some(k) ==> i <= k < n && vehicle_base(k) + 584 <= s.len(),
    decreases n - i,
{
    if i < n && s.len() >= vehicle_base(i) + 584 && s[vehicle_base(i) + 196] == 0 {
        lemma_player_from_bounds(s, n, i + 1);
    }
}

/// Finds the player's vehicle in an rF2 scoring buffer.
fn rf2_player_index(s: &[u8]) -> (r: Option<usize>)
    ensures
        match r {
            Some(i) => rf2_player(s@) == Some(i as int) && vehicle_base(i as int) + 584 <= s.len(),
            None => rf2_player(s@) is None,
        },
{
    if s.len() < 120 {
        return None;
    }
    let c = le_i32(s, 116);
    let n: usize = if c < 0 {
        0
    } else if c > 128 {
        128
    } else {
        c as usize
    };
    let mut i: usize = 0;
    while i < n
        invariant
            s.len() >= 120,
            i <= n <= 128,
            n == count_at(s@, 116),
            player_from(s@, n as int, 0) == player_from(s@, n as int, i as int),
        decreases n - i,
    {
        let base = 560 + i * 584;
        if s.len() < base + 584 {
            return None;
        }
        if s[base + 196] != 0 {
            return Some(i);
        }
        i += 1;
    }
    None
}

/// The player's `mID` from an rF2 scoring buffer (the first word of its
/// vehicle record), if a player vehicle is found.
pub fn rf2_player_id(s: &[u8]) -> (r: Option<i32>)
    ensures
        match rf2_player(s@) {
            Some(i) => r == Some(le_i32_at(s@, vehicle_base(i))),
            None => r is None,
        },
{
    match rf2_player_index(s) {
        Some(i) => Some(le_i32(s, 560 + i * 584)),
        None => None,
    }
}

/// Start of telemetry vehicle `j` (16 bytes of header, 1888 bytes each).
pub open spec fn telem_base(j: int) -> int {
    16 + j * 1888
}

/// First telemetry vehicle from `j` on (below `n`, and before the first one
/// that does not fit) whose `mID` is `pid`; 0 when there is none.
pub open spec fn telem_match_from(t: Seq<u8>, n: int, pid: i32, j: int) -> int
    decreases n - j,
{
    if j >= n || t.len() < telem_base(j) + 1888 {
        0
    } else if le_i32_at(t, telem_base(j)) == pid {
        j
    } else {
        telem_match_from(t, n, pid, j + 1)
    }
}

/// Index of the telemetry vehicle to read: the one whose `mID` matches the
/// scoring buffer's player, falling back to vehicle 0.
pub open spec fn rf2_index(t: Seq<u8>, s: Seq<u8>) -> int {
    match rf2_player(s) {
        Some(i) => telem_match_from(t, count_at(t, 12), le_i32_at(s, vehicle_base(i)), 0),
        None => 0,
    }
}

proof fn lemma_telem_match_bounds(t: Seq<u8>, n: int, pid: i32, j: int)
    requires
        0 <= j,
    ensures
        0 <= telem_match_from(t, n, pid, j),
        telem_match_from(t, n, pid, j) == 0 || telem_base(telem_match_from(t, n, pid, j)) + 1888
            <= t.len(),
    decreases n - j,
{
    if j < n && t.len() >= telem_base(j) + 1888 && le_i32_at(t, telem_base(j)) != pid {
        lemma_telem_match_bounds(t, n, pid, j + 1);
    }
}

/// The integer channels of rF2 telemetry vehicle record at `base`: gear, laps,
/// and the headlight, speed-limiter and ignition status bytes.
pub open spec fn rf2_ints(t: Seq<u8>, base: int) -> Telemetry {
    Telemetry {
        gear: gear_glyph(le_i32_at(t, base + 352) as int),
        laps_done: le_i32_at(t, base + 20),
        headlights: if t[base + 543] != 0 {
            1
        } else {
            0
        },
        pit_limiter: if t[base + 604] != 0 {
            1
        } else {
            0
        },
        ignition: if t[base + 619] != 0 {
            1
        } else {
            0
        },
        ..Telemetry::idle_value()
    }
}

/// Picks the player's rF2 telemetry record (matched by `mID` against the
/// scoring buffer, else the first) and decodes its integer channels. Returns
/// the record's offset with them; `None` when the buffer cannot hold one record.
pub fn rf2_base(telem: &[u8], scoring: &[u8]) -> (r: Option<(usize, Telemetry)>)
    ensures
        r is None <==> telem.len() < telem_base(1),
        r matches Some((base, t)) ==> base == telem_base(rf2_index(telem@, scoring@)) && base
            + 1888 <= telem.len() && t == rf2_ints(telem@, base as int),
{
    if telem.len() < 16 + 1888 {
        return None;
    }
    let c = le_i32(telem, 12);
    let tn: usize = if c < 0 {
        0
    } else if c > 128 {
        128
    } else {
        c as usize
    };
    let mut idx: usize = 0;
    let pid = rf2_player_id(scoring);
    proof {
        if let Some(i) = rf2_player(scoring@) {
            lemma_telem_match_bounds(telem@, tn as int, le_i32_at(scoring@, vehicle_base(i)), 0);
        }
    }
    if let Some(p) = pid {
        let mut j: usize = 0;
        while j < tn
            invariant_except_break
                idx == 0,
            invariant
                telem.len() >= 16 + 1888,
                j <= tn <= 128,
                tn == count_at(telem@, 12),
                telem_match_from(telem@, tn as int, p, 0) == telem_match_from(
                    telem@,
                    tn as int,
                    p,
                    j as int,
                ),
            ensures
                idx == telem_match_from(telem@, tn as int, p, 0),
            decreases tn - j,
        {
            let base = 16 + j * 1888;
            if telem.len() < base + 1888 {
                break;
            }
            if le_i32(telem, base) == p {
                idx = j;
                break;
            }
            j += 1;
        }
    }
    let base = 16 + idx * 1888;
    let mut t = Telemetry::idle();
    t.gear = gear_byte(le_i32(telem, base + 352));
    t.laps_done = le_i32(telem, base + 20);
    t.headlights = if telem[base + 543] != 0 {
        1
    } else {
        0
    };
    t.pit_limiter = if telem[base + 604] != 0 {
        1
    } else {
        0
    };
    t.ignition = if telem[base + 619] != 0 {
        1
    } else {
        0
    };
    Some((base, t))
}

// ---------------------------------------------------------------- names

/// UTF-16 decoding in which each unpaired surrogate becomes U+FFFD.
pub open spec fn utf16_lossy(u: Seq<u16>) -> Seq<char>
    decreases u.len(),
{
    if u.len() == 0 {
        seq![]
    } else if u[0] < 0xD800 || u[0] > 0xDFFF {
        seq![u[0] as char] + utf16_lossy(u.drop_first())
    } else if u[0] <= 0xDBFF && u.len() > 1 && 0xDC00 <= u[1] && u[1] <= 0xDFFF {
        seq![(0x10000 + (u[0] - 0xD800) * 0x400 + (u[1] - 0xDC00)) as char] + utf16_lossy(
            u.skip(2),
        )
    } else {
        seq!['\u{FFFD}'] + utf16_lossy(u.drop_first())
    }
}

/// What `String::from_utf8_lossy` makes of `bytes`.
pub uninterp spec fn utf8_lossy(bytes: Seq<u8>) -> Seq<char>;

/// `String::from_utf16_lossy`: decodes UTF-16, replacing each unpaired
/// surrogate with U+FFFD (as `char::decode_utf16` reports them).
#[verifier::external_body]
fn string_from_utf16_lossy(units: &[u16]) -> (s: String)
    ensures
        s@ == utf16_lossy(units@),
{
    String::from_utf16_lossy(units)
}

/// `String::from_utf8_lossy`: decodes UTF-8, replacing invalid sequences with
/// U+FFFD; a valid UTF-8 input decodes as it is.
#[verifier::external_body]
pub(crate) fn string_from_utf8_lossy(bytes: &[u8]) -> (s: String)
    ensures
        s@ == utf8_lossy(bytes@),
        valid_utf8(bytes@) ==> s@ == decode_utf8(bytes@),
{
    String::from_utf8_lossy(bytes).into_owned()
}

/// The UTF-16LE code units stored from `o`, at most `max` of them, stopping at
/// the end of `b` or at a NUL unit.
pub open spec fn utf16_units_from(b: Seq<u8>, o: int, max: int, i: int) -> Seq<u16>
    decreases max - i,
{
    if i >= max || o + 2 * i + 1 >= b.len() {
        seq![]
    } else if le_u16_at(b, o + 2 * i) == 0 {
        seq![]
    } else {
        seq![le_u16_at(b, o + 2 * i) as u16] + utf16_units_from(b, o, max, i + 1)
    }
}

fn utf16_units(b: &[u8], o: usize, max: usize) -> (v: Vec<u16>)
    requires
        o + 2 * max + 2 <= usize::MAX,
    ensures
        v@ == utf16_units_from(b@, o as int, max as int, 0),
{
    let mut v: Vec<u16> = Vec::new();
    let mut i: usize = 0;
    while i < max
        invariant
            i <= max,
            o + 2 * max + 2 <= usize::MAX,
            v@ + utf16_units_from(b@, o as int, max as int, i as int) == utf16_units_from(
                b@,
                o as int,
                max as int,
                0,
            ),
        decreases max - i,
    {
        let p = o + 2 * i;
        if p + 1 >= b.len() {
            assert(v@ + seq![] =~= v@);
            return v;
        }
        let u = le_u16(b, p);
        if u == 0 {
            assert(v@ + seq![] =~= v@);
            return v;
        }
        let ghost before = v@;
        v.push(u);
        proof {
            let rest = utf16_units_from(b@, o as int, max as int, i + 1);
            assert(v@ + rest =~= before + (seq![u] + rest));
        }
        i += 1;
    }
    assert(v@ + seq![] =~= v@);
    v
}

/// Number of bytes of `s` before its first NUL (all of them if none).
pub open spec fn nul_len(s: Seq<u8>) -> nat
    decreases s.len(),
{
    if s.len() == 0 || s[0] == 0 {
        0
    } else {
        1 + nul_len(s.drop_first())
    }
}

/// The C string stored from `o`: at most `max` bytes, up to the first NUL.
pub open spec fn c_field(b: Seq<u8>, o: int, max: int) -> Seq<u8> {
    let s = b.subrange(
        o,
        if o + max <= b.len() {
            o + max
        } else {
            b.len() as int
        },
    );
    s.take(nul_len(s) as int)
}

proof fn lemma_nul_len(s: Seq<u8>, k: int)
    requires
        0 <= k <= s.len(),
        forall|j: int| 0 <= j < k ==> #[trigger] s[j] != 0,
        k == s.len() || s[k] == 0,
    ensures
        nul_len(s) == k,
    decreases k,
{
    if k > 0 {
        assert forall|j: int| 0 <= j < k - 1 implies #[trigger] s.drop_first()[j] != 0 by {
            assert(s.drop_first()[j] == s[j + 1]);
        }
        if k < s.len() {
            assert(s.drop_first()[k - 1] == s[k]);
        }
        lemma_nul_len(s.drop_first(), k - 1);
    }
}

fn c_bytes(b: &[u8], o: usize, max: usize) -> (v: Vec<u8>)
    requires
        o <= b.len(),
        o + max <= usize::MAX,
    ensures
        v@ == c_field(b@, o as int, max as int),
{
    let end = if o + max <= b.len() {
        o + max
    } else {
        b.len()
    };
    let mut v: Vec<u8> = Vec::new();
    let mut i = o;
    while i < end && b[i] != 0
        invariant
            o <= i <= end <= b.len(),
            end == (if o + max <= b.len() {
                o + max
            } else {
                b.len() as int
            }),
            v@ == b@.subrange(o as int, i as int),
            forall|j: int| o <= j < i ==> #[trigger] b@[j] != 0,
        decreases end - i,
    {
        v.push(b[i]);
        i += 1;
        assert(v@ =~= b@.subrange(o as int, i as int));
    }
    proof {
        let s = b@.subrange(o as int, end as int);
        assert forall|j: int| 0 <= j < i - o implies #[trigger] s[j] != 0 by {
            assert(s[j] == b@[o + j]);
        }
        if i < end {
            assert(s[i - o] == b@[i as int]);
        }
        lemma_nul_len(s, i - o);
        assert(s.take(i - o) =~= v@);
    }
    v
}

/// `Some` of a non-empty character sequence, `None` for the empty one.
pub open spec fn nonempty_chars(s: Seq<char>) -> Option<Seq<char>> {
    if s.len() == 0 {
        None
    } else {
        Some(s)
    }
}

/// The characters of an optional string.
pub open spec fn opt_chars(o: Option<String>) -> Option<Seq<char>> {
    match o {
        Some(s) => Some(s@),
        None => None,
    }
}

/// `s` trimmed of Unicode whitespace, or `None` when nothing is left.
pub fn non_empty_trimmed(s: &str) -> (r: Option<String>)
    ensures
        opt_chars(r) == nonempty_chars(trim_ws_seq(s@)),
{
    let v = chars_of(s);
    let (a, b) = ws_trim_range(&v);
    if a == b {
        None
    } else {
        Some(string_from_range(&v, a, b))
    }
}

/// A UTF-16LE `wchar[33]` name from an AC static page, trimmed, if not empty.
pub open spec fn utf16_name(s: Seq<u8>, o: int) -> Option<Seq<char>> {
    nonempty_chars(trim_ws_seq(utf16_lossy(utf16_units_from(s, o, 33, 0))))
}

/// A `char[64]` name from an rF2 buffer, trimmed, if not empty.
pub open spec fn c_name(s: Seq<u8>, o: int) -> Option<Seq<char>> {
    nonempty_chars(trim_ws_seq(utf8_lossy(c_field(s, o, 64))))
}

/// Car model (`carModel` at 68) and track (`track` at 134) from an AC / ACC
/// static page; both `None` when the page is shorter than 200 bytes.
pub fn ac_static_identity(s: &[u8]) -> (r: (Option<String>, Option<String>))
    ensures
        s.len() < 200 ==> r.0 is None && r.1 is None,
        s.len() >= 200 ==> opt_chars(r.0) == utf16_name(s@, 68) && opt_chars(r.1) == utf16_name(
            s@,
            134,
        ),
{
    if s.len() < 200 {
        return (None, None);
    }
    let car_units = utf16_units(s, 68, 33);
    let car = string_from_utf16_lossy(car_units.as_slice());
    let track_units = utf16_units(s, 134, 33);
    let track = string_from_utf16_lossy(track_units.as_slice());
    (non_empty_trimmed(car.as_str()), non_empty_trimmed(track.as_str()))
}

/// Car (the player's `mVehicleName`, 36 bytes into its vehicle record) and
/// track (`mTrackName` at 16, when the buffer holds 80 bytes) from an rF2 /
/// LMU scoring buffer.
pub fn rf2_identity(telem: &[u8], scoring: &[u8]) -> (r: (Option<String>, Option<String>))
    ensures
        opt_chars(r.0) == (match rf2_player(scoring@) {
            Some(i) => c_name(scoring@, vehicle_base(i) + 36),
            None => None,
        }),
        opt_chars(r.1) == (if scoring.len() >= 80 {
            c_name(scoring@, 16)
        } else {
            None
        }),
{
    let track = if scoring.len() >= 80 {
        let bytes = c_bytes(scoring, 16, 64);
        let text = string_from_utf8_lossy(bytes.as_slice());
        non_empty_trimmed(text.as_str())
    } else {
        None
    };
    let car = match rf2_player_index(scoring) {
        Some(i) => {
            let bytes = c_bytes(scoring, 560 + i * 584 + 36, 64);
            let text = string_from_utf8_lossy(bytes.as_slice());
            non_empty_trimmed(text.as_str())
        },
        None => None,
    };
    (car, track)
}


// ---------------------------------------------------------------- decoder laws

/// The gear glyph a raw gear number shows: `R` below 0, `N` at 0, its digit
/// from 1 to 9, `9` above.
pub open spec fn shows_gear(g: u8, n: int) -> bool {
    &&& n < 0 ==> g == 82u8
    &&& n == 0 ==> g == 78u8
    &&& 1 <= n <= 9 ==> g as int == 48 + n
    &&& n > 9 ==> g == 57u8
}

proof fn lemma_gear_glyph(n: int)
    ensures
        shows_gear(gear_glyph(n), n),
{
}

/// Law (rF2 record): the status channels are on (1) exactly when the record's
/// byte is non-zero and off (0) otherwise: headlights at offset 543, speed
/// limiter at 604, ignition at 619; the laps are the `i32` at 20, and the gear
/// shows the `i32` at 352.
pub proof fn lemma_rf2_channels(t: Seq<u8>, base: int)
    ensures
        ({
            let r = rf2_ints(t, base);
            &&& (r.pit_limiter == 1 <==> t[base + 604] != 0) && (r.pit_limiter == 0 <==> t[base + 604] == 0)
            &&& (r.headlights == 1 <==> t[base + 543] != 0) && (r.headlights == 0 <==> t[base + 543] == 0)
            &&& (r.ignition == 1 <==> t[base + 619] != 0) && (r.ignition == 0 <==> t[base + 619] == 0)
            &&& r.laps_done == le_i32_at(t, base + 20)
            &&& shows_gear(r.gear, le_i32_at(t, base + 352) as int)
            &&& r.rpm == 0 && r.speed_kmh == 0 && r.position == 0
        }),
{
    lemma_gear_glyph(le_i32_at(t, base + 352) as int);
}

/// Law (RaceRoom page): the pit limiter is on exactly when the page has its
/// full 1624 bytes and the limiter state at 1572 is 1; the headlights exactly
/// when the page is full and the `i32` at 1620 is positive; position and laps
/// are the `i32`s at 988 and 1028 (negatives as 0); the gear shows the `i32`
/// at 1408, with -2 ("n/a") and below as neutral.
pub proof fn lemma_r3e_channels(b: Seq<u8>)
    ensures
        ({
            let r = r3e_ints(b);
            let g = le_i32_at(b, 1408);
            &&& (r.pit_limiter == 1 <==> b.len() >= 1624 && le_i32_at(b, 1572) == 1)
            &&& (r.pit_limiter == 0 <==> !(b.len() >= 1624 && le_i32_at(b, 1572) == 1))
            &&& (r.headlights == 1 <==> b.len() >= 1624 && le_i32_at(b, 1620) > 0)
            &&& (r.headlights == 0 <==> !(b.len() >= 1624 && le_i32_at(b, 1620) > 0))
            &&& r.position == (if le_i32_at(b, 988) < 0 { 0 } else { le_i32_at(b, 988) })
            &&& r.laps_done == (if le_i32_at(b, 1028) < 0 { 0 } else { le_i32_at(b, 1028) })
            &&& shows_gear(r.gear, if g < -1 { 0 } else { g as int })
        }),
{
    let g = le_i32_at(b, 1408);
    lemma_gear_glyph(if g < -1 { 0 } else { g as int });
}

/// Law (AC / ACC physics page): the gear shows the `i32` at 16 minus one (raw
/// 0 is reverse), the rpm is the `i32` at 20 (negatives as 0), the pit limiter
/// is the `i32` at 248 on pages of at least 256 bytes (else 0), and ignition
/// the `i32` at 772 on pages of at least 800 bytes (else 0).
pub proof fn lemma_ac_physics_channels(b: Seq<u8>)
    ensures
        ({
            let r = ac_physics_ints(b);
            &&& shows_gear(r.gear, le_i32_at(b, 16) - 1)
            &&& r.rpm == (if le_i32_at(b, 20) < 0 { 0 } else { le_i32_at(b, 20) })
            &&& r.pit_limiter == (if b.len() >= 256 { le_i32_at(b, 248) } else { 0 })
            &&& r.ignition == (if b.len() >= 800 { le_i32_at(b, 772) } else { 0 })
            &&& r.speed_kmh == 0 && r.laps_done == 0
        }),
{
    lemma_gear_glyph(le_i32_at(b, 16) - 1);
}

/// Law (ACC graphics page): laps and position are the `i32`s at 132 and 136
/// (negatives as 0), TC and ABS the `i32`s at 1268 and 1280, headlights on
/// exactly when the `i32` at 1296 is positive, wipers the `i32` at 1304
/// (negatives as 0), the flag the code of the `i32` at 1224 (yellow 1 -> 3,
/// 2 -> 2, 3 -> 6, 4 -> 4, 5 -> 5, 7 -> 1, else 0); every other channel of
/// `t` is kept.
pub proof fn lemma_acc_graphics_channels(t: Telemetry, g: Seq<u8>)
    ensures
        ({
            let r = acc_graphics_merge(t, g);
            let f = le_i32_at(g, 1224);
            &&& r.laps_done == (if le_i32_at(g, 132) < 0 { 0 } else { le_i32_at(g, 132) })
            &&& r.position == (if le_i32_at(g, 136) < 0 { 0 } else { le_i32_at(g, 136) })
            &&& r.tc == le_i32_at(g, 1268) && r.abs == le_i32_at(g, 1280)
            &&& (r.headlights == 1 <==> le_i32_at(g, 1296) > 0) && (r.headlights == 0 <==> le_i32_at(g, 1296) <= 0)
            &&& r.wipers == (if le_i32_at(g, 1304) < 0 { 0 } else { le_i32_at(g, 1304) })
            &&& r.flag == (if f == 1 { 3i32 } else if f == 2 { 2i32 } else if f == 3 { 6i32 } else if f == 4 { 4i32 } else if f == 5 { 5i32 } else if f == 7 { 1i32 } else { 0i32 })
            &&& r.rpm == t.rpm && r.gear == t.gear && r.speed_kmh == t.speed_kmh && r.fuel_dl == t.fuel_dl
        }),
{
}
} // verus!
