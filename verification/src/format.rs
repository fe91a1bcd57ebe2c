//! Value formats, colour-rule operators and the palette used by the race
//! screen widgets.

use vstd::prelude::*;
use crate::frame::{nat_text, int_text, push_int_text, push_nat_text, digit, all_digits, digits_value, is_digit, lemma_nat_text, lemma_digit};
use crate::text::{chars_of, str_eq, string_from_chars};

verus! {

/// How a channel's raw integer is shown.
#[derive(Clone, Copy, PartialEq, Eq, Debug, Structural)]
pub enum Fmt {
    Int,
    Fixed1,
    Fixed2,
    Time,
    Sector,
    Delta,
    Str,
}

/// Comparison of a colour rule.
#[derive(Clone, Copy, PartialEq, Eq, Debug, Structural)]
pub enum Op {
    Lt,
    Le,
    Eq,
    Ge,
    Gt,
}

pub const FMT_NAMES: [&'static str; 7] = ["int", "fixed1", "fixed2", "time", "sector", "delta", "string"];

pub const OP_NAMES: [&'static str; 5] = ["<", "<=", "==", ">=", ">"];

pub const PALETTE_TOKENS: [&'static str; 8] = [
    "white",
    "dim",
    "green",
    "amber",
    "red",
    "cyan",
    "blue",
    "purple",
];

pub const KIND_OPTIONS: [&'static str; 12] = [
    "stat",
    "bar",
    "gear",
    "gearSpeed",
    "rpmStrip",
    "tyreGrid",
    "tcDual",
    "sectors",
    "lapPair",
    "map",
    "flag",
    "position",
];

/// The format named by a token (`Int` for an unknown token).
pub open spec fn fmt_of(s: Seq<char>) -> Fmt {
    if s == "int"@ {
        Fmt::Int
    } else if s == "fixed1"@ {
        Fmt::Fixed1
    } else if s == "fixed2"@ {
        Fmt::Fixed2
    } else if s == "time"@ {
        Fmt::Time
    } else if s == "sector"@ {
        Fmt::Sector
    } else if s == "delta"@ {
        Fmt::Delta
    } else if s == "string"@ {
        Fmt::Str
    } else {
        Fmt::Int
    }
}

pub fn fmt_from_str(s: &str) -> (f: Fmt)
    ensures
        f == fmt_of(s@),
{
    if str_eq(s, "int") {
        Fmt::Int
    } else if str_eq(s, "fixed1") {
        Fmt::Fixed1
    } else if str_eq(s, "fixed2") {
        Fmt::Fixed2
    } else if str_eq(s, "time") {
        Fmt::Time
    } else if str_eq(s, "sector") {
        Fmt::Sector
    } else if str_eq(s, "delta") {
        Fmt::Delta
    } else if str_eq(s, "string") {
        Fmt::Str
    } else {
        Fmt::Int
    }
}

/// The operator named by a token (`Gt` for an unknown token).
pub open spec fn op_of(s: Seq<char>) -> Op {
    if s == "<"@ {
        Op::Lt
    } else if s == "<="@ {
        Op::Le
    } else if s == "=="@ {
        Op::Eq
    } else if s == ">="@ {
        Op::Ge
    } else {
        Op::Gt
    }
}

pub fn op_from_str(s: &str) -> (o: Op)
    ensures
        o == op_of(s@),
{
    if str_eq(s, "<") {
        Op::Lt
    } else if str_eq(s, "<=") {
        Op::Le
    } else if str_eq(s, "==") {
        Op::Eq
    } else if str_eq(s, ">=") {
        Op::Ge
    } else {
        Op::Gt
    }
}

/// Position of the first entry of `list` equal to `v`, or -1.
pub fn idx_of(list: &[&str], v: &str) -> (r: i32)
    requires
        list@.len() <= i32::MAX,
    ensures
        -1 <= r < list@.len(),
        r == -1 <==> forall|i: int| 0 <= i < list@.len() ==> list@[i]@ != v@,
        r >= 0 ==> list@[r as int]@ == v@ && forall|j: int| 0 <= j < r ==> list@[j]@ != v@,
{
    let mut i: usize = 0;
    while i < list.len()
        invariant
            i <= list@.len() <= i32::MAX,
            forall|j: int| 0 <= j < i ==> list@[j]@ != v@,
        decreases list.len() - i,
    {
        if str_eq(list[i], v) {
            return i as i32;
        }
        i += 1;
    }
    -1
}

/// Does `v` satisfy the rule `v op rule_v`?
pub fn rule_match(v: i32, op: Op, rule_v: i32) -> (r: bool)
    ensures
        r == match op {
            Op::Lt => v < rule_v,
            Op::Le => v <= rule_v,
            Op::Eq => v == rule_v,
            Op::Ge => v >= rule_v,
            Op::Gt => v > rule_v,
        },
{
    match op {
        Op::Lt => v < rule_v,
        Op::Le => v <= rule_v,
        Op::Eq => v == rule_v,
        Op::Ge => v >= rule_v,
        Op::Gt => v > rule_v,
    }
}

/// The RGB colour of a palette token (white for an unknown token).
pub open spec fn palette_of(s: Seq<char>) -> u32 {
    if s == "bg"@ {
        0x060708
    } else if s == "panel"@ {
        0x131519
    } else if s == "dim"@ {
        0x636A74
    } else if s == "green"@ {
        0x00E676
    } else if s == "amber"@ {
        0xFFB300
    } else if s == "red"@ {
        0xFF3B30
    } else if s == "cyan"@ {
        0x7FC9B1
    } else if s == "blue"@ {
        0x2E9DFF
    } else if s == "purple"@ {
        0xD500F9
    } else {
        0xE8EAED
    }
}

pub fn palette_color(tok: &str) -> (c: u32)
    ensures
        c == palette_of(tok@),
{
    if str_eq(tok, "bg") {
        0x060708
    } else if str_eq(tok, "panel") {
        0x131519
    } else if str_eq(tok, "dim") {
        0x636A74
    } else if str_eq(tok, "green") {
        0x00E676
    } else if str_eq(tok, "amber") {
        0xFFB300
    } else if str_eq(tok, "red") {
        0xFF3B30
    } else if str_eq(tok, "cyan") {
        0x7FC9B1
    } else if str_eq(tok, "blue") {
        0x2E9DFF
    } else if str_eq(tok, "purple") {
        0xD500F9
    } else {
        0xE8EAED
    }
}

// ---------------------------------------------------------------- numbers

/// Division truncating toward zero, as Rust's `/` on integers (for `b > 0`).
pub open spec fn tdiv(a: int, b: int) -> int {
    if a >= 0 {
        a / b
    } else {
        -((-a) / b)
    }
}

/// Remainder matching `tdiv`, as Rust's `%` (for `b > 0`).
pub open spec fn trem(a: int, b: int) -> int {
    a - tdiv(a, b) * b
}

/// `n` in decimal, left-padded with zeros to at least `w` characters
/// (`{:0w}` for a non-negative value).
pub open spec fn pad_text(n: nat, w: nat) -> Seq<char> {
    let t = nat_text(n);
    if t.len() < w {
        Seq::new((w - t.len()) as nat, |i: int| '0') + t
    } else {
        t
    }
}

/// The text `fmtc_format` produces.
pub open spec fn formatted(v: i32, fmt: Fmt, scale: i32, unit: Seq<char>) -> Seq<char> {
    let sc: int = if scale <= 0 { 1 } else { scale as int };
    match fmt {
        Fmt::Time => if v <= 0 {
            "--:--.---"@
        } else {
            nat_text((v / 60000) as nat) + seq![':'] + pad_text(((v / 1000) % 60) as nat, 2)
                + seq!['.'] + pad_text((v % 1000) as nat, 3) + unit
        },
        Fmt::Sector => if v <= 0 {
            "--.---"@
        } else {
            nat_text((v / 1000) as nat) + seq!['.'] + pad_text((v % 1000) as nat, 3) + unit
        },
        Fmt::Delta => {
            let c: int = if v < -99999 { -99999 } else if v > 99999 { 99999 } else { v as int };
            let a: int = if c < 0 { -c } else { c };
            seq![if c >= 0 { '+' } else { '-' }] + nat_text((a / 10000) as nat) + seq!['.']
                + pad_text((a % 10000) as nat, 4)
        },
        Fmt::Fixed1 => {
            let a: int = if v < 0 { -(v as int) } else { v as int };
            int_text(tdiv(v as int, sc)) + seq!['.'] + nat_text(((a * 10 / sc) % 10) as nat) + unit
        },
        Fmt::Fixed2 => {
            let a: int = if v < 0 { -(v as int) } else { v as int };
            int_text(tdiv(v as int, sc)) + seq!['.'] + pad_text(((a * 100 / sc) % 100) as nat, 2)
                + unit
        },
        Fmt::Int | Fmt::Str => int_text(tdiv(v as int, sc)) + unit,
    }
}

/// Appends `n` left-padded with zeros to at least `w` characters.
fn push_padded(out: &mut Vec<char>, n: u32, w: usize)
    ensures
        final(out)@ == old(out)@ + pad_text(n as nat, w as nat),
{
    let mut digits: Vec<char> = Vec::new();
    push_nat_text(&mut digits, n as u64);
    let mut k: usize = digits.len();
    let ghost start = out@;
    let ghost zeros_needed: int = if digits.len() < w { w - digits.len() } else { 0 };
    while k < w
        invariant
            digits.len() <= k <= w || (k == digits.len() && k >= w),
            out@ == start + Seq::new((k - digits.len()) as nat, |i: int| '0'),
        decreases w - k,
    {
        out.push('0');
        assert(Seq::new((k + 1 - digits.len()) as nat, |i: int| '0') =~= Seq::new((k - digits.len()) as nat, |i: int| '0').push('0'));
        k += 1;
    }
    let mut i: usize = 0;
    let ghost mid = out@;
    while i < digits.len()
        invariant
            i <= digits.len(),
            out@ == mid + digits@.take(i as int),
        decreases digits.len() - i,
    {
        out.push(digits[i]);
        assert(digits@.take(i + 1) =~= digits@.take(i as int).push(digits@[i as int]));
        i += 1;
    }
    assert(digits@.take(digits.len() as int) =~= digits@);
    assert(digits@ == nat_text(n as nat));
    assert(out@ =~= start + pad_text(n as nat, w as nat));
}

/// Appends all of `src` to `out`.
pub fn push_all(out: &mut Vec<char>, src: &Vec<char>)
    ensures
        final(out)@ == old(out)@ + src@,
{
    let ghost start = out@;
    let mut i: usize = 0;
    while i < src.len()
        invariant
            i <= src.len(),
            out@ == start + src@.take(i as int),
        decreases src.len() - i,
    {
        out.push(src[i]);
        assert(src@.take(i + 1) =~= src@.take(i as int).push(src@[i as int]));
        i += 1;
    }
    assert(src@.take(src.len() as int) =~= src@);
}

/// The inputs on which `fmtc_format` stays clear of integer overflow.
pub open spec fn fmtc_in_range(v: i32, fmt: Fmt) -> bool {
    match fmt {
        Fmt::Fixed1 => -214748364 <= v <= 214748364,
        Fmt::Fixed2 => -21474836 <= v <= 21474836,
        _ => true,
    }
}

/// Formats a raw channel value for display.
pub fn fmtc_format(v: i32, fmt: Fmt, scale: i32, unit: &str) -> (s: String)
    requires
        fmtc_in_range(v, fmt),
    ensures
        s@ == formatted(v, fmt, scale, unit@),
{
    let scale = if scale <= 0 { 1 } else { scale };
    let u = chars_of(unit);
    let mut out: Vec<char> = Vec::new();
    match fmt {
        Fmt::Time => {
            if v <= 0 {
                let dash = chars_of("--:--.---");
                return string_from_chars(&dash);
            }
            push_nat_text(&mut out, (v / 60000) as u64);
            out.push(':');
            push_padded(&mut out, ((v / 1000) % 60) as u32, 2);
            out.push('.');
            push_padded(&mut out, (v % 1000) as u32, 3);
            push_all(&mut out, &u);
        },
        Fmt::Sector => {
            if v <= 0 {
                let dash = chars_of("--.---");
                return string_from_chars(&dash);
            }
            push_nat_text(&mut out, (v / 1000) as u64);
            out.push('.');
            push_padded(&mut out, (v % 1000) as u32, 3);
            push_all(&mut out, &u);
        },
        Fmt::Delta => {
            let c: i32 = if v < -99999 {
                -99999
            } else if v > 99999 {
                99999
            } else {
                v
            };
            out.push(if c >= 0 { '+' } else { '-' });
            let a: i32 = if c < 0 { -c } else { c };
            push_nat_text(&mut out, (a / 10000) as u64);
            out.push('.');
            push_padded(&mut out, (a % 10000) as u32, 4);
        },
        Fmt::Fixed1 => {
            let whole = v / scale;
            let a: i32 = if v < 0 { -v } else { v };
            let frac = (a * 10 / scale) % 10;
            push_int_text(&mut out, whole);
            out.push('.');
            push_nat_text(&mut out, frac as u64);
            push_all(&mut out, &u);
        },
        Fmt::Fixed2 => {
            let whole = v / scale;
            let a: i32 = if v < 0 { -v } else { v };
            let frac = (a * 100 / scale) % 100;
            push_int_text(&mut out, whole);
            out.push('.');
            push_padded(&mut out, frac as u32, 2);
            push_all(&mut out, &u);
        },
        Fmt::Int | Fmt::Str => {
            push_int_text(&mut out, v / scale);
            push_all(&mut out, &u);
        },
    }
    let r = string_from_chars(&out);
    assert(out@ =~= formatted(v, fmt, scale, unit@));
    r
}

/// Position of a format in `FMT_NAMES`.
pub open spec fn fmt_index(f: Fmt) -> int {
    match f {
        Fmt::Int => 0,
        Fmt::Fixed1 => 1,
        Fmt::Fixed2 => 2,
        Fmt::Time => 3,
        Fmt::Sector => 4,
        Fmt::Delta => 5,
        Fmt::Str => 6,
    }
}

/// Position of a comparison in `OP_NAMES`.
pub open spec fn op_index(o: Op) -> int {
    match o {
        Op::Lt => 0,
        Op::Le => 1,
        Op::Eq => 2,
        Op::Ge => 3,
        Op::Gt => 4,
    }
}

/// Every format's name reads back as that format, and every comparison's
/// symbol as that comparison.
pub proof fn lemma_names_read_back(f: Fmt, o: Op)
    ensures
        fmt_of(FMT_NAMES@[fmt_index(f)]@) == f,
        op_of(OP_NAMES@[op_index(o)]@) == o,
{
    reveal_strlit("int");
    reveal_strlit("fixed1");
    reveal_strlit("fixed2");
    reveal_strlit("time");
    reveal_strlit("sector");
    reveal_strlit("delta");
    reveal_strlit("string");
    reveal_strlit("<");
    reveal_strlit("<=");
    reveal_strlit("==");
    reveal_strlit(">=");
    reveal_strlit(">");
    assert("int"@.len() == 3);
    assert("int"@[0] == 'i');
    assert("int"@[1] == 'n');
    assert("int"@[2] == 't');
    assert("fixed1"@.len() == 6);
    assert("fixed1"@[0] == 'f');
    assert("fixed1"@[1] == 'i');
    assert("fixed1"@[2] == 'x');
    assert("fixed1"@[3] == 'e');
    assert("fixed1"@[4] == 'd');
    assert("fixed1"@[5] == '1');
    assert("fixed2"@.len() == 6);
    assert("fixed2"@[0] == 'f');
    assert("fixed2"@[1] == 'i');
    assert("fixed2"@[2] == 'x');
    assert("fixed2"@[3] == 'e');
    assert("fixed2"@[4] == 'd');
    assert("fixed2"@[5] == '2');
    assert("time"@.len() == 4);
    assert("time"@[0] == 't');
    assert("time"@[1] == 'i');
    assert("time"@[2] == 'm');
    assert("time"@[3] == 'e');
    assert("sector"@.len() == 6);
    assert("sector"@[0] == 's');
    assert("sector"@[1] == 'e');
    assert("sector"@[2] == 'c');
    assert("sector"@[3] == 't');
    assert("sector"@[4] == 'o');
    assert("sector"@[5] == 'r');
    assert("delta"@.len() == 5);
    assert("delta"@[0] == 'd');
    assert("delta"@[1] == 'e');
    assert("delta"@[2] == 'l');
    assert("delta"@[3] == 't');
    assert("delta"@[4] == 'a');
    assert("string"@.len() == 6);
    assert("string"@[0] == 's');
    assert("string"@[1] == 't');
    assert("string"@[2] == 'r');
    assert("string"@[3] == 'i');
    assert("string"@[4] == 'n');
    assert("string"@[5] == 'g');
    assert("<"@.len() == 1);
    assert("<"@[0] == '<');
    assert("<="@.len() == 2);
    assert("<="@[0] == '<');
    assert("<="@[1] == '=');
    assert("=="@.len() == 2);
    assert("=="@[0] == '=');
    assert("=="@[1] == '=');
    assert(">="@.len() == 2);
    assert(">="@[0] == '>');
    assert(">="@[1] == '=');
    assert(">"@.len() == 1);
    assert(">"@[0] == '>');
}


// ---------------------------------------------------------------- digit laws

/// Ten to the power `w`.
pub open spec fn pow10(w: nat) -> nat
    decreases w,
{
    if w == 0 {
        1
    } else {
        10 * pow10((w - 1) as nat)
    }
}

proof fn lemma_pow10_pos(w: nat)
    ensures
        pow10(w) >= 1,
    decreases w,
{
    if w > 0 {
        lemma_pow10_pos((w - 1) as nat);
    }
}

proof fn lemma_nat_text_len(n: nat, w: nat)
    requires
        w >= 1,
        n < pow10(w),
    ensures
        nat_text(n).len() <= w,
    decreases n,
{
    if n >= 10 {
        if w == 1 {
            assert(pow10(1) == 10 * pow10(0));
        }
        assert(w >= 2);
        let w1 = (w - 1) as nat;
        assert(pow10(w) == 10 * pow10(w1));
        assert(n / 10 < pow10(w1));
        lemma_nat_text_len(n / 10, w1);
        assert(nat_text(n).len() == nat_text(n / 10).len() + 1);
    }
}

/// The decimal text of a positive number does not start with `0`.
pub proof fn lemma_nat_text_lead(n: nat)
    requires
        n > 0,
    ensures
        nat_text(n).len() > 0,
        nat_text(n)[0] != '0',
    decreases n,
{
    if n < 10 {
        lemma_digit(n as int);
    } else {
        lemma_nat_text_lead(n / 10);
        assert(nat_text(n)[0] == nat_text(n / 10)[0]);
    }
}

proof fn lemma_digits_concat(a: Seq<char>, b: Seq<char>)
    ensures
        digits_value(a + b) == digits_value(a) * pow10(b.len()) + digits_value(b),
    decreases b.len(),
{
    if b.len() == 0 {
        assert(a + b =~= a);
        assert(digits_value(b) == 0);
        assert(pow10(0) == 1);
        assert(digits_value(a) * 1 == digits_value(a));
    } else {
        let bd = b.drop_last();
        assert((a + b).drop_last() =~= a + bd);
        assert((a + b).last() == b.last());
        lemma_digits_concat(a, bd);
        let p = pow10(bd.len());
        assert(pow10(b.len()) == 10 * p);
        let va = digits_value(a);
        let vb = digits_value(bd);
        let l = b.last() as int - 48;
        assert((va * p + vb) * 10 + l == va * (10 * p) + (vb * 10 + l)) by (nonlinear_arith);
        assert(digits_value(a + b) == digits_value(a + bd) * 10 + l);
        assert(digits_value(b) == vb * 10 + l);
    }
}

proof fn lemma_zeros(k: nat)
    ensures
        all_digits(Seq::new(k, |i: int| '0')),
        digits_value(Seq::new(k, |i: int| '0')) == 0,
    decreases k,
{
    let z = Seq::new(k, |i: int| '0');
    if k > 0 {
        lemma_zeros((k - 1) as nat);
        assert(z.drop_last() =~= Seq::new((k - 1) as nat, |i: int| '0'));
    }
}

/// A zero-padded number below `10^w` is exactly `w` decimal digits whose value
/// is the number.
pub proof fn lemma_pad_text(n: nat, w: nat)
    requires
        w >= 1,
        n < pow10(w),
    ensures
        pad_text(n, w).len() == w,
        all_digits(pad_text(n, w)),
        digits_value(pad_text(n, w)) == n,
{
    let t = nat_text(n);
    lemma_nat_text(n);
    lemma_nat_text_len(n, w);
    if t.len() < w {
        let z = Seq::new((w - t.len()) as nat, |i: int| '0');
        lemma_zeros((w - t.len()) as nat);
        lemma_digits_concat(z, t);
        assert forall|i: int| 0 <= i < (z + t).len() implies is_digit(#[trigger] (z + t)[i]) by {
            if i < z.len() {
                assert((z + t)[i] == z[i]);
            } else {
                assert((z + t)[i] == t[i - z.len()]);
            }
        }
    }
}

proof fn lemma_all_digits_parts(s: Seq<char>, a: int, b: int)
    requires
        all_digits(s),
        0 <= a <= b <= s.len(),
    ensures
        all_digits(s.subrange(a, b)),
{
    assert forall|i: int| 0 <= i < b - a implies is_digit(#[trigger] s.subrange(a, b)[i]) by {
        assert(s.subrange(a, b)[i] == s[a + i]);
    }
}

/// Law (sector times): a positive sector time reads as its whole seconds
/// (decimal, no leading zero), a `.`, exactly three digits of its
/// milliseconds, and the unit.
pub proof fn lemma_sector_text(v: i32, scale: i32, unit: Seq<char>)
    requires
        v > 0,
    ensures
        ({
            let r = formatted(v, Fmt::Sector, scale, unit);
            let k = r.len() - unit.len() - 4;
            &&& k >= 1
            &&& all_digits(r.take(k)) && digits_value(r.take(k)) == v / 1000
            &&& (r[0] == '0' ==> k == 1)
            &&& r[k] == '.'
            &&& all_digits(r.subrange(k + 1, k + 4)) && digits_value(r.subrange(k + 1, k + 4)) == v % 1000
            &&& r.skip(k + 4) == unit
        }),
{
    let a = nat_text((v / 1000) as nat);
    let f = pad_text((v % 1000) as nat, 3);
    lemma_nat_text((v / 1000) as nat);
    assert(pow10(3) == 1000) by {
        assert(pow10(0) == 1);
        assert(pow10(1) == 10);
        assert(pow10(2) == 100);
    }
    lemma_pad_text((v % 1000) as nat, 3);
    let r = formatted(v, Fmt::Sector, scale, unit);
    assert(r == a + seq!['.'] + f + unit);
    let k = a.len() as int;
    assert(r.take(k) =~= a);
    assert(r.subrange(k + 1, k + 4) =~= f);
    assert(r.skip(k + 4) =~= unit);
    if v / 1000 > 0 {
        lemma_nat_text_lead((v / 1000) as nat);
    }
}

/// Law (lap times): a positive lap time reads as its whole minutes, a `:`,
/// exactly two digits of its seconds within the minute, a `.`, exactly three
/// digits of its milliseconds, and the unit.
pub proof fn lemma_time_text(v: i32, scale: i32, unit: Seq<char>)
    requires
        v > 0,
    ensures
        ({
            let r = formatted(v, Fmt::Time, scale, unit);
            let k = r.len() - unit.len() - 7;
            &&& k >= 1
            &&& all_digits(r.take(k)) && digits_value(r.take(k)) == v / 60000
            &&& (r[0] == '0' ==> k == 1)
            &&& r[k] == ':'
            &&& all_digits(r.subrange(k + 1, k + 3)) && digits_value(r.subrange(k + 1, k + 3)) == (v / 1000) % 60
            &&& r[k + 3] == '.'
            &&& all_digits(r.subrange(k + 4, k + 7)) && digits_value(r.subrange(k + 4, k + 7)) == v % 1000
            &&& r.skip(k + 7) == unit
        }),
{
    let a = nat_text((v / 60000) as nat);
    let f2 = pad_text(((v / 1000) % 60) as nat, 2);
    let f3 = pad_text((v % 1000) as nat, 3);
    lemma_nat_text((v / 60000) as nat);
    assert(pow10(3) == 1000) by {
        assert(pow10(0) == 1);
        assert(pow10(1) == 10);
        assert(pow10(2) == 100);
    }
    lemma_pad_text(((v / 1000) % 60) as nat, 2);
    lemma_pad_text((v % 1000) as nat, 3);
    let r = formatted(v, Fmt::Time, scale, unit);
    assert(r == a + seq![':'] + f2 + seq!['.'] + f3 + unit);
    let k = a.len() as int;
    assert(r.take(k) =~= a);
    assert(r.subrange(k + 1, k + 3) =~= f2);
    assert(r.subrange(k + 4, k + 7) =~= f3);
    assert(r.skip(k + 7) =~= unit);
    if v / 60000 > 0 {
        lemma_nat_text_lead((v / 60000) as nat);
    }
}

/// Law (deltas): a delta, clamped to +-9.9999 s, reads as its sign (`+` for
/// zero and up), its whole seconds, a `.`, and exactly four digits of its
/// tenths of milliseconds.
pub proof fn lemma_delta_text(v: i32, scale: i32, unit: Seq<char>)
    ensures
        ({
            let r = formatted(v, Fmt::Delta, scale, unit);
            let c: int = if v < -99999 { -99999 } else if v > 99999 { 99999 } else { v as int };
            let a: int = if c < 0 { -c } else { c };
            let k = r.len() - 5;
            &&& k >= 2
            &&& r[0] == (if c >= 0 { '+' } else { '-' })
            &&& all_digits(r.subrange(1, k)) && digits_value(r.subrange(1, k)) == a / 10000
            &&& (r[1] == '0' ==> k == 2)
            &&& r[k] == '.'
            &&& all_digits(r.subrange(k + 1, k + 5)) && digits_value(r.subrange(k + 1, k + 5)) == a % 10000
        }),
{
    let c: int = if v < -99999 { -99999 } else if v > 99999 { 99999 } else { v as int };
    let a: int = if c < 0 { -c } else { c };
    let s = seq![if c >= 0 { '+' } else { '-' }];
    let w = nat_text((a / 10000) as nat);
    let f = pad_text((a % 10000) as nat, 4);
    lemma_nat_text((a / 10000) as nat);
    assert(pow10(4) == 10000) by {
        assert(pow10(0) == 1);
        assert(pow10(1) == 10);
        assert(pow10(2) == 100);
        assert(pow10(3) == 1000);
    }
    lemma_pad_text((a % 10000) as nat, 4);
    let r = formatted(v, Fmt::Delta, scale, unit);
    assert(r == s + w + seq!['.'] + f);
    let k = 1 + w.len() as int;
    assert(r.subrange(1, k) =~= w);
    assert(r.subrange(k + 1, k + 5) =~= f);
    if a / 10000 > 0 {
        lemma_nat_text_lead((a / 10000) as nat);
    }
}

/// Law (two decimals): a two-decimal value reads as its whole part (scaled,
/// truncated toward zero, with its sign), a `.`, exactly two digits of the
/// hundredths of its magnitude, and the unit.
pub proof fn lemma_fixed2_text(v: i32, scale: i32, unit: Seq<char>)
    ensures
        ({
            let r = formatted(v, Fmt::Fixed2, scale, unit);
            let sc: int = if scale <= 0 { 1 } else { scale as int };
            let a: int = if v < 0 { -(v as int) } else { v as int };
            let k = r.len() - unit.len() - 3;
            &&& k >= 1
            &&& r.take(k) == int_text(tdiv(v as int, sc))
            &&& r[k] == '.'
            &&& all_digits(r.subrange(k + 1, k + 3)) && digits_value(r.subrange(k + 1, k + 3)) == (a * 100
                / sc) % 100
            &&& r.skip(k + 3) == unit
        }),
{
    let sc: int = if scale <= 0 { 1 } else { scale as int };
    let a: int = if v < 0 { -(v as int) } else { v as int };
    let i = int_text(tdiv(v as int, sc));
    let f = pad_text(((a * 100 / sc) % 100) as nat, 2);
    assert(pow10(2) == 100) by {
        assert(pow10(0) == 1);
        assert(pow10(1) == 10);
    }
    lemma_pad_text(((a * 100 / sc) % 100) as nat, 2);
    let q = tdiv(v as int, sc);
    if q < 0 {
        lemma_nat_text((-q) as nat);
    } else {
        lemma_nat_text(q as nat);
    }
    let r = formatted(v, Fmt::Fixed2, scale, unit);
    assert(r == i + seq!['.'] + f + unit);
    let k = i.len() as int;
    assert(r.take(k) =~= i);
    assert(r.subrange(k + 1, k + 3) =~= f);
    assert(r.skip(k + 3) =~= unit);
}

/// Law (decimal text): an integer reads as `-` before its magnitude's digits
/// when negative, else just the digits; the digits have no leading zero and
/// their value is the magnitude.
pub proof fn lemma_int_text(x: int)
    ensures
        ({
            let r = int_text(x);
            let m: int = if x < 0 { -x } else { x };
            let d = if x < 0 { r.skip(1) } else { r };
            &&& (x < 0 <==> r.len() > 0 && r[0] == '-')
            &&& d.len() >= 1 && all_digits(d) && digits_value(d) == m
            &&& (d[0] == '0' ==> d.len() == 1)
        }),
{
    let m: int = if x < 0 { -x } else { x };
    lemma_nat_text(m as nat);
    if m > 0 {
        lemma_nat_text_lead(m as nat);
    }
    if x < 0 {
        assert(int_text(x).skip(1) =~= nat_text(m as nat));
    } else {
        lemma_digit(nat_text(m as nat)[0] as int - 48);
        assert(is_digit(nat_text(m as nat)[0]));
    }
}

/// Law (integers): an integer channel reads as its value over the scale
/// (truncated toward zero; a scale of 0 or less counts as 1) in decimal, then
/// the unit.
pub proof fn lemma_int_format(v: i32, scale: i32, unit: Seq<char>)
    ensures
        ({
            let r = formatted(v, Fmt::Int, scale, unit);
            let sc: int = if scale <= 0 { 1 } else { scale as int };
            let k = r.len() - unit.len();
            &&& k >= 1
            &&& r.take(k) == int_text(tdiv(v as int, sc))
            &&& r.skip(k) == unit
        }),
{
    let sc: int = if scale <= 0 { 1 } else { scale as int };
    let q = tdiv(v as int, sc);
    lemma_int_text(q);
    let r = formatted(v, Fmt::Int, scale, unit);
    assert(r.take(r.len() - unit.len()) =~= int_text(q));
    assert(r.skip(r.len() - unit.len()) =~= unit);
}

/// Law (one decimal): a one-decimal value reads as its whole part (scaled,
/// truncated toward zero, with its sign), a `.`, the single digit of the
/// tenths of its magnitude, and the unit.
pub proof fn lemma_fixed1_text(v: i32, scale: i32, unit: Seq<char>)
    ensures
        ({
            let r = formatted(v, Fmt::Fixed1, scale, unit);
            let sc: int = if scale <= 0 { 1 } else { scale as int };
            let a: int = if v < 0 { -(v as int) } else { v as int };
            let k = r.len() - unit.len() - 2;
            &&& k >= 1
            &&& r.take(k) == int_text(tdiv(v as int, sc))
            &&& r[k] == '.'
            &&& is_digit(r[k + 1]) && r[k + 1] as int - 48 == (a * 10 / sc) % 10
            &&& r.skip(k + 2) == unit
        }),
{
    let sc: int = if scale <= 0 { 1 } else { scale as int };
    let a: int = if v < 0 { -(v as int) } else { v as int };
    let q = tdiv(v as int, sc);
    lemma_int_text(q);
    let d = ((a * 10 / sc) % 10) as nat;
    lemma_digit(d as int);
    let r = formatted(v, Fmt::Fixed1, scale, unit);
    let i = int_text(q);
    assert(nat_text(d) == seq![digit(d as int)]);
    assert(r == i + seq!['.'] + seq![digit(d as int)] + unit);
    let k = i.len() as int;
    assert(r.take(k) =~= i);
    assert(r.skip(k + 2) =~= unit);
}

/// Law (no time yet): a lap or sector time of 0 or less shows the placeholder
/// `--:--.---` (laps) or `--.---` (sectors), whatever the unit.
pub proof fn lemma_time_placeholder(v: i32, scale: i32, unit: Seq<char>)
    requires
        v <= 0,
    ensures
        formatted(v, Fmt::Time, scale, unit) == seq!['-', '-', ':', '-', '-', '.', '-', '-', '-'],
        formatted(v, Fmt::Sector, scale, unit) == seq!['-', '-', '.', '-', '-', '-'],
{
    reveal_strlit("--:--.---");
    reveal_strlit("--.---");
    assert("--:--.---"@ =~= seq!['-', '-', ':', '-', '-', '.', '-', '-', '-']);
    assert("--.---"@ =~= seq!['-', '-', '.', '-', '-', '-']);
}
} // verus!
