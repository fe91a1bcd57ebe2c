//! The `$`-frame: one text line per telemetry sample, `$` followed by the gear
//! glyph and the seventy channels in field-id order, separated by `;`
//! (`$3;212;6800;...`). The SimHub plugin, the shared-memory shim and the
//! dashboard all speak it, so `parse_line` must give back exactly what
//! `to_frame` wrote.

use vstd::prelude::*;
use crate::telemetry::{Telemetry, NUM_FIELDS, lemma_telemetry_ext};
use crate::text::{chars_of, push_char};

verus! {

// ---------------------------------------------------------------- decimals

/// The character of decimal digit `d`.
pub open spec fn digit(d: int) -> char {
    ((48 + d) as u32) as char
}

/// Decimal digits of `n`, most significant first, no leading zeros.
pub open spec fn nat_text(n: nat) -> Seq<char>
    decreases n,
{
    if n < 10 {
        seq![digit(n as int)]
    } else {
        nat_text(n / 10).push(digit((n % 10) as int))
    }
}

/// Decimal text of `v`: a `-` before the digits of a negative value.
pub open spec fn int_text(v: int) -> Seq<char> {
    if v < 0 {
        seq!['-'] + nat_text((-v) as nat)
    } else {
        nat_text(v as nat)
    }
}

pub open spec fn is_digit(c: char) -> bool {
    '0' <= c && c <= '9'
}

pub open spec fn all_digits(s: Seq<char>) -> bool {
    forall|i: int| 0 <= i < s.len() ==> is_digit(#[trigger] s[i])
}

/// Value of a run of decimal digits.
pub open spec fn digits_value(s: Seq<char>) -> int
    decreases s.len(),
{
    if s.len() == 0 {
        0
    } else {
        digits_value(s.drop_last()) * 10 + (s.last() as int - 48)
    }
}

/// A numeric field: an optional `-` and one or more digits.
pub open spec fn int_field(s: Seq<char>) -> Option<int> {
    if s.len() > 0 && s[0] == '-' {
        if s.len() > 1 && all_digits(s.drop_first()) {
            Some(-digits_value(s.drop_first()))
        } else {
            None
        }
    } else if s.len() > 0 && all_digits(s) {
        Some(digits_value(s))
    } else {
        None
    }
}

/// A numeric field whose value fits an `i32`.
pub open spec fn i32_field(s: Seq<char>) -> Option<i32> {
    match int_field(s) {
        Some(v) => if i32::MIN <= v <= i32::MAX {
            Some(v as i32)
        } else {
            None
        },
        None => None,
    }
}

pub proof fn lemma_digit(d: int)
    requires
        0 <= d < 10,
    ensures
        digit(d) as int == 48 + d,
        is_digit(digit(d)),
        digit(d) != ';',
        digit(d) != '-',
{
}

pub proof fn lemma_nat_text(n: nat)
    ensures
        nat_text(n).len() > 0,
        all_digits(nat_text(n)),
        digits_value(nat_text(n)) == n,
    decreases n,
{
    lemma_digit((n % 10) as int);
    assert(digits_value(Seq::<char>::empty()) == 0);
    if n < 10 {
        assert(seq![digit(n as int)].drop_last() =~= Seq::<char>::empty());
        assert(digits_value(seq![digit(n as int)]) == n);
    } else {
        lemma_nat_text(n / 10);
        let s = nat_text(n);
        assert(s.drop_last() =~= nat_text(n / 10));
        assert(s.last() == digit((n % 10) as int));
        assert(digits_value(s) == digits_value(nat_text(n / 10)) * 10 + (n % 10));
        assert forall|i: int| 0 <= i < s.len() implies is_digit(#[trigger] s[i]) by {
            if i < s.len() - 1 {
                assert(s[i] == nat_text(n / 10)[i]);
            }
        }
    }
}

pub proof fn lemma_digits_nonneg(s: Seq<char>)
    requires
        all_digits(s),
    ensures
        digits_value(s) >= 0,
    decreases s.len(),
{
    if s.len() > 0 {
        assert(all_digits(s.drop_last())) by {
            assert forall|i: int| 0 <= i < s.drop_last().len() implies is_digit(#[trigger] s.drop_last()[i]) by {
                assert(s.drop_last()[i] == s[i]);
            }
        }
        lemma_digits_nonneg(s.drop_last());
        assert(is_digit(s[s.len() - 1]));
    }
}

/// A digit run is worth at least as much as any of its prefixes.
proof fn lemma_digits_prefix(s: Seq<char>, j: int)
    requires
        all_digits(s),
        0 <= j <= s.len(),
    ensures
        digits_value(s) >= digits_value(s.take(j)),
    decreases s.len(),
{
    if j < s.len() {
        let d = s.drop_last();
        assert(all_digits(d)) by {
            assert forall|i: int| 0 <= i < d.len() implies is_digit(#[trigger] d[i]) by {
                assert(d[i] == s[i]);
            }
        }
        lemma_digits_prefix(d, j);
        assert(d.take(j) =~= s.take(j));
        lemma_digits_nonneg(d);
        assert(is_digit(s[s.len() - 1]));
    } else {
        assert(s.take(j) =~= s);
    }
}

/// Every `i32` reads back from its own text.
proof fn lemma_int_text(v: i32)
    ensures
        i32_field(int_text(v as int)) == Some(v),
        !int_text(v as int).contains(';'),
{
    if v < 0 {
        let n = (-(v as int)) as nat;
        lemma_nat_text(n);
        let s = int_text(v as int);
        assert(s.drop_first() =~= nat_text(n));
        assert(s[0] == '-');
        assert forall|i: int| 0 <= i < s.len() implies s[i] != ';' by {
            if i > 0 {
                assert(s[i] == nat_text(n)[i - 1]);
                assert(is_digit(nat_text(n)[i - 1]));
            }
        }
    } else {
        let n = v as nat;
        lemma_nat_text(n);
        let s = int_text(v as int);
        assert(is_digit(s[0]));
        assert forall|i: int| 0 <= i < s.len() implies s[i] != ';' by {
            assert(is_digit(s[i]));
        }
    }
}

fn digit_char(d: u64) -> (c: char)
    requires
        d < 10,
    ensures
        c == digit(d as int),
        is_digit(c),
{
    match d {
        0 => '0',
        1 => '1',
        2 => '2',
        3 => '3',
        4 => '4',
        5 => '5',
        6 => '6',
        7 => '7',
        8 => '8',
        _ => '9',
    }
}

/// Appends the decimal digits of `n`.
pub fn push_nat_text(out: &mut Vec<char>, n: u64)
    ensures
        final(out)@ == old(out)@ + nat_text(n as nat),
    decreases n,
{
    if n >= 10 {
        push_nat_text(out, n / 10);
    }
    out.push(digit_char(n % 10));
    proof {
        if n >= 10 {
            assert(nat_text(n as nat) == nat_text((n / 10) as nat).push(digit((n % 10) as int)));
        }
    }
}

/// Appends the decimal text of `v`.
pub fn push_int_text(out: &mut Vec<char>, v: i32)
    ensures
        final(out)@ == old(out)@ + int_text(v as int),
{
    if v < 0 {
        out.push('-');
        let m: i64 = -(v as i64);
        push_nat_text(out, m as u64);
    } else {
        push_nat_text(out, v as u64);
    }
}

/// Reads the numeric field `v[lo..hi]`.
pub fn parse_i32_range(v: &Vec<char>, lo: usize, hi: usize) -> (r: Option<i32>)
    requires
        lo <= hi <= v.len(),
    ensures
        r == i32_field(v@.subrange(lo as int, hi as int)),
{
    let ghost s = v@.subrange(lo as int, hi as int);
    if lo == hi {
        return None;
    }
    let neg = v[lo] == '-';
    let start = if neg { lo + 1 } else { lo };
    let ghost w = v@.subrange(start as int, hi as int);
    assert(s[0] == v@[lo as int]);
    proof {
        if neg {
            assert(s.drop_first() =~= w);
        } else {
            assert(s =~= w);
        }
    }
    if start == hi {
        return None;
    }
    let mut acc: i64 = 0;
    let mut i = start;
    while i < hi
        invariant
            lo <= start <= i <= hi <= v.len(),
            w == v@.subrange(start as int, hi as int),
            s == v@.subrange(lo as int, hi as int),
            s.len() > 0,
            neg == (s[0] == '-'),
            neg ==> s.drop_first() == w && start == lo + 1,
            !neg ==> s == w && start == lo,
            start < hi,
            all_digits(w.take(i - start)),
            acc == digits_value(w.take(i - start)),
            0 <= acc <= 2147483648,
        decreases hi - i,
    {
        let c = v[i];
        if !('0' <= c && c <= '9') {
            assert(w[i - start] == c);
            assert(!all_digits(w));
            assert(int_field(s) is None);
            return None;
        }
        let d = (c as u32 - 48) as i64;
        assert(w.take(i + 1 - start).drop_last() =~= w.take(i - start));
        assert(w.take(i + 1 - start).last() == c);
        assert(all_digits(w.take(i + 1 - start))) by {
            let p = w.take(i + 1 - start);
            assert forall|k: int| 0 <= k < p.len() implies is_digit(#[trigger] p[k]) by {
                if k < p.len() - 1 {
                    assert(p[k] == w.take(i - start)[k]);
                }
            }
        }
        assert(digits_value(w.take(i + 1 - start)) == digits_value(w.take(i - start)) * 10 + d);
        acc = acc * 10 + d;
        if acc > 2147483648 {
            proof {
                if all_digits(w) {
                    lemma_digits_prefix(w, i + 1 - start);
                }
                assert(i32_field(s) is None);
            }
            return None;
        }
        i += 1;
    }
    assert(w.take(hi - start) =~= w);
    if neg {
        Some((-acc) as i32)
    } else if acc > 2147483647 {
        None
    } else {
        Some(acc as i32)
    }
}

// ---------------------------------------------------------------- fields

/// Fields joined by `;`.
pub open spec fn join_fields(xs: Seq<Seq<char>>) -> Seq<char>
    decreases xs.len(),
{
    if xs.len() == 0 {
        seq![]
    } else if xs.len() == 1 {
        xs[0]
    } else {
        xs[0] + seq![';'] + join_fields(xs.drop_first())
    }
}

/// Index of the first `;` at or after `i` (the length when there is none).
pub open spec fn semi_from(s: Seq<char>, i: int) -> int
    decreases s.len() - i,
{
    if i >= s.len() {
        s.len() as int
    } else if s[i] == ';' {
        i
    } else {
        semi_from(s, i + 1)
    }
}

proof fn lemma_semi_from(s: Seq<char>, i: int, m: int)
    requires
        0 <= i <= m <= s.len(),
        forall|j: int| i <= j < m ==> s[j] != ';',
        m == s.len() || s[m] == ';',
    ensures
        semi_from(s, i) == m,
    decreases m - i,
{
    if i < m {
        lemma_semi_from(s, i + 1, m);
    }
}

proof fn lemma_semi_bounds(s: Seq<char>, i: int)
    requires
        0 <= i,
    ensures
        i <= semi_from(s, i) || semi_from(s, i) == s.len(),
        0 <= semi_from(s, i) <= s.len(),
    decreases s.len() - i,
{
    if i < s.len() && s[i] != ';' {
        lemma_semi_bounds(s, i + 1);
    }
}

/// The `;`-separated fields of `s` (always at least one).
pub open spec fn split_fields(s: Seq<char>) -> Seq<Seq<char>>
    decreases s.len(),
{
    let k = semi_from(s, 0);
    if k < 0 || k >= s.len() {
        seq![s]
    } else {
        seq![s.take(k)] + split_fields(s.skip(k + 1))
    }
}

proof fn lemma_split_len(s: Seq<char>)
    ensures
        split_fields(s).len() >= 1,
        split_fields(s)[0] == s.take(semi_from(s, 0)),
    decreases s.len(),
{
    lemma_semi_bounds(s, 0);
    let k = semi_from(s, 0);
    if k >= s.len() {
        assert(s.take(k) =~= s);
    } else {
        lemma_split_len(s.skip(k + 1));
    }
}

/// Splitting undoes joining, for fields free of `;`.
proof fn lemma_split_join(xs: Seq<Seq<char>>)
    requires
        xs.len() >= 1,
        forall|i: int| 0 <= i < xs.len() ==> !(#[trigger] xs[i]).contains(';'),
    ensures
        split_fields(join_fields(xs)) == xs,
    decreases xs.len(),
{
    let a = xs[0];
    assert forall|j: int| 0 <= j < a.len() implies a[j] != ';' by {
        if a[j] == ';' {
            assert(a.contains(';'));
        }
    }
    if xs.len() == 1 {
        lemma_semi_from(a, 0, a.len() as int);
        assert(split_fields(a) =~= seq![a]);
    } else {
        let rest = xs.drop_first();
        assert forall|i: int| 0 <= i < rest.len() implies !(#[trigger] rest[i]).contains(';') by {
            assert(rest[i] == xs[i + 1]);
        }
        lemma_split_join(rest);
        let j = join_fields(xs);
        assert(j == a + seq![';'] + join_fields(rest));
        assert forall|q: int| 0 <= q < a.len() implies j[q] != ';' by {
            assert(j[q] == a[q]);
        }
        lemma_semi_from(j, 0, a.len() as int);
        assert(j.take(a.len() as int) =~= a);
        assert(j.skip((a.len() + 1) as int) =~= join_fields(rest));
        assert(split_fields(j) =~= seq![a] + rest);
        assert(seq![a] + rest =~= xs);
    }
}

/// Joining one more field appends `;` and the field.
proof fn lemma_join_push(xs: Seq<Seq<char>>, x: Seq<char>)
    requires
        xs.len() >= 1,
    ensures
        join_fields(xs.push(x)) == join_fields(xs) + seq![';'] + x,
    decreases xs.len(),
{
    let ys = xs.push(x);
    assert(ys[0] == xs[0]);
    if xs.len() == 1 {
        assert(ys.drop_first() =~= seq![x]);
        assert(join_fields(seq![x]) == x);
        assert(join_fields(xs) == xs[0]);
    } else {
        assert(ys.drop_first() =~= xs.drop_first().push(x));
        lemma_join_push(xs.drop_first(), x);
        assert(join_fields(ys) =~= xs[0] + seq![';'] + (join_fields(xs.drop_first()) + seq![';'] + x));
    }
}

// ---------------------------------------------------------------- frames

/// The gear field: the gear byte as one character.
pub open spec fn gear_text(g: u8) -> Seq<char> {
    seq![g as char]
}

/// The 71 field texts of a sample: gear first, then channels 1..=70.
pub open spec fn field_texts(t: Telemetry) -> Seq<Seq<char>> {
    Seq::new(
        (NUM_FIELDS + 1) as nat,
        |i: int|
            if i == 0 {
                gear_text(t.gear)
            } else {
                int_text(t.field(i) as int)
            },
    )
}

/// The frame line written for `t`.
pub open spec fn frame_text(t: Telemetry) -> Seq<char> {
    seq!['$'] + join_fields(field_texts(t))
}

/// The fields of a frame line (everything after the `$`).
pub open spec fn frame_fields(line: Seq<char>) -> Seq<Seq<char>> {
    split_fields(line.drop_first())
}

/// A gear field is exactly one character below U+0100.
pub open spec fn gear_field_ok(f: Seq<char>) -> bool {
    f.len() == 1 && (f[0] as u32) < 256
}

/// Lines that `parse_line` accepts: a `$`, a gear field, then at most seventy
/// numeric `i32` fields.
pub open spec fn frame_ok(line: Seq<char>) -> bool {
    &&& line.len() >= 1
    &&& line[0] == '$'
    &&& frame_fields(line).len() <= NUM_FIELDS + 1
    &&& gear_field_ok(frame_fields(line)[0])
    &&& forall|i: int|
        1 <= i < frame_fields(line).len() ==> (#[trigger] i32_field(frame_fields(line)[i])) is Some
}

/// Channel `id` of a frame line: the value of its field, 0 when the line
/// stops before that field.
pub open spec fn frame_channel(line: Seq<char>, id: int) -> i32 {
    if id < frame_fields(line).len() {
        i32_field(frame_fields(line)[id])->0
    } else {
        0
    }
}

/// `t` is the sample a frame line describes.
pub open spec fn frame_denotes(line: Seq<char>, t: Telemetry) -> bool {
    &&& t.gear == (frame_fields(line)[0][0] as u32) as u8
    &&& forall|id: int| 1 <= id <= NUM_FIELDS ==> #[trigger] t.field(id) == frame_channel(line, id)
}

impl Telemetry {
    /// Renders this sample as one `$`-frame line (no trailing newline).
    pub fn to_frame(&self) -> (s: String)
        ensures
            s@ == frame_text(*self),
    {
        let ghost xs = field_texts(*self);
        let mut out: Vec<char> = Vec::new();
        out.push('$');
        out.push(self.gear as char);
        assert(xs.take(1) =~= seq![gear_text(self.gear)]);
        assert(out@ =~= seq!['$'] + join_fields(xs.take(1)));
        let mut id: usize = 1;
        while id <= NUM_FIELDS
            invariant
                1 <= id <= NUM_FIELDS + 1,
                xs == field_texts(*self),
                out@ == seq!['$'] + join_fields(xs.take(id as int)),
            decreases NUM_FIELDS + 1 - id,
        {
            out.push(';');
            push_int_text(&mut out, self.field_value(id));
            proof {
                assert(xs.take(id + 1) =~= xs.take(id as int).push(xs[id as int]));
                lemma_join_push(xs.take(id as int), xs[id as int]);
            }
            id += 1;
        }
        assert(xs.take((NUM_FIELDS + 1) as int) =~= xs);
        let mut s = String::new();
        let mut i: usize = 0;
        while i < out.len()
            invariant
                i <= out.len(),
                s@ == out@.take(i as int),
            decreases out.len() - i,
        {
            push_char(&mut s, out[i]);
            assert(out@.take(i + 1) =~= out@.take(i as int).push(out@[i as int]));
            i += 1;
        }
        assert(out@.take(out.len() as int) =~= out@);
        s
    }
}

/// Parses one `$`-frame line into a sample; channels the line stops short of
/// are 0. `None` when the line is not a frame (see `frame_ok`).
pub fn parse_line(line: &str) -> (r: Option<Telemetry>)
    ensures
        r is Some <==> frame_ok(line@),
        r matches Some(t) ==> frame_denotes(line@, t),
{
    let v = chars_of(line);
    let n = v.len();
    if n == 0 || v[0] != '$' {
        return None;
    }
    let ghost body = line@.drop_first();
    assert(body =~= v@.subrange(1, n as int));
    let mut t = Telemetry::idle();
    let mut st: usize = 1;
    let mut idx: usize = 0;
    let ghost mut done: Seq<Seq<char>> = Seq::empty();
    assert(split_fields(body) =~= done + split_fields(v@.subrange(st as int, n as int)));
    loop
        invariant
            v@ == line@,
            n == v.len(),
            n >= 1,
            v@[0] == '$',
            body == line@.drop_first(),
            frame_fields(line@) == split_fields(body),
            1 <= st <= n,
            idx == done.len(),
            idx <= NUM_FIELDS + 1,
            split_fields(body) == done + split_fields(v@.subrange(st as int, n as int)),
            idx > 0 ==> gear_field_ok(done[0]) && t.gear == (done[0][0] as u32) as u8,
            forall|i: int| 1 <= i < idx ==> (#[trigger] i32_field(done[i])) is Some,
            forall|id: int|
                1 <= id <= NUM_FIELDS ==> #[trigger] t.field(id) == if id < idx {
                    i32_field(done[id])->0
                } else {
                    0
                },
        decreases n - st,
    {
        let ghost rest = v@.subrange(st as int, n as int);
        let mut k = st;
        while k < n && v[k] != ';'
            invariant
                st <= k <= n,
                n == v.len(),
                forall|j: int| st <= j < k ==> v@[j] != ';',
            decreases n - k,
        {
            k += 1;
        }
        let ghost field = v@.subrange(st as int, k as int);
        let ghost old_t = t;
        proof {
            assert forall|j: int| 0 <= j < k - st implies rest[j] != ';' by {
                assert(rest[j] == v@[st + j]);
            }
            if k < n {
                assert(rest[k - st] == v@[k as int]);
            }
            lemma_semi_from(rest, 0, (k - st) as int);
            lemma_split_len(rest);
            assert(rest.take((k - st) as int) =~= field);
            assert(split_fields(body)[idx as int] == field);
            assert(split_fields(body).len() == idx + split_fields(rest).len());
        }
        if idx > NUM_FIELDS {
            return None;
        }
        if idx == 0 {
            if k - st != 1 || (v[st] as u32) >= 256 {
                proof {
                    if k - st == 1 {
                        assert(field[0] == v@[st as int]);
                    }
                }
                return None;
            }
            assert(field[0] == v@[st as int]);
            t.gear = v[st] as u32 as u8;
        } else {
            match parse_i32_range(&v, st, k) {
                None => {
                    return None;
                },
                Some(x) => {
                    t.set_field(idx, x);
                    assert(t.field(idx as int) == i32_field(field)->0);
                },
            }
        }
        let ghost old_done = done;
        proof {
            done = done.push(field);
            assert forall|i: int| 0 <= i < old_done.len() implies done[i] == old_done[i] by {}
            assert(done[idx as int] == field);
        }
        idx += 1;
        assert forall|id: int|
            1 <= id <= NUM_FIELDS implies #[trigger] t.field(id) == if id < idx {
                i32_field(done[id])->0
            } else {
                0
            } by {
            assert(old_t.field(id) == if id < idx - 1 {
                i32_field(old_done[id])->0
            } else {
                0
            });
            if id < idx - 1 {
                assert(done[id] == old_done[id]);
                assert(t.field(id) == old_t.field(id));
            } else if id == idx - 1 {
                assert(t.field(id) == i32_field(field)->0);
            } else {
                assert(t.field(id) == old_t.field(id));
            }
        }
        if k == n {
            proof {
                assert(rest =~= field);
                assert(split_fields(rest) =~= seq![field]);
                assert(split_fields(body) =~= done);
                assert(frame_fields(line@) == done);
                assert forall|id: int| 1 <= id <= NUM_FIELDS implies #[trigger] t.field(id) == frame_channel(line@, id) by {
                }
            }
            return Some(t);
        }
        proof {
            assert(rest.skip((k - st + 1) as int) =~= v@.subrange(k + 1, n as int));
            assert(split_fields(body) =~= done + split_fields(v@.subrange(k + 1, n as int)));
        }
        st = k + 1;
    }
}

/// Law: a frame line parses back to exactly the sample it was written from
/// (for any gear byte other than the separator `;`).
pub proof fn lemma_frame_roundtrip(t: Telemetry)
    requires
        t.gear != 59,
    ensures
        frame_ok(frame_text(t)),
        frame_denotes(frame_text(t), t),
        forall|u: Telemetry| #[trigger] frame_denotes(frame_text(t), u) ==> u == t,
{
    let xs = field_texts(t);
    assert forall|i: int| 0 <= i < xs.len() implies !(#[trigger] xs[i]).contains(';') by {
        if i == 0 {
            assert(xs[0] == seq![t.gear as char]);
            assert((t.gear as char) != ';');
            if xs[0].contains(';') {
                let j = choose|j: int| 0 <= j < xs[0].len() && xs[0][j] == ';';
                assert(j == 0);
            }
        } else {
            lemma_int_text(t.field(i));
        }
    }
    lemma_split_join(xs);
    let line = frame_text(t);
    assert(line.drop_first() =~= join_fields(xs));
    assert(frame_fields(line) == xs);
    assert forall|i: int| 1 <= i < frame_fields(line).len() implies (#[trigger] i32_field(frame_fields(line)[i])) is Some by {
        lemma_int_text(t.field(i));
    }
    assert forall|id: int| 1 <= id <= NUM_FIELDS implies #[trigger] t.field(id) == frame_channel(line, id) by {
        lemma_int_text(t.field(id));
    }
    assert forall|u: Telemetry| #[trigger] frame_denotes(line, u) implies u == t by {
        assert forall|id: int| 1 <= id <= NUM_FIELDS implies #[trigger] u.field(id) == t.field(id) by {
            assert(u.field(id) == frame_channel(line, id));
        }
        lemma_telemetry_ext(u, t);
    }
}

proof fn lemma_join_last(xs: Seq<Seq<char>>)
    requires
        xs.len() >= 1,
        xs.last().len() > 0,
    ensures
        join_fields(xs).len() > 0,
        join_fields(xs).last() == xs.last().last(),
    decreases xs.len(),
{
    if xs.len() > 1 {
        lemma_join_last(xs.drop_first());
        assert(xs.drop_first().last() == xs.last());
    }
}

/// A frame line starts with `$` and ends with a decimal digit (the last
/// channel's).
pub proof fn lemma_frame_edges(t: Telemetry)
    ensures
        frame_text(t).len() > 1,
        frame_text(t)[0] == '$',
        is_digit(frame_text(t).last()),
{
    let xs = field_texts(t);
    let v = t.field(70) as int;
    let n: nat = if v < 0 {
        (-v) as nat
    } else {
        v as nat
    };
    lemma_nat_text(n);
    assert(xs.last() == int_text(v));
    assert(int_text(v).last() == nat_text(n).last());
    assert(is_digit(nat_text(n).last()));
    lemma_join_last(xs);
}

/// Render `t` as one `$`-frame line (no trailing newline).
pub fn frame_from_telem(t: &Telemetry) -> (s: String)
    ensures
        s@ == frame_text(*t),
{
    t.to_frame()
}

} // verus!
