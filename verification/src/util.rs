//! Small text utilities: integer and hex prefixes, trimming, name
//! normalisation for car matching.

use vstd::prelude::*;
use crate::frame::{is_digit, digits_value, all_digits, lemma_digits_nonneg};
use crate::text::{chars_of, string_from_chars, occurs_at, find_seq, find_chars};

verus! {

/// Unicode `White_Space` (what `str::trim_start` strips).
pub open spec fn is_unicode_ws(c: char) -> bool {
    let u = c as u32;
    (0x9 <= u && u <= 0xD) || u == 0x20 || u == 0x85 || u == 0xA0 || u == 0x1680 || (0x2000 <= u
        && u <= 0x200A) || u == 0x2028 || u == 0x2029 || u == 0x202F || u == 0x205F || u == 0x3000
}

pub fn is_ws_char(c: char) -> (r: bool)
    ensures
        r == is_unicode_ws(c),
{
    let u = c as u32;
    (0x9 <= u && u <= 0xD) || u == 0x20 || u == 0x85 || u == 0xA0 || u == 0x1680 || (0x2000 <= u
        && u <= 0x200A) || u == 0x2028 || u == 0x2029 || u == 0x202F || u == 0x205F || u == 0x3000
}

/// Number of leading characters of `s` satisfying the whitespace test.
pub open spec fn ws_run(s: Seq<char>) -> nat
    decreases s.len(),
{
    if s.len() > 0 && is_unicode_ws(s[0]) {
        1 + ws_run(s.drop_first())
    } else {
        0
    }
}

/// `s` without its leading Unicode whitespace (`str::trim_start`).
pub open spec fn trim_start_seq(s: Seq<char>) -> Seq<char> {
    s.skip(ws_run(s) as int)
}

/// Number of leading decimal digits of `s`.
pub open spec fn digit_run(s: Seq<char>) -> nat
    decreases s.len(),
{
    if s.len() > 0 && is_digit(s[0]) {
        1 + digit_run(s.drop_first())
    } else {
        0
    }
}

/// Value of `atoi`: optional sign, then the leading digits, saturating at
/// `i32::MAX` in magnitude; 0 when there are no digits.
pub open spec fn atoi_value(s: Seq<char>) -> i32 {
    let w = trim_start_seq(s);
    let neg = w.len() > 0 && w[0] == '-';
    let signed = w.len() > 0 && (w[0] == '-' || w[0] == '+');
    let rest = if signed { w.drop_first() } else { w };
    let v = digits_value(rest.take(digit_run(rest) as int));
    let m: int = if v > i32::MAX { i32::MAX as int } else { v };
    (if neg { -m } else { m }) as i32
}

proof fn lemma_ws_run_step(s: Seq<char>, i: int)
    requires
        0 <= i <= ws_run(s),
    ensures
        ws_run(s) == i + ws_run(s.skip(i)),
        forall|j: int| 0 <= j < i ==> is_unicode_ws(#[trigger] s[j]),
        ws_run(s) <= s.len(),
    decreases i,
{
    if i > 0 {
        lemma_ws_run_step(s.drop_first(), i - 1);
        assert(s.drop_first().skip(i - 1) =~= s.skip(i));
        assert forall|j: int| 0 <= j < i implies is_unicode_ws(#[trigger] s[j]) by {
            if j > 0 {
                assert(s[j] == s.drop_first()[j - 1]);
            }
        }
    } else {
        assert(s.skip(0) =~= s);
        lemma_ws_run_len(s);
    }
}

proof fn lemma_ws_run_len(s: Seq<char>)
    ensures
        ws_run(s) <= s.len(),
    decreases s.len(),
{
    if s.len() > 0 {
        lemma_ws_run_len(s.drop_first());
    }
}

/// Index of the first non-whitespace character of `v` (its length if none).
fn skip_ws(v: &Vec<char>) -> (i: usize)
    ensures
        i == ws_run(v@),
        i <= v.len(),
{
    let mut i: usize = 0;
    proof {
        lemma_ws_run_step(v@, 0);
    }
    while i < v.len() && is_ws_char(v[i])
        invariant
            i <= v.len(),
            i <= ws_run(v@),
            ws_run(v@) == i + ws_run(v@.skip(i as int)),
        decreases v.len() - i,
    {
        assert(v@.skip(i as int)[0] == v@[i as int]);
        assert(v@.skip(i as int).drop_first() =~= v@.skip(i + 1));
        i += 1;
    }
    if i < v.len() {
        assert(v@.skip(i as int)[0] == v@[i as int]);
    }
    i
}

proof fn lemma_digit_run(s: Seq<char>, i: int)
    requires
        0 <= i <= s.len(),
        forall|j: int| 0 <= j < i ==> is_digit(#[trigger] s[j]),
        i == s.len() || !is_digit(s[i]),
    ensures
        digit_run(s) == i,
    decreases i,
{
    if i > 0 {
        assert forall|j: int| 0 <= j < i - 1 implies is_digit(#[trigger] s.drop_first()[j]) by {
            assert(s.drop_first()[j] == s[j + 1]);
        }
        if i < s.len() {
            assert(s.drop_first()[i - 1] == s[i]);
        }
        lemma_digit_run(s.drop_first(), i - 1);
    }
}

/// C-style `atoi`: skips leading whitespace, reads an optional sign and the
/// leading decimal digits; the magnitude saturates at `i32::MAX`.
pub fn atoi(s: &str) -> (r: i32)
    ensures
        r == atoi_value(s@),
{
    let v = chars_of(s);
    let st = skip_ws(&v);
    let ghost w = v@.skip(st as int);
    let mut i = st;
    let mut neg = false;
    let mut signed = false;
    if i < v.len() && (v[i] == '-' || v[i] == '+') {
        signed = true;
        if v[i] == '-' {
            neg = true;
        }
        i += 1;
    }
    proof {
        if st < v.len() {
            assert(w[0] == v@[st as int]);
        }
    }
    let ghost rest = if signed { w.drop_first() } else { w };
    assert(rest =~= v@.skip(i as int));
    let d0 = i;
    let mut n: i64 = 0;
    while i < v.len() && '0' <= v[i] && v[i] <= '9'
        invariant
            d0 <= i <= v.len(),
            rest == v@.skip(d0 as int),
            forall|j: int| 0 <= j < i - d0 ==> is_digit(#[trigger] rest[j]),
            all_digits(rest.take(i - d0)),
            0 <= n <= i32::MAX,
            n == if digits_value(rest.take(i - d0)) > i32::MAX {
                i32::MAX as int
            } else {
                digits_value(rest.take(i - d0))
            },
        decreases v.len() - i,
    {
        let ghost p = rest.take(i - d0);
        let ghost q = rest.take(i + 1 - d0);
        assert(rest[i - d0] == v@[i as int]);
        assert(q.drop_last() =~= p);
        assert(q.last() == v@[i as int]);
        assert(all_digits(q)) by {
            assert forall|k: int| 0 <= k < q.len() implies is_digit(#[trigger] q[k]) by {
                assert(q[k] == rest[k]);
            }
        }
        proof {
            lemma_digits_nonneg(p);
        }
        let d = (v[i] as u32 - 48) as i64;
        n = n * 10 + d;
        if n > 2147483647 {
            n = 2147483647;
        }
        i += 1;
    }
    proof {
        if i < v.len() {
            assert(rest[i - d0] == v@[i as int]);
        }
        lemma_digit_run(rest, i - d0);
    }
    let m = if neg { -n } else { n };
    m as i32
}

// ---------------------------------------------------------------- trim

pub open spec fn is_blank(c: char) -> bool {
    c == ' ' || c == '\t'
}

/// Number of leading spaces/tabs of `s`.
pub open spec fn blank_front(s: Seq<char>) -> nat
    decreases s.len(),
{
    if s.len() > 0 && is_blank(s[0]) {
        1 + blank_front(s.drop_first())
    } else {
        0
    }
}

/// Number of trailing spaces/tabs of `s`.
pub open spec fn blank_back(s: Seq<char>) -> nat
    decreases s.len(),
{
    if s.len() > 0 && is_blank(s.last()) {
        1 + blank_back(s.drop_last())
    } else {
        0
    }
}

/// `s` without leading and trailing spaces and tabs.
pub open spec fn trim_blanks(s: Seq<char>) -> Seq<char> {
    let f = s.skip(blank_front(s) as int);
    f.take(f.len() - blank_back(f))
}

proof fn lemma_blank_front(s: Seq<char>, i: int)
    requires
        0 <= i <= s.len(),
        forall|j: int| 0 <= j < i ==> is_blank(#[trigger] s[j]),
        i == s.len() || !is_blank(s[i]),
    ensures
        blank_front(s) == i,
    decreases i,
{
    if i > 0 {
        assert forall|j: int| 0 <= j < i - 1 implies is_blank(#[trigger] s.drop_first()[j]) by {
            assert(s.drop_first()[j] == s[j + 1]);
        }
        if i < s.len() {
            assert(s.drop_first()[i - 1] == s[i]);
        }
        lemma_blank_front(s.drop_first(), i - 1);
    }
}

proof fn lemma_blank_back(s: Seq<char>, k: int)
    requires
        0 <= k <= s.len(),
        forall|j: int| s.len() - k <= j < s.len() ==> is_blank(#[trigger] s[j]),
        k == s.len() || !is_blank(s[s.len() - k - 1]),
    ensures
        blank_back(s) == k,
    decreases k,
{
    if k > 0 {
        let d = s.drop_last();
        assert forall|j: int| d.len() - (k - 1) <= j < d.len() implies is_blank(#[trigger] d[j]) by {
            assert(d[j] == s[j]);
        }
        if k < s.len() {
            assert(d[d.len() - (k - 1) - 1] == s[s.len() - k - 1]);
        }
        lemma_blank_back(d, k - 1);
    }
}

/// The characters of `v[lo..hi]` without leading and trailing spaces/tabs.
pub fn trim_range(v: &Vec<char>, lo: usize, hi: usize) -> (r: (usize, usize))
    requires
        lo <= hi <= v.len(),
    ensures
        lo <= r.0 <= r.1 <= hi,
        v@.subrange(r.0 as int, r.1 as int) == trim_blanks(v@.subrange(lo as int, hi as int)),
{
    let ghost s = v@.subrange(lo as int, hi as int);
    let mut a = lo;
    while a < hi && (v[a] == ' ' || v[a] == '\t')
        invariant
            lo <= a <= hi <= v.len(),
            forall|j: int| lo <= j < a ==> is_blank(#[trigger] v@[j]),
        decreases hi - a,
    {
        a += 1;
    }
    proof {
        assert forall|j: int| 0 <= j < a - lo implies is_blank(#[trigger] s[j]) by {
            assert(s[j] == v@[lo + j]);
        }
        if a < hi {
            assert(s[a - lo] == v@[a as int]);
        }
        lemma_blank_front(s, a - lo);
    }
    let ghost f = s.skip(a - lo);
    assert(f =~= v@.subrange(a as int, hi as int));
    let mut b = hi;
    while b > a && (v[b - 1] == ' ' || v[b - 1] == '\t')
        invariant
            a <= b <= hi <= v.len(),
            forall|j: int| b <= j < hi ==> is_blank(#[trigger] v@[j]),
        decreases b - a,
    {
        b -= 1;
    }
    proof {
        let k = hi - b;
        assert forall|j: int| f.len() - k <= j < f.len() implies is_blank(#[trigger] f[j]) by {
            assert(f[j] == v@[a + j]);
        }
        if k < f.len() {
            assert(f[f.len() - k - 1] == v@[b - 1]);
        }
        lemma_blank_back(f, k);
        assert(f.take(f.len() - k) =~= v@.subrange(a as int, b as int));
    }
    (a, b)
}

/// Trims spaces and tabs from both ends.
pub fn trim(s: &str) -> (r: String)
    ensures
        r@ == trim_blanks(s@),
{
    let v = chars_of(s);
    let (a, b) = trim_range(&v, 0, v.len());
    assert(v@.subrange(0, v@.len() as int) =~= s@);
    crate::text::string_from_range(&v, a, b)
}

/// Number of trailing Unicode whitespace characters of `s`.
pub open spec fn ws_back(s: Seq<char>) -> nat
    decreases s.len(),
{
    if s.len() > 0 && is_unicode_ws(s.last()) {
        1 + ws_back(s.drop_last())
    } else {
        0
    }
}

/// `s` without leading and trailing Unicode whitespace (`str::trim`).
pub open spec fn trim_ws_seq(s: Seq<char>) -> Seq<char> {
    let f = trim_start_seq(s);
    f.take(f.len() - ws_back(f))
}

proof fn lemma_ws_back(s: Seq<char>, k: int)
    requires
        0 <= k <= s.len(),
        forall|j: int| s.len() - k <= j < s.len() ==> is_unicode_ws(#[trigger] s[j]),
        k == s.len() || !is_unicode_ws(s[s.len() - k - 1]),
    ensures
        ws_back(s) == k,
    decreases k,
{
    if k > 0 {
        let d = s.drop_last();
        assert forall|j: int| d.len() - (k - 1) <= j < d.len() implies is_unicode_ws(
            #[trigger] d[j],
        ) by {
            assert(d[j] == s[j]);
        }
        if k < s.len() {
            assert(d[d.len() - (k - 1) - 1] == s[s.len() - k - 1]);
        }
        lemma_ws_back(d, k - 1);
    }
}

/// Bounds of `v` without its leading and trailing Unicode whitespace.
pub fn ws_trim_range(v: &Vec<char>) -> (r: (usize, usize))
    ensures
        r.0 <= r.1 <= v.len(),
        v@.subrange(r.0 as int, r.1 as int) == trim_ws_seq(v@),
{
    let a = skip_ws(v);
    let ghost f = trim_start_seq(v@);
    assert(f =~= v@.subrange(a as int, v.len() as int));
    let mut b = v.len();
    while b > a && is_ws_char(v[b - 1])
        invariant
            a <= b <= v.len(),
            forall|j: int| b <= j < v.len() ==> is_unicode_ws(#[trigger] v@[j]),
        decreases b - a,
    {
        b -= 1;
    }
    proof {
        let k = v.len() - b;
        assert forall|j: int| f.len() - k <= j < f.len() implies is_unicode_ws(#[trigger] f[j]) by {
            assert(f[j] == v@[a + j]);
        }
        if k < f.len() {
            assert(f[f.len() - k - 1] == v@[b - 1]);
        }
        lemma_ws_back(f, k);
        assert(f.take(f.len() - k) =~= v@.subrange(a as int, b as int));
    }
    (a, b)
}

/// `s` without leading and trailing Unicode whitespace (`str::trim`).
pub fn trim_ws(s: &str) -> (r: String)
    ensures
        r@ == trim_ws_seq(s@),
{
    let v = chars_of(s);
    let (a, b) = ws_trim_range(&v);
    crate::text::string_from_range(&v, a, b)
}

/// A reported car model without its entry or livery suffix (from the first
/// `#` on), trimmed of spaces and tabs.
pub open spec fn clean_car_seq(s: Seq<char>) -> Seq<char> {
    match find_seq(s, seq!['#']) {
        Some(p) => trim_blanks(s.take(p)),
        None => trim_blanks(s),
    }
}

/// Drops an entry or livery suffix such as `#23:WEC` from a car model.
pub fn clean_car_name(s: &str) -> (r: String)
    ensures
        r@ == clean_car_seq(s@),
{
    let v = chars_of(s);
    let h = vec!['#'];
    let end = match find_chars(&v, &h) {
        Some(p) => p,
        None => v.len(),
    };
    let (a, b) = trim_range(&v, 0, end);
    assert(h@ =~= seq!['#']);
    assert(v@.subrange(0, end as int) =~= match find_seq(s@, seq!['#']) {
        Some(p) => s@.take(p),
        None => s@,
    });
    crate::text::string_from_range(&v, a, b)
}

// ---------------------------------------------------------------- hex

pub open spec fn is_hex(c: char) -> bool {
    ('0' <= c && c <= '9') || ('a' <= c && c <= 'f') || ('A' <= c && c <= 'F')
}

pub open spec fn hex_digit_value(c: char) -> int {
    if '0' <= c && c <= '9' {
        c as int - 48
    } else if 'a' <= c && c <= 'f' {
        c as int - 87
    } else {
        c as int - 55
    }
}

/// Number of leading hex digits of `s`.
pub open spec fn hex_run(s: Seq<char>) -> nat
    decreases s.len(),
{
    if s.len() > 0 && is_hex(s[0]) {
        1 + hex_run(s.drop_first())
    } else {
        0
    }
}

/// Value of a run of hex digits.
pub open spec fn hex_value(s: Seq<char>) -> int
    decreases s.len(),
{
    if s.len() == 0 {
        0
    } else {
        hex_value(s.drop_last()) * 16 + hex_digit_value(s.last())
    }
}

/// Value of `hex_prefix`: the leading hex digits after any whitespace, read as
/// a u64 and truncated to u32; 0 when there are none or they exceed u64.
pub open spec fn hex_prefix_value(s: Seq<char>) -> u32 {
    let w = trim_start_seq(s);
    let h = w.take(hex_run(w) as int);
    if h.len() == 0 || hex_value(h) > u64::MAX {
        0
    } else {
        (hex_value(h) % 0x1_0000_0000) as u32
    }
}

proof fn lemma_hex_prefix(s: Seq<char>, j: int)
    requires
        forall|i: int| 0 <= i < s.len() ==> is_hex(#[trigger] s[i]),
        0 <= j <= s.len(),
    ensures
        hex_value(s) >= hex_value(s.take(j)) >= 0,
    decreases s.len(),
{
    if s.len() > 0 {
        let d = s.drop_last();
        assert forall|i: int| 0 <= i < d.len() implies is_hex(#[trigger] d[i]) by {
            assert(d[i] == s[i]);
        }
        assert(is_hex(s[s.len() - 1]));
        if j < s.len() {
            lemma_hex_prefix(d, j);
            assert(d.take(j) =~= s.take(j));
        } else {
            assert(s.take(j) =~= s);
            lemma_hex_prefix(d, 0);
        }
    } else {
        assert(s.take(j) =~= s);
    }
}

proof fn lemma_hex_run_props(s: Seq<char>)
    ensures
        hex_run(s) <= s.len(),
        forall|j: int| 0 <= j < hex_run(s) ==> is_hex(#[trigger] s[j]),
        hex_run(s) < s.len() ==> !is_hex(s[hex_run(s) as int]),
    decreases s.len(),
{
    if s.len() > 0 && is_hex(s[0]) {
        let d = s.drop_first();
        lemma_hex_run_props(d);
        assert forall|j: int| 0 <= j < hex_run(s) implies is_hex(#[trigger] s[j]) by {
            if j > 0 {
                assert(s[j] == d[j - 1]);
            }
        }
        if hex_run(s) < s.len() {
            assert(s[hex_run(s) as int] == d[hex_run(d) as int]);
        }
    }
}

proof fn lemma_hex_run(s: Seq<char>, i: int)
    requires
        0 <= i <= s.len(),
        forall|j: int| 0 <= j < i ==> is_hex(#[trigger] s[j]),
        i == s.len() || !is_hex(s[i]),
    ensures
        hex_run(s) == i,
    decreases i,
{
    if i > 0 {
        assert forall|j: int| 0 <= j < i - 1 implies is_hex(#[trigger] s.drop_first()[j]) by {
            assert(s.drop_first()[j] == s[j + 1]);
        }
        if i < s.len() {
            assert(s.drop_first()[i - 1] == s[i]);
        }
        lemma_hex_run(s.drop_first(), i - 1);
    }
}

/// Reads the leading hex digits of `s` (after whitespace) as a colour value.
pub fn hex_prefix(s: &str) -> (r: u32)
    ensures
        r == hex_prefix_value(s@),
{
    let v = chars_of(s);
    let st = skip_ws(&v);
    let ghost w = v@.skip(st as int);
    assert(w == trim_start_seq(s@));
    let mut i = st;
    let mut acc: u128 = 0;
    assert(w.take(0) =~= Seq::<char>::empty());
    while i < v.len() && (('0' <= v[i] && v[i] <= '9') || ('a' <= v[i] && v[i] <= 'f') || ('A' <= v[i]
        && v[i] <= 'F'))
        invariant
            st <= i <= v.len(),
            w == v@.skip(st as int),
            w == trim_start_seq(s@),
            forall|j: int| 0 <= j < i - st ==> is_hex(#[trigger] w[j]),
            acc == hex_value(w.take(i - st)),
            acc <= u64::MAX,
        decreases v.len() - i,
    {
        let c = v[i];
        let ghost p = w.take(i - st);
        let ghost q = w.take(i + 1 - st);
        assert(w[i - st] == c);
        assert(q.drop_last() =~= p);
        assert(q.last() == c);
        let d: u128 = if '0' <= c && c <= '9' {
            (c as u32 - 48) as u128
        } else if 'a' <= c && c <= 'f' {
            (c as u32 - 87) as u128
        } else {
            (c as u32 - 55) as u128
        };
        assert(d == hex_digit_value(c));
        acc = acc * 16 + d;
        assert(acc == hex_value(q));
        i += 1;
        if acc > 0xFFFF_FFFF_FFFF_FFFF {
            proof {
                lemma_hex_run_props(w);
                let k = hex_run(w) as int;
                if k < i - st {
                    assert(is_hex(w[k]));
                }
                let h = w.take(k);
                assert forall|j: int| 0 <= j < h.len() implies is_hex(#[trigger] h[j]) by {
                    assert(h[j] == w[j]);
                }
                lemma_hex_prefix(h, i - st);
                assert(h.take(i - st) =~= w.take(i - st));
            }
            return 0;
        }
    }
    proof {
        if i < v.len() {
            assert(w[i - st] == v@[i as int]);
        }
        lemma_hex_run(w, i - st);
    }
    if i == st {
        return 0;
    }
    (acc % 0x1_0000_0000) as u32
}

// ---------------------------------------------------------------- names

pub open spec fn is_ascii_alnum(c: char) -> bool {
    ('0' <= c && c <= '9') || ('a' <= c && c <= 'z') || ('A' <= c && c <= 'Z')
}

/// `char::to_ascii_lowercase`.
pub open spec fn ascii_lower(c: char) -> char {
    if 'A' <= c && c <= 'Z' {
        ((c as u32) + 32) as char
    } else {
        c
    }
}

pub fn to_ascii_lower(c: char) -> (r: char)
    ensures
        r == ascii_lower(c),
{
    if 'A' <= c && c <= 'Z' {
        ((c as u8) + 32) as char
    } else {
        c
    }
}

/// The ASCII letters and digits of `s`, lower-cased.
pub open spec fn norm_seq(s: Seq<char>) -> Seq<char>
    decreases s.len(),
{
    if s.len() == 0 {
        seq![]
    } else if is_ascii_alnum(s.last()) {
        norm_seq(s.drop_last()).push(ascii_lower(s.last()))
    } else {
        norm_seq(s.drop_last())
    }
}

/// Keeps only ASCII letters and digits, lower-cased (name matching key).
pub fn norm_name(s: &str) -> (r: String)
    ensures
        r@ == norm_seq(s@),
{
    let v = chars_of(s);
    let mut out: Vec<char> = Vec::new();
    let mut i: usize = 0;
    while i < v.len()
        invariant
            i <= v.len(),
            v@ == s@,
            out@ == norm_seq(v@.take(i as int)),
        decreases v.len() - i,
    {
        let c = v[i];
        assert(v@.take(i + 1).drop_last() =~= v@.take(i as int));
        assert(v@.take(i + 1).last() == c);
        if ('0' <= c && c <= '9') || ('a' <= c && c <= 'z') || ('A' <= c && c <= 'Z') {
            out.push(to_ascii_lower(c));
        }
        i += 1;
    }
    assert(v@.take(v.len() as int) =~= v@);
    string_from_chars(&out)
}

/// `_` and `-` read as spaces.
pub open spec fn sep_as_space(c: char) -> char {
    if c == '_' || c == '-' {
        ' '
    } else {
        c
    }
}

pub open spec fn lower_seq(s: Seq<char>) -> Seq<char> {
    s.map_values(|c: char| ascii_lower(c))
}

/// `s` with `_` and `-` as spaces.
pub open spec fn sep_seq(s: Seq<char>) -> Seq<char> {
    s.map_values(|c: char| sep_as_space(c))
}

/// `out` without the first case-insensitive occurrence of `nm`, trimmed.
pub open spec fn cut_variant(out: Seq<char>, nm: Seq<char>) -> Seq<char> {
    match find_seq(lower_seq(out), lower_seq(nm)) {
        Some(p) => trim_blanks(out.take(p) + out.skip(p + nm.len())),
        None => trim_blanks(out),
    }
}

/// Value of `car_variant`: the id with separators as spaces, minus the first
/// case-insensitive occurrence of the (separator-normalised) name, trimmed.
pub open spec fn car_variant_of(id: Seq<char>, name: Seq<char>) -> Seq<char> {
    cut_variant(sep_seq(id), sep_seq(name))
}

fn sep_and_lower(s: &str) -> (r: (Vec<char>, Vec<char>))
    ensures
        r.0@ == sep_seq(s@),
        r.1@ == lower_seq(r.0@),
        r.0@.len() == r.1@.len(),
{
    let v = chars_of(s);
    let mut a: Vec<char> = Vec::new();
    let mut b: Vec<char> = Vec::new();
    let mut i: usize = 0;
    while i < v.len()
        invariant
            i <= v.len(),
            v@ == s@,
            a@ == v@.take(i as int).map_values(|c: char| sep_as_space(c)),
            b@ == lower_seq(a@),
        decreases v.len() - i,
    {
        let c = v[i];
        let sc = if c == '_' || c == '-' { ' ' } else { c };
        a.push(sc);
        b.push(to_ascii_lower(sc));
        assert(v@.take(i + 1).map_values(|c: char| sep_as_space(c)) =~= v@.take(i as int).map_values(
            |c: char| sep_as_space(c),
        ).push(sep_as_space(c)));
        assert(lower_seq(a@) =~= b@);
        i += 1;
    }
    assert(v@.take(v.len() as int) =~= v@);
    assert(a@ == sep_seq(s@));
    (a, b)
}

/// `v` without the `len` characters starting at `p`.
fn remove_range(v: &Vec<char>, p: usize, len: usize) -> (o: Vec<char>)
    requires
        p + len <= v.len(),
    ensures
        o@ == v@.take(p as int) + v@.skip(p + len),
{
    let mut o: Vec<char> = Vec::new();
    let mut i: usize = 0;
    while i < p
        invariant
            i <= p,
            p + len <= v.len(),
            o@ == v@.take(i as int),
        decreases p - i,
    {
        o.push(v[i]);
        assert(v@.take(i + 1) =~= v@.take(i as int).push(v@[i as int]));
        i += 1;
    }
    let mut j: usize = p + len;
    while j < v.len()
        invariant
            p + len <= j <= v.len(),
            o@ == v@.take(p as int) + v@.subrange(p + len, j as int),
        decreases v.len() - j,
    {
        o.push(v[j]);
        assert(v@.subrange(p + len, j + 1) =~= v@.subrange(p + len, j as int).push(v@[j as int]));
        j += 1;
    }
    assert(v@.subrange(p + len, v.len() as int) =~= v@.skip(p + len));
    o
}

/// `v` trimmed of spaces and tabs, as a `String`.
fn trimmed_string(v: &Vec<char>) -> (r: String)
    ensures
        r@ == trim_blanks(v@),
{
    let (a, b) = trim_range(v, 0, v.len());
    assert(v@.subrange(0, v@.len() as int) =~= v@);
    crate::text::string_from_range(v, a, b)
}

/// The part of a car id that distinguishes it from cars of the same name
/// (e.g. the year or series), with separators as spaces.
pub fn car_variant(id: &str, name: &str) -> (r: String)
    ensures
        r@ == car_variant_of(id@, name@),
{
    let (out, lout) = sep_and_lower(id);
    let (nm, lnm) = sep_and_lower(name);
    assert(car_variant_of(id@, name@) == cut_variant(out@, nm@));
    let ghost fs = find_seq(lout@, lnm@);
    let found = find_chars(&lout, &lnm);
    if let Some(p) = found {
        assert(occurs_at(lout@, lnm@, p as int));
        assert(fs == Some(p as int));
        let o = remove_range(&out, p, nm.len());
        trimmed_string(&o)
    } else {
        assert(fs is None);
        trimmed_string(&out)
    }
}

} // verus!
