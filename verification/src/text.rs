//! Character-level helpers: strings are handled as sequences of `char`.

use vstd::prelude::*;

verus! {

/// The characters of `s`, in order.
pub fn chars_of(s: &str) -> (v: Vec<char>)
    ensures
        v@ == s@,
{
    let mut v: Vec<char> = Vec::new();
    for c in it: s.chars()
        invariant
            v@ == it.seq().take(it.index() as int),
            it.seq() == s@,
    {
        v.push(c);
    }
    v
}

/// Appends one character (`String::push`).
#[verifier::external_body]
pub(crate) fn push_char(s: &mut String, c: char)
    ensures
        final(s)@ == old(s)@.push(c),
{
    s.push(c);
}

/// A `String` holding exactly the characters `v[lo..hi]`.
pub fn string_from_range(v: &Vec<char>, lo: usize, hi: usize) -> (s: String)
    requires
        lo <= hi <= v.len(),
    ensures
        s@ == v@.subrange(lo as int, hi as int),
{
    let mut s = String::new();
    let mut i = lo;
    while i < hi
        invariant
            lo <= i <= hi <= v.len(),
            s@ == v@.subrange(lo as int, i as int),
        decreases hi - i,
    {
        push_char(&mut s, v[i]);
        assert(v@.subrange(lo as int, i + 1) == v@.subrange(lo as int, i as int).push(v@[i as int]));
        i += 1;
    }
    s
}

/// A `String` holding exactly the characters of `v`.
pub fn string_from_chars(v: &Vec<char>) -> (s: String)
    ensures
        s@ == v@,
{
    let s = string_from_range(v, 0, v.len());
    assert(v@.subrange(0, v@.len() as int) == v@);
    s
}

/// Character-wise equality of two strings.
pub fn str_eq(a: &str, b: &str) -> (r: bool)
    ensures
        r == (a@ == b@),
{
    let x = chars_of(a);
    let y = chars_of(b);
    if x.len() != y.len() {
        return false;
    }
    let mut i: usize = 0;
    while i < x.len()
        invariant
            x@ == a@,
            y@ == b@,
            x.len() == y.len(),
            i <= x.len(),
            forall|j: int| 0 <= j < i ==> x@[j] == y@[j],
        decreases x.len() - i,
    {
        if x[i] != y[i] {
            return false;
        }
        i += 1;
    }
    assert(x@ =~= y@);
    true
}

/// `true` when `n` occurs in `h` starting at position `p`.
pub open spec fn occurs_at(h: Seq<char>, n: Seq<char>, p: int) -> bool {
    0 <= p && p + n.len() <= h.len() && h.subrange(p, p + n.len()) == n
}

/// `true` when `n` occurs somewhere in `h` (`str::contains`).
pub open spec fn contains_seq(h: Seq<char>, n: Seq<char>) -> bool {
    exists|p: int| occurs_at(h, n, p)
}

/// The first position at which `n` occurs in `h` (`str::find`).
#[verifier::opaque]
pub open spec fn find_seq(h: Seq<char>, n: Seq<char>) -> Option<int> {
    if contains_seq(h, n) {
        Some(choose|p: int| occurs_at(h, n, p) && forall|q: int| 0 <= q < p ==> !occurs_at(h, n, q))
    } else {
        None
    }
}

/// Is `n` a sub-slice of `h` at position `p`?
pub fn matches_at(h: &Vec<char>, n: &Vec<char>, p: usize) -> (r: bool)
    requires
        p <= h.len(),
    ensures
        r == occurs_at(h@, n@, p as int),
{
    if n.len() > h.len() - p {
        return false;
    }
    let mut i: usize = 0;
    while i < n.len()
        invariant
            p + n.len() <= h.len(),
            i <= n.len(),
            forall|j: int| 0 <= j < i ==> h@[p + j] == n@[j],
        decreases n.len() - i,
    {
        if h[p + i] != n[i] {
            assert(h@.subrange(p as int, p + n.len())[i as int] != n@[i as int]);
            return false;
        }
        i += 1;
    }
    assert(h@.subrange(p as int, p + n.len()) =~= n@);
    true
}

proof fn lemma_find_first(h: Seq<char>, n: Seq<char>, p: int)
    requires
        occurs_at(h, n, p),
        forall|q: int| 0 <= q < p ==> !#[trigger] occurs_at(h, n, q),
    ensures
        find_seq(h, n) == Some(p),
        contains_seq(h, n),
{
    reveal(find_seq);
    assert(contains_seq(h, n));
    let c = choose|c: int| occurs_at(h, n, c) && forall|q: int| 0 <= q < c ==> !occurs_at(h, n, q);
    assert(occurs_at(h, n, p) && forall|q: int| 0 <= q < p ==> !occurs_at(h, n, q));
    assert(occurs_at(h, n, c) && forall|q: int| 0 <= q < c ==> !occurs_at(h, n, q));
    if c < p {
        assert(!occurs_at(h, n, c));
    } else if c > p {
        assert(!occurs_at(h, n, p));
    }
}

proof fn lemma_find_none(h: Seq<char>, n: Seq<char>)
    requires
        forall|q: int| 0 <= q <= h.len() ==> !#[trigger] occurs_at(h, n, q),
    ensures
        find_seq(h, n) == None::<int>,
        !contains_seq(h, n),
{
    reveal(find_seq);
    if contains_seq(h, n) {
        let c = choose|c: int| occurs_at(h, n, c);
        assert(occurs_at(h, n, c));
    }
}

/// First occurrence of `n` in `h`.
pub fn find_chars(h: &Vec<char>, n: &Vec<char>) -> (r: Option<usize>)
    ensures
        r matches Some(p) ==> find_seq(h@, n@) == Some(p as int) && occurs_at(h@, n@, p as int),
        r is None ==> find_seq(h@, n@) is None && !contains_seq(h@, n@),
        r is Some <==> contains_seq(h@, n@),
{
    let mut p: usize = 0;
    loop
        invariant
            p <= h.len(),
            forall|q: int| 0 <= q < p ==> !#[trigger] occurs_at(h@, n@, q),
        decreases h.len() - p,
    {
        if matches_at(h, n, p) {
            proof {
                lemma_find_first(h@, n@, p as int);
            }
            return Some(p);
        }
        if p == h.len() {
            proof {
                lemma_find_none(h@, n@);
            }
            return None;
        }
        p += 1;
    }
}

/// `str::contains` on character vectors.
pub fn contains_chars(h: &Vec<char>, n: &Vec<char>) -> (r: bool)
    ensures
        r == contains_seq(h@, n@),
{
    match find_chars(h, n) {
        Some(_) => true,
        None => false,
    }
}

/// Index of the first entry of `list` (from `i` on) whose text is `v`, or -1.
pub open spec fn index_from(list: Seq<&str>, v: Seq<char>, i: int) -> int
    decreases list.len() - i,
{
    if i < 0 || i >= list.len() {
        -1
    } else if list[i]@ == v {
        i
    } else {
        index_from(list, v, i + 1)
    }
}

/// Index of the first entry of `list` whose text is `v`, or -1.
pub open spec fn index_in(list: Seq<&str>, v: Seq<char>) -> int {
    index_from(list, v, 0)
}

proof fn lemma_index_from_bounds(list: Seq<&str>, v: Seq<char>, i: int)
    requires
        0 <= i,
    ensures
        index_from(list, v, i) == -1 || (i <= index_from(list, v, i) < list.len()
            && list[index_from(list, v, i)]@ == v),
    decreases list.len() - i,
{
    if i < list.len() && list[i]@ != v {
        lemma_index_from_bounds(list, v, i + 1);
    }
}

/// Position of the first entry of `list` whose text is `v`.
pub fn position_of(list: &[&str], v: &str) -> (r: Option<usize>)
    ensures
        match r {
            Some(i) => i as int == index_in(list@, v@) && i < list@.len() && list@[i as int]@ == v@,
            None => index_in(list@, v@) == -1,
        },
{
    let mut i: usize = 0;
    while i < list.len()
        invariant
            i <= list@.len(),
            index_in(list@, v@) == index_from(list@, v@, i as int),
        decreases list.len() - i,
    {
        if str_eq(list[i], v) {
            return Some(i);
        }
        i += 1;
    }
    None
}

/// Is `x` one of the strings of `v`?
pub fn contains_string(v: &Vec<String>, x: &str) -> (r: bool)
    ensures
        r == v@.map_values(|s: String| s@).contains(x@),
{
    let mut i: usize = 0;
    while i < v.len()
        invariant
            i <= v@.len(),
            forall|j: int| 0 <= j < i ==> v@[j]@ != x@,
        decreases v.len() - i,
    {
        if str_eq(v[i].as_str(), x) {
            assert(v@.map_values(|s: String| s@)[i as int] == x@);
            return true;
        }
        i += 1;
    }
    proof {
        let w = v@.map_values(|s: String| s@);
        assert forall|j: int| 0 <= j < w.len() implies w[j] != x@ by {
            assert(w[j] == v@[j]@);
        }
    }
    false
}

} // verus!
