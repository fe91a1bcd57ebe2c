//! The device link's framing and bookkeeping: HID output reports, the input
//! line buffer, the captured device log, and what a line from the SimHub
//! plugin asks for.

use vstd::prelude::*;
use crate::text::{chars_of, string_from_chars};
use crate::util::{trim_ws_seq, ws_trim_range, is_unicode_ws, ws_run, ws_back};
use crate::frame::{frame_text, frame_ok, frame_denotes, lemma_frame_edges, lemma_frame_roundtrip};
use crate::telemetry::Telemetry;
use crate::shm::{string_from_utf8_lossy, utf8_lossy};

verus! {

// ---------------------------------------------------------------- HID output

/// How many reports `len` bytes take (an empty message still takes one).
pub open spec fn report_count(len: int) -> int {
    if len <= 0 {
        1
    } else {
        (len + 60) / 61
    }
}

/// Report `k` of message `data`: id 2, the chunk length, the chunk
/// `data[61k..]` (at most 61 bytes), zero padding.
pub open spec fn report_of(data: Seq<u8>, k: int) -> Seq<u8> {
    let off = 61 * k;
    let n = if data.len() - off < 61 {
        data.len() - off
    } else {
        61
    };
    Seq::new(
        64,
        |j: int|
            if j == 0 {
                2u8
            } else if j == 1 {
                n as u8
            } else if j - 2 < n {
                data[off + j - 2]
            } else {
                0u8
            },
    )
}

/// Splits a message into the HID output reports that carry it.
pub fn hid_reports(data: &[u8]) -> (v: Vec<[u8; 64]>)
    ensures
        v@.len() == report_count(data@.len() as int),
        forall|k: int| 0 <= k < v@.len() ==> #[trigger] v@[k]@ == report_of(data@, k),
{
    let mut v: Vec<[u8; 64]> = Vec::new();
    let mut off: usize = 0;
    loop
        invariant_except_break
            off == 61 * v@.len(),
            v@.len() > 0 ==> off < data@.len(),
        invariant
            off <= data@.len(),
            forall|k: int| 0 <= k < v@.len() ==> #[trigger] v@[k]@ == report_of(data@, k),
        ensures
            v@.len() == report_count(data@.len() as int),
            forall|k: int| 0 <= k < v@.len() ==> #[trigger] v@[k]@ == report_of(data@, k),
        decreases data@.len() - off + 1,
    {
        let rest = data.len() - off;
        assert(data@.len() <= usize::MAX);
        let n: usize = if rest < 61 {
            rest
        } else {
            61
        };
        let mut rep = [0u8; 64];
        rep[0] = 2u8;
        rep[1] = n as u8;
        let mut j: usize = 0;
        while j < n
            invariant
                n <= 61,
                off + n <= data@.len() <= usize::MAX,
                j <= n,
                rep@.len() == 64,
                rep@[0] == 2u8,
                rep@[1] == n as u8,
                forall|i: int| 2 <= i < 2 + j ==> #[trigger] rep@[i] == data@[off + i - 2],
                forall|i: int| 2 + j <= i < 64 ==> #[trigger] rep@[i] == 0u8,
            decreases n - j,
        {
            rep[2 + j] = data[off + j];
            j += 1;
        }
        let ghost k = v@.len() as int;
        assert(rep@ =~= report_of(data@, k));
        v.push(rep);
        off += n;
        if off >= data.len() {
            proof {
                let len = data@.len() as int;
                if len > 0 {
                    assert((len + 60) / 61 == k + 1) by (nonlinear_arith)
                        requires
                            61 * k < len,
                            len <= 61 * (k + 1),
                    ;
                }
            }
            break;
        }
    }
    v
}

// ---------------------------------------------------------------- HID input

/// The payload an input report adds to the line buffer: for a data report
/// (id 2, more than one byte read) its declared length of bytes, capped at
/// what was read; nothing otherwise.
pub open spec fn report_payload(buf: Seq<u8>, r: int) -> Seq<u8> {
    if r > 1 && buf[0] == 2 {
        let n = if buf[1] > r - 2 {
            r - 2
        } else {
            buf[1] as int
        };
        buf.subrange(2, 2 + n)
    } else {
        Seq::empty()
    }
}

/// Adds the payload of an input report (`r` bytes read into `buf`) to the
/// line buffer.
pub fn accept_report(rx: &mut Vec<u8>, buf: &[u8], r: usize)
    requires
        r <= buf@.len(),
    ensures
        final(rx)@ == old(rx)@ + report_payload(buf@, r as int),
{
    if r > 1 && buf[0] == 2 {
        let mut n = buf[1] as usize;
        if n > r - 2 {
            n = r - 2;
        }
        let ghost start = rx@;
        let mut j: usize = 0;
        while j < n
            invariant
                n <= r - 2,
                r <= buf@.len(),
                j <= n,
                rx@ == start + buf@.subrange(2, 2 + j),
            decreases n - j,
        {
            rx.push(buf[2 + j]);
            j += 1;
            assert(rx@ =~= start + buf@.subrange(2, 2 + j));
        }
    } else {
        assert(rx@ =~= rx@ + Seq::<u8>::empty());
    }
}

/// Index of the first newline byte in `s`, if any.
pub open spec fn newline_at(s: Seq<u8>, i: int) -> Option<int>
    decreases s.len() - i,
{
    if i < 0 || i >= s.len() {
        None
    } else if s[i] == 10 {
        Some(i)
    } else {
        newline_at(s, i + 1)
    }
}

/// `s` without its trailing carriage returns.
pub open spec fn strip_cr(s: Seq<char>) -> Seq<char>
    decreases s.len(),
{
    if s.len() > 0 && s.last() == '\r' {
        strip_cr(s.drop_last())
    } else {
        s
    }
}

/// `s` without its trailing carriage returns.
pub fn strip_trailing_cr(s: &str) -> (r: String)
    ensures
        r@ == strip_cr(s@),
{
    let mut cs = chars_of(s);
    while cs.len() > 0 && cs[cs.len() - 1] == '\r'
        invariant
            strip_cr(cs@) == strip_cr(s@),
        decreases cs.len(),
    {
        let ghost before = cs@;
        cs.pop();
        assert(cs@ =~= before.drop_last());
    }
    assert(strip_cr(cs@) == cs@);
    string_from_chars(&cs)
}

/// Takes the first complete line out of the line buffer: its bytes before the
/// newline, decoded as UTF-8 (invalid sequences replaced), without trailing
/// carriage returns. `None`, with the buffer unchanged, when no newline has
/// arrived yet.
pub fn take_line(rx: &mut Vec<u8>) -> (r: Option<String>)
    ensures
        match newline_at(old(rx)@, 0) {
            Some(nl) => final(rx)@ == old(rx)@.skip(nl + 1) && (r matches Some(l) && l@ == strip_cr(
                utf8_lossy(old(rx)@.take(nl)),
            )),
            None => r is None && final(rx)@ == old(rx)@,
        },
{
    let mut i: usize = 0;
    while i < rx.len()
        invariant
            i <= rx@.len(),
            newline_at(rx@, 0) == newline_at(rx@, i as int),
        ensures
            i <= rx@.len(),
            newline_at(rx@, 0) == newline_at(rx@, i as int),
            i == rx@.len() || rx@[i as int] == 10,
        decreases rx.len() - i,
    {
        if rx[i] == 10 {
            break;
        }
        i += 1;
    }
    if i == rx.len() {
        return None;
    }
    let ghost all = rx@;
    assert(newline_at(all, i as int) == Some(i as int));
    let mut tail = rx.split_off(i + 1);
    let mut head = rx.split_off(0);
    let _nl = head.pop();
    assert(head@ =~= all.take(i as int));
    assert(tail@ =~= all.skip(i + 1));
    std::mem::swap(rx, &mut tail);
    let text = string_from_utf8_lossy(head.as_slice());
    Some(strip_trailing_cr(text.as_str()))
}

// ---------------------------------------------------------------- device log

/// Most device-log lines kept.
pub const DEVICE_LOG_CAP: usize = 2000;

/// The lines kept after appending `new` to `log`: the last `DEVICE_LOG_CAP`.
pub open spec fn capped_log(log: Seq<String>, new: Seq<String>) -> Seq<String> {
    let all = log + new;
    if all.len() > 2000 {
        all.skip(all.len() - 2000)
    } else {
        all
    }
}

/// Appends freshly captured device-log lines, dropping the oldest beyond the
/// cap.
pub fn append_device_log(log: &mut Vec<String>, new: Vec<String>)
    requires
        old(log)@.len() + new@.len() <= usize::MAX,
    ensures
        final(log)@ == capped_log(old(log)@, new@),
        final(log)@.len() <= DEVICE_LOG_CAP,
        new@.len() <= DEVICE_LOG_CAP ==> final(log)@.skip(final(log)@.len() - new@.len()) == new@,
{
    let mut add = new;
    log.append(&mut add);
    let len = log.len();
    if len > 2000 {
        let tail = log.split_off(len - 2000);
        *log = tail;
    }
    proof {
        let all = old(log)@ + new@;
        if new@.len() <= 2000 {
            assert(final(log)@.skip(final(log)@.len() - new@.len()) =~= new@) by {
                assert forall|j: int| 0 <= j < new@.len() implies final(log)@.skip(final(log)@.len() - new@.len())[j] == new@[j] by {
                    assert(all[old(log)@.len() + j] == new@[j]);
                }
            }
        }
    }
}

/// The device log as one text: the lines joined by newlines.
pub open spec fn log_text(lines: Seq<String>, n: int) -> Seq<char>
    decreases n,
{
    if n <= 0 {
        Seq::empty()
    } else if n == 1 {
        lines[0]@
    } else {
        log_text(lines, n - 1) + seq!['\n'] + lines[n - 1]@
    }
}

/// The device-log view's text: the captured lines joined by newlines.
pub fn device_log_text(log: &Vec<String>) -> (r: String)
    ensures
        r@ == log_text(log@, log@.len() as int),
{
    let mut out: Vec<char> = Vec::new();
    let mut i: usize = 0;
    while i < log.len()
        invariant
            i <= log@.len(),
            out@ == log_text(log@, i as int),
        decreases log.len() - i,
    {
        let ghost before = out@;
        if i > 0 {
            out.push('\n');
        }
        let c = chars_of(log[i].as_str());
        crate::format::push_all(&mut out, &c);
        proof {
            if i == 0 {
                assert(out@ =~= log@[0]@);
            } else {
                assert(out@ =~= before + seq!['\n'] + log@[i as int]@);
            }
        }
        i += 1;
    }
    string_from_chars(&out)
}

// ---------------------------------------------------------------- plugin lines

/// What one line from the SimHub plugin asks for.
pub enum SimLine {
    /// Nothing to do (empty, an empty car model, unknown, or a frame while a
    /// firmware update runs).
    Ignore,
    /// The car model (trimmed, not empty) the game reports.
    CarModel(String),
    /// The track (trimmed) the game reports.
    Track(String),
    /// A telemetry frame: the whole line, and the line without its `$`.
    Frame(String, String),
}

/// The classification of a line (already trimmed) as `classify_line` gives it.
pub open spec fn sim_line_kind(t: Seq<char>, ota: bool) -> (int, Seq<char>) {
    if t.len() == 0 {
        (0, t)
    } else if t.len() >= 3 && t.take(3) == "@CM"@ {
        let m = trim_ws_seq(t.skip(3));
        if m.len() == 0 {
            (0, m)
        } else {
            (1, m)
        }
    } else if t.len() >= 4 && t.take(4) == "@MAP"@ {
        (2, trim_ws_seq(t.skip(4)))
    } else if t[0] == '$' && !ota {
        (3, t.skip(1))
    } else {
        (0, t)
    }
}

/// `true` when `r` is the result `sim_line_kind` describes for trimmed line `t`.
pub open spec fn sim_line_is(r: SimLine, t: Seq<char>, ota: bool) -> bool {
    let (k, x) = sim_line_kind(t, ota);
    match r {
        SimLine::Ignore => k == 0,
        SimLine::CarModel(m) => k == 1 && m@ == x,
        SimLine::Track(tr) => k == 2 && tr@ == x,
        SimLine::Frame(l, p) => k == 3 && l@ == t && p@ == x,
    }
}

fn has_prefix(v: &Vec<char>, p: &str) -> (r: bool)
    ensures
        r == (v@.len() >= p@.len() && v@.take(p@.len() as int) == p@),
{
    let pc = chars_of(p);
    if pc.len() > v.len() {
        return false;
    }
    let mut i: usize = 0;
    while i < pc.len()
        invariant
            pc@ == p@,
            pc@.len() <= v@.len(),
            i <= pc@.len(),
            forall|j: int| 0 <= j < i ==> v@[j] == pc@[j],
        decreases pc.len() - i,
    {
        if v[i] != pc[i] {
            assert(v@.take(pc@.len() as int)[i as int] != pc@[i as int]);
            return false;
        }
        i += 1;
    }
    assert(v@.take(pc@.len() as int) =~= pc@);
    true
}

fn trimmed_from(v: &Vec<char>, k: usize) -> (r: String)
    requires
        k <= v@.len(),
    ensures
        r@ == trim_ws_seq(v@.skip(k as int)),
{
    let mut rest: Vec<char> = Vec::new();
    let mut i = k;
    while i < v.len()
        invariant
            k <= i <= v@.len(),
            rest@ == v@.subrange(k as int, i as int),
        decreases v.len() - i,
    {
        rest.push(v[i]);
        i += 1;
    }
    assert(rest@ =~= v@.skip(k as int));
    let (a, b) = ws_trim_range(&rest);
    crate::text::string_from_range(&rest, a, b)
}

/// Classifies one line from the SimHub plugin: after trimming, `@CM` gives the
/// car model, `@MAP` the track, and `$` a telemetry frame (ignored while a
/// firmware update runs).
pub fn classify_line(line: &str, ota_active: bool) -> (r: SimLine)
    ensures
        sim_line_is(r, trim_ws_seq(line@), ota_active),
{
    proof {
        reveal_strlit("@CM");
        reveal_strlit("@MAP");
    }
    let v = chars_of(line);
    let (a, b) = ws_trim_range(&v);
    let t = crate::text::string_from_range(&v, a, b);
    let tc = chars_of(t.as_str());
    if tc.len() == 0 {
        return SimLine::Ignore;
    }
    if has_prefix(&tc, "@CM") {
        let m = trimmed_from(&tc, 3);
        let mc = chars_of(m.as_str());
        if mc.len() == 0 {
            return SimLine::Ignore;
        }
        return SimLine::CarModel(m);
    }
    if has_prefix(&tc, "@MAP") {
        return SimLine::Track(trimmed_from(&tc, 4));
    }
    if tc[0] == '$' && !ota_active {
        let mut p: Vec<char> = Vec::new();
        let mut i: usize = 1;
        while i < tc.len()
            invariant
                1 <= i <= tc@.len(),
                p@ == tc@.subrange(1, i as int),
            decreases tc.len() - i,
        {
            p.push(tc[i]);
            i += 1;
        }
        assert(p@ =~= tc@.skip(1));
        return SimLine::Frame(t, string_from_chars(&p));
    }
    SimLine::Ignore
}

/// When frames were last pushed to the device and to the preview (in ms of a
/// monotonic clock).
pub struct FrameClock {
    pub last_push_ms: u64,
    pub last_preview_ms: u64,
}

/// Milliseconds from `then` to `now` (0 if `now` is earlier).
pub open spec fn elapsed_between(then: u64, now: u64) -> int {
    if now >= then {
        now - then
    } else {
        0
    }
}

impl FrameClock {
    /// A clock whose last push and preview are both `now_ms`.
    pub fn new(now_ms: u64) -> (c: FrameClock)
        ensures
            c.last_push_ms == now_ms,
            c.last_preview_ms == now_ms,
    {
        FrameClock { last_push_ms: now_ms, last_preview_ms: now_ms }
    }

    /// A frame arrived at `now_ms`: push it to the device when 33 ms have
    /// passed since the last push (about 30 Hz), and to the preview when 80 ms
    /// have passed since the last preview; each chosen one restarts its timer.
    pub fn on_frame(&mut self, now_ms: u64) -> (r: (bool, bool))
        ensures
            r.0 == (elapsed_between(old(self).last_push_ms, now_ms) >= 33),
            r.1 == (elapsed_between(old(self).last_preview_ms, now_ms) >= 80),
            final(self).last_push_ms == if r.0 {
                now_ms
            } else {
                old(self).last_push_ms
            },
            final(self).last_preview_ms == if r.1 {
                now_ms
            } else {
                old(self).last_preview_ms
            },
    {
        let sp: u64 = if now_ms >= self.last_push_ms {
            now_ms - self.last_push_ms
        } else {
            0
        };
        let sv: u64 = if now_ms >= self.last_preview_ms {
            now_ms - self.last_preview_ms
        } else {
            0
        };
        let push = sp >= 33;
        let preview = sv >= 80;
        if push {
            self.last_push_ms = now_ms;
        }
        if preview {
            self.last_preview_ms = now_ms;
        }
        (push, preview)
    }
}

// ---------------------------------------------------------------- laws

/// What the line buffer gains from the first `n` reports of a message, each
/// received whole (64 bytes).
pub open spec fn reassembled(data: Seq<u8>, n: int) -> Seq<u8>
    decreases n,
{
    if n <= 0 {
        Seq::empty()
    } else {
        reassembled(data, n - 1) + report_payload(report_of(data, n - 1), 64)
    }
}

proof fn lemma_reassembled_prefix(data: Seq<u8>, n: int)
    requires
        0 <= n <= report_count(data.len() as int),
        61 * (n - 1) < data.len() || n <= 1,
    ensures
        reassembled(data, n) == data.take(if 61 * n <= data.len() {
            61 * n
        } else {
            data.len() as int
        }),
    decreases n,
{
    if n > 0 {
        lemma_reassembled_prefix(data, n - 1);
        let k = n - 1;
        let off = 61 * k;
        let rep = report_of(data, k);
        let cnt = if data.len() - off < 61 {
            data.len() - off
        } else {
            61
        };
        assert(rep[0] == 2u8);
        assert(rep[1] == cnt as u8);
        assert(report_payload(rep, 64) =~= data.subrange(off, off + cnt));
        assert(reassembled(data, n) =~= data.take(off + cnt));
    }
}

/// Feeding each report of a message, received whole, to the line buffer
/// gives back the message.
pub proof fn lemma_reports_reassemble(data: Seq<u8>)
    ensures
        reassembled(data, report_count(data.len() as int)) == data,
{
    let c = report_count(data.len() as int);
    if data.len() > 0 {
        let len = data.len() as int;
        assert(61 * (c - 1) < len && len <= 61 * c) by (nonlinear_arith)
            requires
                len > 0,
                c == (len + 60) / 61,
        ;
    }
    lemma_reassembled_prefix(data, c);
    assert(data.take(data.len() as int) =~= data);
}

/// A frame line written by the library (for any gear but `;`), arriving from
/// the plugin outside a firmware update, is taken whole as a frame, and the
/// line parses back to exactly the sample it was written from.
pub proof fn lemma_written_frames_are_taken(t: Telemetry)
    requires
        t.gear != 59,
    ensures
        trim_ws_seq(frame_text(t)) == frame_text(t),
        sim_line_kind(frame_text(t), false).0 == 3,
        frame_ok(frame_text(t)),
        forall|u: Telemetry| #[trigger] frame_denotes(frame_text(t), u) <==> u == t,
{
    reveal_strlit("@CM");
    reveal_strlit("@MAP");
    let f = frame_text(t);
    lemma_frame_edges(t);
    lemma_frame_roundtrip(t);
    assert(!is_unicode_ws(f[0]));
    assert(ws_run(f) == 0);
    assert(f.skip(0) =~= f);
    assert(!is_unicode_ws(f.last()));
    assert(ws_back(f) == 0);
    assert(f.take(f.len() as int) =~= f);
    assert(f.take(3)[0] == '$');
    assert(f.take(4)[0] == '$');
}

} // verus!
