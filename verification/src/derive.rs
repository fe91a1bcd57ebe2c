//! Dashboard-side derived telemetry: channels no game transmits directly but
//! that can be computed from the stream: best lap (fastest completed lap),
//! current lap time (wall clock since the lap rolled), fuel per lap / laps
//! left (fuel burn across laps) and a lap delta (current pace against the best
//! lap, by track position). Each fills only a channel the source left empty,
//! so a source that does provide it always wins.

use vstd::prelude::*;
use crate::telemetry::Telemetry;

verus! {

/// Number of track-position buckets the delta is sampled in.
pub const NB: usize = 100;

#[verifier::external_type_specification]
#[verifier::external_body]
pub struct ExInstant(std::time::Instant);

/// The current instant (`Instant::now`).
pub assume_specification[ std::time::Instant::now ]() -> std::time::Instant;

/// Milliseconds elapsed since `epoch` (`Instant::elapsed`, truncated to u64).
/// Nothing is stated of the value: it is read from the machine's clock.
#[verifier::external_body]
fn elapsed_ms(epoch: &std::time::Instant) -> u64 {
    epoch.elapsed().as_millis() as u64
}

/// Best lap = the fastest completed lap seen this session.
#[derive(Clone, Copy)]
pub struct BestLap {
    pub best_ms: i32,
    pub last_seen_lap: i32,
}

/// Current lap time by wall clock.
#[derive(Clone, Copy)]
pub struct CurLap {
    pub started: bool,
    pub last_lap: i32,
    pub lap_start_ms: u64,
}

/// Fuel burned per completed lap.
#[derive(Clone, Copy)]
pub struct Fuel {
    pub started: bool,
    pub last_lap: i32,
    pub lap_start_fuel_dl: i32,
    pub per_lap_ml: i32,
}

/// Current-lap pace against the best lap, per track-position bucket.
pub struct Delta {
    pub started: bool,
    pub have_ref: bool,
    pub last_lap: i32,
    pub best_lap_ms: i32,
    pub best_ref: Vec<i32>,
    pub cur: Vec<i32>,
}

/// All derived-channel trackers, run in order each frame.
pub struct Derived {
    pub best: BestLap,
    pub cur: CurLap,
    pub fuel: Fuel,
    pub delta: Delta,
    pub epoch: std::time::Instant,
}

// ---------------------------------------------------------------- model

/// A plain copy of the tracker state (the delta tables as sequences).
pub struct DeltaState {
    pub started: bool,
    pub have_ref: bool,
    pub last_lap: i32,
    pub best_lap_ms: i32,
    pub best_ref: Seq<i32>,
    pub cur: Seq<i32>,
}

impl Delta {
    pub open spec fn state(&self) -> DeltaState {
        DeltaState {
            started: self.started,
            have_ref: self.have_ref,
            last_lap: self.last_lap,
            best_lap_ms: self.best_lap_ms,
            best_ref: self.best_ref@,
            cur: self.cur@,
        }
    }
}

/// `b` after also considering lap time `v` (0 = none yet).
pub open spec fn faster_of(b: i32, v: i32) -> i32 {
    if v > 0 && (b == 0 || v < b) {
        v
    } else {
        b
    }
}

pub open spec fn best_lap_step(s: BestLap, t: Telemetry) -> (BestLap, Telemetry) {
    let b0: i32 = if t.laps_done < s.last_seen_lap { 0 } else { s.best_ms };
    let b2 = faster_of(faster_of(b0, t.best_lap_ms), t.last_lap_ms);
    let s2 = BestLap { best_ms: b2, last_seen_lap: t.laps_done };
    if t.best_lap_ms == 0 && b2 > 0 {
        (s2, Telemetry { best_lap_ms: b2, ..t })
    } else {
        (s2, t)
    }
}

pub open spec fn cur_lap_step(s: CurLap, t: Telemetry, now: u64) -> (CurLap, Telemetry) {
    if t.cur_lap_ms > 0 {
        (s, t)
    } else {
        let s2 = if !s.started || t.laps_done != s.last_lap {
            CurLap { started: true, last_lap: t.laps_done, lap_start_ms: now }
        } else {
            s
        };
        let elapsed: int = if now >= s2.lap_start_ms { now - s2.lap_start_ms } else { 0 };
        (s2, Telemetry { cur_lap_ms: elapsed as i32, ..t })
    }
}

/// Exponential moving average of per-lap use, seeded with the first sample.
pub open spec fn ema(prev: i32, used: int) -> i32 {
    if prev == 0 {
        used as i32
    } else {
        ((prev * 3 + used) / 4) as i32
    }
}

pub open spec fn fuel_step(s: Fuel, t: Telemetry) -> (Fuel, Telemetry) {
    let (s2, t2) = if t.fuel_per_lap_ml > 0 {
        (Fuel { per_lap_ml: t.fuel_per_lap_ml, ..s }, t)
    } else {
        let s1 = if !s.started || t.laps_done < s.last_lap {
            Fuel { started: true, last_lap: t.laps_done, lap_start_fuel_dl: t.fuel_dl, ..s }
        } else if t.laps_done > s.last_lap {
            let used: int = (s.lap_start_fuel_dl - t.fuel_dl) * 100;
            Fuel {
                last_lap: t.laps_done,
                lap_start_fuel_dl: t.fuel_dl,
                per_lap_ml: if used > 50 && used < 30_000 { ema(s.per_lap_ml, used) } else { s.per_lap_ml },
                ..s
            }
        } else {
            s
        };
        if s1.per_lap_ml > 0 {
            (s1, Telemetry { fuel_per_lap_ml: s1.per_lap_ml, ..t })
        } else {
            (s1, t)
        }
    };
    if t2.fuel_laps_x10 == 0 && s2.per_lap_ml > 0 && t2.fuel_dl > 0 {
        (s2, Telemetry { fuel_laps_x10: ((t2.fuel_dl * 1000) / (s2.per_lap_ml as int)) as i32, ..t2 })
    } else {
        (s2, t2)
    }
}

/// The track-position bucket of `track_pct` (0..=1000 tenths of a percent).
pub open spec fn bucket_of(track_pct: i32) -> int {
    let p: int = if track_pct < 0 { 0 } else if track_pct > 1000 { 1000 } else { track_pct as int };
    let b = p * 100 / 1001;
    if b > 99 { 99 } else { b }
}

pub open spec fn delta_step(s: DeltaState, t: Telemetry) -> (DeltaState, Telemetry) {
    if t.delta_ms != 0 {
        (s, t)
    } else {
        let b = bucket_of(t.track_pct);
        let cur_ms = t.cur_lap_ms;
        let zeros = Seq::new(NB as nat, |i: int| 0i32);
        let s1 = if !s.started || t.laps_done < s.last_lap {
            DeltaState { started: true, last_lap: t.laps_done, cur: zeros, ..s }
        } else if t.laps_done > s.last_lap {
            let s0 = if t.last_lap_ms > 0 && (!s.have_ref || t.last_lap_ms < s.best_lap_ms) {
                DeltaState { best_ref: s.cur, best_lap_ms: t.last_lap_ms, have_ref: true, ..s }
            } else {
                s
            };
            DeltaState { last_lap: t.laps_done, cur: zeros, ..s0 }
        } else {
            s
        };
        if cur_ms > 0 {
            let s2 = DeltaState { cur: s1.cur.update(b, cur_ms), ..s1 };
            let r = s1.best_ref[b];
            if s1.have_ref && r > 0 {
                (s2, Telemetry { delta_ms: vstd::wrapping::i32_specs::wrapping_mul((cur_ms - r) as i32, 10), ..t })
            } else {
                (s2, t)
            }
        } else {
            (s1, t)
        }
    }
}

impl Fuel {
    /// The fuel use per lap is never negative (it is adopted from the source
    /// only when positive, and averaged from positive samples).
    pub open spec fn wf(&self) -> bool {
        0 <= self.per_lap_ml
    }
}

impl Derived {
    /// Tracker invariant: the delta tables hold one slot per bucket and the
    /// fuel tracker's levels stay where its arithmetic cannot overflow.
    pub open spec fn wf(&self) -> bool {
        &&& self.delta.cur@.len() == NB
        &&& self.delta.best_ref@.len() == NB
        &&& self.fuel.wf()
    }
}

/// Does `v` fit in an `i32`?
pub open spec fn fits_i32(v: int) -> bool {
    i32::MIN <= v <= i32::MAX
}

/// Does the fuel tracker's arithmetic on frame `t` stay within `i32`? Only
/// three paths compute: on a lap roll without a source fuel-per-lap, the fuel
/// burned (start level minus level, times 100) and, for a plausible burn with
/// an average already held, the moving average (three times it plus the
/// burn); and, when the laps-left estimate is filled in, the level times 1000.
pub open spec fn fuel_ok(s: Fuel, t: Telemetry) -> bool {
    let lapped = t.fuel_per_lap_ml <= 0 && s.started && t.laps_done >= s.last_lap && t.laps_done
        > s.last_lap;
    let diff: int = s.lap_start_fuel_dl - t.fuel_dl;
    &&& lapped ==> fits_i32(diff) && fits_i32(diff * 100)
    &&& lapped && 50 < diff * 100 < 30_000 && s.per_lap_ml != 0 ==> fits_i32(s.per_lap_ml * 3)
        && fits_i32(s.per_lap_ml * 3 + diff * 100)
    &&& t.fuel_laps_x10 == 0 && fuel_step(s, t).0.per_lap_ml > 0 && t.fuel_dl > 0 ==> t.fuel_dl * 1000
        <= i32::MAX
}

// ---------------------------------------------------------------- trackers

impl BestLap {
    fn update(&mut self, t: &mut Telemetry)
        ensures
            (*final(self), *final(t)) == best_lap_step(*old(self), *old(t)),
    {
        if t.laps_done < self.last_seen_lap {
            self.best_ms = 0;
        }
        self.last_seen_lap = t.laps_done;
        let v = t.best_lap_ms;
        if v > 0 && (self.best_ms == 0 || v < self.best_ms) {
            self.best_ms = v;
        }
        let v = t.last_lap_ms;
        if v > 0 && (self.best_ms == 0 || v < self.best_ms) {
            self.best_ms = v;
        }
        if t.best_lap_ms == 0 && self.best_ms > 0 {
            t.best_lap_ms = self.best_ms;
        }
    }
}

impl CurLap {
    fn update(&mut self, t: &mut Telemetry, now: u64)
        ensures
            (*final(self), *final(t)) == cur_lap_step(*old(self), *old(t), now),
    {
        if t.cur_lap_ms > 0 {
            return;
        }
        if !self.started || t.laps_done != self.last_lap {
            self.started = true;
            self.last_lap = t.laps_done;
            self.lap_start_ms = now;
        }
        let elapsed: u64 = if now >= self.lap_start_ms { now - self.lap_start_ms } else { 0 };
        t.cur_lap_ms = elapsed as i32;
    }
}

impl Fuel {
    fn update(&mut self, t: &mut Telemetry)
        requires
            old(self).wf(),
            fuel_ok(*old(self), *old(t)),
        ensures
            (*final(self), *final(t)) == fuel_step(*old(self), *old(t)),
            final(self).wf(),
    {
        if t.fuel_per_lap_ml > 0 {
            self.per_lap_ml = t.fuel_per_lap_ml;
        } else {
            if !self.started || t.laps_done < self.last_lap {
                self.started = true;
                self.last_lap = t.laps_done;
                self.lap_start_fuel_dl = t.fuel_dl;
            } else if t.laps_done > self.last_lap {
                let used_ml = (self.lap_start_fuel_dl - t.fuel_dl) * 100;
                self.last_lap = t.laps_done;
                self.lap_start_fuel_dl = t.fuel_dl;
                if used_ml > 50 && used_ml < 30_000 {
                    self.per_lap_ml = if self.per_lap_ml == 0 {
                        used_ml
                    } else {
                        (self.per_lap_ml * 3 + used_ml) / 4
                    };
                }
            }
            if self.per_lap_ml > 0 {
                t.fuel_per_lap_ml = self.per_lap_ml;
            }
        }
        if t.fuel_laps_x10 == 0 && self.per_lap_ml > 0 && t.fuel_dl > 0 {
            t.fuel_laps_x10 = t.fuel_dl * 1000 / self.per_lap_ml;
        }
    }
}

fn zero_buckets() -> (v: Vec<i32>)
    ensures
        v@ == Seq::new(NB as nat, |i: int| 0i32),
{
    let mut v: Vec<i32> = Vec::new();
    while v.len() < NB
        invariant
            v.len() <= NB,
            forall|i: int| 0 <= i < v.len() ==> v@[i] == 0,
        decreases NB - v.len(),
    {
        v.push(0);
    }
    assert(v@ =~= Seq::new(NB as nat, |i: int| 0i32));
    v
}

fn copy_buckets(src: &Vec<i32>) -> (v: Vec<i32>)
    ensures
        v@ == src@,
{
    let mut v: Vec<i32> = Vec::new();
    let mut i: usize = 0;
    while i < src.len()
        invariant
            i <= src.len(),
            v@ == src@.take(i as int),
        decreases src.len() - i,
    {
        v.push(src[i]);
        assert(src@.take(i + 1) =~= src@.take(i as int).push(src@[i as int]));
        i += 1;
    }
    assert(src@.take(src.len() as int) =~= src@);
    v
}

impl Delta {
    fn update(&mut self, t: &mut Telemetry)
        requires
            old(self).cur@.len() == NB,
            old(self).best_ref@.len() == NB,
        ensures
            (final(self).state(), *final(t)) == delta_step(old(self).state(), *old(t)),
            final(self).cur@.len() == NB,
            final(self).best_ref@.len() == NB,
    {
        if t.delta_ms != 0 {
            return;
        }
        let p: i32 = if t.track_pct < 0 {
            0
        } else if t.track_pct > 1000 {
            1000
        } else {
            t.track_pct
        };
        let mut bucket: usize = (p as usize) * NB / 1001;
        if bucket > NB - 1 {
            bucket = NB - 1;
        }
        assert(bucket == bucket_of(t.track_pct));
        let cur_ms = t.cur_lap_ms;
        if !self.started || t.laps_done < self.last_lap {
            self.started = true;
            self.last_lap = t.laps_done;
            self.cur = zero_buckets();
        } else if t.laps_done > self.last_lap {
            if t.last_lap_ms > 0 && (!self.have_ref || t.last_lap_ms < self.best_lap_ms) {
                self.best_ref = copy_buckets(&self.cur);
                self.best_lap_ms = t.last_lap_ms;
                self.have_ref = true;
            }
            self.last_lap = t.laps_done;
            self.cur = zero_buckets();
        }
        if cur_ms > 0 {
            self.cur.set(bucket, cur_ms);
            if self.have_ref {
                let r = self.best_ref[bucket];
                if r > 0 {
                    t.delta_ms = (cur_ms - r).wrapping_mul(10);
                }
            }
        }
    }
}

impl Derived {
    /// A fresh set of trackers (nothing seen yet).
    pub fn new() -> (d: Derived)
        ensures
            d.wf(),
            d.trackers() == initial_trackers(),
    {
        let z = zero_buckets();
        let z2 = zero_buckets();
        let d = 
        Derived {
            best: BestLap { best_ms: 0, last_seen_lap: 0 },
            cur: CurLap { started: false, last_lap: 0, lap_start_ms: 0 },
            fuel: Fuel { started: false, last_lap: 0, lap_start_fuel_dl: 0, per_lap_ml: 0 },
            delta: Delta {
                started: false,
                have_ref: false,
                last_lap: 0,
                best_lap_ms: 0,
                best_ref: z,
                cur: z2,
            },
            epoch: std::time::Instant::now(),
        };
        assert(d.delta.state() == initial_trackers().delta);
        d
    }

    /// Checks `fuel_ok`: whether the trackers can take frame `t` without the
    /// fuel arithmetic overflowing.
    pub fn fuel_fits(&self, t: &Telemetry) -> (b: bool)
        requires
            self.wf(),
        ensures
            b == fuel_ok(self.fuel, *t),
    {
        let f = &self.fuel;
        let top: i64 = 2147483647;
        let bot: i64 = -2147483648;
        let lapped = t.fuel_per_lap_ml <= 0 && f.started && t.laps_done >= f.last_lap && t.laps_done
            > f.last_lap;
        let diff: i64 = f.lap_start_fuel_dl as i64 - t.fuel_dl as i64;
        let used: i64 = diff * 100;
        let p3: i64 = f.per_lap_ml as i64 * 3;
        let in_range = 50 < used && used < 30_000;
        if lapped {
            if !(bot <= diff && diff <= top && bot <= used && used <= top) {
                return false;
            }
            if in_range && f.per_lap_ml != 0 && !(p3 <= top && p3 + used <= top) {
                return false;
            }
        }
        let per: i64 = if t.fuel_per_lap_ml > 0 {
            t.fuel_per_lap_ml as i64
        } else if lapped && in_range {
            if f.per_lap_ml == 0 {
                used
            } else {
                (p3 + used) / 4
            }
        } else {
            f.per_lap_ml as i64
        };
        proof {
            if t.fuel_per_lap_ml <= 0 && lapped && in_range && f.per_lap_ml != 0 {
                assert(ema(f.per_lap_ml, used as int) == (p3 + used) / 4);
            }
        }
        assert(per == fuel_step(self.fuel, *t).0.per_lap_ml);
        !(t.fuel_laps_x10 == 0 && per > 0 && t.fuel_dl > 0) || t.fuel_dl as i64 * 1000 <= top
    }

    /// Runs every tracker on frame `t` at clock reading `now` (ms).
    pub fn update_at(&mut self, t: &mut Telemetry, now: u64)
        requires
            old(self).wf(),
            fuel_ok(old(self).fuel, *old(t)),
        ensures
            final(self).wf(),
            derived_step(old(self).trackers(), *old(t), now) == (final(self).trackers(), *final(t)),
    {
        self.best.update(t);
        self.cur.update(t, now);
        self.fuel.update(t);
        self.delta.update(t);
    }

    /// Runs every tracker on frame `t`, timing laps by the monotonic clock.
    pub fn update(&mut self, t: &mut Telemetry)
        requires
            old(self).wf(),
            fuel_ok(old(self).fuel, *old(t)),
        ensures
            final(self).wf(),
            exists|now: u64|
                derived_step(old(self).trackers(), *old(t), now) == (
                    #[trigger] final(self).trackers(),
                    *final(t),
                ),
    {
        let now = elapsed_ms(&self.epoch);
        self.update_at(t, now);
    }

    pub open spec fn trackers(&self) -> Trackers {
        Trackers { best: self.best, cur: self.cur, fuel: self.fuel, delta: self.delta.state() }
    }
}

impl Default for Derived {
    fn default() -> (d: Derived)
        ensures
            d.wf(),
            d.trackers() == initial_trackers(),
    {
        Derived::new()
    }
}

/// The trackers before any frame.
pub open spec fn initial_trackers() -> Trackers {
    Trackers {
        best: BestLap { best_ms: 0, last_seen_lap: 0 },
        cur: CurLap { started: false, last_lap: 0, lap_start_ms: 0 },
        fuel: Fuel { started: false, last_lap: 0, lap_start_fuel_dl: 0, per_lap_ml: 0 },
        delta: DeltaState {
            started: false,
            have_ref: false,
            last_lap: 0,
            best_lap_ms: 0,
            best_ref: Seq::new(NB as nat, |i: int| 0i32),
            cur: Seq::new(NB as nat, |i: int| 0i32),
        },
    }
}

/// The trackers' state as plain values.
pub struct Trackers {
    pub best: BestLap,
    pub cur: CurLap,
    pub fuel: Fuel,
    pub delta: DeltaState,
}

/// One frame through all trackers, in order: best lap, current lap, fuel,
/// delta (the delta reads the lap time the current-lap tracker filled in).
pub open spec fn derived_step(s: Trackers, t: Telemetry, now: u64) -> (Trackers, Telemetry) {
    let (b, t1) = best_lap_step(s.best, t);
    let (c, t2) = cur_lap_step(s.cur, t1, now);
    let (f, t3) = fuel_step(s.fuel, t2);
    let (d, t4) = delta_step(s.delta, t3);
    (Trackers { best: b, cur: c, fuel: f, delta: d }, t4)
}

// ---------------------------------------------------------------- laws

/// Law: the trackers write only the five derived channels (current, best lap,
/// delta, fuel per lap, fuel laps), and each only when the source left it
/// empty; the gear and every other channel pass through unchanged.
pub proof fn lemma_source_wins(s: Trackers, t: Telemetry, now: u64)
    ensures
        ({
            let u = derived_step(s, t, now).1;
            &&& u == Telemetry {
                cur_lap_ms: u.cur_lap_ms,
                best_lap_ms: u.best_lap_ms,
                delta_ms: u.delta_ms,
                fuel_per_lap_ml: u.fuel_per_lap_ml,
                fuel_laps_x10: u.fuel_laps_x10,
                ..t
            }
            &&& t.best_lap_ms != 0 ==> u.best_lap_ms == t.best_lap_ms
            &&& t.cur_lap_ms > 0 ==> u.cur_lap_ms == t.cur_lap_ms
            &&& t.fuel_per_lap_ml > 0 ==> u.fuel_per_lap_ml == t.fuel_per_lap_ml
            &&& t.fuel_laps_x10 != 0 ==> u.fuel_laps_x10 == t.fuel_laps_x10
            &&& t.delta_ms != 0 ==> u.delta_ms == t.delta_ms
        }),
{
    let (b, t1) = best_lap_step(s.best, t);
    let (c, t2) = cur_lap_step(s.cur, t1, now);
    let (f, t3) = fuel_step(s.fuel, t2);
    let (d, t4) = delta_step(s.delta, t3);
    assert(t1 == Telemetry { best_lap_ms: t1.best_lap_ms, ..t });
    assert(t2 == Telemetry { cur_lap_ms: t2.cur_lap_ms, ..t1 });
    assert(t3 == Telemetry { fuel_per_lap_ml: t3.fuel_per_lap_ml, fuel_laps_x10: t3.fuel_laps_x10, ..t2 });
    assert(t4 == Telemetry { delta_ms: t4.delta_ms, ..t3 });
}

/// The best-lap tracker after a run of frames.
pub open spec fn run_best(s: BestLap, frames: Seq<Telemetry>) -> BestLap
    decreases frames.len(),
{
    if frames.len() == 0 {
        s
    } else {
        run_best(best_lap_step(s, frames[0]).0, frames.drop_first())
    }
}

/// The lap counter never goes back during `frames` (one session).
pub open spec fn one_session(s: BestLap, frames: Seq<Telemetry>) -> bool {
    &&& frames.len() > 0 ==> frames[0].laps_done >= s.last_seen_lap
    &&& forall|i: int| 0 < i < frames.len() ==> #[trigger] frames[i].laps_done >= frames[i - 1].laps_done
}

/// A lap time of frame `f` (its reported best or its last completed lap).
pub open spec fn lap_time_of(f: Telemetry, v: i32) -> bool {
    v == f.best_lap_ms || v == f.last_lap_ms
}

/// Law: within one session the best lap is the fastest lap time seen: at most
/// every positive lap time reported (and the best held before), and one of
/// them.
pub proof fn lemma_best_is_fastest(s: BestLap, frames: Seq<Telemetry>)
    requires
        s.best_ms >= 0,
        one_session(s, frames),
    ensures
        ({
            let r = run_best(s, frames).best_ms;
            &&& r >= 0
            &&& s.best_ms > 0 ==> 0 < r <= s.best_ms
            &&& forall|i: int, v: i32|
                0 <= i < frames.len() && #[trigger] lap_time_of(frames[i], v) && v > 0 ==> 0 < r <= v
            &&& r == 0 || r == s.best_ms || exists|i: int| 0 <= i < frames.len() && #[trigger] lap_time_of(frames[i], r)
        }),
    decreases frames.len(),
{
    if frames.len() > 0 {
        let f = frames[0];
        let s1 = best_lap_step(s, f).0;
        let rest = frames.drop_first();
        assert(one_session(s1, rest)) by {
            assert forall|i: int| 0 < i < rest.len() implies #[trigger] rest[i].laps_done >= rest[i - 1].laps_done by {
                assert(rest[i] == frames[i + 1]);
                assert(frames[i + 1].laps_done >= frames[i].laps_done);
            }
            if rest.len() > 0 {
                assert(rest[0] == frames[1]);
                assert(frames[1].laps_done >= frames[0].laps_done);
            }
        }
        lemma_best_is_fastest(s1, rest);
        let r = run_best(s, frames).best_ms;
        assert(r == run_best(s1, rest).best_ms);
        assert forall|i: int, v: i32|
            0 <= i < frames.len() && #[trigger] lap_time_of(frames[i], v) && v > 0 implies 0 < r <= v by {
            if i > 0 {
                assert(frames[i] == rest[i - 1]);
                assert(lap_time_of(rest[i - 1], v));
            }
        }
        if !(r == 0 || r == s.best_ms || r == s1.best_ms) {
            let j = choose|j: int| 0 <= j < rest.len() && #[trigger] lap_time_of(rest[j], r);
            assert(frames[j + 1] == rest[j]);
            assert(lap_time_of(frames[j + 1], r));
        }
        if r == s1.best_ms && r != 0 && r != s.best_ms {
            assert(lap_time_of(frames[0], r));
        }
    }
}


/// Where the current session starts in `frames`: the last frame whose lap
/// counter is below its predecessor's, else the first.
pub open spec fn session_start(frames: Seq<Telemetry>) -> int
    decreases frames.len(),
{
    if frames.len() <= 1 {
        0
    } else if frames[frames.len() - 1].laps_done < frames[frames.len() - 2].laps_done {
        frames.len() - 1
    } else {
        session_start(frames.drop_last())
    }
}

proof fn lemma_session_start(frames: Seq<Telemetry>)
    requires
        frames.len() > 0,
    ensures
        0 <= session_start(frames) < frames.len(),
        session_start(frames) > 0 ==> frames[session_start(frames)].laps_done
            < frames[session_start(frames) - 1].laps_done,
        forall|i: int|
            session_start(frames) < i < frames.len() ==> #[trigger] frames[i].laps_done
                >= frames[i - 1].laps_done,
    decreases frames.len(),
{
    if frames.len() > 1 {
        let n = frames.len() - 1;
        if !(frames[n].laps_done < frames[n - 1].laps_done) {
            let d = frames.drop_last();
            lemma_session_start(d);
            assert forall|i: int| session_start(frames) < i < frames.len() implies #[trigger] frames[i].laps_done
                >= frames[i - 1].laps_done by {
                if i < n {
                    assert(d[i] == frames[i] && d[i - 1] == frames[i - 1]);
                }
            }
        }
    }
}

proof fn lemma_run_split(s: BestLap, a: Seq<Telemetry>, b: Seq<Telemetry>)
    ensures
        run_best(s, a + b) == run_best(run_best(s, a), b),
    decreases a.len(),
{
    if a.len() == 0 {
        assert(a + b =~= b);
    } else {
        assert((a + b)[0] == a[0]);
        assert((a + b).drop_first() =~= a.drop_first() + b);
        lemma_run_split(best_lap_step(s, a[0]).0, a.drop_first(), b);
    }
}

proof fn lemma_run_last_seen(s: BestLap, a: Seq<Telemetry>)
    requires
        a.len() > 0,
    ensures
        run_best(s, a).last_seen_lap == a[a.len() - 1].laps_done,
    decreases a.len(),
{
    let d = a.drop_first();
    if a.len() > 1 {
        lemma_run_last_seen(best_lap_step(s, a[0]).0, d);
        assert(d[d.len() - 1] == a[a.len() - 1]);
    } else {
        assert(run_best(best_lap_step(s, a[0]).0, d) == best_lap_step(s, a[0]).0);
    }
}

proof fn lemma_forgotten_step(s: BestLap, z: BestLap, f: Telemetry)
    requires
        s.best_ms == 0 || f.laps_done < s.last_seen_lap,
        z.best_ms == 0,
        f.laps_done >= z.last_seen_lap,
    ensures
        best_lap_step(s, f).0 == best_lap_step(z, f).0,
{
}

proof fn lemma_session_run(s: BestLap, frames: Seq<Telemetry>)
    requires
        s.best_ms == 0,
        frames.len() > 0,
        0 <= session_start(frames) < frames.len(),
        session_start(frames) > 0 ==> frames[session_start(frames)].laps_done
            < frames[session_start(frames) - 1].laps_done,
    ensures
        run_best(s, frames) == run_best(
            BestLap { best_ms: 0, last_seen_lap: frames[session_start(frames)].laps_done },
            frames.skip(session_start(frames)),
        ),
{
    let k = session_start(frames);
    let seg = frames.skip(k);
    let z = BestLap { best_ms: 0, last_seen_lap: frames[k].laps_done };
    assert(seg[0] == frames[k]);
    if k == 0 {
        assert(seg =~= frames);
        lemma_forgotten_step(s, z, frames[0]);
    } else {
        let pre = frames.take(k);
        assert(frames =~= pre + seg);
        lemma_run_split(s, pre, seg);
        lemma_run_last_seen(s, pre);
        let s2 = run_best(s, pre);
        assert(pre[pre.len() - 1] == frames[k - 1]);
        lemma_forgotten_step(s2, z, seg[0]);
    }
}

/// Law: a tracker without a best lap yet, run over frames, ends with the
/// fastest positive lap time (reported best or last lap) of the current
/// session (the frames from the last one whose lap counter went back, else
/// from the first), or 0 when that session has none.
pub proof fn lemma_best_of_current_session(s: BestLap, frames: Seq<Telemetry>)
    requires
        s.best_ms == 0,
        frames.len() > 0,
    ensures
        ({
            let k = session_start(frames);
            let r = run_best(s, frames).best_ms;
            &&& 0 <= k < frames.len()
            &&& r >= 0
            &&& forall|i: int, v: i32|
                k <= i < frames.len() && #[trigger] lap_time_of(frames[i], v) && v > 0 ==> 0 < r <= v
            &&& r > 0 ==> exists|i: int| k <= i < frames.len() && #[trigger] lap_time_of(frames[i], r)
        }),
{
    lemma_session_start(frames);
    let k = session_start(frames);
    let seg = frames.skip(k);
    let z = BestLap { best_ms: 0, last_seen_lap: frames[k].laps_done };
    lemma_session_run(s, frames);
    assert(seg[0] == frames[k]);
    assert(one_session(z, seg)) by {
        assert forall|i: int| 0 < i < seg.len() implies #[trigger] seg[i].laps_done >= seg[i - 1].laps_done by {
            assert(seg[i] == frames[k + i] && seg[i - 1] == frames[k + i - 1]);
            assert(frames[k + i].laps_done >= frames[k + i - 1].laps_done);
        }
    }
    lemma_best_is_fastest(z, seg);
    let r = run_best(s, frames).best_ms;
    assert forall|i: int, v: i32|
        k <= i < frames.len() && #[trigger] lap_time_of(frames[i], v) && v > 0 implies 0 < r <= v by {
        assert(seg[i - k] == frames[i]);
        assert(lap_time_of(seg[i - k], v));
    }
    if r > 0 {
        let j = choose|j: int| 0 <= j < seg.len() && #[trigger] lap_time_of(seg[j], r);
        assert(seg[j] == frames[k + j]);
        assert(lap_time_of(frames[k + j], r));
    }
}


/// The current-lap tracker after a run of calls (a frame and the clock in ms).
pub open spec fn run_cur(s: CurLap, calls: Seq<(Telemetry, u64)>) -> CurLap
    decreases calls.len(),
{
    if calls.len() == 0 {
        s
    } else {
        cur_lap_step(run_cur(s, calls.drop_last()), calls.last().0, calls.last().1).0
    }
}

/// The last call before `i` whose frame brings no current-lap time, or -1.
pub open spec fn prev_untimed(calls: Seq<(Telemetry, u64)>, i: int) -> int
    decreases i,
{
    if i <= 0 {
        -1
    } else if calls[i - 1].0.cur_lap_ms <= 0 {
        i - 1
    } else {
        prev_untimed(calls, i - 1)
    }
}

/// Does call `i` start a lap: its frame brings no current-lap time, and it is
/// the first such call or its lap counter differs from the previous one's?
pub open spec fn starts_lap(calls: Seq<(Telemetry, u64)>, i: int) -> bool {
    &&& calls[i].0.cur_lap_ms <= 0
    &&& (prev_untimed(calls, i) < 0 || calls[prev_untimed(calls, i)].0.laps_done != calls[i].0.laps_done)
}

/// The last call before `n` that started a lap, or -1.
pub open spec fn last_lap_start(calls: Seq<(Telemetry, u64)>, n: int) -> int
    decreases n,
{
    if n <= 0 {
        -1
    } else if starts_lap(calls, n - 1) {
        n - 1
    } else {
        last_lap_start(calls, n - 1)
    }
}

/// The tracker a run of the first `n` calls leaves, as the law states it.
pub open spec fn cur_after(s: CurLap, calls: Seq<(Telemetry, u64)>, n: int) -> CurLap {
    if last_lap_start(calls, n) < 0 {
        s
    } else {
        CurLap {
            started: true,
            last_lap: calls[prev_untimed(calls, n)].0.laps_done,
            lap_start_ms: calls[last_lap_start(calls, n)].1,
        }
    }
}

proof fn lemma_cur_prefix(s: CurLap, calls: Seq<(Telemetry, u64)>, n: int)
    requires
        !s.started,
        0 <= n <= calls.len(),
    ensures
        run_cur(s, calls.take(n)) == cur_after(s, calls, n),
        (last_lap_start(calls, n) < 0) == (prev_untimed(calls, n) < 0),
        last_lap_start(calls, n) < n,
        prev_untimed(calls, n) < n,
        last_lap_start(calls, n) <= prev_untimed(calls, n),
    decreases n,
{
    if n > 0 {
        lemma_cur_prefix(s, calls, n - 1);
        assert(calls.take(n).drop_last() =~= calls.take(n - 1));
        assert(calls.take(n).last() == calls[n - 1]);
    }
}

/// Law: a tracker that has not started, run over calls, times the lap from
/// the last call that started one (the first call whose frame brings no
/// current-lap time, or a later such call whose lap counter differs from the
/// previous such call's); without such a call it is unchanged; and a last call
/// without a current-lap time reports the clock since that start.
pub proof fn lemma_lap_starts_at_last_roll(s: CurLap, calls: Seq<(Telemetry, u64)>)
    requires
        !s.started,
    ensures
        ({
            let n = calls.len() as int;
            let l = last_lap_start(calls, n);
            let r = run_cur(s, calls);
            &&& l < 0 ==> r == s
            &&& l >= 0 ==> r.started && r.lap_start_ms == calls[l].1 && r.last_lap == calls[prev_untimed(
                calls,
                n,
            )].0.laps_done
            &&& n > 0 && calls[n - 1].0.cur_lap_ms <= 0 ==> l >= 0 && cur_lap_step(
                run_cur(s, calls.drop_last()),
                calls[n - 1].0,
                calls[n - 1].1,
            ).1.cur_lap_ms == (if calls[n - 1].1 >= calls[l].1 {
                calls[n - 1].1 - calls[l].1
            } else {
                0
            }) as i32
        }),
{
    let n = calls.len() as int;
    lemma_cur_prefix(s, calls, n);
    assert(calls.take(n) =~= calls);
    if n > 0 && calls[n - 1].0.cur_lap_ms <= 0 {
        assert(prev_untimed(calls, n) == n - 1);
    }
}


/// All trackers after a run of calls (a frame and the clock in ms), as
/// `Derived::update_at` runs them call by call.
pub open spec fn run_derived(s: Trackers, calls: Seq<(Telemetry, u64)>) -> Trackers
    decreases calls.len(),
{
    if calls.len() == 0 {
        s
    } else {
        derived_step(run_derived(s, calls.drop_last()), calls.last().0, calls.last().1).0
    }
}

/// The frames of a run of calls.
pub open spec fn frames_of(calls: Seq<(Telemetry, u64)>) -> Seq<Telemetry> {
    calls.map_values(|c: (Telemetry, u64)| c.0)
}

proof fn lemma_step_parts(s: Trackers, t: Telemetry, now: u64)
    ensures
        derived_step(s, t, now).0.best == best_lap_step(s.best, t).0,
        derived_step(s, t, now).0.cur == cur_lap_step(s.cur, t, now).0,
        derived_step(s, t, now).1.best_lap_ms == best_lap_step(s.best, t).1.best_lap_ms,
        derived_step(s, t, now).1.cur_lap_ms == cur_lap_step(s.cur, t, now).1.cur_lap_ms,
{
    let (b, t1) = best_lap_step(s.best, t);
    let (c, t2) = cur_lap_step(s.cur, t1, now);
    let (f, t3) = fuel_step(s.fuel, t2);
    let (d, t4) = delta_step(s.delta, t3);
    assert(t1 == Telemetry { best_lap_ms: t1.best_lap_ms, ..t });
    assert(t2 == Telemetry { cur_lap_ms: t2.cur_lap_ms, ..t1 });
    assert(t3 == Telemetry { fuel_per_lap_ml: t3.fuel_per_lap_ml, fuel_laps_x10: t3.fuel_laps_x10, ..t2 });
    assert(t4 == Telemetry { delta_ms: t4.delta_ms, ..t3 });
}

proof fn lemma_run_derived_parts(s: Trackers, calls: Seq<(Telemetry, u64)>)
    ensures
        run_derived(s, calls).best == run_best(s.best, frames_of(calls)),
        run_derived(s, calls).cur == run_cur(s.cur, calls),
    decreases calls.len(),
{
    if calls.len() > 0 {
        let d = calls.drop_last();
        lemma_run_derived_parts(s, d);
        let x = calls.last();
        lemma_step_parts(run_derived(s, d), x.0, x.1);
        assert(frames_of(calls) =~= frames_of(d) + seq![x.0]);
        lemma_run_split(s.best, frames_of(d), seq![x.0]);
        let b = run_best(s.best, frames_of(d));
        assert(seq![x.0].drop_first() =~= Seq::<Telemetry>::empty());
        assert(run_best(b, seq![x.0]) == run_best(best_lap_step(b, x.0).0, Seq::<Telemetry>::empty()));
    }
}

/// Law (best lap through `Derived::update_at`): run over calls from trackers
/// without a best lap yet, the best lap held is the fastest positive lap time
/// (reported best or last lap) of the current session's frames (from the last
/// one whose lap counter went back, else the first), or 0 when there is none;
/// and the last call's frame reports it when its source sent no best lap, else
/// keeps the source's.
pub proof fn lemma_update_best_lap(s: Trackers, calls: Seq<(Telemetry, u64)>)
    requires
        s.best.best_ms == 0,
        calls.len() > 0,
    ensures
        ({
            let frames = frames_of(calls);
            let k = session_start(frames);
            let r = run_derived(s, calls).best.best_ms;
            let last = calls.last();
            let out = derived_step(run_derived(s, calls.drop_last()), last.0, last.1).1;
            &&& 0 <= k < calls.len()
            &&& r >= 0
            &&& forall|i: int, v: i32|
                k <= i < calls.len() && #[trigger] lap_time_of(calls[i].0, v) && v > 0 ==> 0 < r <= v
            &&& r > 0 ==> exists|i: int| k <= i < calls.len() && #[trigger] lap_time_of(calls[i].0, r)
            &&& out.best_lap_ms == (if last.0.best_lap_ms != 0 {
                last.0.best_lap_ms
            } else {
                r
            })
        }),
{
    let frames = frames_of(calls);
    lemma_run_derived_parts(s, calls);
    lemma_best_of_current_session(s.best, frames);
    let k = session_start(frames);
    let r = run_derived(s, calls).best.best_ms;
    assert forall|i: int, v: i32|
        k <= i < calls.len() && #[trigger] lap_time_of(calls[i].0, v) && v > 0 implies 0 < r <= v by {
        assert(frames[i] == calls[i].0);
        assert(lap_time_of(frames[i], v));
    }
    if r > 0 {
        let j = choose|j: int| k <= j < frames.len() && #[trigger] lap_time_of(frames[j], r);
        assert(frames[j] == calls[j].0);
        assert(lap_time_of(calls[j].0, r));
    }
    let d = calls.drop_last();
    let last = calls.last();
    lemma_step_parts(run_derived(s, d), last.0, last.1);
    assert(run_derived(s, calls) == derived_step(run_derived(s, d), last.0, last.1).0);
}

/// Law (current lap through `Derived::update_at`): run over calls from
/// trackers whose lap clock has not started, the lap is timed from the last
/// call that started one (see `last_lap_start`); the last call's frame keeps
/// a current-lap time its source sent, and otherwise reports the clock since
/// that start.
pub proof fn lemma_update_lap_time(s: Trackers, calls: Seq<(Telemetry, u64)>)
    requires
        !s.cur.started,
        calls.len() > 0,
    ensures
        ({
            let n = calls.len() as int;
            let l = last_lap_start(calls, n);
            let last = calls.last();
            let out = derived_step(run_derived(s, calls.drop_last()), last.0, last.1).1;
            &&& l >= 0 ==> run_derived(s, calls).cur.lap_start_ms == calls[l].1
            &&& last.0.cur_lap_ms > 0 ==> out.cur_lap_ms == last.0.cur_lap_ms
            &&& last.0.cur_lap_ms <= 0 ==> l >= 0 && out.cur_lap_ms == (if last.1 >= calls[l].1 {
                last.1 - calls[l].1
            } else {
                0
            }) as i32
        }),
{
    let n = calls.len() as int;
    let d = calls.drop_last();
    let last = calls.last();
    lemma_run_derived_parts(s, calls);
    lemma_run_derived_parts(s, d);
    lemma_lap_starts_at_last_roll(s.cur, calls);
    lemma_step_parts(run_derived(s, d), last.0, last.1);
    assert(calls[n - 1] == last);
}


/// Does frame `t` close a lap for the delta tracker in state `s` (the source
/// sent no delta, the tracker runs, and the lap counter went up)?
pub open spec fn closes_lap(s: DeltaState, t: Telemetry) -> bool {
    t.delta_ms == 0 && s.started && t.laps_done > s.last_lap
}

/// Law (delta reference): the reference lap is only ever replaced by the lap
/// a frame closes, with that lap's samples, and only by a faster one: it never
/// gets slower, after a closed lap it is at most that lap's time, and it is
/// always a positive time. The delta, when written, is measured against the
/// reference's sample in the frame's track bucket; every other channel passes
/// through.
pub proof fn lemma_delta_reference_fastest(s: DeltaState, t: Telemetry)
    requires
        s.have_ref ==> s.best_lap_ms > 0,
    ensures
        ({
            let (s2, u) = delta_step(s, t);
            let b = bucket_of(t.track_pct);
            &&& s2.have_ref ==> s2.best_lap_ms > 0
            &&& s.have_ref ==> s2.have_ref && s2.best_lap_ms <= s.best_lap_ms
            &&& closes_lap(s, t) && t.last_lap_ms > 0 ==> s2.have_ref && s2.best_lap_ms <= t.last_lap_ms
            &&& (s2.have_ref != s.have_ref || s2.best_lap_ms != s.best_lap_ms || s2.best_ref != s.best_ref)
                ==> closes_lap(s, t) && s2.best_lap_ms == t.last_lap_ms && s2.best_ref == s.cur
            &&& u == Telemetry { delta_ms: u.delta_ms, ..t }
            &&& t.delta_ms != 0 ==> u.delta_ms == t.delta_ms
            &&& t.delta_ms == 0 ==> u.delta_ms == (if t.cur_lap_ms > 0 && s2.have_ref && s2.best_ref[b] > 0 {
                vstd::wrapping::i32_specs::wrapping_mul((t.cur_lap_ms - s2.best_ref[b]) as i32, 10)
            } else {
                0i32
            })
        }),
{
}

/// The delta tracker after a run of frames.
pub open spec fn run_delta(s: DeltaState, frames: Seq<Telemetry>) -> DeltaState
    decreases frames.len(),
{
    if frames.len() == 0 {
        s
    } else {
        delta_step(run_delta(s, frames.drop_last()), frames.last()).0
    }
}

/// Does frame `i` of the run close a lap with a positive lap time?
pub open spec fn closed_lap_at(s: DeltaState, frames: Seq<Telemetry>, i: int) -> bool {
    closes_lap(run_delta(s, frames.take(i)), frames[i]) && frames[i].last_lap_ms > 0
}

/// Law (delta reference over a run): starting without a reference, after any
/// run of frames the tracker has a reference exactly when some frame closed a
/// lap with a positive time, and then the reference time is the fastest such
/// lap: at most each of them, and equal to one of them.
pub proof fn lemma_delta_reference_is_fastest_lap(s: DeltaState, frames: Seq<Telemetry>)
    requires
        !s.have_ref,
    ensures
        ({
            let r = run_delta(s, frames);
            &&& r.have_ref ==> r.best_lap_ms > 0
            &&& r.have_ref <==> exists|i: int| 0 <= i < frames.len() && #[trigger] closed_lap_at(s, frames, i)
            &&& forall|i: int|
                0 <= i < frames.len() && #[trigger] closed_lap_at(s, frames, i) ==> r.best_lap_ms
                    <= frames[i].last_lap_ms
            &&& r.have_ref ==> exists|i: int|
                0 <= i < frames.len() && #[trigger] closed_lap_at(s, frames, i) && r.best_lap_ms
                    == frames[i].last_lap_ms
        }),
    decreases frames.len(),
{
    if frames.len() > 0 {
        let n = frames.len() - 1;
        let d = frames.drop_last();
        let x = frames[n];
        lemma_delta_reference_is_fastest_lap(s, d);
        let r0 = run_delta(s, d);
        lemma_delta_reference_fastest(r0, x);
        assert(frames.take(n) =~= d);
        assert forall|i: int| 0 <= i < n implies #[trigger] closed_lap_at(s, frames, i) == closed_lap_at(s, d, i) by {
            assert(frames.take(i) =~= d.take(i));
            assert(frames[i] == d[i]);
        }
        let r = run_delta(s, frames);
        assert(r == delta_step(r0, x).0);
        assert(closed_lap_at(s, frames, n) == (closes_lap(r0, x) && x.last_lap_ms > 0));
        if r.have_ref {
            if r.best_lap_ms == x.last_lap_ms && closed_lap_at(s, frames, n) {
            } else {
                assert(r0.have_ref && r.best_lap_ms == r0.best_lap_ms);
                let j = choose|j: int| 0 <= j < d.len() && #[trigger] closed_lap_at(s, d, j) && r0.best_lap_ms
                    == d[j].last_lap_ms;
                assert(closed_lap_at(s, frames, j));
            }
        }
        if exists|i: int| 0 <= i < frames.len() && #[trigger] closed_lap_at(s, frames, i) {
            let i = choose|i: int| 0 <= i < frames.len() && #[trigger] closed_lap_at(s, frames, i);
            if i < n {
                assert(closed_lap_at(s, d, i));
            }
        }
        assert forall|i: int|
            0 <= i < frames.len() && #[trigger] closed_lap_at(s, frames, i) implies r.best_lap_ms
                <= frames[i].last_lap_ms by {
            if i < n {
                assert(closed_lap_at(s, d, i));
            }
        }
    }
}

/// Law (track buckets): a track position (tenths of a percent, clamped to
/// 0..=1000) falls in one of the 100 buckets, the `b` with
/// `b * 1001 <= p * 100 < (b + 1) * 1001`; the start is bucket 0 and the
/// line bucket 99.
pub proof fn lemma_bucket_of(track_pct: i32)
    ensures
        ({
            let p: int = if track_pct < 0 { 0 } else if track_pct > 1000 { 1000 } else { track_pct as int };
            let b = bucket_of(track_pct);
            &&& 0 <= b < 100
            &&& b * 1001 <= p * 100 < (b + 1) * 1001
        }),
        track_pct <= 0 ==> bucket_of(track_pct) == 0,
        track_pct >= 1000 ==> bucket_of(track_pct) == 99,
{
    let p: int = if track_pct < 0 { 0 } else if track_pct > 1000 { 1000 } else { track_pct as int };
    assert(0 <= p * 100 / 1001 <= 99) by (nonlinear_arith)
        requires
            0 <= p <= 1000,
    ;
    assert((p * 100 / 1001) * 1001 <= p * 100 < (p * 100 / 1001 + 1) * 1001) by (nonlinear_arith)
        requires
            0 <= p <= 1000,
    ;
}

/// Law (current-lap samples): a frame with a current-lap time (and no source
/// delta) records that time in its track bucket of the current lap's samples;
/// the other buckets keep this lap's earlier samples, or are cleared when the
/// frame starts a lap (or a session).
pub proof fn lemma_delta_samples(s: DeltaState, t: Telemetry)
    requires
        s.cur.len() == NB,
    ensures
        ({
            let (s2, u) = delta_step(s, t);
            let b = bucket_of(t.track_pct);
            let fresh = !s.started || t.laps_done != s.last_lap;
            &&& t.delta_ms != 0 ==> s2 == s
            &&& s2.cur.len() == NB
            &&& t.delta_ms == 0 && t.cur_lap_ms > 0 ==> s2.cur[b] == t.cur_lap_ms
            &&& t.delta_ms == 0 ==> forall|j: int|
                0 <= j < NB && (j != b || t.cur_lap_ms <= 0) ==> #[trigger] s2.cur[j] == (if fresh {
                    0i32
                } else {
                    s.cur[j]
                })
        }),
{
    lemma_bucket_of(t.track_pct);
}

/// Law (fuel tracker): a source fuel-per-lap is adopted as is; otherwise a
/// lap closed with a plausible burn (between 50 and 30000 ml) updates the
/// average, seeded with the burn and then weighted three to one, and a first
/// frame or a lap counter that went back restarts the lap's start level. The
/// laps left are filled in only when the source sent none, from a positive
/// average and fuel level, as the whole tenths of laps the fuel lasts:
/// `x * per_lap <= fuel * 1000 < (x + 1) * per_lap`. Only the two fuel
/// channels change.
pub proof fn lemma_fuel_step(s: Fuel, t: Telemetry)
    requires
        s.wf(),
        fuel_ok(s, t),
    ensures
        ({
            let (s2, u) = fuel_step(s, t);
            let burn: int = (s.lap_start_fuel_dl - t.fuel_dl) * 100;
            &&& u == Telemetry { fuel_per_lap_ml: u.fuel_per_lap_ml, fuel_laps_x10: u.fuel_laps_x10, ..t }
            &&& t.fuel_per_lap_ml > 0 ==> s2.per_lap_ml == t.fuel_per_lap_ml && u.fuel_per_lap_ml
                == t.fuel_per_lap_ml
            &&& t.fuel_per_lap_ml <= 0 && (!s.started || t.laps_done < s.last_lap) ==> s2.started
                && s2.last_lap == t.laps_done && s2.lap_start_fuel_dl == t.fuel_dl && s2.per_lap_ml == s.per_lap_ml
            &&& t.fuel_per_lap_ml <= 0 && s.started && t.laps_done > s.last_lap ==> s2.last_lap == t.laps_done
                && s2.lap_start_fuel_dl == t.fuel_dl && s2.per_lap_ml == (if 50 < burn < 30_000 {
                if s.per_lap_ml == 0 {
                    burn
                } else {
                    (3 * s.per_lap_ml + burn) / 4
                }
            } else {
                s.per_lap_ml as int
            })
            &&& t.fuel_per_lap_ml <= 0 && s.started && t.laps_done == s.last_lap ==> s2 == s
            &&& t.fuel_per_lap_ml <= 0 ==> u.fuel_per_lap_ml == (if s2.per_lap_ml > 0 {
                s2.per_lap_ml
            } else {
                t.fuel_per_lap_ml
            })
            &&& s2.per_lap_ml >= 0
            &&& t.fuel_laps_x10 != 0 || s2.per_lap_ml <= 0 || t.fuel_dl <= 0 ==> u.fuel_laps_x10
                == t.fuel_laps_x10
            &&& t.fuel_laps_x10 == 0 && s2.per_lap_ml > 0 && t.fuel_dl > 0 ==> u.fuel_laps_x10 * s2.per_lap_ml
                <= t.fuel_dl * 1000 < (u.fuel_laps_x10 + 1) * s2.per_lap_ml
        }),
{
    let (s2, u) = fuel_step(s, t);
    if t.fuel_laps_x10 == 0 && s2.per_lap_ml > 0 && t.fuel_dl > 0 {
        let f = t.fuel_dl * 1000;
        let pl = s2.per_lap_ml as int;
        assert(0 <= f / pl <= f) by (nonlinear_arith)
            requires
                f > 0,
                pl > 0,
        ;
        assert((f / pl) * pl <= f < (f / pl + 1) * pl) by (nonlinear_arith)
            requires
                f > 0,
                pl > 0,
        ;
    }
}
} // verus!
