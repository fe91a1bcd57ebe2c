//! The telemetry record shared by every source: one gear byte plus seventy
//! integer channels, each addressed by a 1-based field id (the id order is the
//! order of the `$`-frame and of the field registry).

use vstd::prelude::*;

verus! {

/// Number of integer channels; valid field ids are `1..=NUM_FIELDS`.
pub const NUM_FIELDS: usize = 70;

/// One telemetry sample. `gear` is a glyph byte (`b'R'`, `b'N'`, `b'1'`..).
#[derive(Clone, Copy, Debug, PartialEq, Eq, Structural)]
pub struct Telemetry {
    pub gear: u8,
    pub speed_kmh: i32,
    pub rpm: i32,
    pub max_rpm: i32,
    pub shift_rpm: i32,
    pub cur_lap_ms: i32,
    pub last_lap_ms: i32,
    pub best_lap_ms: i32,
    pub pb_lap_ms: i32,
    pub est_lap_ms: i32,
    pub delta_ms: i32,
    pub position: i32,
    pub field_size: i32,
    pub laps_done: i32,
    pub total_laps: i32,
    pub laps_left: i32,
    pub water_c: i32,
    pub oil_c: i32,
    pub oil_press_x10: i32,
    pub boost: i32,
    pub tc: i32,
    pub abs: i32,
    pub brake_bias_x10: i32,
    pub fuel_dl: i32,
    pub fuel_cap_dl: i32,
    pub fuel_per_lap_ml: i32,
    pub fuel_laps_x10: i32,
    pub tt_fl_i: i32,
    pub tt_fl_m: i32,
    pub tt_fl_o: i32,
    pub tt_fr_i: i32,
    pub tt_fr_m: i32,
    pub tt_fr_o: i32,
    pub tt_rl_i: i32,
    pub tt_rl_m: i32,
    pub tt_rl_o: i32,
    pub tt_rr_i: i32,
    pub tt_rr_m: i32,
    pub tt_rr_o: i32,
    pub tp_fl: i32,
    pub tp_fr: i32,
    pub tp_rl: i32,
    pub tp_rr: i32,
    pub tw_fl: i32,
    pub tw_fr: i32,
    pub tw_rl: i32,
    pub tw_rr: i32,
    pub bt_fl: i32,
    pub bt_fr: i32,
    pub bt_rl: i32,
    pub bt_rr: i32,
    pub throttle: i32,
    pub brake: i32,
    pub clutch: i32,
    pub steer: i32,
    pub tc_active: i32,
    pub abs_active: i32,
    pub headlights: i32,
    pub wipers: i32,
    pub pit_limiter: i32,
    pub ignition: i32,
    pub track_pct: i32,
    pub flag: i32,
    pub s1_ms: i32,
    pub s2_ms: i32,
    pub s3_ms: i32,
    pub bs1_ms: i32,
    pub bs2_ms: i32,
    pub bs3_ms: i32,
    pub pos_x: i32,
    pub pos_z: i32,
}

impl Telemetry {
    /// The channel with field id `id` (0 for ids outside `1..=NUM_FIELDS`).
    pub open spec fn field(self, id: int) -> i32 {
        if id == 1 {
            self.speed_kmh
        } else if id == 2 {
            self.rpm
        } else if id == 3 {
            self.max_rpm
        } else if id == 4 {
            self.shift_rpm
        } else if id == 5 {
            self.cur_lap_ms
        } else if id == 6 {
            self.last_lap_ms
        } else if id == 7 {
            self.best_lap_ms
        } else if id == 8 {
            self.pb_lap_ms
        } else if id == 9 {
            self.est_lap_ms
        } else if id == 10 {
            self.delta_ms
        } else if id == 11 {
            self.position
        } else if id == 12 {
            self.field_size
        } else if id == 13 {
            self.laps_done
        } else if id == 14 {
            self.total_laps
        } else if id == 15 {
            self.laps_left
        } else if id == 16 {
            self.water_c
        } else if id == 17 {
            self.oil_c
        } else if id == 18 {
            self.oil_press_x10
        } else if id == 19 {
            self.boost
        } else if id == 20 {
            self.tc
        } else if id == 21 {
            self.abs
        } else if id == 22 {
            self.brake_bias_x10
        } else if id == 23 {
            self.fuel_dl
        } else if id == 24 {
            self.fuel_cap_dl
        } else if id == 25 {
            self.fuel_per_lap_ml
        } else if id == 26 {
            self.fuel_laps_x10
        } else if id == 27 {
            self.tt_fl_i
        } else if id == 28 {
            self.tt_fl_m
        } else if id == 29 {
            self.tt_fl_o
        } else if id == 30 {
            self.tt_fr_i
        } else if id == 31 {
            self.tt_fr_m
        } else if id == 32 {
            self.tt_fr_o
        } else if id == 33 {
            self.tt_rl_i
        } else if id == 34 {
            self.tt_rl_m
        } else if id == 35 {
            self.tt_rl_o
        } else if id == 36 {
            self.tt_rr_i
        } else if id == 37 {
            self.tt_rr_m
        } else if id == 38 {
            self.tt_rr_o
        } else if id == 39 {
            self.tp_fl
        } else if id == 40 {
            self.tp_fr
        } else if id == 41 {
            self.tp_rl
        } else if id == 42 {
            self.tp_rr
        } else if id == 43 {
            self.tw_fl
        } else if id == 44 {
            self.tw_fr
        } else if id == 45 {
            self.tw_rl
        } else if id == 46 {
            self.tw_rr
        } else if id == 47 {
            self.bt_fl
        } else if id == 48 {
            self.bt_fr
        } else if id == 49 {
            self.bt_rl
        } else if id == 50 {
            self.bt_rr
        } else if id == 51 {
            self.throttle
        } else if id == 52 {
            self.brake
        } else if id == 53 {
            self.clutch
        } else if id == 54 {
            self.steer
        } else if id == 55 {
            self.tc_active
        } else if id == 56 {
            self.abs_active
        } else if id == 57 {
            self.headlights
        } else if id == 58 {
            self.wipers
        } else if id == 59 {
            self.pit_limiter
        } else if id == 60 {
            self.ignition
        } else if id == 61 {
            self.track_pct
        } else if id == 62 {
            self.flag
        } else if id == 63 {
            self.s1_ms
        } else if id == 64 {
            self.s2_ms
        } else if id == 65 {
            self.s3_ms
        } else if id == 66 {
            self.bs1_ms
        } else if id == 67 {
            self.bs2_ms
        } else if id == 68 {
            self.bs3_ms
        } else if id == 69 {
            self.pos_x
        } else if id == 70 {
            self.pos_z
        } else {
            0i32
        }
    }

    /// The sample with nothing reported: neutral gear, every channel zero.
    pub open spec fn idle_value() -> Telemetry {
        Telemetry {
            gear: 78u8,
            speed_kmh: 0,
            rpm: 0,
            max_rpm: 0,
            shift_rpm: 0,
            cur_lap_ms: 0,
            last_lap_ms: 0,
            best_lap_ms: 0,
            pb_lap_ms: 0,
            est_lap_ms: 0,
            delta_ms: 0,
            position: 0,
            field_size: 0,
            laps_done: 0,
            total_laps: 0,
            laps_left: 0,
            water_c: 0,
            oil_c: 0,
            oil_press_x10: 0,
            boost: 0,
            tc: 0,
            abs: 0,
            brake_bias_x10: 0,
            fuel_dl: 0,
            fuel_cap_dl: 0,
            fuel_per_lap_ml: 0,
            fuel_laps_x10: 0,
            tt_fl_i: 0,
            tt_fl_m: 0,
            tt_fl_o: 0,
            tt_fr_i: 0,
            tt_fr_m: 0,
            tt_fr_o: 0,
            tt_rl_i: 0,
            tt_rl_m: 0,
            tt_rl_o: 0,
            tt_rr_i: 0,
            tt_rr_m: 0,
            tt_rr_o: 0,
            tp_fl: 0,
            tp_fr: 0,
            tp_rl: 0,
            tp_rr: 0,
            tw_fl: 0,
            tw_fr: 0,
            tw_rl: 0,
            tw_rr: 0,
            bt_fl: 0,
            bt_fr: 0,
            bt_rl: 0,
            bt_rr: 0,
            throttle: 0,
            brake: 0,
            clutch: 0,
            steer: 0,
            tc_active: 0,
            abs_active: 0,
            headlights: 0,
            wipers: 0,
            pit_limiter: 0,
            ignition: 0,
            track_pct: 0,
            flag: 0,
            s1_ms: 0,
            s2_ms: 0,
            s3_ms: 0,
            bs1_ms: 0,
            bs2_ms: 0,
            bs3_ms: 0,
            pos_x: 0,
            pos_z: 0,
        }
    }

    /// A sample with nothing reported: neutral gear, every channel zero.
    pub fn idle() -> (t: Telemetry)
        ensures
            t == Telemetry::idle_value(),
            t.gear == 78u8,
            forall|id: int| #[trigger] t.field(id) == 0,
    {
        Telemetry {
            gear: 78u8,
            speed_kmh: 0,
            rpm: 0,
            max_rpm: 0,
            shift_rpm: 0,
            cur_lap_ms: 0,
            last_lap_ms: 0,
            best_lap_ms: 0,
            pb_lap_ms: 0,
            est_lap_ms: 0,
            delta_ms: 0,
            position: 0,
            field_size: 0,
            laps_done: 0,
            total_laps: 0,
            laps_left: 0,
            water_c: 0,
            oil_c: 0,
            oil_press_x10: 0,
            boost: 0,
            tc: 0,
            abs: 0,
            brake_bias_x10: 0,
            fuel_dl: 0,
            fuel_cap_dl: 0,
            fuel_per_lap_ml: 0,
            fuel_laps_x10: 0,
            tt_fl_i: 0,
            tt_fl_m: 0,
            tt_fl_o: 0,
            tt_fr_i: 0,
            tt_fr_m: 0,
            tt_fr_o: 0,
            tt_rl_i: 0,
            tt_rl_m: 0,
            tt_rl_o: 0,
            tt_rr_i: 0,
            tt_rr_m: 0,
            tt_rr_o: 0,
            tp_fl: 0,
            tp_fr: 0,
            tp_rl: 0,
            tp_rr: 0,
            tw_fl: 0,
            tw_fr: 0,
            tw_rl: 0,
            tw_rr: 0,
            bt_fl: 0,
            bt_fr: 0,
            bt_rl: 0,
            bt_rr: 0,
            throttle: 0,
            brake: 0,
            clutch: 0,
            steer: 0,
            tc_active: 0,
            abs_active: 0,
            headlights: 0,
            wipers: 0,
            pit_limiter: 0,
            ignition: 0,
            track_pct: 0,
            flag: 0,
            s1_ms: 0,
            s2_ms: 0,
            s3_ms: 0,
            bs1_ms: 0,
            bs2_ms: 0,
            bs3_ms: 0,
            pos_x: 0,
            pos_z: 0,
        }
    }

    /// Reads the channel with field id `id`; 0 for an id outside `1..=NUM_FIELDS`.
    pub fn field_value(&self, id: usize) -> (v: i32)
        ensures
            v == self.field(id as int),
    {
        match id {
            1 => self.speed_kmh,
            2 => self.rpm,
            3 => self.max_rpm,
            4 => self.shift_rpm,
            5 => self.cur_lap_ms,
            6 => self.last_lap_ms,
            7 => self.best_lap_ms,
            8 => self.pb_lap_ms,
            9 => self.est_lap_ms,
            10 => self.delta_ms,
            11 => self.position,
            12 => self.field_size,
            13 => self.laps_done,
            14 => self.total_laps,
            15 => self.laps_left,
            16 => self.water_c,
            17 => self.oil_c,
            18 => self.oil_press_x10,
            19 => self.boost,
            20 => self.tc,
            21 => self.abs,
            22 => self.brake_bias_x10,
            23 => self.fuel_dl,
            24 => self.fuel_cap_dl,
            25 => self.fuel_per_lap_ml,
            26 => self.fuel_laps_x10,
            27 => self.tt_fl_i,
            28 => self.tt_fl_m,
            29 => self.tt_fl_o,
            30 => self.tt_fr_i,
            31 => self.tt_fr_m,
            32 => self.tt_fr_o,
            33 => self.tt_rl_i,
            34 => self.tt_rl_m,
            35 => self.tt_rl_o,
            36 => self.tt_rr_i,
            37 => self.tt_rr_m,
            38 => self.tt_rr_o,
            39 => self.tp_fl,
            40 => self.tp_fr,
            41 => self.tp_rl,
            42 => self.tp_rr,
            43 => self.tw_fl,
            44 => self.tw_fr,
            45 => self.tw_rl,
            46 => self.tw_rr,
            47 => self.bt_fl,
            48 => self.bt_fr,
            49 => self.bt_rl,
            50 => self.bt_rr,
            51 => self.throttle,
            52 => self.brake,
            53 => self.clutch,
            54 => self.steer,
            55 => self.tc_active,
            56 => self.abs_active,
            57 => self.headlights,
            58 => self.wipers,
            59 => self.pit_limiter,
            60 => self.ignition,
            61 => self.track_pct,
            62 => self.flag,
            63 => self.s1_ms,
            64 => self.s2_ms,
            65 => self.s3_ms,
            66 => self.bs1_ms,
            67 => self.bs2_ms,
            68 => self.bs3_ms,
            69 => self.pos_x,
            70 => self.pos_z,
            _ => 0,
        }
    }

    /// Overwrites the channel with field id `id`, leaving every other channel
    /// and the gear as they were.
    pub fn set_field(&mut self, id: usize, v: i32)
        requires
            1 <= id <= NUM_FIELDS,
        ensures
            final(self).gear == old(self).gear,
            forall|j: int| #[trigger] final(self).field(j) == if j == id as int {
                v
            } else {
                old(self).field(j)
            },
    {
        match id {
            1 => { self.speed_kmh = v; }
            2 => { self.rpm = v; }
            3 => { self.max_rpm = v; }
            4 => { self.shift_rpm = v; }
            5 => { self.cur_lap_ms = v; }
            6 => { self.last_lap_ms = v; }
            7 => { self.best_lap_ms = v; }
            8 => { self.pb_lap_ms = v; }
            9 => { self.est_lap_ms = v; }
            10 => { self.delta_ms = v; }
            11 => { self.position = v; }
            12 => { self.field_size = v; }
            13 => { self.laps_done = v; }
            14 => { self.total_laps = v; }
            15 => { self.laps_left = v; }
            16 => { self.water_c = v; }
            17 => { self.oil_c = v; }
            18 => { self.oil_press_x10 = v; }
            19 => { self.boost = v; }
            20 => { self.tc = v; }
            21 => { self.abs = v; }
            22 => { self.brake_bias_x10 = v; }
            23 => { self.fuel_dl = v; }
            24 => { self.fuel_cap_dl = v; }
            25 => { self.fuel_per_lap_ml = v; }
            26 => { self.fuel_laps_x10 = v; }
            27 => { self.tt_fl_i = v; }
            28 => { self.tt_fl_m = v; }
            29 => { self.tt_fl_o = v; }
            30 => { self.tt_fr_i = v; }
            31 => { self.tt_fr_m = v; }
            32 => { self.tt_fr_o = v; }
            33 => { self.tt_rl_i = v; }
            34 => { self.tt_rl_m = v; }
            35 => { self.tt_rl_o = v; }
            36 => { self.tt_rr_i = v; }
            37 => { self.tt_rr_m = v; }
            38 => { self.tt_rr_o = v; }
            39 => { self.tp_fl = v; }
            40 => { self.tp_fr = v; }
            41 => { self.tp_rl = v; }
            42 => { self.tp_rr = v; }
            43 => { self.tw_fl = v; }
            44 => { self.tw_fr = v; }
            45 => { self.tw_rl = v; }
            46 => { self.tw_rr = v; }
            47 => { self.bt_fl = v; }
            48 => { self.bt_fr = v; }
            49 => { self.bt_rl = v; }
            50 => { self.bt_rr = v; }
            51 => { self.throttle = v; }
            52 => { self.brake = v; }
            53 => { self.clutch = v; }
            54 => { self.steer = v; }
            55 => { self.tc_active = v; }
            56 => { self.abs_active = v; }
            57 => { self.headlights = v; }
            58 => { self.wipers = v; }
            59 => { self.pit_limiter = v; }
            60 => { self.ignition = v; }
            61 => { self.track_pct = v; }
            62 => { self.flag = v; }
            63 => { self.s1_ms = v; }
            64 => { self.s2_ms = v; }
            65 => { self.s3_ms = v; }
            66 => { self.bs1_ms = v; }
            67 => { self.bs2_ms = v; }
            68 => { self.bs3_ms = v; }
            69 => { self.pos_x = v; }
            70 => { self.pos_z = v; }
            _ => {},
        }
    }
}

/// Two samples are equal exactly when their gears and all channels agree.
pub proof fn lemma_telemetry_ext(a: Telemetry, b: Telemetry)
    requires
        a.gear == b.gear,
        forall|id: int| 1 <= id <= NUM_FIELDS ==> #[trigger] a.field(id) == b.field(id),
    ensures
        a == b,
{
    assert(a.field(1) == b.field(1));
    assert(a.field(2) == b.field(2));
    assert(a.field(3) == b.field(3));
    assert(a.field(4) == b.field(4));
    assert(a.field(5) == b.field(5));
    assert(a.field(6) == b.field(6));
    assert(a.field(7) == b.field(7));
    assert(a.field(8) == b.field(8));
    assert(a.field(9) == b.field(9));
    assert(a.field(10) == b.field(10));
    assert(a.field(11) == b.field(11));
    assert(a.field(12) == b.field(12));
    assert(a.field(13) == b.field(13));
    assert(a.field(14) == b.field(14));
    assert(a.field(15) == b.field(15));
    assert(a.field(16) == b.field(16));
    assert(a.field(17) == b.field(17));
    assert(a.field(18) == b.field(18));
    assert(a.field(19) == b.field(19));
    assert(a.field(20) == b.field(20));
    assert(a.field(21) == b.field(21));
    assert(a.field(22) == b.field(22));
    assert(a.field(23) == b.field(23));
    assert(a.field(24) == b.field(24));
    assert(a.field(25) == b.field(25));
    assert(a.field(26) == b.field(26));
    assert(a.field(27) == b.field(27));
    assert(a.field(28) == b.field(28));
    assert(a.field(29) == b.field(29));
    assert(a.field(30) == b.field(30));
    assert(a.field(31) == b.field(31));
    assert(a.field(32) == b.field(32));
    assert(a.field(33) == b.field(33));
    assert(a.field(34) == b.field(34));
    assert(a.field(35) == b.field(35));
    assert(a.field(36) == b.field(36));
    assert(a.field(37) == b.field(37));
    assert(a.field(38) == b.field(38));
    assert(a.field(39) == b.field(39));
    assert(a.field(40) == b.field(40));
    assert(a.field(41) == b.field(41));
    assert(a.field(42) == b.field(42));
    assert(a.field(43) == b.field(43));
    assert(a.field(44) == b.field(44));
    assert(a.field(45) == b.field(45));
    assert(a.field(46) == b.field(46));
    assert(a.field(47) == b.field(47));
    assert(a.field(48) == b.field(48));
    assert(a.field(49) == b.field(49));
    assert(a.field(50) == b.field(50));
    assert(a.field(51) == b.field(51));
    assert(a.field(52) == b.field(52));
    assert(a.field(53) == b.field(53));
    assert(a.field(54) == b.field(54));
    assert(a.field(55) == b.field(55));
    assert(a.field(56) == b.field(56));
    assert(a.field(57) == b.field(57));
    assert(a.field(58) == b.field(58));
    assert(a.field(59) == b.field(59));
    assert(a.field(60) == b.field(60));
    assert(a.field(61) == b.field(61));
    assert(a.field(62) == b.field(62));
    assert(a.field(63) == b.field(63));
    assert(a.field(64) == b.field(64));
    assert(a.field(65) == b.field(65));
    assert(a.field(66) == b.field(66));
    assert(a.field(67) == b.field(67));
    assert(a.field(68) == b.field(68));
    assert(a.field(69) == b.field(69));
    assert(a.field(70) == b.field(70));
}

} // verus!
