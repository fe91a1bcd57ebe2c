//! The field registry: one entry per telemetry channel, indexed by field id
//! (entry 0 is the empty "none" field). Widgets bind to channels by name.

use vstd::prelude::*;
use crate::format::Fmt;
use crate::text::str_eq;

verus! {

/// How a channel is named, shown and scaled.
#[derive(Clone, Copy)]
pub struct FieldDef {
    pub name: &'static str,
    pub fmt: Fmt,
    pub scale: i32,
    pub label: &'static str,
}

/// Field id meaning "no field".
pub const FIELD_NONE: usize = 0;

/// Number of registry entries (ids `0..FIELD_COUNT`).
pub const FIELD_COUNT: usize = 71;

/// Channel names by field id.
pub const FIELD_NAMES: [&'static str; 71] = [
    "",
    "speed_kmh",
    "rpm",
    "max_rpm",
    "shift_rpm",
    "cur_lap_ms",
    "last_lap_ms",
    "best_lap_ms",
    "pb_lap_ms",
    "est_lap_ms",
    "delta_ms",
    "position",
    "field_size",
    "laps_done",
    "total_laps",
    "laps_left",
    "water_c",
    "oil_c",
    "oil_press_x10",
    "boost",
    "tc",
    "abs",
    "brake_bias_x10",
    "fuel_dl",
    "fuel_cap_dl",
    "fuel_per_lap_ml",
    "fuel_laps_x10",
    "tt_fl_i",
    "tt_fl_m",
    "tt_fl_o",
    "tt_fr_i",
    "tt_fr_m",
    "tt_fr_o",
    "tt_rl_i",
    "tt_rl_m",
    "tt_rl_o",
    "tt_rr_i",
    "tt_rr_m",
    "tt_rr_o",
    "tp_fl",
    "tp_fr",
    "tp_rl",
    "tp_rr",
    "tw_fl",
    "tw_fr",
    "tw_rl",
    "tw_rr",
    "bt_fl",
    "bt_fr",
    "bt_rl",
    "bt_rr",
    "throttle",
    "brake",
    "clutch",
    "steer",
    "tc_active",
    "abs_active",
    "headlights",
    "wipers",
    "pit_limiter",
    "ignition",
    "track_pct",
    "flag",
    "s1_ms",
    "s2_ms",
    "s3_ms",
    "bs1_ms",
    "bs2_ms",
    "bs3_ms",
    "pos_x",
    "pos_z",
];

/// Display format by field id.
pub const FIELD_FMTS: [Fmt; 71] = [
    Fmt::Int,
    Fmt::Int,
    Fmt::Int,
    Fmt::Int,
    Fmt::Int,
    Fmt::Time,
    Fmt::Time,
    Fmt::Time,
    Fmt::Time,
    Fmt::Time,
    Fmt::Delta,
    Fmt::Int,
    Fmt::Int,
    Fmt::Int,
    Fmt::Int,
    Fmt::Int,
    Fmt::Int,
    Fmt::Int,
    Fmt::Fixed1,
    Fmt::Int,
    Fmt::Int,
    Fmt::Int,
    Fmt::Fixed1,
    Fmt::Fixed1,
    Fmt::Fixed1,
    Fmt::Fixed2,
    Fmt::Fixed1,
    Fmt::Int,
    Fmt::Int,
    Fmt::Int,
    Fmt::Int,
    Fmt::Int,
    Fmt::Int,
    Fmt::Int,
    Fmt::Int,
    Fmt::Int,
    Fmt::Int,
    Fmt::Int,
    Fmt::Int,
    Fmt::Int,
    Fmt::Int,
    Fmt::Int,
    Fmt::Int,
    Fmt::Int,
    Fmt::Int,
    Fmt::Int,
    Fmt::Int,
    Fmt::Int,
    Fmt::Int,
    Fmt::Int,
    Fmt::Int,
    Fmt::Int,
    Fmt::Int,
    Fmt::Int,
    Fmt::Int,
    Fmt::Int,
    Fmt::Int,
    Fmt::Int,
    Fmt::Int,
    Fmt::Int,
    Fmt::Int,
    Fmt::Int,
    Fmt::Int,
    Fmt::Sector,
    Fmt::Sector,
    Fmt::Sector,
    Fmt::Sector,
    Fmt::Sector,
    Fmt::Sector,
    Fmt::Int,
    Fmt::Int,
];

/// Scale divisor by field id.
pub const FIELD_SCALES: [i32; 71] = [
    1,
    1,
    1,
    1,
    1,
    1,
    1,
    1,
    1,
    1,
    1,
    1,
    1,
    1,
    1,
    1,
    1,
    1,
    10,
    1,
    1,
    1,
    10,
    10,
    10,
    1000,
    10,
    1,
    1,
    1,
    1,
    1,
    1,
    1,
    1,
    1,
    1,
    1,
    1,
    1,
    1,
    1,
    1,
    1,
    1,
    1,
    1,
    1,
    1,
    1,
    1,
    1,
    1,
    1,
    1,
    1,
    1,
    1,
    1,
    1,
    1,
    1,
    1,
    1,
    1,
    1,
    1,
    1,
    1,
    1,
    1,
];

/// Human label by field id.
pub const FIELD_LABELS: [&'static str; 71] = [
    "",
    "Speed km/h",
    "RPM",
    "Max RPM",
    "Shift RPM",
    "Current Lap",
    "Last Lap",
    "Best Lap",
    "Personal Best",
    "Estimated Lap",
    "Delta",
    "Position",
    "Field Size",
    "Current Lap #",
    "Total Laps",
    "Laps Left",
    "Water Temp",
    "Oil Temp",
    "Oil Press",
    "Boost",
    "TC Level",
    "ABS Level",
    "Brake Bias",
    "Fuel",
    "Tank",
    "Fuel/Lap",
    "Fuel Laps",
    "FL temp in",
    "FL temp mid",
    "FL temp out",
    "FR temp in",
    "FR temp mid",
    "FR temp out",
    "RL temp in",
    "RL temp mid",
    "RL temp out",
    "RR temp in",
    "RR temp mid",
    "RR temp out",
    "FL pressure",
    "FR pressure",
    "RL pressure",
    "RR pressure",
    "FL wear %",
    "FR wear %",
    "RL wear %",
    "RR wear %",
    "FL brake C",
    "FR brake C",
    "RL brake C",
    "RR brake C",
    "Throttle",
    "Brake",
    "Clutch",
    "Steer",
    "TC Active",
    "ABS Active",
    "Headlights",
    "Wipers",
    "Pit Limiter",
    "Ignition",
    "Track Position",
    "Flag",
    "Sector 1",
    "Sector 2",
    "Sector 3",
    "Best Sector 1",
    "Best Sector 2",
    "Best Sector 3",
    "Position X",
    "Position Z",
];

/// The registry entry of field `id` (`None` outside the registry).
pub fn field_def(id: usize) -> (d: Option<FieldDef>)
    ensures
        id < FIELD_COUNT <==> d is Some,
        d matches Some(e) ==> e.name == FIELD_NAMES@[id as int] && e.fmt == FIELD_FMTS@[id as int]
            && e.scale == FIELD_SCALES@[id as int] && e.label == FIELD_LABELS@[id as int],
{
    if id < FIELD_COUNT {
        Some(FieldDef { name: FIELD_NAMES[id], fmt: FIELD_FMTS[id], scale: FIELD_SCALES[id], label: FIELD_LABELS[id] })
    } else {
        None
    }
}

/// The id of the channel called `s`: the first entry from id 1 on whose name
/// is `s`, or `FIELD_NONE`.
pub fn field_id_from_str(s: &str) -> (id: usize)
    ensures
        id < FIELD_COUNT,
        id == FIELD_NONE <==> forall|i: int| 1 <= i < FIELD_COUNT ==> FIELD_NAMES@[i]@ != s@,
        id != FIELD_NONE ==> FIELD_NAMES@[id as int]@ == s@
            && forall|j: int| 1 <= j < id ==> FIELD_NAMES@[j]@ != s@,
{
    let mut i: usize = 1;
    while i < FIELD_COUNT
        invariant
            1 <= i <= FIELD_COUNT,
            forall|j: int| 1 <= j < i ==> FIELD_NAMES@[j]@ != s@,
        decreases FIELD_COUNT - i,
    {
        if str_eq(FIELD_NAMES[i], s) {
            return i;
        }
        i += 1;
    }
    FIELD_NONE
}

} // verus!
