//! Built-in catalogue data: widget types, default widget specs, the seeded
//! presets, shift-light ramp, button pages, boards and SimHub fields.

use vstd::prelude::*;
use crate::state::{State, ModSpec, ModSpecV, ColorRule, ColorRuleV, Zone, ZoneV, Preset, PresetV, LedCfg, BtnData, BtnV, BoardDef, BoardV, BoardPin, SimRow, empty_spec};
use crate::text::{string_from_chars, chars_of};
use crate::text::{position_of, index_in, str_eq};
use crate::frame::{int_text, push_int_text};

verus! {

/// Widget types offered by the editor (type id, display name, description).

pub const CATALOG_IDS: [&'static str; 21] = [
    "gearSpeed",
    "rpmLights",
    "lapDelta",
    "position",
    "fuel",
    "fuelPerLap",
    "tyres",
    "tyreWear",
    "lapTimes",
    "lastLap",
    "sectors",
    "brakeBias",
    "water",
    "oil",
    "tcAbs",
    "mapPosition",
    "flag",
    "clock",
    "speed",
    "gear",
    "rpmValue",
];

pub const CATALOG_NAMES: [&'static str; 21] = [
    "Gear + Speed",
    "RPM Lights",
    "Lap Delta",
    "Position",
    "Fuel",
    "Fuel per Lap",
    "Tyre Temps",
    "Tyre Wear",
    "Lap Times",
    "Last Lap",
    "Sectors",
    "Brake Bias",
    "Water Temp",
    "Oil Temp",
    "TC / ABS",
    "Track Map",
    "Flag",
    "Session Clock",
    "Speed only",
    "Gear only",
    "RPM Value",
];

pub const CATALOG_DESCS: [&'static str; 21] = [
    "Big gear glyph and speed",
    "12-LED shift strip",
    "Delta to best/optimal",
    "Race position / field",
    "Fuel remaining",
    "Avg consumption",
    "4-corner tyre grid",
    "4-corner wear %",
    "Current + best",
    "Last lap time",
    "S1/S2/S3 splits",
    "Front bias %",
    "Coolant temp",
    "Oil temp",
    "Aid levels",
    "Position dot on track",
    "Current flag colour",
    "Time remaining",
    "Speed value",
    "Gear glyph",
    "Numeric rpm",
];

pub const ZONE_KEYS: [&'static str; 5] = ["topStrip", "leftRail", "center", "rightRail", "bottom"];

pub const ZONE_TITLES: [&'static str; 5] = ["TOP STRIP", "LEFT RAIL", "CENTER", "RIGHT RAIL", "BOTTOM"];

pub const DEG: &'static str = "\u{00B0}";

/// Game executables (lower-case command-line fragments) and the library key of
/// the game each one means.

pub const GAME_PROC_NEEDLES: [&'static str; 13] = [
    "iracingsim",
    "ac2-win64-shipping",
    "acc.exe",
    "le mans ultimate",
    "ams2avx",
    "ams2",
    "assettocorsaevo",
    "acevo",
    "acs.exe",
    "f1_24",
    "f1_25",
    "rrre",
    "projectmotorracing",
];

pub const GAME_PROC_SIMS: [&'static str; 13] = [
    "iracing",
    "assettocorsacompetizione",
    "assettocorsacompetizione",
    "lmu",
    "automobilista2",
    "automobilista2",
    "assettocorsaevo",
    "assettocorsaevo",
    "assettocorsa",
    "f12024",
    "f12025",
    "rrre",
    "projectmotorracing",
];

/// SimHub custom-protocol fields: id, label and NCalc expression.

pub const SIMFIELD_IDS: [&'static str; 61] = [
    "gear",
    "speed",
    "rpm",
    "maxrpm",
    "shiftrpm",
    "curlap",
    "lastlap",
    "bestlap",
    "pblap",
    "estlap",
    "delta",
    "pos",
    "field",
    "lapsdone",
    "totallaps",
    "lapsleft",
    "water",
    "oil",
    "oilp",
    "boost",
    "tc",
    "abs",
    "bias",
    "fuel",
    "fuelcap",
    "fuelpl",
    "fuellaps",
    "ttfli",
    "ttflm",
    "ttflo",
    "ttfri",
    "ttfrm",
    "ttfro",
    "ttrli",
    "ttrlm",
    "ttrlo",
    "ttrri",
    "ttrrm",
    "ttrro",
    "tpfl",
    "tpfr",
    "tprl",
    "tprr",
    "twfl",
    "twfr",
    "twrl",
    "twrr",
    "btfl",
    "btfr",
    "btrl",
    "btrr",
    "thr",
    "brk",
    "clu",
    "steer",
    "tcact",
    "absact",
    "lights",
    "wipers",
    "pitlim",
    "ign",
];

pub const SIMFIELD_LABELS: [&'static str; 61] = [
    "Gear",
    "Speed km/h",
    "RPM",
    "Max RPM",
    "Shift RPM",
    "Current Lap",
    "Last Lap",
    "Best Lap",
    "Personal Best",
    "Estimated Lap",
    "Delta (0.1ms)",
    "Position",
    "Field Size",
    "Current Lap #",
    "Total Laps",
    "Laps Left",
    "Water Temp",
    "Oil Temp",
    "Oil Press x10",
    "Boost",
    "TC Level",
    "ABS Level",
    "Brake Bias x10",
    "Fuel x10",
    "Tank x10",
    "Fuel/Lap x1000",
    "Fuel Laps x10",
    "FL temp in",
    "FL temp mid",
    "FL temp out",
    "FR temp in",
    "FR temp mid",
    "FR temp out",
    "RL temp in",
    "RL temp mid",
    "RL temp out",
    "RR temp in",
    "RR temp mid",
    "RR temp out",
    "FL pressure",
    "FR pressure",
    "RL pressure",
    "RR pressure",
    "FL wear %",
    "FR wear %",
    "RL wear %",
    "RR wear %",
    "FL brake C",
    "FR brake C",
    "RL brake C",
    "RR brake C",
    "Throttle",
    "Brake",
    "Clutch",
    "Steer",
    "TC Active",
    "ABS Active",
    "Headlights",
    "Wipers",
    "Pit Limiter",
    "Ignition",
];

pub const SIMFIELD_EXPRS: [&'static str; 61] = [
    "isnull([Gear],'N')",
    "format(isnull([SpeedKmh],0),'0')",
    "format(isnull([Rpms],0),'0')",
    "format(isnull([CarSettings_MaxRPM],0),'0')",
    "format(isnull([CarSettings_RPMShiftLight1],0),'0')",
    "format(timespantoseconds(isnull([CurrentLapTime],secondstotimespan(0)))*1000,'0')",
    "format(timespantoseconds(isnull([LastLapTime],secondstotimespan(0)))*1000,'0')",
    "format(timespantoseconds(isnull([BestLapTime],secondstotimespan(0)))*1000,'0')",
    "format(timespantoseconds(isnull([PersonalBestLapTime],secondstotimespan(0)))*1000,'0')",
    "format(timespantoseconds(isnull([EstimatedLapTime],secondstotimespan(0)))*1000,'0')",
    "format(isnull([PersistantTrackerPlugin.SessionBestLiveDeltaSeconds],0)*10000,'0')",
    "isnull([Position],0)",
    "isnull([OpponentsCount],0)+1",
    "isnull([CurrentLap],0)",
    "isnull([TotalLaps],0)",
    "isnull([RemainingLaps],0)",
    "format(isnull([WaterTemperature],0),'0')",
    "format(isnull([OilTemperature],0),'0')",
    "format(isnull([OilPressure],0)*10,'0')",
    "format(isnull([TurboPercent],0),'0')",
    "isnull([TCLevel],0)",
    "isnull([ABSLevel],0)",
    "format(isnull([BrakeBias],0)*10,'0')",
    "format(isnull([Fuel],0)*10,'0')",
    "format(isnull([CarSettings_FuelCapacity],0)*10,'0')",
    "format(isnull([Computed.Fuel_LitersPerLap],0)*1000,'0')",
    "format(isnull([Computed.Fuel_RemainingLaps],0)*10,'0')",
    "format(isnull([TyreTemperatureFrontLeft],0),'0')",
    "format(isnull([TyreTemperatureFrontLeft],0),'0')",
    "format(isnull([TyreTemperatureFrontLeft],0),'0')",
    "format(isnull([TyreTemperatureFrontRight],0),'0')",
    "format(isnull([TyreTemperatureFrontRight],0),'0')",
    "format(isnull([TyreTemperatureFrontRight],0),'0')",
    "format(isnull([TyreTemperatureRearLeft],0),'0')",
    "format(isnull([TyreTemperatureRearLeft],0),'0')",
    "format(isnull([TyreTemperatureRearLeft],0),'0')",
    "format(isnull([TyreTemperatureRearRight],0),'0')",
    "format(isnull([TyreTemperatureRearRight],0),'0')",
    "format(isnull([TyreTemperatureRearRight],0),'0')",
    "format(isnull([TyrePressureFrontLeft],0),'0')",
    "format(isnull([TyrePressureFrontRight],0),'0')",
    "format(isnull([TyrePressureRearLeft],0),'0')",
    "format(isnull([TyrePressureRearRight],0),'0')",
    "format(isnull([TyreWearFrontLeft],100),'0')",
    "format(isnull([TyreWearFrontRight],100),'0')",
    "format(isnull([TyreWearRearLeft],100),'0')",
    "format(isnull([TyreWearRearRight],100),'0')",
    "format(isnull([BrakeTemperatureFrontLeft],0),'0')",
    "format(isnull([BrakeTemperatureFrontRight],0),'0')",
    "format(isnull([BrakeTemperatureRearLeft],0),'0')",
    "format(isnull([BrakeTemperatureRearRight],0),'0')",
    "format(isnull([Throttle],0),'0')",
    "format(isnull([Brake],0),'0')",
    "format(isnull([Clutch],0),'0')",
    "0",
    "isnull([TCActive],0)",
    "isnull([ABSActive],0)",
    "format(isnull([GameRawData.Graphics.RainLights],0),'0')",
    "format(isnull([GameRawData.Graphics.WiperLV],0),'0')",
    "format(isnull([PitLimiterOn],0),'0')",
    "format(isnull([EngineIgnitionOn],0),'0')",
];

pub const BUTTON_FIELDS: [&'static str; 7] = [
    "",
    "headlights",
    "wipers",
    "pit_limiter",
    "ignition",
    "tc_active",
    "abs_active",
];

pub const PIN_KEYS: [&'static str; 9] = [
    "sclk",
    "mosi",
    "miso",
    "dc",
    "disp1_cs",
    "disp2_cs",
    "touch1_cs",
    "touch2_cs",
    "led_din",
];

pub const PIN_LABELS: [&'static str; 9] = [
    "SPI SCLK",
    "SPI MOSI",
    "SPI MISO",
    "Shared DC",
    "Display 1 CS",
    "Display 2 CS",
    "Touch 1 CS",
    "Touch 2 CS",
    "LED data",
];

pub const PIN_N: usize = 9;

/// Index of zone key `k` (0 when unknown).
pub fn zone_index(k: &str) -> (r: usize)
    ensures
        r == if index_in(ZONE_KEYS@, k@) >= 0 {
            index_in(ZONE_KEYS@, k@) as usize
        } else {
            0
        },
{
    match position_of(ZONE_KEYS.as_slice(), k) {
        Some(i) => i,
        None => 0,
    }
}

/// Display name of widget type `ty` (the type itself when not catalogued).
pub open spec fn mod_name_of(ty: Seq<char>) -> Seq<char> {
    let i = index_in(CATALOG_IDS@, ty);
    if i >= 0 {
        CATALOG_NAMES@[i]@
    } else {
        ty
    }
}

pub fn mod_name<'a>(ty: &'a str) -> (r: &'a str)
    ensures
        r@ == mod_name_of(ty@),
{
    match position_of(CATALOG_IDS.as_slice(), ty) {
        Some(i) => CATALOG_NAMES[i],
        None => ty,
    }
}


pub open spec fn rule_v(op: Seq<char>, v: i32, color: Seq<char>) -> ColorRuleV {
    ColorRuleV { op, v, color }
}

/// A `stat` widget bound to `field` with caption, unit and base colour.
pub open spec fn with_stat(m: ModSpecV, f: Seq<char>, l: Seq<char>, u: Seq<char>, b: Seq<char>) -> ModSpecV {
    ModSpecV { kind: "stat"@, field: f, label: l, unit: u, base: b, ..m }
}

pub open spec fn with_kind(m: ModSpecV, k: Seq<char>) -> ModSpecV {
    ModSpecV { kind: k, ..m }
}

/// The widget a catalogue type starts as.
pub open spec fn default_spec_of(ty: Seq<char>) -> ModSpecV {
    let m = ModSpecV { templ: ty, enabled: true, ..empty_spec() };
    if ty == "gearSpeed"@ {
        with_kind(m, "gearSpeed"@)
    } else if ty == "gear"@ {
        with_kind(m, "gear"@)
    } else if ty == "rpmLights"@ {
        with_kind(m, "rpmStrip"@)
    } else if ty == "rpmValue"@ {
        with_stat(m, "rpm"@, "RPM"@, ""@, "white"@)
    } else if ty == "speed"@ {
        with_stat(m, "speed_kmh"@, "KM/H"@, ""@, "white"@)
    } else if ty == "lapDelta"@ {
        ModSpecV {
            rules: seq![rule_v("<"@, 0, "green"@), rule_v(">"@, 0, "red"@)],
            ..with_stat(m, "delta_ms"@, "DELTA"@, ""@, "amber"@)
        }
    } else if ty == "position"@ {
        ModSpecV { kind: "position"@, field: "position"@, label: "POS"@, ..m }
    } else if ty == "fuel"@ {
        with_stat(m, "fuel_dl"@, "FUEL"@, "L"@, "white"@)
    } else if ty == "fuelPerLap"@ {
        with_stat(m, "fuel_per_lap_ml"@, "FUEL/LAP"@, "L"@, "white"@)
    } else if ty == "tyres"@ {
        ModSpecV { kind: "tyreGrid"@, field: "tt_fl_m"@, unit: DEG@, ..m }
    } else if ty == "tyreWear"@ {
        ModSpecV { kind: "tyreGrid"@, field: "tw_fl"@, unit: "%"@, ..m }
    } else if ty == "lapTimes"@ {
        with_kind(m, "lapPair"@)
    } else if ty == "lastLap"@ {
        with_stat(m, "last_lap_ms"@, "LAST"@, ""@, "white"@)
    } else if ty == "sectors"@ {
        with_kind(m, "sectors"@)
    } else if ty == "brakeBias"@ {
        with_stat(m, "brake_bias_x10"@, "BIAS"@, "%"@, "white"@)
    } else if ty == "water"@ {
        ModSpecV { rules: seq![rule_v(">"@, 105, "red"@)], ..with_stat(m, "water_c"@, "H2O"@, DEG@, "white"@) }
    } else if ty == "oil"@ {
        with_stat(m, "oil_c"@, "OIL"@, DEG@, "white"@)
    } else if ty == "tcAbs"@ {
        with_kind(m, "tcDual"@)
    } else if ty == "mapPosition"@ {
        with_kind(m, "map"@)
    } else if ty == "flag"@ {
        ModSpecV { kind: "flag"@, base: "green"@, ..m }
    } else {
        with_stat(m, "speed_kmh"@, mod_name_of(ty), ""@, "white"@)
    }
}

fn set_stat(m: &mut ModSpec, f: &str, l: &str, u: &str, b: &str)
    ensures
        final(m)@ == with_stat(old(m)@, f@, l@, u@, b@),
{
    m.kind = "stat".to_owned();
    m.field = f.to_owned();
    m.label = l.to_owned();
    m.unit = u.to_owned();
    m.base = b.to_owned();
}

fn set_kind(m: &mut ModSpec, k: &str)
    ensures
        final(m)@ == with_kind(old(m)@, k@),
{
    m.kind = k.to_owned();
}

fn make_rule(op: &str, v: i32, color: &str) -> (r: ColorRule)
    ensures
        r@ == rule_v(op@, v, color@),
{
    ColorRule { op: op.to_owned(), v, color: color.to_owned() }
}

/// The widget a catalogue type starts as (an unknown type becomes a speed
/// readout captioned with its name).
pub fn default_spec(ty: &str) -> (m: ModSpec)
    ensures
        m@ == default_spec_of(ty@),
{
    let mut m = ModSpec::default();
    m.templ = ty.to_owned();
    m.enabled = true;
    if str_eq(ty, "gearSpeed") {
        set_kind(&mut m, "gearSpeed");
    } else if str_eq(ty, "gear") {
        set_kind(&mut m, "gear");
    } else if str_eq(ty, "rpmLights") {
        set_kind(&mut m, "rpmStrip");
    } else if str_eq(ty, "rpmValue") {
        set_stat(&mut m, "rpm", "RPM", "", "white");
    } else if str_eq(ty, "speed") {
        set_stat(&mut m, "speed_kmh", "KM/H", "", "white");
    } else if str_eq(ty, "lapDelta") {
        set_stat(&mut m, "delta_ms", "DELTA", "", "amber");
        let mut rules: Vec<ColorRule> = Vec::new();
        rules.push(make_rule("<", 0, "green"));
        rules.push(make_rule(">", 0, "red"));
        m.rules = rules;
        assert(m@.rules =~= seq![rule_v("<"@, 0, "green"@), rule_v(">"@, 0, "red"@)]);
    } else if str_eq(ty, "position") {
        m.kind = "position".to_owned();
        m.field = "position".to_owned();
        m.label = "POS".to_owned();
    } else if str_eq(ty, "fuel") {
        set_stat(&mut m, "fuel_dl", "FUEL", "L", "white");
    } else if str_eq(ty, "fuelPerLap") {
        set_stat(&mut m, "fuel_per_lap_ml", "FUEL/LAP", "L", "white");
    } else if str_eq(ty, "tyres") {
        m.kind = "tyreGrid".to_owned();
        m.field = "tt_fl_m".to_owned();
        m.unit = DEG.to_owned();
    } else if str_eq(ty, "tyreWear") {
        m.kind = "tyreGrid".to_owned();
        m.field = "tw_fl".to_owned();
        m.unit = "%".to_owned();
    } else if str_eq(ty, "lapTimes") {
        set_kind(&mut m, "lapPair");
    } else if str_eq(ty, "lastLap") {
        set_stat(&mut m, "last_lap_ms", "LAST", "", "white");
    } else if str_eq(ty, "sectors") {
        set_kind(&mut m, "sectors");
    } else if str_eq(ty, "brakeBias") {
        set_stat(&mut m, "brake_bias_x10", "BIAS", "%", "white");
    } else if str_eq(ty, "water") {
        set_stat(&mut m, "water_c", "H2O", DEG, "white");
        let mut rules: Vec<ColorRule> = Vec::new();
        rules.push(make_rule(">", 105, "red"));
        m.rules = rules;
        assert(m@.rules =~= seq![rule_v(">"@, 105, "red"@)]);
    } else if str_eq(ty, "oil") {
        set_stat(&mut m, "oil_c", "OIL", DEG, "white");
    } else if str_eq(ty, "tcAbs") {
        set_kind(&mut m, "tcDual");
    } else if str_eq(ty, "mapPosition") {
        set_kind(&mut m, "map");
    } else if str_eq(ty, "flag") {
        m.kind = "flag".to_owned();
        m.base = "green".to_owned();
    } else {
        let name = mod_name(ty);
        set_stat(&mut m, "speed_kmh", name, "", "white");
    }
    m
}

/// Shift-light colour ramp: four green, four amber, four red.
pub const SHIFT_RAMP: [u32; 12] = [
    0x00E676, 0x00E676, 0x00E676, 0x00E676, 0xFFB300, 0xFFB300, 0xFFB300, 0xFFB300, 0xFF3B30,
    0xFF3B30, 0xFF3B30, 0xFF3B30,
];

/// Shift-light thresholds (percent of redline) per LED.
pub const SHIFT_THRESHOLDS: [i32; 12] = [62, 66, 70, 74, 78, 82, 85, 88, 91, 94, 97, 99];

/// Gives gears 1..=6 the default ramp: LED `i` lights at `SHIFT_THRESHOLDS[i]`
/// percent in colour `SHIFT_RAMP[i]`. Nothing else changes.
pub fn seed_shift(s: &mut State)
    ensures
        *final(s) == (State { leds: final(s).leds, ..*old(s) }),
        final(s).leds[0] == old(s).leds[0],
        forall|g: int, i: int|
            1 <= g <= 6 && 0 <= i < 12 ==> #[trigger] final(s).leds[g][i] == (LedCfg {
                rgb: SHIFT_RAMP[i],
                threshold: SHIFT_THRESHOLDS[i],
            }),
{
    let ghost orig = *s;
    let mut gear: usize = 1;
    while gear <= 6
        invariant
            1 <= gear <= 7,
            *s == (State { leds: s.leds, ..orig }),
            s.leds[0] == orig.leds[0],
            forall|g: int, i: int|
                1 <= g < gear && 0 <= i < 12 ==> #[trigger] s.leds[g][i] == (LedCfg {
                    rgb: SHIFT_RAMP[i],
                    threshold: SHIFT_THRESHOLDS[i],
                }),
        decreases 7 - gear,
    {
        let mut i: usize = 0;
        while i < 12
            invariant
                1 <= gear <= 6,
                i <= 12,
                *s == (State { leds: s.leds, ..orig }),
                s.leds[0] == orig.leds[0],
                forall|g: int, j: int|
                    1 <= g < gear && 0 <= j < 12 ==> #[trigger] s.leds[g][j] == (LedCfg {
                        rgb: SHIFT_RAMP[j],
                        threshold: SHIFT_THRESHOLDS[j],
                    }),
                forall|j: int|
                    0 <= j < i ==> #[trigger] s.leds[gear as int][j] == (LedCfg {
                        rgb: SHIFT_RAMP[j],
                        threshold: SHIFT_THRESHOLDS[j],
                    }),
            decreases 12 - i,
        {
            s.leds[gear][i].rgb = SHIFT_RAMP[i];
            s.leds[gear][i].threshold = SHIFT_THRESHOLDS[i];
            i += 1;
        }
        gear += 1;
    }
}

pub open spec fn btn_v(l: Seq<char>, t: bool, on: bool, a: Seq<char>, c: u32, sy: bool, f: Seq<char>, av: bool) -> BtnV {
    BtnV { label: l, toggle: t, on, action: a, col: c, sync: sy, field: f, avail: av }
}

fn b(l: &str, t: bool, on: bool, a: &str, c: u32, sy: bool, f: &str, av: bool) -> (r: BtnData)
    ensures
        r@ == btn_v(l@, t, on, a@, c, sy, f@, av),
{
    BtnData {
        label: l.to_owned(),
        toggle: t,
        on,
        action: a.to_owned(),
        col: c,
        sync: sy,
        field: f.to_owned(),
        avail: av,
    }
}

/// Button page 1 of the default layout.
pub open spec fn button_page_0() -> Seq<BtnV> {
    seq![
        btn_v("Pit Limiter"@, true, false, "PitLimiter"@, 0x00E5A0, true, "pit_limiter"@, true),
        btn_v("Headlights"@, true, true, "Headlights"@, 0xFFB300, true, "headlights"@, true),
        btn_v("Wipers"@, true, false, "Wipers"@, 0x2E9DFF, true, "wipers"@, true),
        btn_v("Radio"@, false, false, "Radio"@, 0x00E5A0, false, ""@, false),
        btn_v("Marker"@, false, false, "Marker"@, 0x00E5A0, false, ""@, false),
        btn_v("Reset Lap"@, false, false, "ResetLap"@, 0x00E5A0, false, ""@, false),
    ]
}

/// Button page 2 of the default layout.
pub open spec fn button_page_1() -> Seq<BtnV> {
    seq![
        btn_v("TC+"@, false, false, "TCPlus"@, 0x00E5A0, false, ""@, false),
        btn_v("TC-"@, false, false, "TCMinus"@, 0x00E5A0, false, ""@, false),
        btn_v("ABS"@, true, false, "ABS"@, 0x2E9DFF, true, "abs_active"@, true),
        btn_v("BB+"@, false, false, "BBPlus"@, 0x00E5A0, false, ""@, false),
        btn_v("BB-"@, false, false, "BBMinus"@, 0x00E5A0, false, ""@, false),
        btn_v("MAP+"@, false, false, "MapPlus"@, 0x00E5A0, false, ""@, false),
    ]
}

/// Button page 3 of the default layout.
pub open spec fn button_page_2() -> Seq<BtnV> {
    seq![
        btn_v("Ignition"@, true, false, "Ignition"@, 0xFFB300, false, ""@, false),
        btn_v("Starter"@, false, false, "Starter"@, 0x00E5A0, false, ""@, false),
        btn_v("Pit Speed"@, false, false, "PitSpeed"@, 0x00E5A0, false, ""@, false),
        btn_v("DRS"@, true, false, "DRS"@, 0x00E5A0, true, "DRSAvailable"@, false),
        btn_v("Push2Pass"@, false, false, "P2P"@, 0x00E5A0, false, ""@, false),
        btn_v("Neutral"@, false, false, "Neutral"@, 0x00E5A0, false, ""@, false),
    ]
}

/// The default button pages.
pub open spec fn default_button_pages() -> Seq<Seq<BtnV>> {
    seq![button_page_0(), button_page_1(), button_page_2()]
}

pub open spec fn pages_view(p: Seq<Vec<BtnData>>) -> Seq<Seq<BtnV>> {
    p.map_values(|pg: Vec<BtnData>| pg@.map_values(|x: BtnData| x@))
}

fn default_page_0() -> (v: Vec<BtnData>)
    ensures
        v@.map_values(|x: BtnData| x@) == button_page_0(),
{
    let mut v: Vec<BtnData> = Vec::new();
    v.push(b("Pit Limiter", true, false, "PitLimiter", 0x00E5A0, true, "pit_limiter", true));
    v.push(b("Headlights", true, true, "Headlights", 0xFFB300, true, "headlights", true));
    v.push(b("Wipers", true, false, "Wipers", 0x2E9DFF, true, "wipers", true));
    v.push(b("Radio", false, false, "Radio", 0x00E5A0, false, "", false));
    v.push(b("Marker", false, false, "Marker", 0x00E5A0, false, "", false));
    v.push(b("Reset Lap", false, false, "ResetLap", 0x00E5A0, false, "", false));
    assert(v@.map_values(|x: BtnData| x@) =~= button_page_0());
    v
}

fn default_page_1() -> (v: Vec<BtnData>)
    ensures
        v@.map_values(|x: BtnData| x@) == button_page_1(),
{
    let mut v: Vec<BtnData> = Vec::new();
    v.push(b("TC+", false, false, "TCPlus", 0x00E5A0, false, "", false));
    v.push(b("TC-", false, false, "TCMinus", 0x00E5A0, false, "", false));
    v.push(b("ABS", true, false, "ABS", 0x2E9DFF, true, "abs_active", true));
    v.push(b("BB+", false, false, "BBPlus", 0x00E5A0, false, "", false));
    v.push(b("BB-", false, false, "BBMinus", 0x00E5A0, false, "", false));
    v.push(b("MAP+", false, false, "MapPlus", 0x00E5A0, false, "", false));
    assert(v@.map_values(|x: BtnData| x@) =~= button_page_1());
    v
}

fn default_page_2() -> (v: Vec<BtnData>)
    ensures
        v@.map_values(|x: BtnData| x@) == button_page_2(),
{
    let mut v: Vec<BtnData> = Vec::new();
    v.push(b("Ignition", true, false, "Ignition", 0xFFB300, false, "", false));
    v.push(b("Starter", false, false, "Starter", 0x00E5A0, false, "", false));
    v.push(b("Pit Speed", false, false, "PitSpeed", 0x00E5A0, false, "", false));
    v.push(b("DRS", true, false, "DRS", 0x00E5A0, true, "DRSAvailable", false));
    v.push(b("Push2Pass", false, false, "P2P", 0x00E5A0, false, "", false));
    v.push(b("Neutral", false, false, "Neutral", 0x00E5A0, false, "", false));
    assert(v@.map_values(|x: BtnData| x@) =~= button_page_2());
    v
}

/// Replaces the button pages with the three default pages (driving aids,
/// car settings, engine); nothing else changes.
pub fn seed_buttons(s: &mut State)
    ensures
        *final(s) == (State { btn_pages: final(s).btn_pages, ..*old(s) }),
        pages_view(final(s).btn_pages@) == default_button_pages(),
{
    let mut pages: Vec<Vec<BtnData>> = Vec::new();
    pages.push(default_page_0());
    pages.push(default_page_1());
    pages.push(default_page_2());
    s.btn_pages = pages;
    assert(pages_view(s.btn_pages@) =~= default_button_pages());
}

/// GPIOs offered on ESP32-S3 boards.
pub const GP_S3: [i32; 28] = [1, 2, 4, 5, 6, 7, 8, 9, 10, 11, 12, 13, 14, 15, 16, 17, 18, 21, 38, 39, 40, 41, 42, 43, 44, 45, 47, 48];

/// GPIOs offered on ESP32-S2 boards.
pub const GP_S2: [i32; 31] = [1, 2, 3, 4, 5, 6, 7, 8, 9, 10, 11, 12, 13, 14, 15, 16, 17, 18, 33, 34, 35, 36, 37, 38, 39, 40, 41, 42, 43, 44, 45];

/// The Seeed XIAO ESP32-S3 pads and their GPIOs.
pub open spec fn xiao_pins() -> Seq<(Seq<char>, i32)> {
    seq![
        ("D0"@, 1),
        ("D1"@, 2),
        ("D2"@, 3),
        ("D3"@, 4),
        ("D4"@, 5),
        ("D5"@, 6),
        ("D6"@, 43),
        ("D7"@, 44),
        ("D8"@, 7),
        ("D9"@, 8),
        ("D10"@, 9),
    ]
}

pub open spec fn board_v(name: Seq<char>, id: Seq<char>, target: Seq<char>, pins: Seq<(Seq<char>, i32)>) -> BoardV {
    BoardV { name, id, target, pins }
}

/// Pins named after their GPIO number.
pub open spec fn gpio_pins(gp: Seq<i32>) -> Seq<(Seq<char>, i32)> {
    gp.map_values(|g: i32| ("GPIO"@ + int_text(g as int), g))
}

/// The supported boards, in picker order.
pub open spec fn default_boards() -> Seq<BoardV> {
    seq![
        board_v("Seeed XIAO ESP32-S3"@, "xiao_s3"@, "esp32s3"@, xiao_pins()),
        board_v("ESP32-S3-DevKitC-1"@, "devkitc_s3"@, "esp32s3"@, gpio_pins(GP_S3@)),
        board_v("Waveshare ESP32-S3-Zero"@, "zero_s3"@, "esp32s3"@, gpio_pins(GP_S3@)),
        board_v("Generic ESP32-S3"@, "generic_s3"@, "esp32s3"@, gpio_pins(GP_S3@)),
        board_v("ESP32-S2 DevKit (1 screen)"@, "devkit_s2"@, "esp32s2"@, gpio_pins(GP_S2@)),
        board_v("Lolin S2 Mini (1 screen)"@, "s2_mini"@, "esp32s2"@, gpio_pins(GP_S2@)),
    ]
}

fn pin(label: &str, gpio: i32) -> (p: BoardPin)
    ensures
        p@ == (label@, gpio),
{
    BoardPin { label: label.to_owned(), gpio }
}

fn xiao_board() -> (b: BoardDef)
    ensures
        b@ == board_v("Seeed XIAO ESP32-S3"@, "xiao_s3"@, "esp32s3"@, xiao_pins()),
{
    let mut pins: Vec<BoardPin> = Vec::new();
    pins.push(pin("D0", 1));
    pins.push(pin("D1", 2));
    pins.push(pin("D2", 3));
    pins.push(pin("D3", 4));
    pins.push(pin("D4", 5));
    pins.push(pin("D5", 6));
    pins.push(pin("D6", 43));
    pins.push(pin("D7", 44));
    pins.push(pin("D8", 7));
    pins.push(pin("D9", 8));
    pins.push(pin("D10", 9));
    let b = BoardDef {
        name: "Seeed XIAO ESP32-S3".to_owned(),
        id: "xiao_s3".to_owned(),
        target: "esp32s3".to_owned(),
        pins,
    };
    assert(b@.pins =~= xiao_pins());
    b
}

fn gpio_board(nm: &str, id: &str, target: &str, gp: &[i32]) -> (b: BoardDef)
    ensures
        b@ == board_v(nm@, id@, target@, gpio_pins(gp@)),
{
    let mut pins: Vec<BoardPin> = Vec::new();
    let mut i: usize = 0;
    while i < gp.len()
        invariant
            i <= gp@.len(),
            pins@.map_values(|p: BoardPin| p@) == gpio_pins(gp@.take(i as int)),
        decreases gp.len() - i,
    {
        let g = gp[i];
        let mut label: Vec<char> = Vec::new();
        label.push('G');
        label.push('P');
        label.push('I');
        label.push('O');
        push_int_text(&mut label, g);
        let ghost before = pins@;
        pins.push(BoardPin { label: string_from_chars(&label), gpio: g });
        assert(label@ =~= "GPIO"@ + int_text(g as int)) by {
            reveal_strlit("GPIO");
        }
        assert(pins@.map_values(|p: BoardPin| p@) =~= before.map_values(|p: BoardPin| p@).push(
            ("GPIO"@ + int_text(g as int), g),
        ));
        assert(gp@.take(i + 1) =~= gp@.take(i as int).push(g));
        assert(gpio_pins(gp@.take(i + 1)) =~= gpio_pins(gp@.take(i as int)).push(("GPIO"@ + int_text(g as int), g)));
        i += 1;
    }
    assert(gp@.take(gp@.len() as int) =~= gp@);
    BoardDef { name: nm.to_owned(), id: id.to_owned(), target: target.to_owned(), pins }
}

/// Replaces the board list with the supported boards; nothing else changes.
pub fn seed_boards(s: &mut State)
    ensures
        *final(s) == (State { boards: final(s).boards, ..*old(s) }),
        final(s).boards@.map_values(|b: BoardDef| b@) == default_boards(),
{
    let mut boards: Vec<BoardDef> = Vec::new();
    boards.push(xiao_board());
    boards.push(gpio_board("ESP32-S3-DevKitC-1", "devkitc_s3", "esp32s3", GP_S3.as_slice()));
    boards.push(gpio_board("Waveshare ESP32-S3-Zero", "zero_s3", "esp32s3", GP_S3.as_slice()));
    boards.push(gpio_board("Generic ESP32-S3", "generic_s3", "esp32s3", GP_S3.as_slice()));
    boards.push(gpio_board("ESP32-S2 DevKit (1 screen)", "devkit_s2", "esp32s2", GP_S2.as_slice()));
    boards.push(gpio_board("Lolin S2 Mini (1 screen)", "s2_mini", "esp32s2", GP_S2.as_slice()));
    s.boards = boards;
    assert(s.boards@.map_values(|b: BoardDef| b@) =~= default_boards());
}

/// Replaces the SimHub field list with the built-in fields, all enabled.
pub fn seed_sim(s: &mut State)
    ensures
        *final(s) == (State { sim: final(s).sim, ..*old(s) }),
        final(s).sim@.len() == SIMFIELD_IDS@.len(),
        forall|i: int|
            0 <= i < SIMFIELD_IDS@.len() ==> {
                let r = #[trigger] final(s).sim@[i];
                &&& r.id@ == SIMFIELD_IDS@[i]@
                &&& r.label@ == SIMFIELD_LABELS@[i]@
                &&& r.expr@ == SIMFIELD_EXPRS@[i]@
                &&& r.enabled
                &&& r.builtin
            },
{
    let mut rows: Vec<SimRow> = Vec::new();
    let mut i: usize = 0;
    while i < SIMFIELD_IDS.len()
        invariant
            i <= SIMFIELD_IDS@.len(),
            rows@.len() == i,
            forall|j: int|
                0 <= j < i ==> {
                    let r = #[trigger] rows@[j];
                    &&& r.id@ == SIMFIELD_IDS@[j]@
                    &&& r.label@ == SIMFIELD_LABELS@[j]@
                    &&& r.expr@ == SIMFIELD_EXPRS@[j]@
                    &&& r.enabled
                    &&& r.builtin
                },
        decreases SIMFIELD_IDS.len() - i,
    {
        rows.push(
            SimRow {
                id: SIMFIELD_IDS[i].to_owned(),
                label: SIMFIELD_LABELS[i].to_owned(),
                expr: SIMFIELD_EXPRS[i].to_owned(),
                enabled: true,
                builtin: true,
            },
        );
        i += 1;
    }
    s.sim = rows;
}

/// A preset layout as plain text: per zone key, the widget types placed there.
pub open spec fn layout_view(spec: Seq<(&str, &[&str])>) -> Seq<(Seq<char>, Seq<Seq<char>>)> {
    spec.map_values(|e: (&str, &[&str])| (e.0@, e.1@.map_values(|t: &str| t@)))
}

/// The widget types a layout places in the zone with key `key`, in order.
pub open spec fn zone_types(l: Seq<(Seq<char>, Seq<Seq<char>>)>, key: Seq<char>) -> Seq<Seq<char>>
    decreases l.len(),
{
    if l.len() == 0 {
        seq![]
    } else {
        zone_types(l.drop_last(), key) + if l.last().0 == key {
            l.last().1
        } else {
            seq![]
        }
    }
}

/// Number of widgets a layout places in the zones before zone `z`.
pub open spec fn placed_before(l: Seq<(Seq<char>, Seq<Seq<char>>)>, z: int) -> int
    decreases z,
{
    if z <= 0 {
        0
    } else {
        placed_before(l, z - 1) + zone_types(l, ZONE_KEYS@[z - 1]@).len()
    }
}

/// A placed widget: the default widget of type `t`, with id `t-uid`.
pub open spec fn placed_widget(t: Seq<char>, uid: int) -> ModSpecV {
    ModSpecV { id: t + seq!['-'] + int_text(uid), ..default_spec_of(t) }
}

/// Zone `z` of a preset built from layout `l` with ids numbered from `uid0`.
pub open spec fn preset_zone(l: Seq<(Seq<char>, Seq<Seq<char>>)>, z: int, uid0: int) -> ZoneV {
    let ts = zone_types(l, ZONE_KEYS@[z]@);
    ZoneV {
        key: ZONE_KEYS@[z]@,
        title: ZONE_TITLES@[z]@,
        modules: Seq::new(ts.len(), |k: int| placed_widget(ts[k], uid0 + placed_before(l, z) + k)),
    }
}

/// The preset built from layout `l`: the five zones in order, each holding
/// its widgets in layout order, ids numbered consecutively from `uid0`.
pub open spec fn preset_of(name: Seq<char>, builtin: bool, l: Seq<(Seq<char>, Seq<Seq<char>>)>, uid0: int) -> PresetV {
    PresetV { name, builtin, zones: Seq::new(5, |z: int| preset_zone(l, z, uid0)) }
}

proof fn lemma_zone_types_prefix(l: Seq<(Seq<char>, Seq<Seq<char>>)>, e: int, key: Seq<char>)
    requires
        0 <= e <= l.len(),
    ensures
        zone_types(l.take(e), key).len() <= zone_types(l, key).len(),
    decreases l.len(),
{
    if e < l.len() {
        lemma_zone_types_prefix(l.drop_last(), e, key);
        assert(l.drop_last().take(e) =~= l.take(e));
    } else {
        assert(l.take(e) =~= l);
    }
}

proof fn lemma_placed_mono(l: Seq<(Seq<char>, Seq<Seq<char>>)>, z: int, z2: int)
    requires
        0 <= z <= z2 <= 5,
    ensures
        placed_before(l, z) <= placed_before(l, z2),
    decreases z2 - z,
{
    if z < z2 {
        lemma_placed_mono(l, z, z2 - 1);
    }
}

/// The widget id `t-uid`.
fn widget_id(t: &str, uid: i32) -> (s: String)
    ensures
        s@ == t@ + seq!['-'] + int_text(uid as int),
{
    let mut v = chars_of(t);
    v.push('-');
    push_int_text(&mut v, uid);
    string_from_chars(&v)
}

/// Builds a preset from a layout, numbering widget ids from `*uid` on and
/// advancing `*uid` past them.
fn make_preset(uid: &mut i32, name: &str, builtin: bool, spec: &[(&str, &[&str])]) -> (p: Preset)
    requires
        *old(uid) + placed_before(layout_view(spec@), 5) <= i32::MAX,
    ensures
        p@ == preset_of(name@, builtin, layout_view(spec@), *old(uid) as int),
        *final(uid) == *old(uid) + placed_before(layout_view(spec@), 5),
{
    let ghost l = layout_view(spec@);
    let ghost uid0 = *uid as int;
    let mut zones: Vec<Zone> = Vec::new();
    let mut z: usize = 0;
    while z < 5
        invariant
            z <= 5,
            l == layout_view(spec@),
            uid0 + placed_before(l, 5) <= i32::MAX,
            *uid == uid0 + placed_before(l, z as int),
            zones@.map_values(|x: Zone| x@) == Seq::new(z as nat, |zz: int| preset_zone(l, zz, uid0)),
        decreases 5 - z,
    {
        let ghost key = ZONE_KEYS@[z as int]@;
        let mut modules: Vec<ModSpec> = Vec::new();
        let mut e: usize = 0;
        proof {
            lemma_placed_mono(l, z + 1, 5);
            assert(l.take(0) =~= Seq::<(Seq<char>, Seq<Seq<char>>)>::empty());
        }
        while e < spec.len()
            invariant
                z < 5,
                e <= spec@.len(),
                l == layout_view(spec@),
                key == ZONE_KEYS@[z as int]@,
                uid0 + placed_before(l, 5) <= i32::MAX,
                placed_before(l, z + 1) <= placed_before(l, 5),
                *uid == uid0 + placed_before(l, z as int) + zone_types(l.take(e as int), key).len(),
                modules@.map_values(|m: ModSpec| m@) == Seq::new(
                    zone_types(l.take(e as int), key).len(),
                    |k: int|
                        placed_widget(
                            zone_types(l.take(e as int), key)[k],
                            uid0 + placed_before(l, z as int) + k,
                        ),
                ),
            decreases spec.len() - e,
        {
            let (ekey, types) = spec[e];
            let ghost before = zone_types(l.take(e as int), key);
            proof {
                assert(l.take(e + 1).drop_last() =~= l.take(e as int));
                assert(l.take(e + 1).last() == l[e as int]);
                assert(l[e as int] == (ekey@, types@.map_values(|t: &str| t@)));
                lemma_zone_types_prefix(l, e + 1, key);
            }
            if str_eq(ZONE_KEYS[z], ekey) {
                let ghost tv = types@.map_values(|t: &str| t@);
                assert(zone_types(l.take(e + 1), key) == before + tv);
                let mut i: usize = 0;
                while i < types.len()
                    invariant
                        i <= types@.len(),
                        tv == types@.map_values(|t: &str| t@),
                        uid0 + placed_before(l, z as int) + before.len() + tv.len() <= i32::MAX,
                        *uid == uid0 + placed_before(l, z as int) + before.len() + i,
                        modules@.map_values(|m: ModSpec| m@) == Seq::new(
                            (before.len() + i) as nat,
                            |k: int|
                                placed_widget(
                                    (before + tv)[k],
                                    uid0 + placed_before(l, z as int) + k,
                                ),
                        ),
                    decreases types.len() - i,
                {
                    let t = types[i];
                    let mut ms = default_spec(t);
                    ms.id = widget_id(t, *uid);
                    *uid = *uid + 1;
                    let ghost old_mods = modules@.map_values(|m: ModSpec| m@);
                    modules.push(ms);
                    proof {
                        assert((before + tv)[before.len() + i] == tv[i as int]);
                        assert(tv[i as int] == t@);
                        assert(ms@ == placed_widget(t@, uid0 + placed_before(l, z as int) + before.len() + i));
                        assert(modules@.map_values(|m: ModSpec| m@) =~= old_mods.push(ms@));
                        assert(modules@.map_values(|m: ModSpec| m@) =~= Seq::new(
                            (before.len() + i + 1) as nat,
                            |k: int|
                                placed_widget(
                                    (before + tv)[k],
                                    uid0 + placed_before(l, z as int) + k,
                                ),
                        ));
                    }
                    i += 1;
                }
                assert(modules@.map_values(|m: ModSpec| m@) =~= Seq::new(
                    zone_types(l.take(e + 1), key).len(),
                    |k: int|
                        placed_widget(
                            zone_types(l.take(e + 1), key)[k],
                            uid0 + placed_before(l, z as int) + k,
                        ),
                ));
            } else {
                assert(zone_types(l.take(e + 1), key) =~= before);
            }
            e += 1;
        }
        proof {
            assert(l.take(spec@.len() as int) =~= l);
        }
        let zn = Zone { key: ZONE_KEYS[z].to_owned(), title: ZONE_TITLES[z].to_owned(), modules };
        let ghost old_zones = zones@.map_values(|x: Zone| x@);
        zones.push(zn);
        proof {
            assert(zn@ == preset_zone(l, z as int, uid0)) by {
                assert(zn@.modules =~= preset_zone(l, z as int, uid0).modules);
            }
            assert(zones@.map_values(|x: Zone| x@) =~= old_zones.push(zn@));
            assert(zones@.map_values(|x: Zone| x@) =~= Seq::new((z + 1) as nat, |zz: int| preset_zone(l, zz, uid0)));
        }
        z += 1;
    }
    let p = Preset { name: name.to_owned(), builtin, zones };
    assert(p@.zones =~= Seq::new(5, |zz: int| preset_zone(l, zz, uid0)));
    p
}

fn clone_rule(r: &ColorRule) -> (c: ColorRule)
    ensures
        c@ == r@,
{
    ColorRule { op: r.op.clone(), v: r.v, color: r.color.clone() }
}

/// A copy of widget `m`.
pub fn clone_spec(m: &ModSpec) -> (c: ModSpec)
    ensures
        c@ == m@,
{
    let mut rules: Vec<ColorRule> = Vec::new();
    let mut i: usize = 0;
    while i < m.rules.len()
        invariant
            i <= m.rules@.len(),
            rules@.map_values(|r: ColorRule| r@) == m.rules@.take(i as int).map_values(|r: ColorRule| r@),
        decreases m.rules.len() - i,
    {
        let ghost before = rules@.map_values(|r: ColorRule| r@);
        let r = clone_rule(&m.rules[i]);
        rules.push(r);
        assert(rules@.map_values(|r: ColorRule| r@) =~= before.push(r@));
        assert(m.rules@.take(i + 1).map_values(|r: ColorRule| r@) =~= m.rules@.take(i as int).map_values(
            |r: ColorRule| r@,
        ).push(m.rules@[i as int]@));
        i += 1;
    }
    assert(m.rules@.take(m.rules@.len() as int) =~= m.rules@);
    ModSpec {
        id: m.id.clone(),
        templ: m.templ.clone(),
        enabled: m.enabled,
        kind: m.kind.clone(),
        field: m.field.clone(),
        label: m.label.clone(),
        unit: m.unit.clone(),
        base: m.base.clone(),
        rules,
        fmt_type: m.fmt_type.clone(),
        scale: m.scale,
        size_pct: m.size_pct,
        x: m.x,
        y: m.y,
        w: m.w,
        h: m.h,
        display: m.display,
    }
}

fn clone_zone(z: &Zone) -> (c: Zone)
    ensures
        c@ == z@,
{
    let mut modules: Vec<ModSpec> = Vec::new();
    let mut i: usize = 0;
    while i < z.modules.len()
        invariant
            i <= z.modules@.len(),
            modules@.map_values(|m: ModSpec| m@) == z.modules@.take(i as int).map_values(|m: ModSpec| m@),
        decreases z.modules.len() - i,
    {
        let ghost before = modules@.map_values(|m: ModSpec| m@);
        let m = clone_spec(&z.modules[i]);
        modules.push(m);
        assert(modules@.map_values(|m: ModSpec| m@) =~= before.push(m@));
        assert(z.modules@.take(i + 1).map_values(|m: ModSpec| m@) =~= z.modules@.take(i as int).map_values(
            |m: ModSpec| m@,
        ).push(z.modules@[i as int]@));
        i += 1;
    }
    assert(z.modules@.take(z.modules@.len() as int) =~= z.modules@);
    Zone { key: z.key.clone(), title: z.title.clone(), modules }
}

/// A copy of a zone list.
pub fn clone_zones(v: &Vec<Zone>) -> (c: Vec<Zone>)
    ensures
        c@.map_values(|z: Zone| z@) == v@.map_values(|z: Zone| z@),
{
    let mut out: Vec<Zone> = Vec::new();
    let mut i: usize = 0;
    while i < v.len()
        invariant
            i <= v@.len(),
            out@.map_values(|z: Zone| z@) == v@.take(i as int).map_values(|z: Zone| z@),
        decreases v.len() - i,
    {
        let ghost before = out@.map_values(|z: Zone| z@);
        let z = clone_zone(&v[i]);
        out.push(z);
        assert(out@.map_values(|z: Zone| z@) =~= before.push(z@));
        assert(v@.take(i + 1).map_values(|z: Zone| z@) =~= v@.take(i as int).map_values(|z: Zone| z@).push(
            v@[i as int]@,
        ));
        i += 1;
    }
    assert(v@.take(v@.len() as int) =~= v@);
    out
}

pub open spec fn endurance_layout() -> Seq<(Seq<char>, Seq<Seq<char>>)> {
    seq![
        ("topStrip"@, seq!["rpmLights"@]),
        ("leftRail"@, seq!["lapDelta"@, "position"@]),
        ("center"@, seq!["gearSpeed"@]),
        ("rightRail"@, seq!["fuel"@, "tyres"@]),
        ("bottom"@, seq!["lapTimes"@]),
    ]
}

pub open spec fn sprint_layout() -> Seq<(Seq<char>, Seq<Seq<char>>)> {
    seq![
        ("topStrip"@, seq!["rpmLights"@]),
        ("leftRail"@, seq!["lapDelta"@]),
        ("center"@, seq!["gearSpeed"@]),
        ("rightRail"@, seq!["position"@]),
        ("bottom"@, seq!["lapTimes"@]),
    ]
}

pub open spec fn drift_layout() -> Seq<(Seq<char>, Seq<Seq<char>>)> {
    seq![
        ("topStrip"@, seq!["rpmLights"@]),
        ("leftRail"@, seq!["position"@]),
        ("center"@, seq!["gearSpeed"@]),
        ("rightRail"@, seq!["speed"@]),
        ("bottom"@, seq![]),
    ]
}

pub open spec fn rally_layout() -> Seq<(Seq<char>, Seq<Seq<char>>)> {
    seq![
        ("topStrip"@, seq!["rpmLights"@]),
        ("leftRail"@, seq!["sectors"@]),
        ("center"@, seq!["gearSpeed"@]),
        ("rightRail"@, seq!["position"@]),
        ("bottom"@, seq!["lapTimes"@]),
    ]
}

pub open spec fn data_layout() -> Seq<(Seq<char>, Seq<Seq<char>>)> {
    seq![
        ("topStrip"@, seq!["rpmLights"@]),
        ("leftRail"@, seq!["water"@, "oil"@]),
        ("center"@, seq!["gearSpeed"@]),
        ("rightRail"@, seq!["brakeBias"@, "tcAbs"@]),
        ("bottom"@, seq!["lapTimes"@]),
    ]
}


proof fn lemma_zone_keys()
    ensures
        ZONE_KEYS@[0]@ == "topStrip"@,
        ZONE_KEYS@[1]@ == "leftRail"@,
        ZONE_KEYS@[2]@ == "center"@,
        ZONE_KEYS@[3]@ == "rightRail"@,
        ZONE_KEYS@[4]@ == "bottom"@,
        "topStrip"@ != "leftRail"@,
        "topStrip"@ != "center"@,
        "topStrip"@ != "rightRail"@,
        "topStrip"@ != "bottom"@,
        "leftRail"@ != "center"@,
        "leftRail"@ != "rightRail"@,
        "leftRail"@ != "bottom"@,
        "center"@ != "rightRail"@,
        "center"@ != "bottom"@,
        "rightRail"@ != "bottom"@,
{
    reveal_strlit("topStrip");
    reveal_strlit("leftRail");
    reveal_strlit("center");
    reveal_strlit("rightRail");
    reveal_strlit("bottom");
    assert("topStrip"@[0] != "leftRail"@[0]);
    assert("topStrip"@[0] != "center"@[0]);
    assert("topStrip"@[0] != "rightRail"@[0]);
    assert("topStrip"@[0] != "bottom"@[0]);
    assert("leftRail"@[0] != "center"@[0]);
    assert("leftRail"@[0] != "rightRail"@[0]);
    assert("leftRail"@[0] != "bottom"@[0]);
    assert("center"@[0] != "rightRail"@[0]);
    assert("center"@[0] != "bottom"@[0]);
    assert("rightRail"@[0] != "bottom"@[0]);
}

/// With one layout entry per zone, in zone order, zone `z` holds exactly the
/// types of entry `z`.
proof fn lemma_ordered_layout(l: Seq<(Seq<char>, Seq<Seq<char>>)>)
    requires
        l.len() == 5,
        forall|z: int| 0 <= z < 5 ==> (#[trigger] l[z]).0 == ZONE_KEYS@[z]@,
    ensures
        forall|z: int| 0 <= z < 5 ==> #[trigger] zone_types(l, ZONE_KEYS@[z]@) == l[z].1,
        placed_before(l, 5) == l[0].1.len() + l[1].1.len() + l[2].1.len() + l[3].1.len() + l[4].1.len(),
{
    lemma_zone_keys();
    reveal_with_fuel(zone_types, 6);
    assert forall|z: int| 0 <= z < 5 implies #[trigger] zone_types(l, ZONE_KEYS@[z]@) == l[z].1 by {
        let key = ZONE_KEYS@[z]@;
        assert(l.drop_last().drop_last().drop_last().drop_last().drop_last() =~= Seq::<(Seq<char>, Seq<Seq<char>>)>::empty());
        assert(l.drop_last().drop_last().drop_last().drop_last().last() == l[0]);
        assert(l.drop_last().drop_last().drop_last().last() == l[1]);
        assert(l.drop_last().drop_last().last() == l[2]);
        assert(l.drop_last().last() == l[3]);
        assert(l.last() == l[4]);
        if z == 0 {
            assert(zone_types(l, key) =~= l[0].1);
        } else if z == 1 {
            assert(zone_types(l, key) =~= l[1].1);
        } else if z == 2 {
            assert(zone_types(l, key) =~= l[2].1);
        } else if z == 3 {
            assert(zone_types(l, key) =~= l[3].1);
        } else {
            assert(zone_types(l, key) =~= l[4].1);
        }
    }
    reveal_with_fuel(placed_before, 6);
    assert(zone_types(l, ZONE_KEYS@[0]@) == l[0].1);
    assert(zone_types(l, ZONE_KEYS@[1]@) == l[1].1);
    assert(zone_types(l, ZONE_KEYS@[2]@) == l[2].1);
    assert(zone_types(l, ZONE_KEYS@[3]@) == l[3].1);
    assert(zone_types(l, ZONE_KEYS@[4]@) == l[4].1);
}

/// Replaces the presets with the five built-in ones (Endurance, Sprint,
/// Drift, Rally, Data), widget ids numbered on from `uid`, and makes the
/// first one the active layout.
pub fn seed_presets(s: &mut State)
    requires
        old(s).uid + 28 <= i32::MAX,
    ensures
        final(s).presets@.map_values(|p: Preset| p@) == seq![
            preset_of("Endurance"@, true, endurance_layout(), old(s).uid as int),
            preset_of("Sprint"@, true, sprint_layout(), old(s).uid + 7),
            preset_of("Drift"@, true, drift_layout(), old(s).uid + 12),
            preset_of("Rally"@, true, rally_layout(), old(s).uid + 16),
            preset_of("Data"@, true, data_layout(), old(s).uid + 21),
        ],
        final(s).uid == old(s).uid + 28,
        final(s).zones@.map_values(|z: Zone| z@) == final(s).presets@[0]@.zones,
        *final(s) == (State {
            presets: final(s).presets,
            zones: final(s).zones,
            uid: final(s).uid,
            active_preset: 0,
            ..*old(s)
        }),
{
    let ghost uid0 = s.uid as int;
    let e: &[(&str, &[&str])] = &[
        ("topStrip", &["rpmLights"]),
        ("leftRail", &["lapDelta", "position"]),
        ("center", &["gearSpeed"]),
        ("rightRail", &["fuel", "tyres"]),
        ("bottom", &["lapTimes"]),
    ];
    assert(layout_view(e@) =~~= endurance_layout());
    let sp: &[(&str, &[&str])] = &[
        ("topStrip", &["rpmLights"]),
        ("leftRail", &["lapDelta"]),
        ("center", &["gearSpeed"]),
        ("rightRail", &["position"]),
        ("bottom", &["lapTimes"]),
    ];
    assert(layout_view(sp@) =~~= sprint_layout());
    let dr: &[(&str, &[&str])] = &[
        ("topStrip", &["rpmLights"]),
        ("leftRail", &["position"]),
        ("center", &["gearSpeed"]),
        ("rightRail", &["speed"]),
        ("bottom", &[]),
    ];
    assert(layout_view(dr@) =~~= drift_layout());
    let ra: &[(&str, &[&str])] = &[
        ("topStrip", &["rpmLights"]),
        ("leftRail", &["sectors"]),
        ("center", &["gearSpeed"]),
        ("rightRail", &["position"]),
        ("bottom", &["lapTimes"]),
    ];
    assert(layout_view(ra@) =~~= rally_layout());
    let da: &[(&str, &[&str])] = &[
        ("topStrip", &["rpmLights"]),
        ("leftRail", &["water", "oil"]),
        ("center", &["gearSpeed"]),
        ("rightRail", &["brakeBias", "tcAbs"]),
        ("bottom", &["lapTimes"]),
    ];
    assert(layout_view(da@) =~~= data_layout());
    proof {
        lemma_zone_keys();
        lemma_ordered_layout(endurance_layout());
        lemma_ordered_layout(sprint_layout());
        lemma_ordered_layout(drift_layout());
        lemma_ordered_layout(rally_layout());
        lemma_ordered_layout(data_layout());
    }
    let mut presets: Vec<Preset> = Vec::new();
    presets.push(make_preset(&mut s.uid, "Endurance", true, e));
    presets.push(make_preset(&mut s.uid, "Sprint", true, sp));
    presets.push(make_preset(&mut s.uid, "Drift", true, dr));
    presets.push(make_preset(&mut s.uid, "Rally", true, ra));
    presets.push(make_preset(&mut s.uid, "Data", true, da));
    let zones = clone_zones(&presets[0].zones);
    s.presets = presets;
    s.zones = zones;
    s.active_preset = 0;
    assert(s.presets@.map_values(|p: Preset| p@) =~= seq![
        preset_of("Endurance"@, true, endurance_layout(), uid0),
        preset_of("Sprint"@, true, sprint_layout(), uid0 + 7),
        preset_of("Drift"@, true, drift_layout(), uid0 + 12),
        preset_of("Rally"@, true, rally_layout(), uid0 + 16),
        preset_of("Data"@, true, data_layout(), uid0 + 21),
    ]);
}

} // verus!
