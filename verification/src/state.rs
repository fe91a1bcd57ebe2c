//! The editor/configuration state the dashboard keeps: race-screen presets,
//! shift-light LEDs, button pages, boards, SimHub fields and the car library.

use vstd::prelude::*;

verus! {

/// A colour rule of a widget: when `value op v`, use `color`.
#[derive(Clone)]
pub struct ColorRule {
    pub op: String,
    pub v: i32,
    pub color: String,
}

pub struct ColorRuleV {
    pub op: Seq<char>,
    pub v: i32,
    pub color: Seq<char>,
}

impl View for ColorRule {
    type V = ColorRuleV;

    open spec fn view(&self) -> ColorRuleV {
        ColorRuleV { op: self.op@, v: self.v, color: self.color@ }
    }
}

/// One race-screen widget as the editor describes it.
#[derive(Clone)]
pub struct ModSpec {
    pub id: String,
    pub templ: String,
    pub enabled: bool,
    pub kind: String,
    pub field: String,
    pub label: String,
    pub unit: String,
    pub base: String,
    pub rules: Vec<ColorRule>,
    pub fmt_type: String,
    pub scale: i32,
    pub size_pct: i32,
    pub x: i32,
    pub y: i32,
    pub w: i32,
    pub h: i32,
    pub display: u8,
}

pub struct ModSpecV {
    pub id: Seq<char>,
    pub templ: Seq<char>,
    pub enabled: bool,
    pub kind: Seq<char>,
    pub field: Seq<char>,
    pub label: Seq<char>,
    pub unit: Seq<char>,
    pub base: Seq<char>,
    pub rules: Seq<ColorRuleV>,
    pub fmt_type: Seq<char>,
    pub scale: i32,
    pub size_pct: i32,
    pub x: i32,
    pub y: i32,
    pub w: i32,
    pub h: i32,
    pub display: u8,
}

impl View for ModSpec {
    type V = ModSpecV;

    open spec fn view(&self) -> ModSpecV {
        ModSpecV {
            id: self.id@,
            templ: self.templ@,
            enabled: self.enabled,
            kind: self.kind@,
            field: self.field@,
            label: self.label@,
            unit: self.unit@,
            base: self.base@,
            rules: self.rules@.map_values(|r: ColorRule| r@),
            fmt_type: self.fmt_type@,
            scale: self.scale,
            size_pct: self.size_pct,
            x: self.x,
            y: self.y,
            w: self.w,
            h: self.h,
            display: self.display,
        }
    }
}

/// An empty widget: all text empty, all numbers zero, disabled, no rules.
pub open spec fn empty_spec() -> ModSpecV {
    ModSpecV {
        id: Seq::empty(),
        templ: Seq::empty(),
        enabled: false,
        kind: Seq::empty(),
        field: Seq::empty(),
        label: Seq::empty(),
        unit: Seq::empty(),
        base: Seq::empty(),
        rules: Seq::empty(),
        fmt_type: Seq::empty(),
        scale: 0,
        size_pct: 0,
        x: 0,
        y: 0,
        w: 0,
        h: 0,
        display: 0,
    }
}

impl Default for ModSpec {
    fn default() -> (m: ModSpec)
        ensures
            m@ == empty_spec(),
    {
        let m = ModSpec {
            id: String::new(),
            templ: String::new(),
            enabled: false,
            kind: String::new(),
            field: String::new(),
            label: String::new(),
            unit: String::new(),
            base: String::new(),
            rules: Vec::new(),
            fmt_type: String::new(),
            scale: 0,
            size_pct: 0,
            x: 0,
            y: 0,
            w: 0,
            h: 0,
            display: 0,
        };
        assert(m@.rules =~= Seq::<ColorRuleV>::empty());
        m
    }
}

/// A column of the race screen holding widgets.
#[derive(Clone)]
pub struct Zone {
    pub key: String,
    pub title: String,
    pub modules: Vec<ModSpec>,
}

pub struct ZoneV {
    pub key: Seq<char>,
    pub title: Seq<char>,
    pub modules: Seq<ModSpecV>,
}

impl View for Zone {
    type V = ZoneV;

    open spec fn view(&self) -> ZoneV {
        ZoneV { key: self.key@, title: self.title@, modules: self.modules@.map_values(|m: ModSpec| m@) }
    }
}

/// A named race-screen layout.
#[derive(Clone)]
pub struct Preset {
    pub name: String,
    pub builtin: bool,
    pub zones: Vec<Zone>,
}

pub struct PresetV {
    pub name: Seq<char>,
    pub builtin: bool,
    pub zones: Seq<ZoneV>,
}

impl View for Preset {
    type V = PresetV;

    open spec fn view(&self) -> PresetV {
        PresetV { name: self.name@, builtin: self.builtin, zones: self.zones@.map_values(|z: Zone| z@) }
    }
}

/// One shift-light LED: its colour and the rpm percentage it lights at.
#[derive(Clone, Copy, Debug, PartialEq, Eq, Structural)]
pub struct LedCfg {
    pub rgb: u32,
    pub threshold: i32,
}

/// A touch button of the device.
#[derive(Clone)]
pub struct BtnData {
    pub label: String,
    pub toggle: bool,
    pub on: bool,
    pub action: String,
    pub col: u32,
    pub sync: bool,
    pub field: String,
    pub avail: bool,
}

pub struct BtnV {
    pub label: Seq<char>,
    pub toggle: bool,
    pub on: bool,
    pub action: Seq<char>,
    pub col: u32,
    pub sync: bool,
    pub field: Seq<char>,
    pub avail: bool,
}

impl View for BtnData {
    type V = BtnV;

    open spec fn view(&self) -> BtnV {
        BtnV {
            label: self.label@,
            toggle: self.toggle,
            on: self.on,
            action: self.action@,
            col: self.col,
            sync: self.sync,
            field: self.field@,
            avail: self.avail,
        }
    }
}

/// A selectable pin of a board.
#[derive(Clone)]
pub struct BoardPin {
    pub label: String,
    pub gpio: i32,
}

impl View for BoardPin {
    type V = (Seq<char>, i32);

    open spec fn view(&self) -> (Seq<char>, i32) {
        (self.label@, self.gpio)
    }
}

/// A supported controller board.
#[derive(Clone)]
pub struct BoardDef {
    pub name: String,
    pub id: String,
    pub target: String,
    pub pins: Vec<BoardPin>,
}

pub struct BoardV {
    pub name: Seq<char>,
    pub id: Seq<char>,
    pub target: Seq<char>,
    pub pins: Seq<(Seq<char>, i32)>,
}

impl View for BoardDef {
    type V = BoardV;

    open spec fn view(&self) -> BoardV {
        BoardV {
            name: self.name@,
            id: self.id@,
            target: self.target@,
            pins: self.pins@.map_values(|p: BoardPin| p@),
        }
    }
}

/// One field of the SimHub custom-protocol expression.
#[derive(Clone)]
pub struct SimRow {
    pub id: String,
    pub label: String,
    pub expr: String,
    pub enabled: bool,
    pub builtin: bool,
}

/// A car of the car library.
#[derive(Clone, Default)]
pub struct CarItem {
    pub sim: String,
    pub name: String,
    pub id: String,
    pub path: String,
    pub klass: String,
    pub redline: i32,
    pub led_n: i32,
    pub led_cols: Vec<u32>,
}

/// Number of gears with their own LED table (index 0 is unused).
pub const GEARS: usize = 7;

/// LEDs per shift strip.
pub const LEDS: usize = 12;

/// The dashboard's configuration and car-library state.
pub struct State {
    pub presets: Vec<Preset>,
    pub zones: Vec<Zone>,
    pub active_preset: i32,
    pub uid: i32,
    pub leds: [[LedCfg; 12]; 7],
    pub sel_gear: i32,
    pub redline_rpm: i32,
    pub first_led_pct: i32,
    pub blink_enabled: bool,
    pub blink_hz: i32,
    pub animation: i32,
    pub brightness: i32,
    pub rpm_source: i32,
    pub shift_custom: bool,
    pub btn_pages: Vec<Vec<BtnData>>,
    pub boards: Vec<BoardDef>,
    pub sim: Vec<SimRow>,
    pub sim_query: String,
    pub sims: Vec<(String, String)>,
    pub game: i32,
    pub query: String,
    pub klass: i32,
    pub class_list: Vec<String>,
    pub all_cars: Vec<CarItem>,
    pub filtered: Vec<usize>,
    pub car_name: String,
    pub car_game: String,
    pub car_id: String,
    pub last_auto_model: String,
    pub detected_model: String,
    pub device_log: Vec<String>,
    pub detected_game_idx: i32,
    pub sel_car: i32,
}

impl State {
    /// The library key of game `game` (empty when out of range).
    pub open spec fn sim_key(&self, game: i32) -> Seq<char> {
        if 0 <= game < self.sims@.len() {
            self.sims@[game as int].1@
        } else {
            Seq::empty()
        }
    }

    /// The library key of game `game` (empty when out of range).
    pub fn sim_of(&self, game: i32) -> (r: String)
        ensures
            r@ == self.sim_key(game),
    {
        if 0 <= game && (game as usize) < self.sims.len() {
            self.sims[game as usize].1.clone()
        } else {
            String::new()
        }
    }

    /// An empty state: no presets, zones, pages, boards, fields or cars; all
    /// LEDs dark; no game selected.
    pub fn new() -> (s: State)
        ensures
            s.presets@.len() == 0,
            s.zones@.len() == 0,
            s.btn_pages@.len() == 0,
            s.boards@.len() == 0,
            s.sim@.len() == 0,
            s.all_cars@.len() == 0,
            s.filtered@.len() == 0,
            s.uid == 0,
            s.game == 0,
            s.klass == 0,
            forall|g: int, i: int| 0 <= g < 7 && 0 <= i < 12 ==> s.leds[g][i] == (LedCfg { rgb: 0, threshold: 0 }),
    {
        State {
            presets: Vec::new(),
            zones: Vec::new(),
            active_preset: 0,
            uid: 0,
            leds: [[LedCfg { rgb: 0, threshold: 0 }; 12]; 7],
            sel_gear: 1,
            redline_rpm: 0,
            first_led_pct: 0,
            blink_enabled: false,
            blink_hz: 0,
            animation: 0,
            brightness: 0,
            rpm_source: 0,
            shift_custom: false,
            btn_pages: Vec::new(),
            boards: Vec::new(),
            sim: Vec::new(),
            sim_query: String::new(),
            sims: Vec::new(),
            game: 0,
            query: String::new(),
            klass: 0,
            class_list: Vec::new(),
            all_cars: Vec::new(),
            filtered: Vec::new(),
            car_name: String::new(),
            car_game: String::new(),
            car_id: String::new(),
            last_auto_model: String::new(),
            detected_model: String::new(),
            device_log: Vec::new(),
            detected_game_idx: -1,
            sel_car: -1,
        }
    }
}

} // verus!
