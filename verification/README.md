# pithddu

Verified core of the Pith DDU sim-racing dashboard: the telemetry model and
its `$`-frame wire format, the lap / fuel / delta trackers, the car library
(LED profiles, the database index, car matching), the settings window's lists,
the device link's framing and loop, firmware updates, the sims' shared-memory layouts, and the screen
engine's drawing decisions. Every function in `src/` carries a contract that
Verus proves; the laws of the library are public proof functions beside the
code they are about.

Layout:

- `src/telemetry.rs`, `src/frame.rs` — the sample and its frame line (parse,
  render, round trip).
- `src/derive.rs` — best lap, current lap, fuel per lap and delta trackers.
- `src/format.rs`, `src/registry.rs` — value formats, colour rules, the field
  registry.
- `src/state.rs`, `src/catalog.rs` — the dashboard state and its seed data
  (widget catalogue, presets, shift ramp, buttons, boards, SimHub fields).
- `src/bridge.rs` — what the settings window shows (car list and filters,
  classes, buttons, shift lights, SimHub fields, ports) and game detection.
- `src/cardata.rs` — car profiles, the database index, car matching.
- `src/device.rs` — HID reports, the input line buffer, the device log, the
  plugin's line protocol.
- `src/devloop.rs` — the device loop's decisions as a step from state and
  event to actions, and what a line from the SimHub plugin asks for (car,
  track-map reset, frame pushes at most every 33 ms).
- `src/ota.rs` — when a firmware update may start, what its panel shows, and
  whether an update is offered.
- `src/uidoc.rs` — which editor widgets land on which screen of the UI
  document, their parameters, and the document's frame.
- `src/shm.rs`, `src/le.rs` — shared-memory pages (integer channels, names).
- `src/ui.rs` — palette, widget signatures, repaint plan, drawing primitives.
- `src/text.rs`, `src/util.rs` — character-level helpers.
- `app/` — the headless program around the library: sockets, files, HTTP,
  JSON, process scan and the floating-point channels of the sims' pages.
- `tests/` — tests against the compiled library.
