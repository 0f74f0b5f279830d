# openlogi

Verified core of OpenLogi's gaming-mouse support and asset mirror selection,
written in Verus.

- `src/mouse_button_spy.rs`, `src/onboard_profiles.rs`, `src/feature.rs`: the
  HID++ features `0x8110` and `0x8100`, their calls, replies and events.
- `src/spy_capture.rs`: which buttons a model captures through the spy tap, and
  the edges between consecutive button masks.
- `src/hotspots.rs`, `src/button.rs`: the diagram targets of a mouse.
- `src/diag.rs`, `src/diag_laws.rs`, `src/text.rs`: the `diag mouse-buttons`
  command as a state machine, and what holds of its runs.
- `src/assets/`: catalogs, npm shard routing, and the race between the
  production endpoint and its pinned mirrors.
- `app/`: transports, files, threads and the terminal around the core.
- `tests/`: concrete scenarios.

Nothing the core computes is trusted. The one outside type it names is
`serde_json::Error`, which it carries and never inspects.
