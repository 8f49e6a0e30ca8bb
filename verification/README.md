# ksx-backend

The decision-making core of ksx's backend — the part that turns arcade
panels and keyboards into virtual gamepads — written in Verus, with each
function's behaviour stated as a contract and proved.

## Layout

- `src/` — the verified library. Modules by concern:
  - `resolve`, `supervise`, `supervisor`, `latency`, `run`, `game` — a live
    session: device resolution and refusals, the session's step machine with
    its start-up and teardown orders, stop reasons and exit codes, the per-slot
    coalescing delta queue, hot-swap decisions, latency summaries, the
    end-of-session report, and the launched game's lifecycle lines.
  - `setup`, `wiring` — the identification wizard (a state machine fed one
    input at a time), its audit, and where a finished run is written.
  - `slots`, `stage`, `config`, `mapper` — slot assignment with its XInput
    ceiling, staged setups laid over the saved tables and adopted back, and
    the mapper's slot list.
  - `winusb`, `residue`, `machine`, `session`, `studio_launch`, `stage_cli` —
    the WinUSB helper protocol and verdicts, what the control surfaces show,
    the daemon's request lines and replies, and how Studio is put on screen.
  - `text`, `paths` — decimal spelling, ASCII case folding, and the few std
    calls (behind small trusted wrappers) that the rest needs.
- `tests/` — ordinary Rust tests against the library's public API.
- `app/` — the edges Verus does not see: JSON through serde, the latency
  histogram, the Studio health probe, the performance-counter clock, and the
  printing of reports and daemon replies.

Laws that span several functions are public proof functions named `law_*`.
