//! The session lifecycle's decisions: why a session ended and what that means
//! for the exit code, the escape banner printed before any keyboard can be
//! taken, which config edits can be hot-swapped onto a running session, and
//! the non-blocking, per-slot coalescing hand-off from the engine to the
//! output thread.
//!
//! The threads themselves, and every driver call, run outside this module;
//! they hand it what they observed and carry out what it decides.

use vstd::prelude::*;

use crate::config::Persona;
use crate::latency::LatencySummary;
use crate::resolve::{id_views, Blocking, PlanSlot, RunPlan};
use crate::text::{copy_opt_string, copy_strings, decimal, push_char, push_decimal, str_eq};

verus! {

/// Why a hook wants the session to end.
#[derive(Clone, Debug, PartialEq, Eq)]
pub enum HookStop {
    /// The launched game exited. A clean, expected end: exit 0.
    GameExited,
    /// The game could not be started. Emulation is already up by then, so this
    /// is a runtime failure: exit 3.
    LaunchFailed(String),
    /// `ksx play`'s recording ran out. Also clean.
    ReplayFinished,
}

/// Why the session ended.
#[derive(Clone, Debug, PartialEq, Eq)]
pub enum StopReason {
    /// Ctrl+C (or the host's stop latch).
    CtrlC,
    /// Ctrl+Alt+Del on a captured keyboard — the emergency-stop gesture.
    EmergencyStop,
    /// Test-only event limit.
    EventLimit,
    /// The `--game` profile's game exited.
    GameExited,
    /// The `--game` profile could not be started, after the pads were up.
    GameLaunchFailed(String),
    /// `ksx play`'s recording ran out (and it was not looping).
    ReplayFinished,
    /// Pads could not be plugged; nothing was ever captured.
    PlugFailed { message: String, bus_missing: bool },
    /// Two enumerated keyboards share one hardware id and at least one of them
    /// is bound to a slot. Refused before anything was plugged or captured.
    AmbiguousDevices { ids: Vec<String> },
    /// The capture thread could not be started, after the pads were plugged.
    /// Nothing was ever captured, and the pads are unplugged again.
    CaptureStartFailed(String),
    /// The capture thread returned on its own (driver gone, channel closed).
    CaptureEnded(&'static str),
    /// The capture loop panicked. Its drop guard already reset the filters.
    CapturePanicked,
    /// The consumer stalled long enough that capture force-flipped to
    /// passthrough.
    WatchdogTripped,
    EngineThreadDied,
    OutputThreadDied,
    OutputError(String),
}

/// A hook's vocabulary, in the session's.
pub open spec fn hook_stop_reason(stop: HookStop) -> StopReason {
    match stop {
        HookStop::GameExited => StopReason::GameExited,
        HookStop::LaunchFailed(message) => StopReason::GameLaunchFailed(message),
        HookStop::ReplayFinished => StopReason::ReplayFinished,
    }
}

impl From<HookStop> for StopReason {
    fn from(stop: HookStop) -> (r: StopReason) {
        match stop {
            HookStop::GameExited => StopReason::GameExited,
            HookStop::LaunchFailed(message) => StopReason::GameLaunchFailed(message),
            HookStop::ReplayFinished => StopReason::ReplayFinished,
        }
    }
}

impl vstd::std_specs::convert::FromSpecImpl<HookStop> for StopReason {
    open spec fn obeys_from_spec() -> bool {
        true
    }

    open spec fn from_spec(stop: HookStop) -> StopReason {
        hook_stop_reason(stop)
    }
}

/// The refusal text for keyboards that share one hardware id.
pub open spec fn ambiguous_devices_text(ids: Seq<Seq<char>>) -> Seq<char> {
    "refusing to start: more than one connected keyboard reports the same hardware id, and that id is bound to a slot:"@
        + id_lines(ids)
        + "\nThe Interception driver cannot tell identical boards apart, so ksx would capture BOTH of them and let either one drive every slot bound to that id — including the board you meant to leave typing. Nothing was plugged and no keyboard filter was set.\nFix it by unplugging the duplicate, binding a different model to the slot, or waiting for the WinUSB backend (M6), which identifies boards by USB device path instead."@
}

/// One indented line per id.
pub open spec fn id_lines(ids: Seq<Seq<char>>) -> Seq<char>
    decreases ids.len(),
{
    if ids.len() == 0 {
        seq![]
    } else {
        id_lines(ids.drop_last()) + "\n  "@ + ids.last()
    }
}

/// The duplicate-hardware-id refusal, spelled out.
fn ambiguous_devices_message(ids: &Vec<String>) -> (text: String)
    ensures
        text@ == ambiguous_devices_text(id_views(ids@)),
{
    let mut out = "refusing to start: more than one connected keyboard reports the same hardware id, and that id is bound to a slot:".to_owned();
    let ghost head = out@;
    let mut i: usize = 0;
    while i < ids.len()
        invariant
            i <= ids@.len(),
            out@ == head + id_lines(id_views(ids@.take(i as int))),
        decreases ids.len() - i,
    {
        proof {
            let v = id_views(ids@.take(i + 1));
            assert(v.drop_last() =~= id_views(ids@.take(i as int)));
            assert(v.last() == ids@[i as int]@);
        }
        out.append("\n  ");
        out.append(ids[i].as_str());
        assert(out@ =~= head + id_lines(id_views(ids@.take(i + 1))));
        i = i + 1;
    }
    assert(ids@.take(ids@.len() as int) =~= ids@);
    out.append("\nThe Interception driver cannot tell identical boards apart, so ksx would capture BOTH of them and let either one drive every slot bound to that id — including the board you meant to leave typing. Nothing was plugged and no keyboard filter was set.\nFix it by unplugging the duplicate, binding a different model to the slot, or waiting for the WinUSB backend (M6), which identifies boards by USB device path instead.");
    assert(out@ =~= ambiguous_devices_text(id_views(ids@)));
    out
}

impl StopReason {
    pub open spec fn spec_is_clean(self) -> bool {
        ||| self is CtrlC
        ||| self is EmergencyStop
        ||| self is EventLimit
        ||| self is GameExited
        ||| self is ReplayFinished
    }

    /// `true` when the session ended the way the user asked it to.
    pub fn is_clean(&self) -> (b: bool)
        ensures
            b == self.spec_is_clean(),
    {
        match self {
            StopReason::CtrlC => true,
            StopReason::EmergencyStop => true,
            StopReason::EventLimit => true,
            StopReason::GameExited => true,
            StopReason::ReplayFinished => true,
            _ => false,
        }
    }

    pub open spec fn spec_code(self) -> Seq<char> {
        match self {
            StopReason::CtrlC => "ctrl-c"@,
            StopReason::EmergencyStop => "emergency-stop"@,
            StopReason::EventLimit => "event-limit"@,
            StopReason::GameExited => "game-exited"@,
            StopReason::GameLaunchFailed(_) => "game-launch-failed"@,
            StopReason::ReplayFinished => "replay-finished"@,
            StopReason::PlugFailed { .. } => "plug-failed"@,
            StopReason::AmbiguousDevices { .. } => "ambiguous-devices"@,
            StopReason::CaptureStartFailed(_) => "capture-start-failed"@,
            StopReason::CaptureEnded(_) => "capture-ended"@,
            StopReason::CapturePanicked => "capture-panicked"@,
            StopReason::WatchdogTripped => "watchdog-tripped"@,
            StopReason::EngineThreadDied => "engine-thread-died"@,
            StopReason::OutputThreadDied => "output-thread-died"@,
            StopReason::OutputError(_) => "output-error"@,
        }
    }

    /// The stable machine-readable spelling.
    pub fn code(&self) -> (c: &'static str)
        ensures
            c@ == self.spec_code(),
    {
        match self {
            StopReason::CtrlC => "ctrl-c",
            StopReason::EmergencyStop => "emergency-stop",
            StopReason::EventLimit => "event-limit",
            StopReason::GameExited => "game-exited",
            StopReason::GameLaunchFailed(_) => "game-launch-failed",
            StopReason::ReplayFinished => "replay-finished",
            StopReason::PlugFailed { .. } => "plug-failed",
            StopReason::AmbiguousDevices { .. } => "ambiguous-devices",
            StopReason::CaptureStartFailed(_) => "capture-start-failed",
            StopReason::CaptureEnded(_) => "capture-ended",
            StopReason::CapturePanicked => "capture-panicked",
            StopReason::WatchdogTripped => "watchdog-tripped",
            StopReason::EngineThreadDied => "engine-thread-died",
            StopReason::OutputThreadDied => "output-thread-died",
            StopReason::OutputError(_) => "output-error",
        }
    }

    pub open spec fn spec_message(self) -> Seq<char> {
        match self {
            StopReason::CtrlC => "stopped by Ctrl+C"@,
            StopReason::EmergencyStop => "stopped by the Ctrl+Alt+Del emergency escape"@,
            StopReason::EventLimit => "stopped at the configured event limit"@,
            StopReason::GameExited => "the game exited; emulation stopped and the pads were unplugged"@,
            StopReason::ReplayFinished => "the recording ran out; emulation stopped and the pads were unplugged"@,
            StopReason::GameLaunchFailed(err) => "the game could not be started: "@ + err@
                + ". Emulation was torn down, so the keyboards are back to normal"@,
            StopReason::PlugFailed { message, .. } => "could not plug the virtual pads: "@ + message@,
            StopReason::AmbiguousDevices { ids } => ambiguous_devices_text(id_views(ids@)),
            StopReason::CaptureStartFailed(err) => "could not start the capture thread: "@ + err@
                + ". Nothing was captured and the pads were unplugged"@,
            StopReason::CaptureEnded(reason) => "the capture thread ended on its own ("@ + reason@
                + ")"@,
            StopReason::CapturePanicked => "the capture loop panicked; its drop guard reset the class filters and keyboards kept working"@,
            StopReason::WatchdogTripped => "the event consumer stalled: capture force-flipped to passthrough so keystrokes reached Windows. Emulation was torn down"@,
            StopReason::EngineThreadDied => "the engine thread died; tearing down so no keyboard stays captured"@,
            StopReason::OutputThreadDied => "the output thread died; tearing down so no keyboard stays captured"@,
            StopReason::OutputError(err) => "a pad update failed: "@ + err@,
        }
    }

    /// The sentence a user reads.
    pub fn message(&self) -> (text: String)
        ensures
            text@ == self.spec_message(),
    {
        match self {
            StopReason::CtrlC => "stopped by Ctrl+C".to_owned(),
            StopReason::EmergencyStop => "stopped by the Ctrl+Alt+Del emergency escape".to_owned(),
            StopReason::EventLimit => "stopped at the configured event limit".to_owned(),
            StopReason::GameExited => "the game exited; emulation stopped and the pads were unplugged".to_owned(),
            StopReason::ReplayFinished => "the recording ran out; emulation stopped and the pads were unplugged".to_owned(),
            StopReason::GameLaunchFailed(err) => {
                let mut s = "the game could not be started: ".to_owned();
                s.append(err.as_str());
                s.append(". Emulation was torn down, so the keyboards are back to normal");
                s
            },
            StopReason::PlugFailed { message, .. } => {
                let mut s = "could not plug the virtual pads: ".to_owned();
                s.append(message.as_str());
                s
            },
            StopReason::AmbiguousDevices { ids } => ambiguous_devices_message(ids),
            StopReason::CaptureStartFailed(err) => {
                let mut s = "could not start the capture thread: ".to_owned();
                s.append(err.as_str());
                s.append(". Nothing was captured and the pads were unplugged");
                s
            },
            StopReason::CaptureEnded(reason) => {
                let mut s = "the capture thread ended on its own (".to_owned();
                s.append(reason);
                s.append(")");
                s
            },
            StopReason::CapturePanicked => "the capture loop panicked; its drop guard reset the class filters and keyboards kept working".to_owned(),
            StopReason::WatchdogTripped => "the event consumer stalled: capture force-flipped to passthrough so keystrokes reached Windows. Emulation was torn down".to_owned(),
            StopReason::EngineThreadDied => "the engine thread died; tearing down so no keyboard stays captured".to_owned(),
            StopReason::OutputThreadDied => "the output thread died; tearing down so no keyboard stays captured".to_owned(),
            StopReason::OutputError(err) => {
                let mut s = "a pad update failed: ".to_owned();
                s.append(err.as_str());
                s
            },
        }
    }
}

/// One plugged pad as the supervisor reports it.
#[derive(Clone, Copy, Debug, PartialEq, Eq, Structural)]
pub struct PadInfo {
    /// Slot *number* (1..=MAX_SLOTS) — never an XInput user index.
    pub slot: u8,
    pub handle: u32,
    /// Which controller the pad presents itself as.
    pub persona: Persona,
    /// XInput `dwUserIndex`, discovered by the backend; `None` when the four
    /// XInput slots were taken, and always for a non-XInput persona.
    pub user_index: Option<u8>,
}

/// Why a slot stopped being driven mid-session.
#[derive(Clone, Copy, Debug, PartialEq, Eq, Structural)]
pub enum InvalidationReason {
    KeyboardUnplugged,
    XinputBusFull,
}

/// Capture health as one session earned it.
#[derive(Clone, Copy, Debug, PartialEq, Eq, Structural)]
pub struct SessionHealth {
    pub dropped_events: u64,
    pub watchdog_tripped: bool,
    pub reboot_required: bool,
    pub panicked: bool,
}

/// Everything the CLI needs to report after a session.
#[derive(Clone, Debug)]
pub struct Outcome {
    pub stop: StopReason,
    pub pads: Vec<PadInfo>,
    pub latency: LatencySummary,
    pub health: SessionHealth,
    pub events: u64,
    pub updates: u64,
    /// How the capture thread exited.
    pub capture_exit: &'static str,
    /// Escape-hotkey capture toggles during the session.
    pub toggles: u32,
    /// Slots invalidated by hotplug, in the order it happened.
    pub invalidated: Vec<(u8, InvalidationReason)>,
    /// Pad states superseded by a newer state for the same slot.
    pub deltas_coalesced: u64,
    /// Pad states discarded because the output thread was gone.
    pub deltas_dropped: u64,
    /// The plan's non-fatal notes.
    pub plan_notes: Vec<String>,
}

/// 0 = the session ended as asked, 2 = it never started, 3 = it started and
/// a runtime failure tore it down. Every refusal that comes before the
/// capture thread is told to capture anything is a 2.
pub open spec fn exit_code_of(stop: StopReason) -> i32 {
    if stop.spec_is_clean() {
        0
    } else if stop is PlugFailed || stop is AmbiguousDevices || stop is CaptureStartFailed {
        crate::EXIT_CANNOT_START
    } else {
        crate::EXIT_RUNTIME_FAILURE
    }
}

impl Outcome {
    pub fn exit_code(&self) -> (code: i32)
        ensures
            code == exit_code_of(self.stop),
    {
        if self.stop.is_clean() {
            return 0;
        }
        match &self.stop {
            StopReason::PlugFailed { .. } => crate::EXIT_CANNOT_START,
            StopReason::AmbiguousDevices { .. } => crate::EXIT_CANNOT_START,
            StopReason::CaptureStartFailed(_) => crate::EXIT_CANNOT_START,
            _ => crate::EXIT_RUNTIME_FAILURE,
        }
    }
}

/// A line of 72 `=`.
pub open spec fn banner_bar() -> Seq<char> {
    Seq::new(72, |i: int| '=')
}

pub open spec fn banner_body() -> Seq<char> {
    "\nEMERGENCY ESCAPES — these work even when a fullscreen game holds focus\n\n  LeftCtrl  x5    toggle keyboard capture off/on (high beep = on)\n  RightCtrl x5    reserved for mouse capture — logged only in M4\n  Ctrl+Alt+Del    stop emulation, unplug the pads, exit\n\nPress each hotkey 5 times with no other key in between. They are\nevaluated inside the capture thread, so they keep working even if the\nrest of ksx wedges.\n\nCtrl+C does NOT work from a captured keyboard: its keystrokes are\nsuppressed before Windows sees them, so no console break event is ever\ngenerated. Use it only from a keyboard ksx is not capturing, or before\nblocking is enabled. `taskkill /f /im ksx.exe` also returns every\nkeyboard immediately — but you need a keyboard or mouse you can still\nact from (the mouse is never captured in M4). Blocking needs no cleanup\nto be undone: process death alone frees the keyboards.\n"@
}

fn push_bar(s: &mut String)
    ensures
        final(s)@ == old(s)@ + banner_bar(),
{
    let mut i: usize = 0;
    while i < 72
        invariant
            i <= 72,
            s@ == old(s)@ + Seq::new(i as nat, |k: int| '='),
        decreases 72 - i,
    {
        push_char(s, '=');
        assert(s@ =~= old(s)@ + Seq::new((i + 1) as nat, |k: int| '='));
        i = i + 1;
    }
    assert(Seq::new(72, |k: int| '=') =~= banner_bar());
}

/// The escape-hotkey banner, printed before any keyboard is ever captured.
/// It is explicit that Ctrl+C cannot come from a captured keyboard.
pub fn escape_banner() -> (text: String)
    ensures
        text@ == banner_bar() + banner_body() + banner_bar() + "\n"@,
{
    let mut s = String::new();
    push_bar(&mut s);
    s.append("\nEMERGENCY ESCAPES — these work even when a fullscreen game holds focus\n\n  LeftCtrl  x5    toggle keyboard capture off/on (high beep = on)\n  RightCtrl x5    reserved for mouse capture — logged only in M4\n  Ctrl+Alt+Del    stop emulation, unplug the pads, exit\n\nPress each hotkey 5 times with no other key in between. They are\nevaluated inside the capture thread, so they keep working even if the\nrest of ksx wedges.\n\nCtrl+C does NOT work from a captured keyboard: its keystrokes are\nsuppressed before Windows sees them, so no console break event is ever\ngenerated. Use it only from a keyboard ksx is not capturing, or before\nblocking is enabled. `taskkill /f /im ksx.exe` also returns every\nkeyboard immediately — but you need a keyboard or mouse you can still\nact from (the mouse is never captured in M4). Blocking needs no cleanup\nto be undone: process death alone frees the keyboards.\n");
    push_bar(&mut s);
    s.append("\n");
    assert(s@ =~= banner_bar() + banner_body() + banner_bar() + "\n"@);
    s
}

/// How the capture thread's loop returned.
#[derive(Clone, Copy, Debug, PartialEq, Eq, Structural)]
pub enum ExitReason {
    Shutdown,
    ChannelClosed,
    ScriptExhausted,
    Panicked,
    /// A claimed board was unplugged.
    DeviceLost,
}

pub open spec fn exit_reason_text(reason: ExitReason) -> Seq<char> {
    match reason {
        ExitReason::Shutdown => "shutdown"@,
        ExitReason::ChannelClosed => "channel-closed"@,
        ExitReason::ScriptExhausted => "script-exhausted"@,
        ExitReason::Panicked => "panicked"@,
        ExitReason::DeviceLost => "device-lost"@,
    }
}

/// The report's spelling of a capture exit.
pub fn exit_reason_str(reason: ExitReason) -> (s: &'static str)
    ensures
        s@ == exit_reason_text(reason),
{
    match reason {
        ExitReason::Shutdown => "shutdown",
        ExitReason::ChannelClosed => "channel-closed",
        ExitReason::ScriptExhausted => "script-exhausted",
        ExitReason::Panicked => "panicked",
        ExitReason::DeviceLost => "device-lost",
    }
}

/// One slot as a running session's drivers see it: number, persona, keyboard
/// and mouse.
pub type ShapeSlot = (u8, Persona, Option<String>, Option<String>);

/// Everything about a running session a preset edit is NOT allowed to change
/// without a restart: what the output thread plugs and what the capture
/// thread blocks. Preset contents, which preset a slot names, notes and paths
/// are deliberately not in it.
#[derive(Clone, Debug, PartialEq, Eq)]
pub struct SessionShape {
    pub slots: Vec<ShapeSlot>,
    pub block_keyboards: Blocking,
    /// Exactly the captured set.
    pub captureable: Vec<String>,
    /// Which boards are WinUSB-claimed.
    pub winusb: Vec<String>,
}

pub open spec fn opt_view(o: Option<String>) -> Option<Seq<char>> {
    match o {
        Some(s) => Some(s@),
        None => None,
    }
}

/// Why slot `b` cannot turn into slot `a` in place, if it cannot.
pub open spec fn slot_bounce(b: ShapeSlot, a: ShapeSlot) -> Option<Seq<char>> {
    if b.0 != a.0 {
        Some("slot "@ + decimal(b.0 as nat) + " became slot "@ + decimal(a.0 as nat))
    } else if b.1 != a.1 {
        Some(
            "slot "@ + decimal(b.0 as nat) + " changed persona ("@ + b.1.spec_label() + " → "@
                + a.1.spec_label() + ")"@,
        )
    } else if opt_view(b.2) != opt_view(a.2) || opt_view(b.3) != opt_view(a.3) {
        Some("slot "@ + decimal(b.0 as nat) + "'s input device changed"@)
    } else {
        None
    }
}

/// The first slot, from `i` on, that cannot change in place.
pub open spec fn slots_bounce(before: Seq<ShapeSlot>, after: Seq<ShapeSlot>, i: int) -> Option<
    Seq<char>,
>
    decreases before.len() - i,
{
    if i < 0 || i >= before.len() {
        None
    } else {
        match slot_bounce(before[i], after[i]) {
            Some(r) => Some(r),
            None => slots_bounce(before, after, i + 1),
        }
    }
}

/// Why `next` cannot be hot-swapped onto `cur`, in the order the checks are
/// made; `None` when it can.
pub open spec fn bounce(cur: SessionShape, next: SessionShape) -> Option<Seq<char>> {
    if cur.slots@.len() != next.slots@.len() {
        Some(
            "the slot count changed ("@ + decimal(cur.slots@.len()) + " → "@ + decimal(
                next.slots@.len(),
            ) + ")"@,
        )
    } else {
        match slots_bounce(cur.slots@, next.slots@, 0) {
            Some(r) => Some(r),
            None => if cur.block_keyboards != next.block_keyboards {
                Some(
                    "keyboard blocking changed ("@ + cur.block_keyboards.spec_as_str() + " → "@
                        + next.block_keyboards.spec_as_str() + ")"@,
                )
            } else if id_views(cur.captureable@) != id_views(next.captureable@) {
                Some("the set of captured keyboards changed"@)
            } else if id_views(cur.winusb@) != id_views(next.winusb@) {
                Some("a device's capture backend changed"@)
            } else {
                None
            },
        }
    }
}

fn opt_str_eq(a: &Option<String>, b: &Option<String>) -> (r: bool)
    ensures
        r == (opt_view(*a) == opt_view(*b)),
{
    match (a, b) {
        (Some(x), Some(y)) => str_eq(x.as_str(), y.as_str()),
        (None, None) => true,
        _ => false,
    }
}

fn strings_eq(a: &Vec<String>, b: &Vec<String>) -> (r: bool)
    ensures
        r == (id_views(a@) == id_views(b@)),
{
    if a.len() != b.len() {
        assert(id_views(a@).len() != id_views(b@).len());
        return false;
    }
    let mut i: usize = 0;
    while i < a.len()
        invariant
            a@.len() == b@.len(),
            i <= a@.len(),
            forall|k: int| 0 <= k < i ==> #[trigger] a@[k]@ == b@[k]@,
        decreases a.len() - i,
    {
        if !str_eq(a[i].as_str(), b[i].as_str()) {
            assert(id_views(a@)[i as int] != id_views(b@)[i as int]);
            return false;
        }
        i = i + 1;
    }
    assert(id_views(a@) =~= id_views(b@));
    true
}

/// `shape` is the shape of `plan`: each slot's number, persona and devices,
/// the blocking mode, the captured set and the WinUSB boards.
pub open spec fn shape_of_plan(shape: SessionShape, plan: RunPlan) -> bool {
    &&& shape.slots@.len() == plan.slots@.len()
    &&& forall|i: int|
        0 <= i < plan.slots@.len() ==> #[trigger] shape.slots@[i] == (
            plan.slots@[i].number,
            plan.slots@[i].persona,
            plan.slots@[i].keyboard,
            plan.slots@[i].mouse,
        )
    &&& shape.block_keyboards == plan.block_keyboards
    &&& shape.captureable@ == plan.captureable@
    &&& shape.winusb@ == plan.winusb@
}

impl SessionShape {
    /// The shape of a resolved plan.
    pub fn of(plan: &RunPlan) -> (shape: SessionShape)
        ensures
            shape_of_plan(shape, *plan),
    {
        let mut slots: Vec<ShapeSlot> = Vec::new();
        let mut i: usize = 0;
        while i < plan.slots.len()
            invariant
                i <= plan.slots@.len(),
                slots@.len() == i,
                forall|k: int|
                    0 <= k < i ==> #[trigger] slots@[k] == (
                        plan.slots@[k].number,
                        plan.slots@[k].persona,
                        plan.slots@[k].keyboard,
                        plan.slots@[k].mouse,
                    ),
            decreases plan.slots.len() - i,
        {
            let s = &plan.slots[i];
            slots.push((s.number, s.persona, copy_opt_string(&s.keyboard), copy_opt_string(&s.mouse)));
            i = i + 1;
        }
        SessionShape {
            slots,
            block_keyboards: plan.block_keyboards,
            captureable: copy_strings(&plan.captureable),
            winusb: copy_strings(&plan.winusb),
        }
    }

    /// Why `next` cannot be hot-swapped onto this shape — `None` when it can.
    /// The string is user-facing: it says what changed.
    pub fn bounce_reason(&self, next: &SessionShape) -> (r: Option<String>)
        ensures
            match bounce(*self, *next) {
                Some(t) => r is Some && r->0@ == t,
                None => r is None,
            },
    {
        if self.slots.len() != next.slots.len() {
            let mut s = "the slot count changed (".to_owned();
            push_decimal(&mut s, self.slots.len() as u64);
            s.append(" → ");
            push_decimal(&mut s, next.slots.len() as u64);
            s.append(")");
            assert(s@ =~= bounce(*self, *next)->0);
            return Some(s);
        }
        let mut i: usize = 0;
        while i < self.slots.len()
            invariant
                self.slots@.len() == next.slots@.len(),
                i <= self.slots@.len(),
                slots_bounce(self.slots@, next.slots@, 0) == slots_bounce(
                    self.slots@,
                    next.slots@,
                    i as int,
                ),
            decreases self.slots.len() - i,
        {
            let before = &self.slots[i];
            let after = &next.slots[i];
            if before.0 != after.0 {
                let mut s = "slot ".to_owned();
                push_decimal(&mut s, before.0 as u64);
                s.append(" became slot ");
                push_decimal(&mut s, after.0 as u64);
                assert(s@ =~= slot_bounce(*before, *after)->0);
                return Some(s);
            }
            if before.1 != after.1 {
                let mut s = "slot ".to_owned();
                push_decimal(&mut s, before.0 as u64);
                s.append(" changed persona (");
                s.append(before.1.label());
                s.append(" → ");
                s.append(after.1.label());
                s.append(")");
                assert(s@ =~= slot_bounce(*before, *after)->0);
                return Some(s);
            }
            if !opt_str_eq(&before.2, &after.2) || !opt_str_eq(&before.3, &after.3) {
                let mut s = "slot ".to_owned();
                push_decimal(&mut s, before.0 as u64);
                s.append("'s input device changed");
                assert(s@ =~= slot_bounce(*before, *after)->0);
                return Some(s);
            }
            i = i + 1;
        }
        if self.block_keyboards != next.block_keyboards {
            let mut s = "keyboard blocking changed (".to_owned();
            s.append(self.block_keyboards.as_str());
            s.append(" → ");
            s.append(next.block_keyboards.as_str());
            s.append(")");
            assert(s@ =~= bounce(*self, *next)->0);
            return Some(s);
        }
        if !strings_eq(&self.captureable, &next.captureable) {
            return Some("the set of captured keyboards changed".to_owned());
        }
        if !strings_eq(&self.winusb, &next.winusb) {
            return Some("a device's capture backend changed".to_owned());
        }
        None
    }
}

/// A shape never bounces onto itself: re-resolving an unchanged plan is
/// always a hot swap.
pub proof fn law_an_unchanged_shape_never_bounces(shape: SessionShape)
    ensures
        bounce(shape, shape) is None,
{
    lemma_slots_never_bounce_onto_themselves(shape.slots@, 0);
}

proof fn lemma_slots_never_bounce_onto_themselves(slots: Seq<ShapeSlot>, i: int)
    ensures
        slots_bounce(slots, slots, i) is None,
    decreases slots.len() - i,
{
    if 0 <= i < slots.len() {
        lemma_slots_never_bounce_onto_themselves(slots, i + 1);
    }
}

/// What a hot swap did.
#[derive(Clone, Debug, PartialEq, Eq)]
pub enum SwapVerdict {
    /// Bindings only: the tables were handed to the live engine.
    Applied,
    /// Structural: the caller must bounce the session. Carries the reason.
    NeedsRestart(String),
}

/// The first half of applying a re-resolved plan to a running session: a
/// structural change answers "restart", with what changed; a bindings-only
/// change answers `None`, and the new tables go to the engine.
pub fn swap_plan(current: &SessionShape, next: &SessionShape) -> (v: Option<SwapVerdict>)
    ensures
        match bounce(*current, *next) {
            Some(t) => v matches Some(SwapVerdict::NeedsRestart(r)) && r@ == t,
            None => v is None,
        },
{
    match current.bounce_reason(next) {
        Some(reason) => Some(SwapVerdict::NeedsRestart(reason)),
        None => None,
    }
}

/// The second half: the tables reached the engine, or the engine is gone
/// (the session ended underneath), which is an error, never a silent success.
pub fn swap_handed_over(delivered: bool) -> (r: Result<SwapVerdict, &'static str>)
    ensures
        delivered ==> r == Ok::<SwapVerdict, &'static str>(SwapVerdict::Applied),
        !delivered ==> r is Err && r->Err_0@ == "the session's engine thread has gone"@,
{
    if delivered {
        Ok(SwapVerdict::Applied)
    } else {
        Err("the session's engine thread has gone")
    }
}

/// What the supervisor tells the engine thread.
#[derive(Debug)]
pub enum EngineCtl {
    /// A bound keyboard vanished: release everything it was holding down.
    ReleaseDevice(String),
    /// The binding hot-swap: new dispatch tables for these slots, built by
    /// the sender on its own thread, to be moved into the running engine.
    /// The pads, their handles and the capture filters are untouched.
    SwapTables(Vec<PlanSlot>),
    /// Cancel every macro in flight and release what it held.
    CancelMacros,
    Stop,
}

/// `Sender::send` on the handle's engine control channel, which never
/// blocks and fails only when the receiving side is gone; `false` then.
/// Whether the engine thread is still there is not up to the caller, so
/// nothing is promised of which comes back; what is claimed is only that
/// this very message joins the handle's record of what it sent, and that
/// the handle is otherwise untouched.
#[verifier::external_body]
fn send_ctl(h: &mut HotSwap, msg: EngineCtl) -> (delivered: bool)
    ensures
        final(h).spec_sent() == old(h).spec_sent().push(msg),
        final(h).spec_shape() == old(h).spec_shape(),
{
    h.ectl.send(msg).is_ok()
}

fn copy_plan_slots(slots: &Vec<PlanSlot>) -> (r: Vec<PlanSlot>)
    ensures
        r@ == slots@,
{
    let mut r: Vec<PlanSlot> = Vec::new();
    let mut i: usize = 0;
    while i < slots.len()
        invariant
            i <= slots@.len(),
            r@ == slots@.take(i as int),
        decreases slots.len() - i,
    {
        r.push(crate::resolve::copy_slot(&slots[i]));
        proof {
            assert(slots@.take(i + 1) =~= slots@.take(i as int).push(slots@[i as int]));
        }
        i = i + 1;
    }
    proof {
        assert(slots@.take(slots@.len() as int) =~= slots@);
    }
    r
}

/// What applying `plan` to a session of shape `shape` did, having sent
/// `sent_before` earlier and `sent_after` in all: a structural change
/// answers "restart", with what changed, and sends nothing; otherwise the
/// plan's slots are handed to the engine in one message, and the answer is
/// `Applied`, or the error that the engine is gone.
pub open spec fn swapped(
    shape: SessionShape,
    sent_before: Seq<EngineCtl>,
    sent_after: Seq<EngineCtl>,
    plan: RunPlan,
    r: Result<SwapVerdict, &'static str>,
) -> bool {
    forall|next: SessionShape|
        #[trigger] shape_of_plan(next, plan) ==> match bounce(shape, next) {
            Some(t) => (r matches Ok(SwapVerdict::NeedsRestart(why)) && why@ == t) && sent_after
                == sent_before,
            None => {
                &&& sent_after.len() == sent_before.len() + 1
                &&& sent_after.drop_last() == sent_before
                &&& sent_after.last() matches EngineCtl::SwapTables(slots) && slots@ == plan.slots@
                &&& r == Ok::<SwapVerdict, &'static str>(SwapVerdict::Applied) || (r is Err
                    && r->Err_0@ == "the session's engine thread has gone"@)
            },
        }
}

/// A hot swap hands the engine the whole plan: whenever the answer is
/// `Applied` (or the engine turned out gone), exactly one message was sent,
/// and it carries every slot of the plan, each with its number, persona,
/// devices and preset; a "restart" answer sends nothing at all.
pub proof fn law_a_swap_hands_the_engine_every_slot(
    shape: SessionShape,
    sent_before: Seq<EngineCtl>,
    sent_after: Seq<EngineCtl>,
    plan: RunPlan,
    next: SessionShape,
    r: Result<SwapVerdict, &'static str>,
)
    requires
        swapped(shape, sent_before, sent_after, plan, r),
        shape_of_plan(next, plan),
    ensures
        r matches Ok(SwapVerdict::NeedsRestart(_)) ==> sent_after == sent_before,
        !(r matches Ok(SwapVerdict::NeedsRestart(_))) ==> {
            &&& sent_after.len() == sent_before.len() + 1
            &&& forall|i: int| 0 <= i < sent_before.len() ==> sent_after[i] == sent_before[i]
            &&& sent_after.last() matches EngineCtl::SwapTables(slots) && slots@.len() == plan.slots@.len()
                && forall|i: int|
                0 <= i < plan.slots@.len() ==> (#[trigger] slots@[i]).preset == plan.slots@[i].preset
                    && slots@[i].number == plan.slots@[i].number && slots@[i].persona
                    == plan.slots@[i].persona && slots@[i].keyboard == plan.slots@[i].keyboard
                    && slots@[i].mouse == plan.slots@[i].mouse
        },
{
    assert(shape_of_plan(next, plan));
    if bounce(shape, next) is None {
        assert forall|i: int| 0 <= i < sent_before.len() implies sent_after[i] == sent_before[i] by {
            assert(sent_after.drop_last()[i] == sent_after[i]);
        }
    }
}

/// A running session's binding hot-swap handle: the engine's control
/// channel and the shape the session was started with.
pub struct HotSwap {
    ectl: crossbeam_channel::Sender<EngineCtl>,
    shape: SessionShape,
    /// Every message this handle has handed the engine, oldest first.
    sent: Ghost<Seq<EngineCtl>>,
}

impl HotSwap {
    pub closed spec fn spec_shape(&self) -> SessionShape {
        self.shape
    }

    pub closed spec fn spec_sent(&self) -> Seq<EngineCtl> {
        self.sent@
    }

    /// The handle a session publishes once its engine exists.
    pub fn new(ectl: crossbeam_channel::Sender<EngineCtl>, shape: SessionShape) -> (h: HotSwap)
        ensures
            h.spec_shape() == shape,
            h.spec_sent() == Seq::<EngineCtl>::empty(),
    {
        HotSwap { ectl, shape, sent: Ghost(Seq::empty()) }
    }

    /// Apply `plan`'s bindings to the running session in place. A
    /// structural change sends nothing and answers "restart", with what
    /// changed; otherwise the new tables go to the engine exactly once, and
    /// the answer is `Applied`, or an error when the engine is gone.
    pub fn apply(&mut self, plan: &RunPlan) -> (r: Result<SwapVerdict, &'static str>)
        ensures
            final(self).spec_shape() == old(self).spec_shape(),
            swapped(old(self).spec_shape(), old(self).spec_sent(), final(self).spec_sent(), *plan, r),
    {
        let next = SessionShape::of(plan);
        proof {
            assert forall|other: SessionShape| #[trigger] shape_of_plan(other, *plan) implies bounce(
                self.shape,
                other,
            ) == bounce(self.shape, next) by {
                assert(other.slots@ =~= next.slots@);
                assert(other.captureable@ =~= next.captureable@);
                assert(other.winusb@ =~= next.winusb@);
            }
        }
        match swap_plan(&self.shape, &next) {
            Some(v) => {
                return Ok(v);
            },
            None => {},
        }
        let slots = copy_plan_slots(&plan.slots);
        let delivered = send_ctl(self, EngineCtl::SwapTables(slots));
        proof {
            assert(self.spec_sent().drop_last() =~= old(self).spec_sent());
        }
        swap_handed_over(delivered)
    }
}

/// The "keyboards come back no matter what" latch: the first release —
/// from teardown, or from unwinding — says to send `SetPassthrough`; every
/// later one says not to.
pub struct CaptureGuard {
    released: bool,
}

impl CaptureGuard {
    pub closed spec fn is_released(&self) -> bool {
        self.released
    }

    /// A guard for a capture that has just started.
    pub fn new() -> (g: CaptureGuard)
        ensures
            !g.is_released(),
    {
        CaptureGuard { released: false }
    }

    /// Whether this release must send `SetPassthrough`: only the first one.
    pub fn release(&mut self) -> (send: bool)
        ensures
            send == !old(self).is_released(),
            final(self).is_released(),
    {
        if self.released {
            return false;
        }
        self.released = true;
        true
    }
}

/// One pad's full state: a snapshot, not an edit — a newer state for a slot
/// fully supersedes an older one.
#[derive(Clone, Copy, Debug, Default, PartialEq, Eq, Structural)]
pub struct PadState {
    pub buttons: u16,
    pub lt: u8,
    pub rt: u8,
    pub lx: i16,
    pub ly: i16,
    pub rx: i16,
    pub ry: i16,
}

/// One pad transition plus the capture stamp it came from.
#[derive(Clone, Copy, Debug, PartialEq, Eq, Structural)]
pub struct OutMsg {
    pub slot: u8,
    pub state: PadState,
    pub t_capture: u64,
}

/// `crossbeam_channel::Sender`, the engine's end of the bounded delta channel.
#[verifier::external_type_specification]
#[verifier::external_body]
#[verifier::reject_recursive_types(T)]
pub struct ExSender<T>(crossbeam_channel::Sender<T>);

/// What one non-blocking send did.
#[derive(Clone, Copy, Debug, PartialEq, Eq, Structural)]
pub enum SendOutcome {
    Sent,
    /// The channel is full; the message was not taken.
    Full,
    /// The receiving side is gone.
    Disconnected,
}

/// `Sender::try_send` on the queue's channel, which never blocks. Whether
/// the channel takes the message depends on the receiving thread at that
/// moment, so nothing is promised of which outcome comes back; what is
/// claimed is only that this attempt — the message and its outcome — joins
/// the queue's record of attempts, and that the queue is otherwise untouched.
#[verifier::external_body]
fn try_send(d: &mut DeltaTx, msg: OutMsg) -> (r: SendOutcome)
    ensures
        final(d).spec_attempts() == old(d).spec_attempts().push((msg, r)),
        final(d).spec_tx() == old(d).spec_tx(),
        final(d).spec_pending() == old(d).spec_pending(),
        final(d).spec_coalesced() == old(d).spec_coalesced(),
        final(d).spec_dropped() == old(d).spec_dropped(),
{
    match d.tx.try_send(msg) {
        Ok(()) => SendOutcome::Sent,
        Err(crossbeam_channel::TrySendError::Full(_)) => SendOutcome::Full,
        Err(crossbeam_channel::TrySendError::Disconnected(_)) => SendOutcome::Disconnected,
    }
}

/// The output thread is gone; nothing can be delivered any more.
#[derive(Clone, Copy, Debug, PartialEq, Eq, Structural)]
pub struct OutputGone;

/// No two queued states are for the same slot.
pub open spec fn one_per_slot(pending: Seq<OutMsg>) -> bool {
    forall|i: int, j: int|
        0 <= i < pending.len() && 0 <= j < pending.len() && i != j ==> #[trigger] pending[i].slot
            != #[trigger] pending[j].slot
}

/// Is a state for `slot` queued?
pub open spec fn has_slot(pending: Seq<OutMsg>, slot: u8) -> bool {
    exists|i: int| 0 <= i < pending.len() && #[trigger] pending[i].slot == slot
}

/// The queue once `msg` joins it: it replaces the state queued for its slot,
/// in place, or goes to the back.
pub open spec fn queued(pending: Seq<OutMsg>, msg: OutMsg) -> Seq<OutMsg> {
    if has_slot(pending, msg.slot) {
        pending.update(choose|i: int| 0 <= i < pending.len() && #[trigger] pending[i].slot == msg.slot, msg)
    } else {
        pending.push(msg)
    }
}

/// What a flush of `before` may leave: some prefix was taken by the channel;
/// either the channel filled up (the rest stays, in order) or the receiver is
/// gone (the rest is dropped and counted).
pub open spec fn flushed(
    before: Seq<OutMsg>,
    dropped_before: u64,
    after: Seq<OutMsg>,
    dropped_after: u64,
    gone: bool,
) -> bool {
    exists|k: int|
        #![trigger before.skip(k)]
        0 <= k <= before.len() && if gone {
            after.len() == 0 && dropped_after == dropped_before + (before.len() - k)
        } else {
            after == before.skip(k) && dropped_after == dropped_before
        }
}

/// A flush pushes as much as the channel will take: states stay queued
/// after a flush that found the output alive only when its last attempt
/// was refused as full; when every attempt was taken, nothing is left; the
/// states are offered oldest first; and a dead output ends the flush at its
/// last attempt with nothing left queued.
pub proof fn law_a_flush_stops_only_when_the_channel_is_full(
    before: Seq<OutMsg>,
    tried: Seq<(OutMsg, SendOutcome)>,
    after: Seq<OutMsg>,
    dropped_before: u64,
    dropped_after: u64,
    gone: bool,
)
    requires
        flush_went(before, tried, after, dropped_before, dropped_after, gone),
    ensures
        !gone && after.len() > 0 ==> tried.len() > 0 && tried.last().1 == SendOutcome::Full,
        !gone && (forall|i: int| 0 <= i < tried.len() ==> (#[trigger] tried[i]).1 == SendOutcome::Sent)
            ==> after.len() == 0,
        tried.len() <= before.len(),
        forall|i: int| 0 <= i < tried.len() ==> (#[trigger] tried[i]).0 == before[i],
        gone ==> tried.len() > 0 && tried.last().1 == SendOutcome::Disconnected && after.len() == 0,
{
    let k = choose|k: int| #[trigger] flush_at(before, tried, after, dropped_before, dropped_after, gone, k);
    assert forall|i: int| 0 <= i < tried.len() implies (#[trigger] tried[i]).0 == before[i] by {
        if i < k {
            assert(tried[i] == (before[i], SendOutcome::Sent));
        }
    }
    if !gone && k < before.len() {
        assert(tried[k].1 == SendOutcome::Full);
    }
}

/// Level-triggered, non-blocking delta forwarding (engine → output): the
/// engine never blocks on a stalled output thread. When the channel is full
/// it keeps exactly one pending state per slot — the newest — and flushes
/// when the channel drains.
pub struct DeltaTx {
    tx: crossbeam_channel::Sender<OutMsg>,
    /// At most one entry per slot, oldest first.
    pending: Vec<OutMsg>,
    coalesced: u64,
    dropped: u64,
    /// Every send attempt on the channel, oldest first, with its outcome.
    attempts: Ghost<Seq<(OutMsg, SendOutcome)>>,
}

/// How one flush of `before` went, attempt by attempt (`tried` are its
/// attempts, oldest first): the queued states were offered in order; each
/// one the channel took left the queue; the flush stopped at the first one
/// the channel refused as full (it and the rest stay queued, in order) or
/// found disconnected (everything left is dropped and counted), and
/// otherwise only once the queue was empty.
pub open spec fn flush_went(
    before: Seq<OutMsg>,
    tried: Seq<(OutMsg, SendOutcome)>,
    after: Seq<OutMsg>,
    dropped_before: u64,
    dropped_after: u64,
    gone: bool,
) -> bool {
    exists|k: int| #[trigger] flush_at(before, tried, after, dropped_before, dropped_after, gone, k)
}

/// `flush_went`, with `k` the number of states the channel took.
pub open spec fn flush_at(
    before: Seq<OutMsg>,
    tried: Seq<(OutMsg, SendOutcome)>,
    after: Seq<OutMsg>,
    dropped_before: u64,
    dropped_after: u64,
    gone: bool,
    k: int,
) -> bool {
    0 <= k <= before.len() && tried.len() >= k && (forall|i: int|
        0 <= i < k ==> #[trigger] tried[i] == (before[i], SendOutcome::Sent)) && if gone {
        k < before.len() && tried.len() == k + 1 && tried[k] == (before[k], SendOutcome::Disconnected)
            && after.len() == 0 && dropped_after == dropped_before + (before.len() - k)
    } else if k < before.len() {
        tried.len() == k + 1 && tried[k] == (before[k], SendOutcome::Full) && after == before.skip(k)
            && dropped_after == dropped_before
    } else {
        tried.len() == k && after.len() == 0 && dropped_after == dropped_before
    }
}

impl DeltaTx {
    /// Every send attempt so far, oldest first, with its outcome.
    pub closed spec fn spec_attempts(&self) -> Seq<(OutMsg, SendOutcome)> {
        self.attempts@
    }

    pub closed spec fn spec_pending(&self) -> Seq<OutMsg> {
        self.pending@
    }

    /// The channel the states go out on.
    pub closed spec fn spec_tx(&self) -> crossbeam_channel::Sender<OutMsg> {
        self.tx
    }

    pub closed spec fn spec_coalesced(&self) -> u64 {
        self.coalesced
    }

    pub closed spec fn spec_dropped(&self) -> u64 {
        self.dropped
    }

    pub open spec fn wf(&self) -> bool {
        one_per_slot(self.spec_pending())
    }

    pub fn new(tx: crossbeam_channel::Sender<OutMsg>) -> (d: DeltaTx)
        ensures
            d.wf(),
            d.spec_tx() == tx,
            d.spec_pending().len() == 0,
            d.spec_coalesced() == 0,
            d.spec_dropped() == 0,
            d.spec_attempts().len() == 0,
    {
        DeltaTx { tx, pending: Vec::new(), coalesced: 0, dropped: 0, attempts: Ghost(Seq::empty()) }
    }

    /// Pad states superseded by a newer state for the same slot.
    pub fn coalesced(&self) -> (n: u64)
        ensures
            n == self.spec_coalesced(),
    {
        self.coalesced
    }

    /// Pad states discarded because the output thread was gone.
    pub fn dropped(&self) -> (n: u64)
        ensures
            n == self.spec_dropped(),
    {
        self.dropped
    }

    pub fn has_pending(&self) -> (b: bool)
        ensures
            b == (self.spec_pending().len() > 0),
    {
        self.pending.len() > 0
    }

    /// Queue a delta and push as much as the channel will take. Never blocks.
    pub fn send(&mut self, msg: OutMsg) -> (r: Result<(), OutputGone>)
        requires
            old(self).wf(),
            old(self).spec_coalesced() < u64::MAX,
            old(self).spec_dropped() + old(self).spec_pending().len() + 1 <= u64::MAX,
        ensures
            final(self).wf(),
            final(self).spec_tx() == old(self).spec_tx(),
            final(self).spec_coalesced() == old(self).spec_coalesced() + if has_slot(
                old(self).spec_pending(),
                msg.slot,
            ) {
                1int
            } else {
                0int
            },
            flushed(
                queued(old(self).spec_pending(), msg),
                old(self).spec_dropped(),
                final(self).spec_pending(),
                final(self).spec_dropped(),
                r is Err,
            ),
            final(self).spec_attempts().take(old(self).spec_attempts().len() as int) == old(
                self,
            ).spec_attempts(),
            flush_went(
                queued(old(self).spec_pending(), msg),
                final(self).spec_attempts().skip(old(self).spec_attempts().len() as int),
                final(self).spec_pending(),
                old(self).spec_dropped(),
                final(self).spec_dropped(),
                r is Err,
            ),
    {
        let mut i: usize = 0;
        while i < self.pending.len() && self.pending[i].slot != msg.slot
            invariant
                i <= self.pending@.len(),
                forall|k: int| 0 <= k < i ==> #[trigger] self.pending@[k].slot != msg.slot,
            decreases self.pending.len() - i,
        {
            i = i + 1;
        }
        let found = i < self.pending.len();
        let ghost before = self.pending@;
        if found {
            proof {
                assert(has_slot(before, msg.slot));
                let j = choose|j: int| 0 <= j < before.len() && #[trigger] before[j].slot == msg.slot;
                assert(before[i as int].slot == msg.slot);
                assert(j == i);
            }
            self.pending.set(i, msg);
            self.coalesced = self.coalesced + 1;
        } else {
            proof {
                if i < before.len() {
                    assert(false);
                }
                assert(!has_slot(before, msg.slot));
            }
            self.pending.push(msg);
        }
        assert(self.pending@ == queued(before, msg));
        assert(one_per_slot(self.pending@));
        self.flush()
    }

    /// Push queued states until the channel fills up or turns out dead.
    pub fn flush(&mut self) -> (r: Result<(), OutputGone>)
        requires
            old(self).wf(),
            old(self).spec_dropped() + old(self).spec_pending().len() <= u64::MAX,
        ensures
            final(self).wf(),
            final(self).spec_tx() == old(self).spec_tx(),
            final(self).spec_coalesced() == old(self).spec_coalesced(),
            flushed(
                old(self).spec_pending(),
                old(self).spec_dropped(),
                final(self).spec_pending(),
                final(self).spec_dropped(),
                r is Err,
            ),
            final(self).spec_attempts().take(old(self).spec_attempts().len() as int) == old(
                self,
            ).spec_attempts(),
            flush_went(
                old(self).spec_pending(),
                final(self).spec_attempts().skip(old(self).spec_attempts().len() as int),
                final(self).spec_pending(),
                old(self).spec_dropped(),
                final(self).spec_dropped(),
                r is Err,
            ),
    {
        let ghost before = self.pending@;
        let ghost a0 = self.attempts@;
        let ghost mut k: int = 0;
        while self.pending.len() > 0
            invariant_except_break
                before == old(self).pending@,
                a0 == old(self).attempts@,
                0 <= k <= before.len(),
                self.pending@ == before.skip(k),
                self.dropped == old(self).dropped,
                self.coalesced == old(self).coalesced,
                self.tx == old(self).tx,
                one_per_slot(self.pending@),
                self.dropped + self.pending@.len() <= u64::MAX,
                self.attempts@.len() == a0.len() + k,
                self.attempts@.take(a0.len() as int) == a0,
                forall|i: int| 0 <= i < k ==> #[trigger] self.attempts@[a0.len() + i] == (before[i], SendOutcome::Sent),
            ensures
                before == old(self).pending@,
                a0 == old(self).attempts@,
                0 <= k <= before.len(),
                self.pending@ == before.skip(k),
                self.dropped == old(self).dropped,
                self.coalesced == old(self).coalesced,
                self.tx == old(self).tx,
                one_per_slot(self.pending@),
                self.dropped + self.pending@.len() <= u64::MAX,
                self.attempts@.take(a0.len() as int) == a0,
                forall|i: int| 0 <= i < k ==> #[trigger] self.attempts@[a0.len() + i] == (before[i], SendOutcome::Sent),
                self.pending@.len() == 0 ==> self.attempts@.len() == a0.len() + k,
                self.pending@.len() > 0 ==> self.attempts@.len() == a0.len() + k + 1 && self.attempts@[a0.len()
                    + k] == (before[k], SendOutcome::Full),
            decreases self.pending.len(),
        {
            let msg = self.pending[0];
            assert(msg == before[k]);
            let ghost prev = self.attempts@;
            let outcome = try_send(self, msg);
            proof {
                assert(self.attempts@ == prev.push((msg, outcome)));
                assert(self.attempts@.take(a0.len() as int) =~= a0);
            }
            match outcome {
                SendOutcome::Sent => {
                    self.pending.remove(0);
                    proof {
                        assert(self.pending@ =~= before.skip(k + 1));
                        k = k + 1;
                    }
                },
                SendOutcome::Full => {
                    break;
                },
                SendOutcome::Disconnected => {
                    let n = self.pending.len() as u64;
                    self.dropped = self.dropped + n;
                    self.pending.clear();
                    proof {
                        assert(before.skip(k).len() == before.len() - k);
                        assert(flushed(before, old(self).dropped, self.pending@, self.dropped, true));
                        let tried = self.attempts@.skip(a0.len() as int);
                        assert(tried.len() == k + 1);
                        assert forall|i: int| 0 <= i < k implies #[trigger] tried[i] == (before[i], SendOutcome::Sent) by {
                            assert(tried[i] == self.attempts@[a0.len() + i]);
                        }
                        assert(tried[k] == (before[k], SendOutcome::Disconnected));
                        assert(flush_at(before, tried, self.pending@, old(self).dropped, self.dropped, true, k));
                    }
                    return Err(OutputGone);
                },
            }
        }
        proof {
            let tried = self.attempts@.skip(a0.len() as int);
            assert forall|i: int| 0 <= i < k implies #[trigger] tried[i] == (before[i], SendOutcome::Sent) by {
                assert(tried[i] == self.attempts@[a0.len() + i]);
            }
            if self.pending@.len() > 0 {
                assert(k < before.len());
                assert(tried[k] == (before[k], SendOutcome::Full));
            } else {
                assert(before.skip(k).len() == 0);
            }
            assert(flush_at(before, tried, self.pending@, old(self).dropped, self.dropped, false, k));
        }
        assert(flushed(before, old(self).dropped, self.pending@, self.dropped, false));
        Ok(())
    }
}

/// The newest state wins: once `msg` is queued, its slot has exactly that
/// state queued, every other slot keeps its own, and still no slot is queued
/// twice.
pub proof fn law_newest_state_wins(pending: Seq<OutMsg>, msg: OutMsg)
    requires
        one_per_slot(pending),
    ensures
        one_per_slot(queued(pending, msg)),
        queued(pending, msg).contains(msg),
        forall|i: int|
            0 <= i < queued(pending, msg).len() && queued(pending, msg)[i].slot == msg.slot
                ==> #[trigger] queued(pending, msg)[i] == msg,
        forall|j: int|
            0 <= j < pending.len() && pending[j].slot != msg.slot ==> queued(pending, msg).contains(
                #[trigger] pending[j],
            ),
        queued(pending, msg).len() <= pending.len() + 1,
{
    let q = queued(pending, msg);
    if has_slot(pending, msg.slot) {
        let c = choose|i: int| 0 <= i < pending.len() && #[trigger] pending[i].slot == msg.slot;
        assert(q[c] == msg);
        assert forall|j: int| 0 <= j < pending.len() && pending[j].slot != msg.slot implies q.contains(
            #[trigger] pending[j],
        ) by {
            assert(j != c);
            assert(q[j] == pending[j]);
        }
        assert forall|i: int| 0 <= i < q.len() && q[i].slot == msg.slot implies #[trigger] q[i]
            == msg by {
            if i != c {
                assert(pending[i].slot == pending[c].slot);
            }
        }
    } else {
        assert(q[pending.len() as int] == msg);
        assert forall|j: int| 0 <= j < pending.len() && pending[j].slot != msg.slot implies q.contains(
            #[trigger] pending[j],
        ) by {
            assert(q[j] == pending[j]);
        }
        assert forall|i: int, j: int|
            0 <= i < q.len() && 0 <= j < q.len() && i != j implies #[trigger] q[i].slot
            != #[trigger] q[j].slot by {
            if i == pending.len() {
                assert(q[j] == pending[j]);
                assert(!(pending[j].slot == msg.slot));
            } else if j == pending.len() {
                assert(q[i] == pending[i]);
                assert(!(pending[i].slot == msg.slot));
            }
        }
    }
}

/// The newest state in `ms` for `slot`, looking from the end.
pub open spec fn latest(ms: Seq<OutMsg>, slot: u8) -> Option<PadState>
    decreases ms.len(),
{
    if ms.len() == 0 {
        None
    } else if ms.last().slot == slot {
        Some(ms.last().state)
    } else {
        latest(ms.drop_last(), slot)
    }
}

/// What the output side was handed, followed by what still waits in the
/// queue, agrees slot by slot with the newest state the engine produced, and
/// holds nothing the engine did not produce.
pub open spec fn settles_on(produced: Seq<OutMsg>, delivered: Seq<OutMsg>, pending: Seq<OutMsg>) -> bool {
    &&& forall|slot: u8| #[trigger] latest(delivered + pending, slot) == latest(produced, slot)
    &&& forall|m: OutMsg| #[trigger] (delivered + pending).contains(m) ==> produced.contains(m)
}

proof fn lemma_latest_concat(x: Seq<OutMsg>, y: Seq<OutMsg>, slot: u8)
    ensures
        latest(x + y, slot) == match latest(y, slot) {
            Some(st) => Some(st),
            None => latest(x, slot),
        },
    decreases y.len(),
{
    if y.len() == 0 {
        assert(x + y =~= x);
    } else {
        assert((x + y).drop_last() =~= x + y.drop_last());
        assert((x + y).last() == y.last());
        lemma_latest_concat(x, y.drop_last(), slot);
    }
}

/// With exactly one entry for `slot`, that entry's state is the newest.
proof fn lemma_latest_of_the_only_entry(y: Seq<OutMsg>, slot: u8, i: int)
    requires
        0 <= i < y.len(),
        y[i].slot == slot,
        forall|j: int| 0 <= j < y.len() && j != i ==> (#[trigger] y[j]).slot != slot,
    ensures
        latest(y, slot) == Some(y[i].state),
    decreases y.len(),
{
    if i < y.len() - 1 {
        let d = y.drop_last();
        assert(y.last() == y[y.len() - 1]);
        assert forall|j: int| 0 <= j < d.len() && j != i implies (#[trigger] d[j]).slot != slot by {
            assert(d[j] == y[j]);
        }
        lemma_latest_of_the_only_entry(d, slot, i);
    }
}

/// An entry for another slot, replaced or added, does not move this slot's
/// newest state.
proof fn lemma_latest_other_slot(p: Seq<OutMsg>, msg: OutMsg, slot: u8)
    requires
        slot != msg.slot,
    ensures
        latest(queued(p, msg), slot) == latest(p, slot),
    decreases p.len(),
{
    if has_slot(p, msg.slot) {
        let c = choose|i: int| 0 <= i < p.len() && #[trigger] p[i].slot == msg.slot;
        lemma_latest_update(p, c, msg, slot);
    } else {
        assert(p.push(msg).drop_last() =~= p);
    }
}

proof fn lemma_latest_update(p: Seq<OutMsg>, c: int, msg: OutMsg, slot: u8)
    requires
        0 <= c < p.len(),
        p[c].slot != slot,
        msg.slot != slot,
    ensures
        latest(p.update(c, msg), slot) == latest(p, slot),
    decreases p.len(),
{
    let u = p.update(c, msg);
    if c == p.len() - 1 {
        assert(u.drop_last() =~= p.drop_last());
    } else {
        assert(u.drop_last() =~= p.drop_last().update(c, msg));
        assert(u.last() == p.last());
        lemma_latest_update(p.drop_last(), c, msg, slot);
    }
}

/// Coalescing never loses the last state: if what was delivered plus what
/// waits settles on what the engine produced, it still does after one more
/// state is queued and the channel takes any prefix of the queue. Once the
/// queue is empty, each slot's last delivered state is its last produced one.
pub proof fn law_coalescing_never_loses_the_last_state(
    produced: Seq<OutMsg>,
    delivered: Seq<OutMsg>,
    pending: Seq<OutMsg>,
    msg: OutMsg,
    k: int,
)
    requires
        one_per_slot(pending),
        settles_on(produced, delivered, pending),
        0 <= k <= queued(pending, msg).len(),
    ensures
        settles_on(
            produced.push(msg),
            delivered + queued(pending, msg).take(k),
            queued(pending, msg).skip(k),
        ),
{
    let q = queued(pending, msg);
    let after = produced.push(msg);
    law_newest_state_wins(pending, msg);
    assert(delivered + q.take(k) + q.skip(k) =~= delivered + q);
    assert(after.drop_last() =~= produced);
    assert forall|slot: u8| #[trigger] latest(delivered + q, slot) == latest(after, slot) by {
        lemma_latest_concat(delivered, q, slot);
        lemma_latest_concat(delivered, pending, slot);
        if slot == msg.slot {
            let i = choose|i: int| 0 <= i < q.len() && q[i] == msg;
            assert forall|j: int| 0 <= j < q.len() && j != i implies (#[trigger] q[j]).slot != slot by {
                assert(q[i].slot != q[j].slot);
            }
            lemma_latest_of_the_only_entry(q, slot, i);
        } else {
            lemma_latest_other_slot(pending, msg, slot);
        }
    }
    assert forall|m: OutMsg| #[trigger] (delivered + q).contains(m) implies after.contains(m) by {
        let i = choose|i: int| 0 <= i < (delivered + q).len() && (delivered + q)[i] == m;
        if i < delivered.len() {
            assert((delivered + pending)[i] == m);
            assert((delivered + pending).contains(m));
            let j = choose|j: int| 0 <= j < produced.len() && produced[j] == m;
            assert(after[j] == m);
        } else {
            let qi = i - delivered.len();
            assert(q[qi] == m);
            if m == msg {
                assert(after[produced.len() as int] == m);
            } else {
                if has_slot(pending, msg.slot) {
                    let c = choose|c: int| 0 <= c < pending.len() && #[trigger] pending[c].slot == msg.slot;
                    assert(qi != c);
                    assert(pending[qi] == m);
                } else {
                    assert(qi < pending.len());
                    assert(pending[qi] == m);
                }
                assert((delivered + pending)[delivered.len() + qi] == m);
                assert((delivered + pending).contains(m));
                let j = choose|j: int| 0 <= j < produced.len() && produced[j] == m;
                assert(after[j] == m);
            }
        }
    }
}

/// A flush hands the channel a prefix of the queue and keeps the rest, so
/// what was delivered plus what waits still settles on what was produced.
pub proof fn law_a_flush_keeps_the_last_state(
    produced: Seq<OutMsg>,
    delivered: Seq<OutMsg>,
    pending: Seq<OutMsg>,
    k: int,
)
    requires
        settles_on(produced, delivered, pending),
        0 <= k <= pending.len(),
    ensures
        settles_on(produced, delivered + pending.take(k), pending.skip(k)),
{
    assert(delivered + pending.take(k) + pending.skip(k) =~= delivered + pending);
}

/// The messages of `ms` for `slot`, in order.
pub open spec fn of_slot(ms: Seq<OutMsg>, slot: u8) -> Seq<OutMsg>
    decreases ms.len(),
{
    if ms.len() == 0 {
        seq![]
    } else if ms.last().slot == slot {
        of_slot(ms.drop_last(), slot).push(ms.last())
    } else {
        of_slot(ms.drop_last(), slot)
    }
}

/// `a` is `b` with some messages left out, the rest in the same order.
pub open spec fn subsequence(a: Seq<OutMsg>, b: Seq<OutMsg>) -> bool
    decreases b.len(),
{
    if a.len() == 0 {
        true
    } else if b.len() == 0 {
        false
    } else if a.last() == b.last() {
        subsequence(a.drop_last(), b.drop_last())
    } else {
        subsequence(a, b.drop_last())
    }
}

/// Slot by slot, what was delivered followed by what waits is what the
/// engine produced for that slot with some states left out, never reordered.
pub open spec fn in_order(produced: Seq<OutMsg>, delivered: Seq<OutMsg>, pending: Seq<OutMsg>) -> bool {
    forall|slot: u8| #[trigger] subsequence(of_slot(delivered + pending, slot), of_slot(produced, slot))
}

proof fn lemma_of_slot_concat(x: Seq<OutMsg>, y: Seq<OutMsg>, slot: u8)
    ensures
        of_slot(x + y, slot) == of_slot(x, slot) + of_slot(y, slot),
    decreases y.len(),
{
    if y.len() == 0 {
        assert(x + y =~= x);
        assert(of_slot(x, slot) + of_slot(y, slot) =~= of_slot(x, slot));
    } else {
        assert((x + y).drop_last() =~= x + y.drop_last());
        assert((x + y).last() == y.last());
        lemma_of_slot_concat(x, y.drop_last(), slot);
        if y.last().slot == slot {
            assert(of_slot(x, slot) + of_slot(y.drop_last(), slot).push(y.last()) =~= (of_slot(x, slot)
                + of_slot(y.drop_last(), slot)).push(y.last()));
        }
    }
}

/// With one entry for `slot`, at `i`, the slot's messages are just that one.
proof fn lemma_of_slot_only_entry(y: Seq<OutMsg>, slot: u8, i: int)
    requires
        0 <= i < y.len(),
        y[i].slot == slot,
        forall|j: int| 0 <= j < y.len() && j != i ==> (#[trigger] y[j]).slot != slot,
    ensures
        of_slot(y, slot) == seq![y[i]],
    decreases y.len(),
{
    let d = y.drop_last();
    assert forall|j: int| 0 <= j < d.len() && j != i implies (#[trigger] d[j]).slot != slot by {
        assert(d[j] == y[j]);
    }
    if i < y.len() - 1 {
        assert(y.last() == y[y.len() - 1]);
        lemma_of_slot_only_entry(d, slot, i);
    } else {
        lemma_of_slot_none(d, slot);
        assert(of_slot(y, slot) =~= seq![y[i]]);
    }
}

/// With no entry for `slot`, the slot has no messages.
proof fn lemma_of_slot_none(y: Seq<OutMsg>, slot: u8)
    requires
        forall|j: int| 0 <= j < y.len() ==> (#[trigger] y[j]).slot != slot,
    ensures
        of_slot(y, slot) == Seq::<OutMsg>::empty(),
    decreases y.len(),
{
    if y.len() > 0 {
        let d = y.drop_last();
        assert forall|j: int| 0 <= j < d.len() implies (#[trigger] d[j]).slot != slot by {
            assert(d[j] == y[j]);
        }
        assert(y.last() == y[y.len() - 1]);
        lemma_of_slot_none(d, slot);
    }
}

proof fn lemma_of_slot_update_other(p: Seq<OutMsg>, c: int, msg: OutMsg, slot: u8)
    requires
        0 <= c < p.len(),
        p[c].slot != slot,
        msg.slot != slot,
    ensures
        of_slot(p.update(c, msg), slot) == of_slot(p, slot),
    decreases p.len(),
{
    let u = p.update(c, msg);
    if c == p.len() - 1 {
        assert(u.drop_last() =~= p.drop_last());
    } else {
        assert(u.drop_last() =~= p.drop_last().update(c, msg));
        assert(u.last() == p.last());
        lemma_of_slot_update_other(p.drop_last(), c, msg, slot);
    }
}

/// Leaving out the last of `a` keeps it a subsequence.
proof fn lemma_subsequence_drop_last(a: Seq<OutMsg>, b: Seq<OutMsg>)
    requires
        a.len() > 0,
        subsequence(a, b),
    ensures
        subsequence(a.drop_last(), b),
    decreases b.len(), 1int,
{
    if b.len() > 0 {
        if a.last() == b.last() {
            lemma_subsequence_weaken(a.drop_last(), b);
        } else {
            lemma_subsequence_drop_last(a, b.drop_last());
            lemma_subsequence_weaken(a.drop_last(), b);
        }
    }
}

/// A subsequence of `b` without its last message is a subsequence of `b`.
proof fn lemma_subsequence_weaken(a: Seq<OutMsg>, b: Seq<OutMsg>)
    requires
        b.len() > 0,
        subsequence(a, b.drop_last()),
    ensures
        subsequence(a, b),
    decreases b.len(), 0int,
{
    if a.len() > 0 && a.last() == b.last() {
        lemma_subsequence_drop_last(a, b.drop_last());
    }
}

/// Coalescing keeps each slot in order: after one more state is queued and
/// the channel takes any prefix of the queue, what was delivered followed by
/// what waits is still, slot by slot, what the engine produced with some
/// states left out and none reordered or invented.
pub proof fn law_coalescing_keeps_each_slot_in_order(
    produced: Seq<OutMsg>,
    delivered: Seq<OutMsg>,
    pending: Seq<OutMsg>,
    msg: OutMsg,
    k: int,
)
    requires
        one_per_slot(pending),
        in_order(produced, delivered, pending),
        0 <= k <= queued(pending, msg).len(),
    ensures
        in_order(produced.push(msg), delivered + queued(pending, msg).take(k), queued(pending, msg).skip(k)),
{
    let q = queued(pending, msg);
    let after = produced.push(msg);
    law_newest_state_wins(pending, msg);
    assert(delivered + q.take(k) + q.skip(k) =~= delivered + q);
    assert(after.drop_last() =~= produced);
    assert forall|slot: u8| #[trigger] subsequence(of_slot(delivered + q, slot), of_slot(after, slot)) by {
        lemma_of_slot_concat(delivered, q, slot);
        lemma_of_slot_concat(delivered, pending, slot);
        let before = of_slot(delivered + pending, slot);
        assert(subsequence(before, of_slot(produced, slot)));
        if slot == msg.slot {
            let i = choose|i: int| 0 <= i < q.len() && q[i] == msg;
            assert forall|j: int| 0 <= j < q.len() && j != i implies (#[trigger] q[j]).slot != slot by {
                assert(q[i].slot != q[j].slot);
            }
            lemma_of_slot_only_entry(q, slot, i);
            let d = of_slot(delivered, slot);
            assert(of_slot(after, slot) == of_slot(produced, slot).push(msg));
            // What was delivered for the slot is a subsequence of what was
            // produced, whether or not an older state waited behind it.
            if has_slot(pending, slot) {
                let c = choose|c: int| 0 <= c < pending.len() && #[trigger] pending[c].slot == slot;
                assert forall|j: int| 0 <= j < pending.len() && j != c implies (#[trigger] pending[j]).slot
                    != slot by {
                    assert(pending[c].slot != pending[j].slot);
                }
                lemma_of_slot_only_entry(pending, slot, c);
                assert(before == d.push(pending[c]));
                assert(before.drop_last() =~= d);
                lemma_subsequence_drop_last(before, of_slot(produced, slot));
            } else {
                assert forall|j: int| 0 <= j < pending.len() implies (#[trigger] pending[j]).slot != slot by {
                    if pending[j].slot == slot {
                        assert(has_slot(pending, slot));
                    }
                }
                lemma_of_slot_none(pending, slot);
                assert(before =~= d);
            }
            let now = d + seq![msg];
            assert(of_slot(delivered + q, slot) == now);
            assert(now.last() == msg);
            assert(now.drop_last() =~= d);
            assert(of_slot(after, slot).drop_last() =~= of_slot(produced, slot));
        } else {
            assert(of_slot(after, slot) == of_slot(produced, slot));
            if has_slot(pending, msg.slot) {
                let c = choose|c: int| 0 <= c < pending.len() && #[trigger] pending[c].slot == msg.slot;
                lemma_of_slot_update_other(pending, c, msg, slot);
            } else {
                assert(pending.push(msg).drop_last() =~= pending);
            }
        }
    }
}

/// A flush keeps each slot in order: it only moves a prefix of the queue to
/// the delivered side.
pub proof fn law_a_flush_keeps_each_slot_in_order(
    produced: Seq<OutMsg>,
    delivered: Seq<OutMsg>,
    pending: Seq<OutMsg>,
    k: int,
)
    requires
        in_order(produced, delivered, pending),
        0 <= k <= pending.len(),
    ensures
        in_order(produced, delivered + pending.take(k), pending.skip(k)),
{
    assert(delivered + pending.take(k) + pending.skip(k) =~= delivered + pending);
}

/// The system timer resolution is raised while a macro is playing back and
/// put straight back afterwards; the raise and the restore come in matched
/// pairs.
pub struct TimerResolution {
    raised: bool,
}

impl TimerResolution {
    pub closed spec fn is_raised(&self) -> bool {
        self.raised
    }

    pub fn new() -> (t: TimerResolution)
        ensures
            !t.is_raised(),
    {
        TimerResolution { raised: false }
    }

    /// `wanted` is "a macro is armed right now". Returns the system call now
    /// due: `Some(true)` to raise, `Some(false)` to restore, `None` when the
    /// resolution is already as wanted.
    pub fn set(&mut self, wanted: bool) -> (call: Option<bool>)
        ensures
            final(self).is_raised() == wanted,
            call == if wanted == old(self).is_raised() {
                None
            } else {
                Some(wanted)
            },
    {
        if wanted == self.raised {
            return None;
        }
        self.raised = wanted;
        Some(wanted)
    }
}

/// The capture thread's escape counters.
#[derive(Clone, Copy, Debug, Default, PartialEq, Eq, Structural)]
pub struct EscapeStatus {
    /// `LeftCtrl ×5`: keyboard capture toggled.
    pub toggles: u64,
    /// `Ctrl+Alt+Del`: emergency stop.
    pub stops: u64,
    /// `RightCtrl ×5`: reserved for mouse capture.
    pub mouse_escapes: u64,
}

/// What mirroring the escape counters found.
#[derive(Clone, Debug, PartialEq, Eq)]
pub struct Mirrored {
    /// A new `RightCtrl ×5` was seen (logged and ignored).
    pub mouse_escape: bool,
    /// The blocking state after each toggle, in order.
    pub flips: Vec<bool>,
}

/// Toggles the capture thread made that the supervisor has not seen yet.
pub open spec fn unseen_toggles(status: EscapeStatus, seen: EscapeStatus) -> int {
    if status.toggles > seen.toggles {
        status.toggles - seen.toggles
    } else {
        0
    }
}

/// Mirror the capture thread's escape counters into the supervisor's own
/// state: count the toggles and flip `blocking` once per toggle. The capture
/// thread has already acted; this is bookkeeping.
pub fn mirror_escapes(
    status: &EscapeStatus,
    seen: &mut EscapeStatus,
    blocking: &mut bool,
    toggles: &mut u32,
) -> (m: Mirrored)
    requires
        *old(toggles) + unseen_toggles(*status, *old(seen)) <= u32::MAX,
    ensures
        m.mouse_escape == (status.mouse_escapes > old(seen).mouse_escapes),
        final(seen).mouse_escapes == if m.mouse_escape {
            status.mouse_escapes
        } else {
            old(seen).mouse_escapes
        },
        final(seen).toggles == old(seen).toggles + unseen_toggles(*status, *old(seen)),
        final(seen).stops == old(seen).stops,
        *final(toggles) == *old(toggles) + unseen_toggles(*status, *old(seen)),
        m.flips@.len() == unseen_toggles(*status, *old(seen)),
        forall|k: int| 0 <= k < m.flips@.len() ==> #[trigger] m.flips@[k] == (*old(blocking) == (k % 2 == 1)),
        *final(blocking) == (*old(blocking) == (unseen_toggles(*status, *old(seen)) % 2 == 0)),
{
    let mouse_escape = status.mouse_escapes > seen.mouse_escapes;
    if mouse_escape {
        seen.mouse_escapes = status.mouse_escapes;
    }
    let mut flips: Vec<bool> = Vec::new();
    let ghost start = seen.toggles;
    while seen.toggles < status.toggles
        invariant
            start == old(seen).toggles,
            start <= seen.toggles,
            seen.toggles <= status.toggles || seen.toggles == start,
            seen.stops == old(seen).stops,
            seen.mouse_escapes == if mouse_escape {
                status.mouse_escapes
            } else {
                old(seen).mouse_escapes
            },
            flips@.len() == seen.toggles - start,
            *toggles == *old(toggles) + (seen.toggles - start),
            *old(toggles) + unseen_toggles(*status, *old(seen)) <= u32::MAX,
            forall|k: int| 0 <= k < flips@.len() ==> #[trigger] flips@[k] == (*old(blocking) == (k % 2 == 1)),
            *blocking == (*old(blocking) == ((seen.toggles - start) % 2 == 0)),
        decreases status.toggles - seen.toggles,
    {
        seen.toggles = seen.toggles + 1;
        *blocking = !*blocking;
        *toggles = *toggles + 1;
        flips.push(*blocking);
    }
    Mirrored { mouse_escape, flips }
}

/// The stop a Ctrl+C latch or the capture health calls for, in that order.
/// A tripped watchdog means keystrokes already reach Windows again; the
/// session still ends.
pub fn health_stop(ctrl_c: bool, health: &SessionHealth) -> (r: Option<StopReason>)
    ensures
        r == if ctrl_c {
            Some(StopReason::CtrlC)
        } else if health.panicked {
            Some(StopReason::CapturePanicked)
        } else if health.watchdog_tripped {
            Some(StopReason::WatchdogTripped)
        } else {
            None::<StopReason>
        },
{
    if ctrl_c {
        Some(StopReason::CtrlC)
    } else if health.panicked {
        Some(StopReason::CapturePanicked)
    } else if health.watchdog_tripped {
        Some(StopReason::WatchdogTripped)
    } else {
        None
    }
}

/// A new `Ctrl+Alt+Del` is an emergency stop; it is marked seen.
pub fn escape_stop(status: &EscapeStatus, seen: &mut EscapeStatus) -> (r: Option<StopReason>)
    ensures
        (r is Some) == (status.stops > old(seen).stops),
        r is Some ==> r->0 == StopReason::EmergencyStop && *final(seen) == (EscapeStatus {
            stops: status.stops,
            ..*old(seen)
        }),
        r is None ==> *final(seen) == *old(seen),
{
    if status.stops > seen.stops {
        seen.stops = status.stops;
        Some(StopReason::EmergencyStop)
    } else {
        None
    }
}

/// A dead worker is always fatal: nothing else can guarantee the keyboards
/// get released.
pub fn worker_stop(capture_finished: bool, engine_finished: bool, output_finished: bool) -> (r: Option<
    StopReason,
>)
    ensures
        r == if capture_finished {
            Some(StopReason::CaptureEnded("thread exited"))
        } else if engine_finished {
            Some(StopReason::EngineThreadDied)
        } else if output_finished {
            Some(StopReason::OutputThreadDied)
        } else {
            None::<StopReason>
        },
{
    if capture_finished {
        Some(StopReason::CaptureEnded("thread exited"))
    } else if engine_finished {
        Some(StopReason::EngineThreadDied)
    } else if output_finished {
        Some(StopReason::OutputThreadDied)
    } else {
        None
    }
}

/// What the workers tell the supervisor, or that nothing came in time.
#[derive(Clone, Debug, PartialEq, Eq)]
pub enum WorkerMsg {
    PadsReady(Vec<PadInfo>),
    PlugFailed { message: String, bus_missing: bool },
    EventLimitReached,
    OutputError(String),
    Latency(LatencySummary),
    /// Nothing arrived within the poll.
    Timeout,
    /// Every worker's sender is gone.
    Disconnected,
}

/// The stop a worker's message calls for once the session is running.
pub fn message_stop(msg: WorkerMsg) -> (r: Option<StopReason>)
    ensures
        match msg {
            WorkerMsg::EventLimitReached => r == Some(StopReason::EventLimit),
            WorkerMsg::OutputError(e) => r == Some(StopReason::OutputError(e)),
            WorkerMsg::Disconnected => r == Some(StopReason::EngineThreadDied),
            _ => r is None,
        },
{
    match msg {
        WorkerMsg::EventLimitReached => Some(StopReason::EventLimit),
        WorkerMsg::OutputError(e) => Some(StopReason::OutputError(e)),
        WorkerMsg::Disconnected => Some(StopReason::EngineThreadDied),
        _ => None,
    }
}

/// The stop one poll of a running session calls for, the first of its
/// sources to call for one winning, in the order the loop looks: Ctrl+C and
/// the capture's health first (a driver problem outranks everything), then a
/// new emergency stop, then the session hook, then a dead worker, then what
/// a worker reported.
pub open spec fn first_stop(
    ctrl_c: bool,
    health: SessionHealth,
    new_emergency: bool,
    hook: Option<HookStop>,
    capture_finished: bool,
    engine_finished: bool,
    output_finished: bool,
    msg: WorkerMsg,
) -> Option<StopReason> {
    if ctrl_c {
        Some(StopReason::CtrlC)
    } else if health.panicked {
        Some(StopReason::CapturePanicked)
    } else if health.watchdog_tripped {
        Some(StopReason::WatchdogTripped)
    } else if new_emergency {
        Some(StopReason::EmergencyStop)
    } else if hook is Some {
        Some(hook_stop_reason(hook->0))
    } else if capture_finished {
        Some(StopReason::CaptureEnded("thread exited"))
    } else if engine_finished {
        Some(StopReason::EngineThreadDied)
    } else if output_finished {
        Some(StopReason::OutputThreadDied)
    } else {
        match msg {
            WorkerMsg::EventLimitReached => Some(StopReason::EventLimit),
            WorkerMsg::OutputError(e) => Some(StopReason::OutputError(e)),
            WorkerMsg::Disconnected => Some(StopReason::EngineThreadDied),
            _ => None,
        }
    }
}

/// One poll's stop decision (see `first_stop`): `new_emergency` is whether
/// the emergency-stop counter moved past what was seen.
pub fn next_stop(
    ctrl_c: bool,
    health: &SessionHealth,
    new_emergency: bool,
    hook: Option<HookStop>,
    capture_finished: bool,
    engine_finished: bool,
    output_finished: bool,
    msg: WorkerMsg,
) -> (r: Option<StopReason>)
    ensures
        r == first_stop(
            ctrl_c,
            *health,
            new_emergency,
            hook,
            capture_finished,
            engine_finished,
            output_finished,
            msg,
        ),
{
    match health_stop(ctrl_c, health) {
        Some(stop) => {
            return Some(stop);
        },
        None => {},
    }
    if new_emergency {
        return Some(StopReason::EmergencyStop);
    }
    match hook {
        Some(h) => {
            let r = StopReason::from(h);
            return Some(r);
        },
        None => {},
    }
    match worker_stop(capture_finished, engine_finished, output_finished) {
        Some(stop) => {
            return Some(stop);
        },
        None => {},
    }
    message_stop(msg)
}

/// One step of waiting for the pads to plug.
#[derive(Clone, Debug, PartialEq, Eq)]
pub enum PadWait {
    /// Keep waiting.
    Wait,
    Ready(Vec<PadInfo>),
    Failed(StopReason),
}

pub open spec fn output_ended_text() -> Seq<char> {
    "the output thread ended before any pad was plugged"@
}

/// Decide one step of the wait for the pads: the deadline first, then a dead
/// output thread (which would never send anything), then the message.
/// `deadline` is the configured wait as the report spells it.
pub fn pads_wait_step(timed_out: bool, deadline: &str, output_finished: bool, msg: WorkerMsg) -> (w: PadWait)
    ensures
        timed_out ==> w == PadWait::Failed(StopReason::PlugFailed {
            message: w->Failed_0->message,
            bus_missing: false,
        }) && w->Failed_0->message@ == "timed out after "@ + deadline@
            + " waiting for the pads to plug"@,
        !timed_out && output_finished ==> w is Failed && w->Failed_0 is PlugFailed
            && w->Failed_0->message@ == output_ended_text() && !w->Failed_0->bus_missing,
        !timed_out && !output_finished ==> match msg {
            WorkerMsg::PadsReady(infos) => w == PadWait::Ready(infos),
            WorkerMsg::PlugFailed { message, bus_missing } => w == PadWait::Failed(
                StopReason::PlugFailed { message, bus_missing },
            ),
            WorkerMsg::Disconnected => w is Failed && w->Failed_0 is PlugFailed
                && w->Failed_0->message@ == output_ended_text() && !w->Failed_0->bus_missing,
            _ => w is Wait,
        },
{
    if timed_out {
        let mut message = "timed out after ".to_owned();
        message.append(deadline);
        message.append(" waiting for the pads to plug");
        return PadWait::Failed(StopReason::PlugFailed { message, bus_missing: false });
    }
    if output_finished {
        return PadWait::Failed(
            StopReason::PlugFailed {
                message: "the output thread ended before any pad was plugged".to_owned(),
                bus_missing: false,
            },
        );
    }
    match msg {
        WorkerMsg::PadsReady(infos) => PadWait::Ready(infos),
        WorkerMsg::PlugFailed { message, bus_missing } => PadWait::Failed(
            StopReason::PlugFailed { message, bus_missing },
        ),
        WorkerMsg::Disconnected => PadWait::Failed(
            StopReason::PlugFailed {
                message: "the output thread ended before any pad was plugged".to_owned(),
                bus_missing: false,
            },
        ),
        _ => PadWait::Wait,
    }
}

/// What the capture thread is told about blocking.
#[derive(Clone, Debug, PartialEq, Eq)]
pub enum CaptureOrder {
    /// Every keystroke reaches Windows.
    Passthrough,
    /// Take these keyboards whole.
    Whole(Vec<String>),
    /// Take, on each of these keyboards, only the keys its slots bind.
    PerKey(Vec<String>),
}

/// The capture order for the blocking latch and the keyboards present now
/// (`per_key` is the plan's bound-keys mode). Nothing is ever captured when
/// blocking is off or no keyboard is present.
pub fn capture_order(blocking: bool, present: &Vec<String>, per_key: bool) -> (o: CaptureOrder)
    ensures
        !blocking || present@.len() == 0 ==> o is Passthrough,
        blocking && present@.len() > 0 && !per_key ==> (o matches CaptureOrder::Whole(ids) && ids@
            == present@),
        blocking && present@.len() > 0 && per_key ==> (o matches CaptureOrder::PerKey(ids) && ids@
            == present@),
{
    if blocking && present.len() > 0 {
        let ids = copy_strings(present);
        if per_key {
            CaptureOrder::PerKey(ids)
        } else {
            CaptureOrder::Whole(ids)
        }
    } else {
        CaptureOrder::Passthrough
    }
}

/// The output thread's bookkeeping between driver calls: once a pad update
/// or the backend's service call fails, the supervisor is told and the
/// driver is never touched again (teardown must uncapture before anything
/// unplugs); deltas keep being drained so nothing upstream blocks.
pub struct OutputState {
    pub failed: bool,
    /// Pad updates the driver accepted.
    pub updates: u64,
}

/// The stamp a synthetic release (a device unplugged) carries: there is no
/// capture moment to measure its latency from.
pub const SYNTHETIC_RELEASE: u64 = 0xffff_ffff_ffff_ffff;

/// What to do with one driver answer.
#[derive(Clone, Copy, Debug, PartialEq, Eq, Structural)]
pub struct Answered {
    /// Record this update's latency.
    pub record_latency: bool,
    /// Tell the supervisor the output failed.
    pub report_failure: bool,
}

impl OutputState {
    pub fn new() -> (o: OutputState)
        ensures
            !o.failed,
            o.updates == 0,
    {
        OutputState { failed: false, updates: 0 }
    }

    /// Which plugged pad (by its index in `slots`) a delta for `slot` goes
    /// to: the first pad of that slot, and none at all once the output has
    /// failed.
    pub fn target(&self, slots: &Vec<u8>, slot: u8) -> (t: Option<usize>)
        ensures
            self.failed ==> t is None,
            !self.failed ==> match t {
                Some(i) => i < slots@.len() && slots@[i as int] == slot && forall|j: int|
                    0 <= j < i ==> slots@[j] != slot,
                None => forall|j: int| 0 <= j < slots@.len() ==> slots@[j] != slot,
            },
    {
        if self.failed {
            return None;
        }
        let mut i: usize = 0;
        while i < slots.len()
            invariant
                !self.failed,
                i <= slots@.len(),
                forall|j: int| 0 <= j < i ==> slots@[j] != slot,
            decreases slots.len() - i,
        {
            if slots[i] == slot {
                return Some(i);
            }
            i = i + 1;
        }
        None
    }

    /// The driver answered a pad update: an accepted one is counted, with its
    /// latency recorded unless it is a synthetic release; a refused one
    /// latches the failure and is reported.
    pub fn updated(&mut self, accepted: bool, t_capture: u64) -> (a: Answered)
        requires
            old(self).updates < u64::MAX,
        ensures
            accepted ==> final(self).updates == old(self).updates + 1 && final(self).failed == old(self).failed
                && a == (Answered { record_latency: t_capture != SYNTHETIC_RELEASE, report_failure: false }),
            !accepted ==> final(self).updates == old(self).updates && final(self).failed && a == (Answered {
                record_latency: false,
                report_failure: true,
            }),
    {
        if accepted {
            self.updates = self.updates + 1;
            Answered { record_latency: t_capture != SYNTHETIC_RELEASE, report_failure: false }
        } else {
            self.failed = true;
            Answered { record_latency: false, report_failure: true }
        }
    }

    /// The backend's periodic service call is made only while the output is
    /// healthy; a failure latches and is reported once. Returns whether to
    /// report.
    pub fn serviced(&mut self, ok: bool) -> (report: bool)
        requires
            !old(self).failed,
        ensures
            final(self).updates == old(self).updates,
            final(self).failed == !ok,
            report == !ok,
    {
        if !ok {
            self.failed = true;
        }
        !ok
    }
}

/// The supervisor's and the threads' poll interval, in milliseconds.
pub const POLL_MS: u64 = 50;

/// How long the engine thread may wait for input before looking again:
/// promptly (1 ms) while a stalled flush waits, the poll interval otherwise,
/// and never past the next macro step (`deadline`, on the same millisecond
/// clock as `now`).
pub fn engine_idle_ms(has_pending: bool, deadline: Option<u64>, now: u64) -> (ms: u64)
    ensures
        ms == ({
            let base: int = if has_pending {
                1
            } else {
                POLL_MS as int
            };
            match deadline {
                Some(d) => if d <= now {
                    0
                } else if d - now < base {
                    d - now
                } else {
                    base
                },
                None => base,
            }
        }),
{
    let base: u64 = if has_pending {
        1
    } else {
        POLL_MS
    };
    match deadline {
        Some(d) => {
            let left = d.saturating_sub(now);
            if left < base {
                left
            } else {
                base
            }
        },
        None => base,
    }
}

/// The configured event limit is signalled once, on the event that reaches
/// it.
pub fn event_limit_due(seen: u64, max_events: Option<u64>, signalled: bool) -> (due: bool)
    ensures
        due == (!signalled && max_events is Some && seen >= max_events->0),
{
    match max_events {
        Some(n) => !signalled && seen >= n,
        None => false,
    }
}

/// What the engine thread reports as it ends: the events it saw, the states
/// it coalesced, and every state that never reached a pad (dropped, or still
/// queued).
#[derive(Clone, Copy, Debug, PartialEq, Eq, Structural)]
pub struct EngineOutcome {
    pub events: u64,
    pub coalesced: u64,
    pub dropped: u64,
}

impl DeltaTx {
    /// The counts the engine thread ends with, after `events` events.
    pub fn outcome(&self, events: u64) -> (o: EngineOutcome)
        requires
            self.spec_dropped() + self.spec_pending().len() <= u64::MAX,
        ensures
            o.events == events,
            o.coalesced == self.spec_coalesced(),
            o.dropped == self.spec_dropped() + self.spec_pending().len(),
    {
        EngineOutcome { events, coalesced: self.coalesced, dropped: self.dropped + self.pending.len() as u64 }
    }
}


/// What a session carries alongside its pipeline: something started once the
/// pads are plugged, capture is running and blocking is applied, polled on
/// every supervisor tick, and finished on every path out. Lines a hook wants
/// shown are pushed onto `out`; the caller prints them. Every method has a
/// do-nothing default, so a session without one behaves as if it had none.
pub trait SessionHook {
    /// Called once, after the pads are up. `Err` ends the session with
    /// [`HookStop::LaunchFailed`].
    fn started(&mut self, out: &mut Vec<String>) -> (r: Result<(), String>)
        default_ensures
            r is Ok,
            final(out)@ == old(out)@,
    {
        Ok(())
    }

    /// Called on every poll. `Some` ends the session.
    fn poll(&mut self, out: &mut Vec<String>) -> (r: Option<HookStop>)
        default_ensures
            r is None,
            final(out)@ == old(out)@,
    {
        None
    }

    /// Called exactly once during teardown, on every path out.
    fn finished(&mut self, out: &mut Vec<String>)
        default_ensures
            final(out)@ == old(out)@,
    {
    }

    /// One line for `--json` and the tray tooltip; `None` when there is
    /// nothing to say.
    fn status_line(&self) -> (r: Option<String>)
        default_ensures
            r is None,
    {
        None
    }
}

/// The default: a session with nothing hanging off it.
pub struct NoHook;

impl SessionHook for NoHook {}

} // verus!
