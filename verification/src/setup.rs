//! `ksx setup` — the first-contact wizard: a fresh machine to a working panel
//! without hand-writing a line of TOML.
//!
//! The panel is identified by a PRESS, then walked through position-named
//! prompts (essentials first). Each press auto-advances; a key already used by
//! this run is refused inline with the control that holds it named; a silent
//! prompt skips its control, and two silent prompts in a row end the run and
//! skip the rest. `Escape` cancels. Nothing is written until the review screen
//! is confirmed: [`Wizard::preset`] assembles what would be written, fresh from
//! the decisions, every time it is asked.

use vstd::prelude::*;

use crate::text::{decimal, push_decimal, str_eq};

verus! {

/// Refused — nothing was written.
pub const EXIT_REFUSED: i32 = 2;

/// How long each prompt listens before the control is skipped.
pub const DEFAULT_STEP_SECS: u64 = 6;

/// How long the "hold a key on the panel" identify prompt listens.
pub const IDENTIFY_SECS: u64 = 20;

/// Consecutive silent prompts that end the run early: one is "I have no
/// button for that", two is "I am done".
pub const IDLE_STREAK_TO_FINISH: usize = 2;

/// The USB HID keyboard usage of `Escape`, the one reserved key.
pub const ESCAPE_USAGE: u16 = 0x29;

/// Full deflection of a stick axis, either way.
pub const AXIS_MAX: i16 = 32767;
pub const AXIS_MIN: i16 = -32768;

/// A key, by the USB HID keyboard usage the board reports for it.
#[derive(Clone, Copy, Debug, PartialEq, Eq, Structural, Hash)]
pub struct Key(pub u16);

impl Key {
    /// `Escape`.
    pub fn escape() -> (k: Key)
        ensures
            k.0 == ESCAPE_USAGE,
    {
        Key(ESCAPE_USAGE)
    }
}

#[derive(Clone, Copy, Debug, PartialEq, Eq, Structural)]
pub enum DpadDirection {
    Up,
    Down,
    Left,
    Right,
}

#[derive(Clone, Copy, Debug, PartialEq, Eq, Structural)]
pub enum Axis {
    X,
    Y,
    Rx,
    Ry,
}

#[derive(Clone, Copy, Debug, PartialEq, Eq, Structural)]
pub enum XButton {
    A,
    B,
    X,
    Y,
    Start,
    Back,
    LeftBumper,
    RightBumper,
    Guide,
    LeftThumb,
    RightThumb,
}

#[derive(Clone, Copy, Debug, PartialEq, Eq, Structural)]
pub enum Trigger {
    Left,
    Right,
}

/// One pad output a key can drive.
#[derive(Clone, Copy, Debug, PartialEq, Eq, Structural)]
pub enum Binding {
    Button(XButton),
    Dpad(DpadDirection),
    Axis { axis: Axis, value: i16 },
    Trigger(Trigger),
}

/// One prompt: what the human is asked, and what the press binds.
#[derive(Clone, Copy, Debug)]
pub struct Step {
    /// Stable id — `--json`, and what the audit keys off.
    pub id: &'static str,
    /// POSITION-NAMED prompt.
    pub prompt: &'static str,
    /// The plain-language gloss printed under the prompt.
    pub hint: &'static str,
    /// Everything one press binds. A stick direction binds the hat AND the axis.
    pub bindings: &'static [Binding],
    /// Does the completeness audit care about this one?
    pub essential: bool,
}

/// The ids of the prompt table, in prompt order.
pub open spec fn step_ids() -> Seq<Seq<char>> {
    seq![
        "up"@, "down"@, "left"@, "right"@, "south"@, "east"@, "west"@, "north"@, "start"@,
        "back"@, "shoulder-left"@, "shoulder-right"@, "trigger-left"@, "trigger-right"@,
        "guide"@, "thumb-left"@, "thumb-right"@, "rstick-up"@, "rstick-down"@, "rstick-left"@,
        "rstick-right"@,
    ]
}

/// What each prompt binds, in prompt order. A stick direction binds the hat
/// and the axis.
pub open spec fn step_bindings() -> Seq<Seq<Binding>> {
    seq![
        seq![Binding::Dpad(DpadDirection::Up), Binding::Axis { axis: Axis::Y, value: AXIS_MAX }],
        seq![Binding::Dpad(DpadDirection::Down), Binding::Axis { axis: Axis::Y, value: AXIS_MIN }],
        seq![Binding::Dpad(DpadDirection::Left), Binding::Axis { axis: Axis::X, value: AXIS_MIN }],
        seq![Binding::Dpad(DpadDirection::Right), Binding::Axis { axis: Axis::X, value: AXIS_MAX }],
        seq![Binding::Button(XButton::A)],
        seq![Binding::Button(XButton::B)],
        seq![Binding::Button(XButton::X)],
        seq![Binding::Button(XButton::Y)],
        seq![Binding::Button(XButton::Start)],
        seq![Binding::Button(XButton::Back)],
        seq![Binding::Button(XButton::LeftBumper)],
        seq![Binding::Button(XButton::RightBumper)],
        seq![Binding::Trigger(Trigger::Left)],
        seq![Binding::Trigger(Trigger::Right)],
        seq![Binding::Button(XButton::Guide)],
        seq![Binding::Button(XButton::LeftThumb)],
        seq![Binding::Button(XButton::RightThumb)],
        seq![Binding::Axis { axis: Axis::Ry, value: AXIS_MAX }],
        seq![Binding::Axis { axis: Axis::Ry, value: AXIS_MIN }],
        seq![Binding::Axis { axis: Axis::Rx, value: AXIS_MIN }],
        seq![Binding::Axis { axis: Axis::Rx, value: AXIS_MAX }],
    ]
}

/// The run, in order: stick, faces, shoulders, triggers, system, thumbs, right
/// stick. Essentials first, so a run abandoned halfway is still a usable panel.
pub fn steps() -> (r: &'static [Step])
    ensures
        r@.len() == 21,
        forall|i: int| 0 <= i < 21 ==> #[trigger] r@[i].id@ == step_ids()[i],
        forall|i: int| 0 <= i < 21 ==> (#[trigger] r@[i].essential <==> i < 10),
        forall|i: int| 0 <= i < 21 ==> #[trigger] r@[i].bindings@ == step_bindings()[i],
{
    let r: &'static [Step] = &[
        Step {
            id: "up",
            prompt: "UP",
            hint: "push the stick up (binds the D-pad and the left stick)",
            bindings: &[Binding::Dpad(DpadDirection::Up), Binding::Axis { axis: Axis::Y, value: AXIS_MAX }],
            essential: true,
        },
        Step {
            id: "down",
            prompt: "DOWN",
            hint: "pull the stick down",
            bindings: &[Binding::Dpad(DpadDirection::Down), Binding::Axis { axis: Axis::Y, value: AXIS_MIN }],
            essential: true,
        },
        Step {
            id: "left",
            prompt: "LEFT",
            hint: "push the stick left",
            bindings: &[Binding::Dpad(DpadDirection::Left), Binding::Axis { axis: Axis::X, value: AXIS_MIN }],
            essential: true,
        },
        Step {
            id: "right",
            prompt: "RIGHT",
            hint: "push the stick right",
            bindings: &[Binding::Dpad(DpadDirection::Right), Binding::Axis { axis: Axis::X, value: AXIS_MAX }],
            essential: true,
        },
        Step {
            id: "south",
            prompt: "SOUTH",
            hint: "the BOTTOM face button (A on an Xbox pad, cross on a PlayStation one)",
            bindings: &[Binding::Button(XButton::A)],
            essential: true,
        },
        Step {
            id: "east",
            prompt: "EAST",
            hint: "the RIGHT face button (B / circle)",
            bindings: &[Binding::Button(XButton::B)],
            essential: true,
        },
        Step {
            id: "west",
            prompt: "WEST",
            hint: "the LEFT face button (X / square)",
            bindings: &[Binding::Button(XButton::X)],
            essential: true,
        },
        Step {
            id: "north",
            prompt: "NORTH",
            hint: "the TOP face button (Y / triangle)",
            bindings: &[Binding::Button(XButton::Y)],
            essential: true,
        },
        Step {
            id: "start",
            prompt: "START",
            hint: "the START button — on a cabinet this is how a game is left",
            bindings: &[Binding::Button(XButton::Start)],
            essential: true,
        },
        Step {
            id: "back",
            prompt: "BACK / SELECT",
            hint: "the COIN or SELECT button — the cabinet's other exit key",
            bindings: &[Binding::Button(XButton::Back)],
            essential: true,
        },
        Step {
            id: "shoulder-left",
            prompt: "LEFT SHOULDER",
            hint: "LB — button 7 on a six-button panel, if it has one",
            bindings: &[Binding::Button(XButton::LeftBumper)],
            essential: false,
        },
        Step {
            id: "shoulder-right",
            prompt: "RIGHT SHOULDER",
            hint: "RB — often the heavy punch on a fighting panel",
            bindings: &[Binding::Button(XButton::RightBumper)],
            essential: false,
        },
        Step {
            id: "trigger-left",
            prompt: "LEFT TRIGGER",
            hint: "LT",
            bindings: &[Binding::Trigger(Trigger::Left)],
            essential: false,
        },
        Step {
            id: "trigger-right",
            prompt: "RIGHT TRIGGER",
            hint: "RT — often the heavy kick on a fighting panel",
            bindings: &[Binding::Trigger(Trigger::Right)],
            essential: false,
        },
        Step {
            id: "guide",
            prompt: "GUIDE",
            hint: "the big centre button, if your panel has a spare one",
            bindings: &[Binding::Button(XButton::Guide)],
            essential: false,
        },
        Step {
            id: "thumb-left",
            prompt: "LEFT STICK CLICK",
            hint: "L3",
            bindings: &[Binding::Button(XButton::LeftThumb)],
            essential: false,
        },
        Step {
            id: "thumb-right",
            prompt: "RIGHT STICK CLICK",
            hint: "R3",
            bindings: &[Binding::Button(XButton::RightThumb)],
            essential: false,
        },
        Step {
            id: "rstick-up",
            prompt: "RIGHT STICK UP",
            hint: "a second stick, if the panel has one — skip on an arcade panel",
            bindings: &[Binding::Axis { axis: Axis::Ry, value: AXIS_MAX }],
            essential: false,
        },
        Step {
            id: "rstick-down",
            prompt: "RIGHT STICK DOWN",
            hint: "",
            bindings: &[Binding::Axis { axis: Axis::Ry, value: AXIS_MIN }],
            essential: false,
        },
        Step {
            id: "rstick-left",
            prompt: "RIGHT STICK LEFT",
            hint: "",
            bindings: &[Binding::Axis { axis: Axis::Rx, value: AXIS_MIN }],
            essential: false,
        },
        Step {
            id: "rstick-right",
            prompt: "RIGHT STICK RIGHT",
            hint: "",
            bindings: &[Binding::Axis { axis: Axis::Rx, value: AXIS_MAX }],
            essential: false,
        },
    ];
    r
}

// ---------------------------------------------------------------------------
// The state machine (pure — this is what the tests drive)
// ---------------------------------------------------------------------------

/// What the observer heard, already classified.
#[derive(Clone, Debug, PartialEq, Eq)]
pub enum Input {
    /// A key came down on `device`.
    Press { device: String, key: Key },
    /// The prompt's countdown expired with nothing pressed.
    Timeout,
    /// `Escape`, or the console's Ctrl+C.
    Cancel,
    /// The observer itself failed (no Raw Input, a lost window).
    Failed(String),
}

/// Why a control ended up unbound.
#[derive(Clone, Copy, Debug, PartialEq, Eq, Structural)]
pub enum SkipReason {
    /// The countdown expired.
    Idle,
    /// The run ended early and this control was never asked.
    NotAsked,
}

/// Why a run stopped without reaching the review screen.
#[derive(Clone, Debug, PartialEq, Eq)]
pub enum CancelReason {
    /// Escape.
    User,
    /// Nothing ever pressed at the identify prompt.
    NoDevice,
    /// The observer broke.
    Failed(String),
}

/// What one [`Input`] did.
#[derive(Clone, Debug, PartialEq, Eq)]
pub enum Reaction {
    /// The panel answered; the control prompts start now.
    Identified { device: String },
    /// Still listening for the panel (a silent identify prompt).
    StillListening { attempts_left: usize },
    /// Bound and advanced.
    Bound { step: &'static str, key: Key },
    /// The key already drives another control in this run. The prompt does NOT advance.
    AlreadyTaken { key: Key, taken_by: &'static str },
    /// A press from a device other than the identified panel.
    OtherDevice { device: String },
    /// Skipped and advanced.
    Skipped { step: &'static str, reason: SkipReason },
    /// Two silent prompts in a row: everything left was skipped.
    FinishedEarly { skipped: usize },
    /// Every prompt has been answered or skipped — the review screen is next.
    Complete,
    /// The run is over and nothing will be written.
    Cancelled(CancelReason),
}

/// Where the run is.
#[derive(Clone, Debug, PartialEq, Eq)]
pub enum Phase {
    /// "Hold a key on the panel for player N."
    Identify,
    /// Walking the prompt table.
    Control,
    /// Everything asked; audit + confirm.
    Review,
    /// Over, nothing to write.
    Cancelled(CancelReason),
}

/// One control's outcome.
#[derive(Clone, Copy, Debug, PartialEq, Eq, Structural)]
pub enum Decision {
    Pending,
    Bound(Key),
    Skipped(SkipReason),
}

/// One slot's run. Holds everything in memory and writes nothing.
#[derive(Clone, Debug)]
pub struct Wizard {
    slot: u8,
    steps: &'static [Step],
    cursor: usize,
    device: Option<String>,
    decisions: Vec<Decision>,
    phase: Phase,
    idle_streak: usize,
    identify_attempts: usize,
}

/// The wizard as a value: its prompt table, where it stands, and what each
/// control was answered with.
pub struct WizardView {
    pub slot: u8,
    pub steps: Seq<Step>,
    pub cursor: nat,
    pub device: Option<String>,
    pub decisions: Seq<Decision>,
    pub phase: Phase,
    pub idle_streak: nat,
    pub identify_attempts: nat,
}

impl View for Wizard {
    type V = WizardView;

    closed spec fn view(&self) -> WizardView {
        WizardView {
            slot: self.slot,
            steps: self.steps@,
            cursor: self.cursor as nat,
            device: self.device,
            decisions: self.decisions@,
            phase: self.phase,
            idle_streak: self.idle_streak as nat,
            identify_attempts: self.identify_attempts as nat,
        }
    }
}

/// No key drives two controls of one run.
pub open spec fn keys_distinct(d: Seq<Decision>) -> bool {
    forall|i: int, j: int|
        #![trigger d[i], d[j]]
        0 <= i < d.len() && 0 <= j < d.len() && i != j && d[i] is Bound ==> d[i] != d[j]
}

impl WizardView {
    /// The run's invariant: every prompt before the cursor is answered, every
    /// one from it on is still pending, no key is bound twice, and the phase
    /// agrees with the cursor.
    pub open spec fn wf(self) -> bool {
        &&& self.decisions.len() == self.steps.len()
        &&& self.cursor <= self.steps.len()
        &&& self.steps.len() < usize::MAX
        &&& forall|i: int| 0 <= i < self.cursor ==> !(#[trigger] self.decisions[i] is Pending)
        &&& forall|i: int|
            self.cursor <= i < self.decisions.len() ==> #[trigger] self.decisions[i]
                == Decision::Pending
        &&& keys_distinct(self.decisions)
        &&& (self.phase is Review ==> self.cursor == self.steps.len())
        &&& (self.phase is Control ==> self.device is Some && self.idle_streak
            < IDLE_STREAK_TO_FINISH)
        &&& (self.phase is Control ==> self.cursor < self.steps.len() || self.steps.len() == 0)
        &&& (self.phase is Review ==> self.device is Some)
        &&& (self.phase is Identify ==> self.cursor == 0 && self.device is None
            && self.identify_attempts < IDLE_STREAK_TO_FINISH)
    }

    /// Move past the prompt on screen; past the last one is the review screen.
    pub open spec fn advanced(self) -> WizardView {
        if self.cursor + 1 >= self.steps.len() {
            WizardView { cursor: self.steps.len(), phase: Phase::Review, ..self }
        } else {
            WizardView { cursor: self.cursor + 1, ..self }
        }
    }

    /// Every prompt still pending becomes never-asked, and the run goes to review.
    pub open spec fn rest_skipped(self) -> WizardView {
        WizardView {
            decisions: Seq::new(
                self.decisions.len(),
                |i: int|
                    if self.cursor <= i {
                        Decision::Skipped(SkipReason::NotAsked)
                    } else {
                        self.decisions[i]
                    },
            ),
            cursor: self.steps.len(),
            phase: Phase::Review,
            ..self
        }
    }

    /// Is the identified panel the device `device` names?
    pub open spec fn is_panel(self, device: Seq<char>) -> bool {
        self.device is Some && self.device->0@ == device
    }

    /// The control already holding `key`, if any.
    pub open spec fn holder(self, key: Key) -> Option<int> {
        if exists|i: int| 0 <= i < self.decisions.len() && self.decisions[i] == Decision::Bound(key) {
            Some(choose|i: int| 0 <= i < self.decisions.len() && self.decisions[i] == Decision::Bound(key))
        } else {
            None
        }
    }

    pub open spec fn identify_step(self, input: Input) -> (WizardView, Reaction) {
        match input {
            Input::Press { device, .. } => (
                WizardView { device: Some(device), phase: Phase::Control, idle_streak: 0, ..self },
                Reaction::Identified { device },
            ),
            Input::Timeout => {
                let attempts = self.identify_attempts + 1;
                if attempts >= IDLE_STREAK_TO_FINISH {
                    (
                        WizardView {
                            identify_attempts: attempts,
                            phase: Phase::Cancelled(CancelReason::NoDevice),
                            ..self
                        },
                        Reaction::Cancelled(CancelReason::NoDevice),
                    )
                } else {
                    (
                        WizardView { identify_attempts: attempts, ..self },
                        Reaction::StillListening {
                            attempts_left: (IDLE_STREAK_TO_FINISH - attempts) as usize,
                        },
                    )
                }
            },
            _ => (self, Reaction::Complete),
        }
    }

    pub open spec fn control_step(self, input: Input) -> (WizardView, Reaction) {
        if self.cursor >= self.steps.len() {
            (WizardView { phase: Phase::Review, ..self }, Reaction::Complete)
        } else {
            let step = self.steps[self.cursor as int];
            match input {
                Input::Press { device, key } => {
                    if !self.is_panel(device@) {
                        (self, Reaction::OtherDevice { device })
                    } else if self.holder(key) is Some {
                        (
                            self,
                            Reaction::AlreadyTaken {
                                key,
                                taken_by: self.steps[self.holder(key)->0].id,
                            },
                        )
                    } else {
                        let bound = WizardView {
                            decisions: self.decisions.update(
                                self.cursor as int,
                                Decision::Bound(key),
                            ),
                            idle_streak: 0,
                            ..self
                        };
                        (bound.advanced(), Reaction::Bound { step: step.id, key })
                    }
                },
                Input::Timeout => {
                    let skipped = WizardView {
                        decisions: self.decisions.update(
                            self.cursor as int,
                            Decision::Skipped(SkipReason::Idle),
                        ),
                        idle_streak: self.idle_streak + 1,
                        ..self
                    };
                    let next = skipped.advanced();
                    if next.idle_streak >= IDLE_STREAK_TO_FINISH && next.phase is Control {
                        (
                            next.rest_skipped(),
                            Reaction::FinishedEarly {
                                skipped: (next.steps.len() - next.cursor) as usize,
                            },
                        )
                    } else {
                        (next, Reaction::Skipped { step: step.id, reason: SkipReason::Idle })
                    }
                },
                _ => (self, Reaction::Complete),
            }
        }
    }

    /// What feeding `input` does: the next state, and the reaction reported.
    pub open spec fn fed(self, input: Input) -> (WizardView, Reaction) {
        match input {
            Input::Failed(error) => (
                WizardView { phase: Phase::Cancelled(CancelReason::Failed(error)), ..self },
                Reaction::Cancelled(CancelReason::Failed(error)),
            ),
            Input::Cancel => (
                WizardView { phase: Phase::Cancelled(CancelReason::User), ..self },
                Reaction::Cancelled(CancelReason::User),
            ),
            _ => match self.phase {
                Phase::Identify => self.identify_step(input),
                Phase::Control => self.control_step(input),
                Phase::Review => (self, Reaction::Complete),
                Phase::Cancelled(reason) => (self, Reaction::Cancelled(reason)),
            },
        }
    }
}

fn copy_reason(reason: &CancelReason) -> (r: CancelReason)
    ensures
        r == *reason,
{
    match reason {
        CancelReason::User => CancelReason::User,
        CancelReason::NoDevice => CancelReason::NoDevice,
        CancelReason::Failed(error) => CancelReason::Failed(error.clone()),
    }
}

impl Wizard {
    pub fn new(slot: u8) -> (w: Self)
        ensures
            w@.wf(),
            w@.slot == slot,
            w@.steps.len() == 21,
            forall|i: int| 0 <= i < 21 ==> #[trigger] w@.steps[i].id@ == step_ids()[i],
            forall|i: int| 0 <= i < 21 ==> #[trigger] w@.steps[i].bindings@ == step_bindings()[i],
            forall|i: int| 0 <= i < 21 ==> (#[trigger] w@.steps[i].essential <==> i < 10),
            w@.phase == Phase::Identify,
            w@.device is None,
            w@.cursor == 0,
            w@.identify_attempts == 0,
    {
        Self::with_steps(slot, steps())
    }

    pub fn with_steps(slot: u8, steps: &'static [Step]) -> (w: Self)
        requires
            steps@.len() < usize::MAX,
        ensures
            w@.wf(),
            w@ == (WizardView {
                slot,
                steps: steps@,
                cursor: 0,
                device: None,
                decisions: Seq::new(steps@.len(), |i: int| Decision::Pending),
                phase: Phase::Identify,
                idle_streak: 0,
                identify_attempts: 0,
            }),
    {
        let mut decisions: Vec<Decision> = Vec::new();
        let n = steps.len();
        let mut i: usize = 0;
        while i < n
            invariant
                n == steps@.len(),
                i <= n,
                decisions@ =~= Seq::new(i as nat, |k: int| Decision::Pending),
            decreases n - i,
        {
            decisions.push(Decision::Pending);
            i = i + 1;
        }
        let w = Self {
            slot,
            steps,
            cursor: 0,
            device: None,
            decisions,
            phase: Phase::Identify,
            idle_streak: 0,
            identify_attempts: 0,
        };
        assert(w@.decisions =~= Seq::new(steps@.len(), |i: int| Decision::Pending));
        w
    }

    pub fn slot(&self) -> (s: u8)
        ensures
            s == self@.slot,
    {
        self.slot
    }

    pub fn phase(&self) -> (p: &Phase)
        ensures
            *p == self@.phase,
    {
        &self.phase
    }

    /// The device instance path the panel identified itself with.
    pub fn device(&self) -> (d: Option<&str>)
        ensures
            d is Some <==> self@.device is Some,
            d is Some ==> d->0@ == self@.device->0@,
    {
        match &self.device {
            Some(d) => Some(d.as_str()),
            None => None,
        }
    }

    /// The prompt on screen, or `None` once every control has been answered.
    pub fn current(&self) -> (s: Option<Step>)
        ensures
            s == (if self@.phase is Control && self@.cursor < self@.steps.len() {
                Some(self@.steps[self@.cursor as int])
            } else {
                None::<Step>
            }),
    {
        match self.phase {
            Phase::Control => {
                if self.cursor < self.steps.len() {
                    Some(self.steps[self.cursor])
                } else {
                    None
                }
            },
            _ => None,
        }
    }

    /// `(answered, total)` — the progress line.
    pub fn progress(&self) -> (p: (usize, usize))
        ensures
            p.0 == vstd::math::min(self@.cursor as int, self@.steps.len() as int),
            p.1 == self@.steps.len(),
    {
        let total = self.steps.len();
        let answered = if self.cursor < total { self.cursor } else { total };
        (answered, total)
    }

    /// Feed one observation. Every state transition in the wizard goes through
    /// here.
    pub fn feed(&mut self, input: Input) -> (r: Reaction)
        requires
            old(self)@.wf(),
        ensures
            final(self)@.wf(),
            (final(self)@, r) == old(self)@.fed(input),
    {
        proof {
            law_feeding_keeps_the_wizard_sound(self@, input);
        }
        match input {
            Input::Failed(error) => {
                self.phase = Phase::Cancelled(CancelReason::Failed(error.clone()));
                return Reaction::Cancelled(CancelReason::Failed(error));
            },
            Input::Cancel => {
                self.phase = Phase::Cancelled(CancelReason::User);
                return Reaction::Cancelled(CancelReason::User);
            },
            _ => {},
        }
        match &self.phase {
            Phase::Identify => self.feed_identify(input),
            Phase::Control => self.feed_control(input),
            Phase::Review => Reaction::Complete,
            Phase::Cancelled(reason) => Reaction::Cancelled(copy_reason(reason)),
        }
    }

    fn feed_identify(&mut self, input: Input) -> (r: Reaction)
        requires
            old(self)@.wf(),
            old(self)@.phase is Identify,
            !(input is Cancel),
            !(input is Failed),
        ensures
            (final(self)@, r) == old(self)@.identify_step(input),
    {
        match input {
            Input::Press { device, .. } => {
                self.device = Some(device.clone());
                self.phase = Phase::Control;
                self.idle_streak = 0;
                Reaction::Identified { device }
            },
            Input::Timeout => {
                self.identify_attempts = self.identify_attempts + 1;
                if self.identify_attempts >= IDLE_STREAK_TO_FINISH {
                    self.phase = Phase::Cancelled(CancelReason::NoDevice);
                    Reaction::Cancelled(CancelReason::NoDevice)
                } else {
                    Reaction::StillListening {
                        attempts_left: IDLE_STREAK_TO_FINISH - self.identify_attempts,
                    }
                }
            },
            _ => Reaction::Complete,
        }
    }

    fn feed_control(&mut self, input: Input) -> (r: Reaction)
        requires
            old(self)@.wf(),
            old(self)@.phase is Control,
            !(input is Cancel),
            !(input is Failed),
        ensures
            (final(self)@, r) == old(self)@.control_step(input),
    {
        if self.cursor >= self.steps.len() {
            self.phase = Phase::Review;
            return Reaction::Complete;
        }
        let step = self.steps[self.cursor];
        match input {
            Input::Press { device, key } => {
                let same = match &self.device {
                    Some(d) => str_eq(d.as_str(), device.as_str()),
                    None => false,
                };
                if !same {
                    return Reaction::OtherDevice { device };
                }
                match self.holder_of(key) {
                    Some(taken_by) => {
                        return Reaction::AlreadyTaken { key, taken_by };
                    },
                    None => {},
                }
                self.decisions.set(self.cursor, Decision::Bound(key));
                self.idle_streak = 0;
                self.advance();
                Reaction::Bound { step: step.id, key }
            },
            Input::Timeout => {
                self.decisions.set(self.cursor, Decision::Skipped(SkipReason::Idle));
                self.idle_streak = self.idle_streak + 1;
                self.advance();
                let in_control = match self.phase {
                    Phase::Control => true,
                    _ => false,
                };
                if self.idle_streak >= IDLE_STREAK_TO_FINISH && in_control {
                    let skipped = self.skip_the_rest();
                    Reaction::FinishedEarly { skipped }
                } else {
                    Reaction::Skipped { step: step.id, reason: SkipReason::Idle }
                }
            },
            _ => Reaction::Complete,
        }
    }

    /// The control already holding `key`, if any — the ALREADY TAKEN lookup.
    fn holder_of(&self, key: Key) -> (r: Option<&'static str>)
        requires
            self@.wf(),
        ensures
            r is Some <==> self@.holder(key) is Some,
            r is Some ==> r->0 == self@.steps[self@.holder(key)->0].id,
    {
        let n = self.decisions.len();
        let mut i: usize = 0;
        while i < n
            invariant
                self@.wf(),
                n == self@.decisions.len(),
                i <= n,
                forall|j: int| 0 <= j < i ==> self@.decisions[j] != Decision::Bound(key),
            decreases n - i,
        {
            if self.decisions[i] == Decision::Bound(key) {
                proof {
                    let h = self@.holder(key)->0;
                    assert(self@.decisions[i as int] == Decision::Bound(key));
                    assert(self@.decisions[h] == Decision::Bound(key));
                    assert(h == i as int);
                }
                return Some(self.steps[i].id);
            }
            i = i + 1;
        }
        None
    }

    fn advance(&mut self)
        requires
            old(self).cursor < old(self).steps@.len(),
            old(self).steps@.len() < usize::MAX,
        ensures
            final(self)@ == old(self)@.advanced(),
    {
        self.cursor = self.cursor + 1;
        if self.cursor >= self.steps.len() {
            self.cursor = self.steps.len();
            self.phase = Phase::Review;
        }
    }

    /// Mark everything still pending as never-asked and go to review.
    fn skip_the_rest(&mut self) -> (skipped: usize)
        requires
            old(self)@.decisions.len() == old(self)@.steps.len(),
            old(self)@.cursor <= old(self)@.steps.len(),
        ensures
            final(self)@ == old(self)@.rest_skipped(),
            skipped == old(self)@.steps.len() - old(self)@.cursor,
    {
        let n = self.decisions.len();
        let from = self.cursor;
        let mut skipped: usize = 0;
        let mut i = from;
        while i < n
            invariant
                n == self.decisions@.len(),
                n == old(self)@.decisions.len(),
                from == old(self).cursor,
                from <= i <= n,
                skipped == i - from,
                forall|k: int| 0 <= k < from ==> self.decisions@[k] == old(self)@.decisions[k],
                forall|k: int| from <= k < i ==> self.decisions@[k] == Decision::Skipped(SkipReason::NotAsked),
                forall|k: int| i <= k < n ==> self.decisions@[k] == old(self)@.decisions[k],
                self.steps == old(self).steps,
                self.slot == old(self).slot,
                self.device == old(self).device,
                self.phase == old(self).phase,
                self.idle_streak == old(self).idle_streak,
                self.identify_attempts == old(self).identify_attempts,
                self.cursor == old(self).cursor,
            decreases n - i,
        {
            self.decisions.set(i, Decision::Skipped(SkipReason::NotAsked));
            skipped = skipped + 1;
            i = i + 1;
        }
        self.cursor = self.steps.len();
        self.phase = Phase::Review;
        assert(self@.decisions =~= old(self)@.rest_skipped().decisions);
        skipped
    }
}

/// The controls that got a key among the first `n`, in prompt order.
pub open spec fn bound_upto(steps: Seq<Step>, d: Seq<Decision>, n: int) -> Seq<(Step, Key)>
    decreases n,
{
    if n <= 0 {
        seq![]
    } else {
        let prev = bound_upto(steps, d, n - 1);
        match d[n - 1] {
            Decision::Bound(k) => prev.push((steps[n - 1], k)),
            _ => prev,
        }
    }
}

/// The controls that did not get a key among the first `n`, with why.
pub open spec fn skipped_upto(steps: Seq<Step>, d: Seq<Decision>, n: int) -> Seq<(Step, SkipReason)>
    decreases n,
{
    if n <= 0 {
        seq![]
    } else {
        let prev = skipped_upto(steps, d, n - 1);
        match d[n - 1] {
            Decision::Skipped(r) => prev.push((steps[n - 1], r)),
            _ => prev,
        }
    }
}

/// The preset entries the first `n` decisions produce: each bound key paired
/// with every output its prompt binds, in prompt order.
pub open spec fn entries_upto(steps: Seq<Step>, d: Seq<Decision>, n: int) -> Seq<(Key, Binding)>
    decreases n,
{
    if n <= 0 {
        seq![]
    } else {
        let prev = entries_upto(steps, d, n - 1);
        match d[n - 1] {
            Decision::Bound(k) => prev + steps[n - 1].bindings@.map_values(|b: Binding| (k, b)),
            _ => prev,
        }
    }
}

proof fn lemma_bound_upto_len(steps: Seq<Step>, d: Seq<Decision>, n: int)
    requires
        0 <= n <= d.len(),
    ensures
        bound_upto(steps, d, n).len() <= n,
        bound_upto(steps, d, n).len() == 0 <==> forall|i: int| 0 <= i < n ==> !(#[trigger] d[i] is Bound),
    decreases n,
{
    if n > 0 {
        lemma_bound_upto_len(steps, d, n - 1);
        if d[n - 1] is Bound {
            assert(bound_upto(steps, d, n).len() > 0);
        } else {
            assert(bound_upto(steps, d, n) == bound_upto(steps, d, n - 1));
            if bound_upto(steps, d, n).len() == 0 {
                assert forall|i: int| 0 <= i < n implies !(#[trigger] d[i] is Bound) by {
                    if i < n - 1 {
                    }
                }
            }
        }
    }
}

impl WizardView {
    /// Every control that got a key, in prompt order.
    pub open spec fn bound_list(self) -> Seq<(Step, Key)> {
        bound_upto(self.steps, self.decisions, self.steps.len() as int)
    }

    /// Every control that did not.
    pub open spec fn skipped_list(self) -> Seq<(Step, SkipReason)> {
        skipped_upto(self.steps, self.decisions, self.steps.len() as int)
    }

    /// Is there anything worth writing?
    pub open spec fn committable(self) -> bool {
        self.device is Some && self.bound_list().len() > 0
    }

    /// Is the control called `id` bound?
    pub open spec fn has_id(self, id: Seq<char>) -> bool {
        exists|i: int|
            0 <= i < self.steps.len() && #[trigger] self.decisions[i] is Bound && self.steps[i].id@
                == id
    }
}

/// How loud an audit note is.
#[derive(Clone, Copy, Debug, PartialEq, Eq, Structural)]
pub enum AuditLevel {
    Warn,
    Info,
}

impl AuditLevel {
    pub fn word(self) -> (w: &'static str)
        ensures
            w@ == (match self {
                AuditLevel::Warn => "warn"@,
                AuditLevel::Info => "info"@,
            }),
    {
        match self {
            Self::Warn => "warn",
            Self::Info => "info",
        }
    }
}

/// One finding of the completeness audit.
#[derive(Clone, Debug, PartialEq, Eq)]
pub struct AuditNote {
    pub level: AuditLevel,
    /// Stable code for `--json`.
    pub code: &'static str,
    pub message: String,
}

impl AuditNote {
    pub open spec fn view_triple(self) -> (AuditLevel, Seq<char>, Seq<char>) {
        (self.level, self.code@, self.message@)
    }

    pub fn warn(code: &'static str, message: String) -> (n: Self)
        ensures
            n.level == AuditLevel::Warn,
            n.code == code,
            n.message == message,
    {
        Self { level: AuditLevel::Warn, code, message }
    }

    pub fn info(code: &'static str, message: String) -> (n: Self)
        ensures
            n.level == AuditLevel::Info,
            n.code == code,
            n.message == message,
    {
        Self { level: AuditLevel::Info, code, message }
    }
}

pub open spec fn no_exit_text() -> Seq<char> {
    "Neither START nor BACK is bound. On a cabinet those are the exit keys — with the panel captured there would be no way to leave a game from it. Bind at least one before you rely on this panel."@
}

/// A count of how many of four ids are bound.
pub open spec fn count_of(a: bool, b: bool, c: bool, d: bool) -> nat {
    (if a { 1nat } else { 0nat }) + (if b { 1nat } else { 0nat }) + (if c { 1nat } else { 0nat })
        + (if d { 1nat } else { 0nat })
}

impl WizardView {
    pub open spec fn direction_count(self) -> nat {
        count_of(self.has_id("up"@), self.has_id("down"@), self.has_id("left"@), self.has_id("right"@))
    }

    pub open spec fn face_count(self) -> nat {
        count_of(self.has_id("south"@), self.has_id("east"@), self.has_id("west"@), self.has_id("north"@))
    }

    /// The completeness audit: `(level, code, message)` for each note, in order.
    pub open spec fn audit_notes(self) -> Seq<(AuditLevel, Seq<char>, Seq<char>)> {
        if self.bound_list().len() == 0 {
            seq![(AuditLevel::Warn, "nothing-bound"@, "No control was bound — there is nothing to write."@)]
        } else {
            exit_notes(self.has_id("start"@), self.has_id("back"@))
                + direction_notes(self.direction_count())
                + face_notes(self.face_count())
                + unbound_notes((self.steps.len() - self.bound_list().len()) as nat)
        }
    }
}

/// The exit-key half of the audit.
pub open spec fn exit_notes(start: bool, back: bool) -> Seq<(AuditLevel, Seq<char>, Seq<char>)> {
    if !start && !back {
        seq![(AuditLevel::Warn, "no-exit"@, no_exit_text())]
    } else if !start {
        seq![(AuditLevel::Warn, "no-start"@, "START is not bound. Most games pause and quit through it."@)]
    } else if !back {
        seq![(AuditLevel::Warn, "no-back"@, "BACK / SELECT is not bound (the coin button on a cabinet)."@)]
    } else {
        seq![]
    }
}

/// The movement half of the audit.
pub open spec fn direction_notes(dirs: nat) -> Seq<(AuditLevel, Seq<char>, Seq<char>)> {
    if dirs == 0 {
        seq![(AuditLevel::Warn, "no-directions"@, "No direction is bound — this pad cannot move."@)]
    } else if dirs < 4 {
        seq![(AuditLevel::Warn, "partial-directions"@, "Only "@ + decimal(dirs) + " of 4 directions are bound."@)]
    } else {
        seq![]
    }
}

/// The face-button half of the audit.
pub open spec fn face_notes(faces: nat) -> Seq<(AuditLevel, Seq<char>, Seq<char>)> {
    if faces < 2 {
        seq![(AuditLevel::Warn, "few-buttons"@, "Only "@ + decimal(faces) + " face button(s) bound; most games need two."@)]
    } else {
        seq![]
    }
}

/// The note counting what is left unbound.
pub open spec fn unbound_notes(unbound: nat) -> Seq<(AuditLevel, Seq<char>, Seq<char>)> {
    if unbound > 0 {
        seq![(AuditLevel::Info, "skipped"@, decimal(unbound) + " control(s) left unbound. `ksx map` adds any of them later without redoing this."@)]
    } else {
        seq![]
    }
}

pub open spec fn triples(notes: Seq<AuditNote>) -> Seq<(AuditLevel, Seq<char>, Seq<char>)> {
    notes.map_values(|n: AuditNote| n.view_triple())
}

fn exit_notes_exec(start: bool, back: bool) -> (notes: Vec<AuditNote>)
    ensures
        triples(notes@) == exit_notes(start, back),
{
    let mut notes: Vec<AuditNote> = Vec::new();
    if !start && !back {
        notes.push(AuditNote::warn(
            "no-exit",
            "Neither START nor BACK is bound. On a cabinet those are the exit keys — with the panel captured there would be no way to leave a game from it. Bind at least one before you rely on this panel.".to_owned(),
        ));
    } else if !start {
        notes.push(AuditNote::warn(
            "no-start",
            "START is not bound. Most games pause and quit through it.".to_owned(),
        ));
    } else if !back {
        notes.push(AuditNote::warn(
            "no-back",
            "BACK / SELECT is not bound (the coin button on a cabinet).".to_owned(),
        ));
    }
    assert(triples(notes@) =~= exit_notes(start, back));
    notes
}

fn direction_notes_exec(dirs: u64) -> (notes: Vec<AuditNote>)
    ensures
        triples(notes@) == direction_notes(dirs as nat),
{
    let mut notes: Vec<AuditNote> = Vec::new();
    if dirs == 0 {
        notes.push(AuditNote::warn(
            "no-directions",
            "No direction is bound — this pad cannot move.".to_owned(),
        ));
    } else if dirs < 4 {
        let mut message = "Only ".to_owned();
        push_decimal(&mut message, dirs);
        message.append(" of 4 directions are bound.");
        notes.push(AuditNote::warn("partial-directions", message));
    }
    assert(triples(notes@) =~= direction_notes(dirs as nat));
    notes
}

fn face_notes_exec(faces: u64) -> (notes: Vec<AuditNote>)
    ensures
        triples(notes@) == face_notes(faces as nat),
{
    let mut notes: Vec<AuditNote> = Vec::new();
    if faces < 2 {
        let mut message = "Only ".to_owned();
        push_decimal(&mut message, faces);
        message.append(" face button(s) bound; most games need two.");
        notes.push(AuditNote::warn("few-buttons", message));
    }
    assert(triples(notes@) =~= face_notes(faces as nat));
    notes
}

fn unbound_notes_exec(unbound: u64) -> (notes: Vec<AuditNote>)
    ensures
        triples(notes@) == unbound_notes(unbound as nat),
{
    let mut notes: Vec<AuditNote> = Vec::new();
    if unbound > 0 {
        let mut message = String::new();
        push_decimal(&mut message, unbound);
        message.append(" control(s) left unbound. `ksx map` adds any of them later without redoing this.");
        notes.push(AuditNote::info("skipped", message));
    }
    assert(triples(notes@) =~= unbound_notes(unbound as nat));
    notes
}

fn append_notes(notes: &mut Vec<AuditNote>, more: Vec<AuditNote>)
    ensures
        triples(final(notes)@) == triples(old(notes)@) + triples(more@),
{
    let mut more = more;
    let ghost extra = more@;
    notes.append(&mut more);
    assert(triples(notes@) =~= triples(old(notes)@) + triples(extra));
}

/// What a run would write: a preset named by the caller, holding every bound
/// key paired with every output its prompt binds.
#[derive(Clone, Debug, PartialEq, Eq)]
pub struct Preset {
    pub name: String,
    pub entries: Vec<(Key, Binding)>,
    pub protected: bool,
}

/// Turn a raw observation into the wizard's vocabulary. `Escape` is the only
/// reserved key.
pub fn classify(device: String, key: Key) -> (i: Input)
    ensures
        i == (if key.0 == ESCAPE_USAGE {
            Input::Cancel
        } else {
            Input::Press { device, key }
        }),
{
    if key.0 == ESCAPE_USAGE {
        Input::Cancel
    } else {
        Input::Press { device, key }
    }
}

/// One second of listening, for the wizard's countdown: `Ok(None)` is a
/// second in which nothing was pressed.
pub trait Observer {
    /// Whether observers of this type keep `answers`. One that does not say
    /// so keeps nothing a caller can rely on.
    open spec fn keeps_answers() -> bool {
        false
    }

    /// Every answer this observer has given, oldest first.
    open spec fn answers(&self) -> Seq<Result<Option<(String, Key)>, String>> {
        Seq::empty()
    }

    /// How long each listen was asked to last, oldest first.
    open spec fn slices(&self) -> Seq<std::time::Duration> {
        Seq::empty()
    }

    /// Listen for up to `slice`; the answer joins `answers`, the length
    /// joins `slices`.
    fn slice(&mut self, slice: std::time::Duration) -> (heard: Result<Option<(String, Key)>, String>)
        ensures
            Self::keeps_answers() ==> final(self).answers() == old(self).answers().push(heard)
                && final(self).slices() == old(self).slices().push(slice),
    ;
}

/// What `Duration::from_secs` gives for a number of seconds.
pub uninterp spec fn seconds(secs: u64) -> std::time::Duration;

/// `Duration::from_secs`. Claimed: the result is `seconds` of the count.
#[verifier::external_body]
fn from_secs(secs: u64) -> (d: std::time::Duration)
    ensures
        d == seconds(secs),
{
    std::time::Duration::from_secs(secs)
}

/// Where the countdown shows the seconds left.
pub trait Countdown {
    /// Whether countdowns of this type keep `shown`.
    open spec fn keeps_shown() -> bool {
        false
    }

    /// Every count shown so far, oldest first.
    open spec fn shown(&self) -> Seq<u64> {
        Seq::empty()
    }

    /// Show `remaining`; it joins `shown`.
    fn tick(&mut self, remaining: u64)
        ensures
            Self::keeps_shown() ==> final(self).shown() == old(self).shown().push(remaining),
    ;
}

/// After one second of listening: keep counting down, or the prompt's input.
#[derive(Clone, Debug, PartialEq, Eq)]
pub enum Listen {
    /// Listen again, with this many seconds left.
    Tick(u64),
    Done(Input),
}

/// A press ends the prompt (Escape cancels it); a failure ends it as a
/// failure, never a timeout; a quiet second counts down, and the last quiet
/// second times the prompt out.
pub open spec fn listened(remaining: u64, heard: Result<Option<(String, Key)>, String>) -> Listen {
    match heard {
        Ok(Some((device, key))) => Listen::Done(
            if key.0 == ESCAPE_USAGE {
                Input::Cancel
            } else {
                Input::Press { device, key }
            },
        ),
        Ok(None) => if remaining > 1 {
            Listen::Tick((remaining - 1) as u64)
        } else {
            Listen::Done(Input::Timeout)
        },
        Err(e) => Listen::Done(Input::Failed(e)),
    }
}

pub fn observe_next(remaining: u64, heard: Result<Option<(String, Key)>, String>) -> (l: Listen)
    ensures
        l == listened(remaining, heard),
{
    match heard {
        Ok(Some((device, key))) => Listen::Done(classify(device, key)),
        Ok(None) => {
            if remaining > 1 {
                Listen::Tick(remaining - 1)
            } else {
                Listen::Done(Input::Timeout)
            }
        },
        Err(e) => Listen::Done(Input::Failed(e)),
    }
}

/// How many seconds a prompt of `secs` listens for: at least one.
pub open spec fn prompt_secs(secs: u64) -> u64 {
    if secs == 0 {
        1
    } else {
        secs
    }
}

/// The counts shown over the first `k` seconds of an `n`-second prompt:
/// `n`, `n - 1`, and so on down.
pub open spec fn countdown(n: u64, k: nat) -> Seq<u64> {
    Seq::new(k, |j: int| (n - j) as u64)
}

/// A prompt of `secs` seconds that heard `heard`, one answer per second, and
/// came back with `input`: every second but the last was quiet, and the last
/// one decided, with as many seconds left as had not yet passed.
pub open spec fn prompt_heard(secs: u64, heard: Seq<Result<Option<(String, Key)>, String>>, input: Input) -> bool {
    let n = prompt_secs(secs);
    &&& 1 <= heard.len() <= n
    &&& forall|j: int| 0 <= j < heard.len() - 1 ==> #[trigger] heard[j] == Ok::<Option<(String, Key)>, String>(None)
    &&& listened((n - heard.len() + 1) as u64, heard.last()) == Listen::Done(input)
}

/// Run one prompt: up to `secs` one-second slices (at least one), showing
/// the seconds left before each, and stopping the moment something is heard.
/// Whatever the observer hears, Escape never comes back as a press. For an
/// observer that keeps its answers, the input is the one those answers decide
/// (`prompt_heard`); for a countdown that keeps what it showed, it showed one
/// count per answer, from the whole prompt down.
pub fn observe_step<O: Observer, C: Countdown>(observer: &mut O, secs: u64, tick: &mut C) -> (i: Input)
    ensures
        O::keeps_answers() ==> {
            &&& final(observer).answers().len() > old(observer).answers().len()
            &&& final(observer).answers().take(old(observer).answers().len() as int) == old(
                observer,
            ).answers()
            &&& prompt_heard(secs, final(observer).answers().skip(old(observer).answers().len() as int), i)
            &&& final(observer).slices() == old(observer).slices() + Seq::new(
                (final(observer).answers().len() - old(observer).answers().len()) as nat,
                |j: int| seconds(1),
            )
        },
        O::keeps_answers() && C::keeps_shown() ==> final(tick).shown() == old(tick).shown()
            + countdown(
            prompt_secs(secs),
            (final(observer).answers().len() - old(observer).answers().len()) as nat,
        ),
        i matches Input::Press { key, .. } ==> key.0 != ESCAPE_USAGE,
{
    let n: u64 = if secs == 0 {
        1
    } else {
        secs
    };
    let ghost a0 = observer.answers();
    let ghost s0 = observer.slices();
    let ghost t0 = tick.shown();
    let mut remaining: u64 = n;
    loop
        invariant
            n == prompt_secs(secs),
            1 <= remaining <= n,
            a0 == old(observer).answers(),
            t0 == old(tick).shown(),
            O::keeps_answers() ==> observer.answers().len() == a0.len() + (n - remaining),
            O::keeps_answers() ==> observer.answers().take(a0.len() as int) == a0,
            s0 == old(observer).slices(),
            O::keeps_answers() ==> observer.slices() == s0 + Seq::new((n - remaining) as nat, |j: int| seconds(1)),
            O::keeps_answers() ==> forall|j: int|
                a0.len() <= j < observer.answers().len() ==> #[trigger] observer.answers()[j]
                    == Ok::<Option<(String, Key)>, String>(None),
            C::keeps_shown() ==> tick.shown() == t0 + countdown(n, (n - remaining) as nat),
        decreases remaining,
    {
        let ghost before = observer.answers();
        tick.tick(remaining);
        let one = from_secs(1);
        let heard = observer.slice(one);
        proof {
            if C::keeps_shown() {
                assert(tick.shown() =~= t0 + countdown(n, (n - remaining + 1) as nat));
            }
            if O::keeps_answers() {
                let after = observer.answers();
                assert(after == before.push(heard));
                assert(after.take(a0.len() as int) =~= a0);
                let h = after.skip(a0.len() as int);
                assert(h.len() == n - remaining + 1);
                assert forall|j: int| 0 <= j < h.len() - 1 implies #[trigger] h[j] == Ok::<
                    Option<(String, Key)>,
                    String,
                >(None) by {
                    assert(h[j] == after[a0.len() + j]);
                    assert(after[a0.len() + j] == before[a0.len() + j]);
                }
                assert(h.last() == heard);
                assert(observer.slices() =~= s0 + Seq::new((n - remaining + 1) as nat, |j: int| seconds(1)));
            }
        }
        match observe_next(remaining, heard) {
            Listen::Tick(next) => {
                proof {
                    if O::keeps_answers() {
                        let after = observer.answers();
                        assert(heard == Ok::<Option<(String, Key)>, String>(None));
                        assert forall|j: int|
                            a0.len() <= j < after.len() implies #[trigger] after[j] == Ok::<
                                Option<(String, Key)>,
                                String,
                            >(None) by {
                            if j < before.len() {
                                assert(after[j] == before[j]);
                            }
                        }
                    }
                }
                remaining = next;
            },
            Listen::Done(input) => {
                return input;
            },
        }
    }
}

impl Wizard {
    /// Every control that got a key, in prompt order.
    pub fn bound(&self) -> (r: Vec<(Step, Key)>)
        requires
            self@.wf(),
        ensures
            r@ == self@.bound_list(),
            r@.len() <= self@.steps.len(),
    {
        let n = self.steps.len();
        let mut r: Vec<(Step, Key)> = Vec::new();
        let mut i: usize = 0;
        while i < n
            invariant
                self@.wf(),
                n == self@.steps.len(),
                i <= n,
                r@ == bound_upto(self@.steps, self@.decisions, i as int),
            decreases n - i,
        {
            match self.decisions[i] {
                Decision::Bound(key) => r.push((self.steps[i], key)),
                _ => {},
            }
            i = i + 1;
        }
        proof {
            lemma_bound_upto_len(self@.steps, self@.decisions, n as int);
        }
        r
    }

    /// Every control that did not get one.
    pub fn skipped(&self) -> (r: Vec<(Step, SkipReason)>)
        requires
            self@.wf(),
        ensures
            r@ == self@.skipped_list(),
    {
        let n = self.steps.len();
        let mut r: Vec<(Step, SkipReason)> = Vec::new();
        let mut i: usize = 0;
        while i < n
            invariant
                self@.wf(),
                n == self@.steps.len(),
                i <= n,
                r@ == skipped_upto(self@.steps, self@.decisions, i as int),
            decreases n - i,
        {
            match self.decisions[i] {
                Decision::Skipped(reason) => r.push((self.steps[i], reason)),
                _ => {},
            }
            i = i + 1;
        }
        r
    }

    /// Is there anything worth writing?
    pub fn can_commit(&self) -> (b: bool)
        requires
            self@.wf(),
        ensures
            b == self@.committable(),
    {
        self.device.is_some() && self.bound().len() > 0
    }

    /// Is the control called `id` bound?
    fn has_bound(&self, id: &str) -> (b: bool)
        requires
            self@.wf(),
        ensures
            b == self@.has_id(id@),
    {
        let n = self.steps.len();
        let mut i: usize = 0;
        while i < n
            invariant
                self@.wf(),
                n == self@.steps.len(),
                i <= n,
                forall|j: int|
                    0 <= j < i ==> !(#[trigger] self@.decisions[j] is Bound && self@.steps[j].id@
                        == id@),
            decreases n - i,
        {
            let is_bound = match self.decisions[i] {
                Decision::Bound(_) => true,
                _ => false,
            };
            if is_bound && str_eq(self.steps[i].id, id) {
                return true;
            }
            i = i + 1;
        }
        false
    }

    /// TRANSACTIONAL ASSEMBLY: the preset this run would write, built fresh
    /// from the decisions every time it is asked. Nothing here touches disk.
    pub fn preset(&self, name: &str) -> (p: Preset)
        requires
            self@.wf(),
        ensures
            p.name@ == name@,
            p.entries@ == entries_upto(self@.steps, self@.decisions, self@.steps.len() as int),
            !p.protected,
    {
        let n = self.steps.len();
        let mut entries: Vec<(Key, Binding)> = Vec::new();
        let mut i: usize = 0;
        while i < n
            invariant
                self@.wf(),
                n == self@.steps.len(),
                i <= n,
                entries@ == entries_upto(self@.steps, self@.decisions, i as int),
            decreases n - i,
        {
            match self.decisions[i] {
                Decision::Bound(key) => {
                    let bindings = self.steps[i].bindings;
                    let m = bindings.len();
                    let mut j: usize = 0;
                    let ghost before = entries@;
                    while j < m
                        invariant
                            m == bindings@.len(),
                            j <= m,
                            entries@ == before + bindings@.take(j as int).map_values(
                                |b: Binding| (key, b),
                            ),
                        decreases m - j,
                    {
                        entries.push((key, bindings[j]));
                        proof {
                            assert(bindings@.take(j + 1) =~= bindings@.take(j as int).push(bindings@[j as int]));
                            assert(entries@ =~= before + bindings@.take(j + 1).map_values(
                                |b: Binding| (key, b),
                            ));
                        }
                        j = j + 1;
                    }
                    proof {
                        assert(bindings@.take(m as int) =~= bindings@);
                    }
                },
                _ => {},
            }
            i = i + 1;
        }
        Preset { name: name.to_owned(), entries, protected: false }
    }

    /// The completeness audit, run before the commit is offered.
    #[verifier::rlimit(50)]
    pub fn audit(&self) -> (notes: Vec<AuditNote>)
        requires
            self@.wf(),
        ensures
            triples(notes@) == self@.audit_notes(),
    {
        let bound = self.bound();
        if bound.len() == 0 {
            let mut notes: Vec<AuditNote> = Vec::new();
            notes.push(AuditNote::warn(
                "nothing-bound",
                "No control was bound — there is nothing to write.".to_owned(),
            ));
            assert(triples(notes@) =~= self@.audit_notes());
            return notes;
        }
        let mut notes = exit_notes_exec(self.has_bound("start"), self.has_bound("back"));

        let mut directions: u64 = 0;
        if self.has_bound("up") {
            directions = directions + 1;
        }
        if self.has_bound("down") {
            directions = directions + 1;
        }
        if self.has_bound("left") {
            directions = directions + 1;
        }
        if self.has_bound("right") {
            directions = directions + 1;
        }
        assert(directions as nat == self@.direction_count());
        append_notes(&mut notes, direction_notes_exec(directions));

        let mut faces: u64 = 0;
        if self.has_bound("south") {
            faces = faces + 1;
        }
        if self.has_bound("east") {
            faces = faces + 1;
        }
        if self.has_bound("west") {
            faces = faces + 1;
        }
        if self.has_bound("north") {
            faces = faces + 1;
        }
        assert(faces as nat == self@.face_count());
        append_notes(&mut notes, face_notes_exec(faces));

        // "Unbound", not "skipped": counted from what was BOUND, so the note
        // is honest whether a control was skipped, never asked, or the run is
        // being audited mid-flight.
        let unbound = self.steps.len() - bound.len();
        append_notes(&mut notes, unbound_notes_exec(unbound as u64));
        notes
    }
}

/// Feeding the wizard keeps its invariant: the cursor and the phase agree (so
/// a run that reaches review has decided every prompt, with nothing left
/// pending), and no key ever ends up driving two controls.
pub proof fn law_feeding_keeps_the_wizard_sound(w: WizardView, input: Input)
    requires
        w.wf(),
    ensures
        w.fed(input).0.wf(),
{
    let next = w.fed(input).0;
    if !(input is Failed) && !(input is Cancel) && w.phase is Control && w.cursor < w.steps.len() {
        match input {
            Input::Press { device, key } => {
                if w.is_panel(device@) && w.holder(key) is None {
                    let d2 = w.decisions.update(w.cursor as int, Decision::Bound(key));
                    assert forall|i: int, j: int|
                        #![trigger d2[i], d2[j]]
                        0 <= i < d2.len() && 0 <= j < d2.len() && i != j && d2[i] is Bound implies d2[i]
                        != d2[j] by {
                        if i == w.cursor as int {
                            assert(w.decisions[j] != Decision::Bound(key));
                        } else if j == w.cursor as int {
                            assert(w.decisions[i] != Decision::Bound(key));
                        } else {
                            assert(w.decisions[i] != w.decisions[j]);
                        }
                    }
                }
            },
            Input::Timeout => {
                let d2 = w.decisions.update(w.cursor as int, Decision::Skipped(SkipReason::Idle));
                assert forall|i: int, j: int|
                    #![trigger d2[i], d2[j]]
                    0 <= i < d2.len() && 0 <= j < d2.len() && i != j && d2[i] is Bound implies d2[i]
                    != d2[j] by {
                    if i != w.cursor as int && j != w.cursor as int {
                        assert(w.decisions[i] != w.decisions[j]);
                    }
                }
                let skipped = WizardView { decisions: d2, idle_streak: w.idle_streak + 1, ..w };
                let n2 = skipped.advanced();
                if n2.idle_streak >= IDLE_STREAK_TO_FINISH && n2.phase is Control {
                    let d3 = n2.rest_skipped().decisions;
                    assert forall|i: int, j: int|
                        #![trigger d3[i], d3[j]]
                        0 <= i < d3.len() && 0 <= j < d3.len() && i != j && d3[i] is Bound implies d3[i]
                        != d3[j] by {
                        assert(d2[i] != d2[j]);
                    }
                }
            },
            _ => {},
        }
    }
}


/// Where a finished slot gets wired.
#[derive(Clone, Debug, PartialEq, Eq)]
pub enum Wiring {
    /// Preset only — the user will wire it themselves.
    PresetOnly,
    /// A `[[slot]]` in `config.toml`, plus a named `[[device]]` for the panel.
    Config,
    /// A `[[game.slot]]` inside this `games.toml` profile.
    Profile(String),
}

/// How one player's run ends, before anything is written.
#[derive(Clone, Debug, PartialEq, Eq)]
pub enum RunEnd {
    /// The person threw the run away: nothing written, nothing wrong.
    Discarded,
    /// The run could not produce anything to write.
    Refused,
    /// `--dry-run`: report what would be written, write nothing.
    DryRun,
    /// Write the preset, wired this way.
    Write(Wiring),
}

/// A cancelled run: Escape discards it; no panel, or a broken observer,
/// refuses it.
pub fn cancel_end(reason: &CancelReason) -> (end: RunEnd)
    ensures
        end == if *reason is User {
            RunEnd::Discarded
        } else {
            RunEnd::Refused
        },
{
    match reason {
        CancelReason::User => RunEnd::Discarded,
        _ => RunEnd::Refused,
    }
}

/// After the review: with nothing bound there is nothing to write; a dry
/// run writes nothing; otherwise the preset is written only when the person
/// says so, and wired into the profile (when one was named) or into
/// `config.toml` when they agree to that too.
pub fn after_review(can_commit: bool, dry_run: bool, write: bool, profile: Option<String>, wire: bool) -> (end:
    RunEnd)
    ensures
        end == if !can_commit {
            RunEnd::Refused
        } else if dry_run {
            RunEnd::DryRun
        } else if !write {
            RunEnd::Discarded
        } else if !wire {
            RunEnd::Write(Wiring::PresetOnly)
        } else {
            match profile {
                Some(title) => RunEnd::Write(Wiring::Profile(title)),
                None => RunEnd::Write(Wiring::Config),
            }
        },
{
    if !can_commit {
        return RunEnd::Refused;
    }
    if dry_run {
        return RunEnd::DryRun;
    }
    if !write {
        return RunEnd::Discarded;
    }
    if !wire {
        return RunEnd::Write(Wiring::PresetOnly);
    }
    match profile {
        Some(title) => RunEnd::Write(Wiring::Profile(title)),
        None => RunEnd::Write(Wiring::Config),
    }
}


proof fn lemma_counts_upto(steps: Seq<Step>, d: Seq<Decision>, cursor: int, n: int)
    requires
        0 <= cursor <= d.len(),
        0 <= n <= d.len(),
        forall|i: int| 0 <= i < cursor ==> !(#[trigger] d[i] is Pending),
        forall|i: int| cursor <= i < d.len() ==> #[trigger] d[i] == Decision::Pending,
    ensures
        bound_upto(steps, d, n).len() + skipped_upto(steps, d, n).len() == if n < cursor {
            n
        } else {
            cursor
        },
    decreases n,
{
    if n > 0 {
        lemma_counts_upto(steps, d, cursor, n - 1);
    }
}

proof fn lemma_bound_from(steps: Seq<Step>, d: Seq<Decision>, n: int)
    requires
        0 <= n <= d.len(),
    ensures
        forall|a: int|
            0 <= a < bound_upto(steps, d, n).len() ==> exists|i: int|
                0 <= i < n && d[i] == Decision::Bound(#[trigger] bound_upto(steps, d, n)[a].1),
    decreases n,
{
    if n > 0 {
        lemma_bound_from(steps, d, n - 1);
        let prev = bound_upto(steps, d, n - 1);
        assert forall|a: int| 0 <= a < bound_upto(steps, d, n).len() implies exists|i: int|
            0 <= i < n && d[i] == Decision::Bound(#[trigger] bound_upto(steps, d, n)[a].1) by {
            if a < prev.len() {
                assert(bound_upto(steps, d, n)[a] == prev[a]);
                let i = choose|i: int| 0 <= i < n - 1 && d[i] == Decision::Bound(#[trigger] prev[a].1);
                assert(0 <= i < n && d[i] == Decision::Bound(bound_upto(steps, d, n)[a].1));
            } else {
                assert(d[n - 1] == Decision::Bound(bound_upto(steps, d, n)[a].1));
            }
        }
    }
}

proof fn lemma_bound_keys_distinct(steps: Seq<Step>, d: Seq<Decision>, n: int)
    requires
        0 <= n <= d.len(),
        keys_distinct(d),
    ensures
        forall|a: int, b: int|
            0 <= a < b < bound_upto(steps, d, n).len() ==> #[trigger] bound_upto(steps, d, n)[a].1
                != #[trigger] bound_upto(steps, d, n)[b].1,
    decreases n,
{
    if n > 0 {
        lemma_bound_keys_distinct(steps, d, n - 1);
        lemma_bound_from(steps, d, n - 1);
        let prev = bound_upto(steps, d, n - 1);
        let cur = bound_upto(steps, d, n);
        assert forall|a: int, b: int| 0 <= a < b < cur.len() implies #[trigger] cur[a].1 != #[trigger] cur[b].1 by {
            if b < prev.len() {
                assert(cur[a] == prev[a] && cur[b] == prev[b]);
            } else {
                assert(cur[a] == prev[a]);
                let i = choose|i: int| 0 <= i < n - 1 && d[i] == Decision::Bound(#[trigger] prev[a].1);
                assert(d[n - 1] == Decision::Bound(cur[b].1));
                assert(d[i] != d[n - 1]);
            }
        }
    }
}

/// What the review screen counts, for any sound wizard (and every wizard
/// `new`, `with_steps` and `feed` make is one): every prompt answered so far
/// is either bound or skipped, so the two lists add up to the progress, out
/// of every prompt; and no key appears twice among the bound controls.
pub proof fn law_bound_and_skipped_add_up_to_the_progress(w: WizardView)
    requires
        w.wf(),
    ensures
        w.bound_list().len() + w.skipped_list().len() == w.cursor,
        w.cursor <= w.steps.len(),
        forall|a: int, b: int|
            0 <= a < b < w.bound_list().len() ==> #[trigger] w.bound_list()[a].1 != #[trigger] w.bound_list()[b].1,
{
    lemma_counts_upto(w.steps, w.decisions, w.cursor as int, w.steps.len() as int);
    lemma_bound_keys_distinct(w.steps, w.decisions, w.steps.len() as int);
}

} // verus!
