//! The WinUSB rebind lifecycle as seen from a surface: the fixed helper
//! contract (verb and argument list, nothing path-like), what its exit codes
//! mean, and the verdict on a prepare or release — which trusts a fresh
//! observation of the device, never the helper's exit code or output.

use vstd::prelude::*;

use crate::text::{decimal, eq_ignore_case, push_decimal, same_ignoring_case};

verus! {

/// Refused — nothing was changed. Same value as every other "cannot start".
pub const EXIT_REFUSED: i32 = 2;

/// pnputil ran and returned a failure.
pub const EXIT_APPLY_FAILED: i32 = 3;

/// A durable transaction exists, but its final binding could not be verified.
pub const EXIT_RECOVERY_REQUIRED: i32 = 4;

/// Fixed helper operation. No path, package, certificate or command argument
/// can cross this boundary from a surface.
#[derive(Clone, Copy, Debug, PartialEq, Eq, Structural)]
pub enum HelperMutation {
    Prepare,
    Release,
}

impl HelperMutation {
    pub open spec fn spec_verb(self) -> Seq<char> {
        match self {
            HelperMutation::Prepare => "prepare-exact"@,
            HelperMutation::Release => "release-exact"@,
        }
    }

    /// The helper verb this mutation invokes.
    pub fn verb(self) -> (v: &'static str)
        ensures
            v@ == self.spec_verb(),
    {
        match self {
            HelperMutation::Prepare => "prepare-exact",
            HelperMutation::Release => "release-exact",
        }
    }
}

/// The helper's argument list: the verb, the exact instance id, and the
/// confirmations that verb needs — nothing else.
pub open spec fn helper_args(action: HelperMutation, instance_id: Seq<char>) -> Seq<Seq<char>> {
    match action {
        HelperMutation::Prepare => seq![
            action.spec_verb(),
            instance_id,
            "--confirm-spare-keyboard"@,
            "--confirm-rebind"@,
            "--confirm-machine-certificate"@,
        ],
        HelperMutation::Release => seq![action.spec_verb(), instance_id, "--confirm-release"@],
    }
}

pub fn helper_arguments(action: HelperMutation, instance_id: &str) -> (args: Vec<String>)
    ensures
        crate::resolve::id_views(args@) == helper_args(action, instance_id@),
{
    let mut args: Vec<String> = Vec::new();
    args.push(action.verb().to_owned());
    args.push(instance_id.to_owned());
    match action {
        HelperMutation::Prepare => {
            args.push("--confirm-spare-keyboard".to_owned());
            args.push("--confirm-rebind".to_owned());
            args.push("--confirm-machine-certificate".to_owned());
        },
        HelperMutation::Release => {
            args.push("--confirm-release".to_owned());
        },
    }
    assert(crate::resolve::id_views(args@) =~= helper_args(action, instance_id@));
    args
}

pub open spec fn exit_meaning(code: u32) -> Seq<char> {
    if code == 0 {
        "success"@
    } else if code == 2 {
        "refused: a precondition the helper will not override"@
    } else if code == 3 {
        "internal: the helper could not complete the transaction"@
    } else if code == 4 {
        "recovery-required: durable state needs inspection before retry"@
    } else {
        "unrecognised"@
    }
}

/// What the helper's exit codes mean, so a log line is readable on its own.
pub fn helper_exit_meaning(code: u32) -> (m: &'static str)
    ensures
        m@ == exit_meaning(code),
{
    if code == 0 {
        "success"
    } else if code == 2 {
        "refused: a precondition the helper will not override"
    } else if code == 3 {
        "internal: the helper could not complete the transaction"
    } else if code == 4 {
        "recovery-required: durable state needs inspection before retry"
    } else {
        "unrecognised"
    }
}

/// Which driver a fresh survey found on the device.
#[derive(Clone, Copy, Debug, PartialEq, Eq, Structural)]
pub enum ObservedBinding {
    HidUsb,
    WinUsb,
    Missing,
    Other,
}

/// Where the helper's durable transaction for a device stands.
#[derive(Clone, Copy, Debug, PartialEq, Eq, Structural)]
pub enum TransactionPhase {
    Preparing,
    Prepared,
    Installed,
    /// The device is live on WinUSB.
    Active,
    Releasing,
    /// Durable state needs inspection before a retry.
    RecoveryRequired,
    RolledBack,
    /// The device is back on the HID keyboard stack.
    Released,
}

/// The helper's record of a device it owns.
#[derive(Clone, Debug, PartialEq, Eq)]
pub struct Ownership {
    pub phase: TransactionPhase,
    pub hardware_id: String,
    pub recovery_reason: Option<String>,
}

/// A fresh observation of one device.
#[derive(Clone, Debug, PartialEq, Eq)]
pub struct ObservedMutation {
    pub instance_id: String,
    pub hardware_id: String,
    pub binding: ObservedBinding,
    pub ownership: Option<Ownership>,
}

/// The machine-readable kind of a refusal: the control surface's two shared
/// codes, or one of this module's own.
#[derive(Clone, Debug, PartialEq, Eq)]
pub enum RefusalCode {
    /// The request itself is incomplete.
    BadRequest,
    /// The request is understood and declined.
    Refused,
    Named(String),
}

/// A refusal as the control surface reports it.
#[derive(Clone, Debug, PartialEq, Eq)]
pub struct Refusal {
    pub code: RefusalCode,
    pub message: String,
    pub remedy: Option<String>,
}

/// What a verified mutation reports.
#[derive(Clone, Debug, PartialEq, Eq)]
pub struct MutationView {
    pub instance_id: String,
    pub hardware_id: String,
    pub state: String,
    pub message: String,
    pub warning: Option<String>,
}

/// A request to prepare one exact keyboard for WinUSB.
#[derive(Clone, Debug, PartialEq, Eq)]
pub struct PrepareSpec {
    pub instance_id: String,
    pub expected_selector: String,
    pub confirm_spare_keyboard: bool,
    pub confirm_rebind: bool,
    pub confirm_machine_certificate: bool,
}

/// A request to give one exact keyboard back to the HID stack.
#[derive(Clone, Debug, PartialEq, Eq)]
pub struct ReleaseSpec {
    pub instance_id: String,
    pub expected_selector: String,
    pub confirm_release: bool,
}

/// Runs the installed, elevated, journaled helper.
pub trait HelperElevator {
    /// Whether elevators of this type keep `runs`. One that does not say so
    /// keeps nothing a caller can rely on.
    open spec fn keeps_runs() -> bool {
        false
    }

    /// Every run so far, oldest first: the action, the instance id it was
    /// given, and what came back.
    open spec fn runs(&self) -> Seq<(HelperMutation, Seq<char>, Result<u32, Refusal>)> {
        Seq::empty()
    }

    /// The helper's exit code, or why it could not be run.
    fn run(&mut self, action: HelperMutation, instance_id: &str) -> (r: Result<u32, Refusal>)
        ensures
            Self::keeps_runs() ==> final(self).runs() == old(self).runs().push((action, instance_id@, r)),
    ;
}

/// Surveys the device tree afresh.
pub trait MutationObserver {
    /// Whether observers of this type keep `preflights` and `observations`.
    open spec fn keeps_surveys() -> bool {
        false
    }

    /// Every preflight so far, oldest first: the action, the selector and
    /// instance id it was given, and what came back.
    open spec fn preflights(&self) -> Seq<(HelperMutation, Seq<char>, Seq<char>, Result<ObservedMutation, Refusal>)> {
        Seq::empty()
    }

    /// Every fresh observation so far, oldest first: the instance id it was
    /// given, and what came back.
    open spec fn observations(&self) -> Seq<(Seq<char>, Result<ObservedMutation, Refusal>)> {
        Seq::empty()
    }

    /// The device the request names, checked against the selector the surface
    /// saw, before anything is elevated.
    fn preflight(&mut self, action: HelperMutation, expected_selector: &str, instance_id: &str) -> (r: Result<
        ObservedMutation,
        Refusal,
    >)
        ensures
            Self::keeps_surveys() ==> final(self).preflights() == old(self).preflights().push(
                (action, expected_selector@, instance_id@, r),
            ) && final(self).observations() == old(self).observations(),
    ;

    /// The device as it is now.
    fn observe(&mut self, instance_id: &str) -> (r: Result<ObservedMutation, Refusal>)
        ensures
            Self::keeps_surveys() ==> final(self).observations() == old(self).observations().push(
                (instance_id@, r),
            ) && final(self).preflights() == old(self).preflights(),
    ;
}

/// `after` is `before` with one more entry on the end.
pub open spec fn one_more<A>(before: Seq<A>, after: Seq<A>) -> bool {
    after.len() == before.len() + 1 && after.take(before.len() as int) == before
}

/// One consented mutation, as the calls it made record it: one preflight of
/// the requested device; unless that failed, one run of the helper on the
/// instance the preflight confirmed; unless that failed, one fresh
/// observation of that same instance, whose answer alone decides the verdict.
/// A failing call's refusal is the result, and nothing after it is called.
pub open spec fn mutation_ran(
    action: HelperMutation,
    selector: Seq<char>,
    instance_id: Seq<char>,
    pre0: Seq<(HelperMutation, Seq<char>, Seq<char>, Result<ObservedMutation, Refusal>)>,
    pre1: Seq<(HelperMutation, Seq<char>, Seq<char>, Result<ObservedMutation, Refusal>)>,
    run0: Seq<(HelperMutation, Seq<char>, Result<u32, Refusal>)>,
    run1: Seq<(HelperMutation, Seq<char>, Result<u32, Refusal>)>,
    obs0: Seq<(Seq<char>, Result<ObservedMutation, Refusal>)>,
    obs1: Seq<(Seq<char>, Result<ObservedMutation, Refusal>)>,
    r: Result<MutationView, Refusal>,
) -> bool {
    &&& one_more(pre0, pre1)
    &&& pre1.last().0 == action && pre1.last().1 == selector && pre1.last().2 == instance_id
    &&& match pre1.last().3 {
        Err(e) => r == Err::<MutationView, Refusal>(e) && run1 == run0 && obs1 == obs0,
        Ok(before) => {
            &&& one_more(run0, run1)
            &&& run1.last().0 == action && run1.last().1 == before.instance_id@
            &&& match run1.last().2 {
                Err(e) => r == Err::<MutationView, Refusal>(e) && obs1 == obs0,
                Ok(exit) => {
                    &&& one_more(obs0, obs1)
                    &&& obs1.last().0 == before.instance_id@
                    &&& match obs1.last().1 {
                        Err(e) => r == Err::<MutationView, Refusal>(e),
                        Ok(after) => verdict_holds(action, before, exit, after, r),
                    }
                },
            }
        },
    }
}

/// Is the device after the helper ran the same device, now in the wanted
/// binding and transaction phase?
pub open spec fn reached(
    before: ObservedMutation,
    after: ObservedMutation,
    binding: ObservedBinding,
    phase: TransactionPhase,
) -> bool {
    &&& eq_ignore_case(after.instance_id@, before.instance_id@)
    &&& eq_ignore_case(after.hardware_id@, before.hardware_id@)
    &&& after.binding == binding
    &&& after.ownership is Some
    &&& after.ownership->0.phase == phase
}

pub open spec fn needs_recovery(after: ObservedMutation) -> bool {
    after.ownership is Some && after.ownership->0.phase == TransactionPhase::RecoveryRequired
}

/// The verdict on a mutation, from the observations alone: verified →
/// the final state; a transaction that needs recovery → said so, with its
/// reason; anything else → refused as unverified, naming the helper's exit.
pub open spec fn verdict_holds(
    action: HelperMutation,
    before: ObservedMutation,
    exit: u32,
    after: ObservedMutation,
    r: Result<MutationView, Refusal>,
) -> bool {
    let (binding, phase, state, message, recovery_message, code, what, remedy) = match action {
        HelperMutation::Prepare => (
            ObservedBinding::WinUsb,
            TransactionPhase::Active,
            "prepared"@,
            "this exact keyboard is prepared and live on WinUSB"@,
            "the WinUSB operation did not reach a safely verified final state"@,
            "winusb-prepare-unverified"@,
            "the requested WinUSB binding"@,
            "do not retry blindly; open Driver recovery in KSX"@,
        ),
        HelperMutation::Release => (
            ObservedBinding::HidUsb,
            TransactionPhase::Released,
            "released"@,
            "this exact keyboard is back on the HID keyboard stack"@,
            "release did not reach a safely verified final state"@,
            "winusb-release-unverified"@,
            "the HID keyboard binding"@,
            "do not rescan or reinstall blindly; open Driver recovery in KSX"@,
        ),
    };
    if reached(before, after, binding, phase) {
        r is Ok && r->Ok_0 == (MutationView {
            instance_id: after.instance_id,
            hardware_id: after.hardware_id,
            state: r->Ok_0.state,
            message: r->Ok_0.message,
            warning: None,
        }) && r->Ok_0.state@ == state && r->Ok_0.message@ == message
    } else if needs_recovery(after) {
        r is Ok && r->Ok_0 == (MutationView {
            instance_id: after.instance_id,
            hardware_id: after.ownership->0.hardware_id,
            state: r->Ok_0.state,
            message: r->Ok_0.message,
            warning: after.ownership->0.recovery_reason,
        }) && r->Ok_0.state@ == "recovery-required"@ && r->Ok_0.message@ == recovery_message
    } else {
        r is Err && r->Err_0.code is Named && r->Err_0.code->Named_0@ == code && r->Err_0.message@ == "the elevated helper exited "@
            + decimal(exit as nat) + ", but a fresh survey did not verify "@ + what && r->Err_0.remedy
            is Some && r->Err_0.remedy->0@ == remedy
    }
}

/// A mutation counts as done only on the helper's own receipt: a verdict of
/// "prepared" needs a fresh survey of the same device (instance and hardware
/// id, ASCII case aside) on WinUSB with a KSX ownership record in the Active
/// phase, and "released" one on the HID keyboard stack with the record in
/// the Released phase. A fresh survey with no ownership record is refused
/// as unverified, whatever binding it shows and whatever the helper's exit.
pub proof fn law_only_a_receipt_verifies_a_mutation(
    action: HelperMutation,
    before: ObservedMutation,
    exit: u32,
    after: ObservedMutation,
    r: Result<MutationView, Refusal>,
)
    requires
        verdict_holds(action, before, exit, after, r),
    ensures
        r is Ok && r->Ok_0.state@ == "prepared"@ ==> action == HelperMutation::Prepare
            && after.binding == ObservedBinding::WinUsb && after.ownership is Some
            && after.ownership->0.phase == TransactionPhase::Active
            && eq_ignore_case(after.instance_id@, before.instance_id@)
            && eq_ignore_case(after.hardware_id@, before.hardware_id@),
        r is Ok && r->Ok_0.state@ == "released"@ ==> action == HelperMutation::Release
            && after.binding == ObservedBinding::HidUsb && after.ownership is Some
            && after.ownership->0.phase == TransactionPhase::Released
            && eq_ignore_case(after.instance_id@, before.instance_id@)
            && eq_ignore_case(after.hardware_id@, before.hardware_id@),
        after.ownership is None ==> r is Err && r->Err_0.code is Named,
{
    reveal_strlit("prepared");
    reveal_strlit("released");
    reveal_strlit("recovery-required");
    assert("prepared"@[0] != "released"@[0]);
    assert("prepared"@ != "released"@);
    assert("prepared"@.len() != "recovery-required"@.len());
    assert("released"@.len() != "recovery-required"@.len());
}

/// The verdict on a mutation, trusting the fresh observation only.
pub fn mutation_verdict(
    action: HelperMutation,
    before: &ObservedMutation,
    exit: u32,
    after: ObservedMutation,
) -> (r: Result<MutationView, Refusal>)
    ensures
        verdict_holds(action, *before, exit, after, r),
{
    let wanted_binding = match action {
        HelperMutation::Prepare => ObservedBinding::WinUsb,
        HelperMutation::Release => ObservedBinding::HidUsb,
    };
    let wanted_phase = match action {
        HelperMutation::Prepare => TransactionPhase::Active,
        HelperMutation::Release => TransactionPhase::Released,
    };
    let same_device = same_ignoring_case(after.instance_id.as_str(), before.instance_id.as_str())
        && same_ignoring_case(after.hardware_id.as_str(), before.hardware_id.as_str());
    let phase = match &after.ownership {
        Some(owned) => Some(owned.phase),
        None => None,
    };
    if same_device && after.binding == wanted_binding && phase == Some(wanted_phase) {
        let (state, message) = match action {
            HelperMutation::Prepare => ("prepared", "this exact keyboard is prepared and live on WinUSB"),
            HelperMutation::Release => ("released", "this exact keyboard is back on the HID keyboard stack"),
        };
        return Ok(
            MutationView {
                instance_id: after.instance_id,
                hardware_id: after.hardware_id,
                state: state.to_owned(),
                message: message.to_owned(),
                warning: None,
            },
        );
    }
    if phase == Some(TransactionPhase::RecoveryRequired) {
        let message = match action {
            HelperMutation::Prepare => "the WinUSB operation did not reach a safely verified final state",
            HelperMutation::Release => "release did not reach a safely verified final state",
        };
        match after.ownership {
            Some(owned) => {
                return Ok(
                    MutationView {
                        instance_id: after.instance_id,
                        hardware_id: owned.hardware_id,
                        state: "recovery-required".to_owned(),
                        message: message.to_owned(),
                        warning: owned.recovery_reason,
                    },
                );
            },
            None => {},
        }
    }
    let (code, what, remedy) = match action {
        HelperMutation::Prepare => (
            "winusb-prepare-unverified",
            "the requested WinUSB binding",
            "do not retry blindly; open Driver recovery in KSX",
        ),
        HelperMutation::Release => (
            "winusb-release-unverified",
            "the HID keyboard binding",
            "do not rescan or reinstall blindly; open Driver recovery in KSX",
        ),
    };
    let mut message = "the elevated helper exited ".to_owned();
    push_decimal(&mut message, exit as u64);
    message.append(", but a fresh survey did not verify ");
    message.append(what);
    Err(Refusal { code: RefusalCode::Named(code.to_owned()), message, remedy: Some(remedy.to_owned()) })
}

pub open spec fn bad_request(r: Refusal, message: Seq<char>) -> bool {
    r.code == RefusalCode::BadRequest && r.message@ == message
}

/// Prepare one exact keyboard: all three confirmations first (refused before
/// anything is elevated or surveyed), then a preflight survey, the helper on
/// the instance the preflight confirmed, and a fresh survey whose answer
/// alone decides the verdict.
pub fn prepare_machine_with<E: HelperElevator, O: MutationObserver>(
    spec: &PrepareSpec,
    elevator: &mut E,
    observer: &mut O,
) -> (r: Result<MutationView, Refusal>)
    ensures
        !(spec.confirm_spare_keyboard && spec.confirm_rebind && spec.confirm_machine_certificate)
            ==> r is Err && bad_request(r->Err_0, "all three WinUSB confirmations are required"@)
            && r->Err_0.remedy is Some && r->Err_0.remedy->0@
            == "confirm the spare keyboard, rebind consequence, and machine certificate"@,
        !(spec.confirm_spare_keyboard && spec.confirm_rebind && spec.confirm_machine_certificate)
            ==> (E::keeps_runs() ==> final(elevator).runs() == old(elevator).runs()) && (
            O::keeps_surveys() ==> final(observer).preflights() == old(observer).preflights()
                && final(observer).observations() == old(observer).observations()),
        spec.confirm_spare_keyboard && spec.confirm_rebind && spec.confirm_machine_certificate
            && E::keeps_runs() && O::keeps_surveys() ==> mutation_ran(
            HelperMutation::Prepare,
            spec.expected_selector@,
            spec.instance_id@,
            old(observer).preflights(),
            final(observer).preflights(),
            old(elevator).runs(),
            final(elevator).runs(),
            old(observer).observations(),
            final(observer).observations(),
            r,
        ),
        r is Ok ==> r->Ok_0.state@ == "prepared"@ || r->Ok_0.state@ == "recovery-required"@,
{
    if !(spec.confirm_spare_keyboard && spec.confirm_rebind && spec.confirm_machine_certificate) {
        return Err(
            Refusal {
                code: RefusalCode::BadRequest,
                message: "all three WinUSB confirmations are required".to_owned(),
                remedy: Some(
                    "confirm the spare keyboard, rebind consequence, and machine certificate".to_owned(),
                ),
            },
        );
    }
    mutate(HelperMutation::Prepare, spec.expected_selector.as_str(), spec.instance_id.as_str(), elevator, observer)
}

/// The consented part of a mutation: preflight, helper, fresh survey, verdict.
fn mutate<E: HelperElevator, O: MutationObserver>(
    action: HelperMutation,
    selector: &str,
    instance_id: &str,
    elevator: &mut E,
    observer: &mut O,
) -> (r: Result<MutationView, Refusal>)
    ensures
        E::keeps_runs() && O::keeps_surveys() ==> mutation_ran(
            action,
            selector@,
            instance_id@,
            old(observer).preflights(),
            final(observer).preflights(),
            old(elevator).runs(),
            final(elevator).runs(),
            old(observer).observations(),
            final(observer).observations(),
            r,
        ),
        r is Ok ==> r->Ok_0.state@ == match action {
            HelperMutation::Prepare => "prepared"@,
            HelperMutation::Release => "released"@,
        } || r->Ok_0.state@ == "recovery-required"@,
{
    let ghost pre0 = observer.preflights();
    let ghost obs0 = observer.observations();
    let ghost run0 = elevator.runs();
    let pre = observer.preflight(action, selector, instance_id);
    proof {
        if O::keeps_surveys() {
            assert(observer.preflights().take(pre0.len() as int) =~= pre0);
        }
    }
    let before = match pre {
        Ok(b) => b,
        Err(e) => {
            return Err(e);
        },
    };
    let ran = elevator.run(action, before.instance_id.as_str());
    proof {
        if E::keeps_runs() {
            assert(elevator.runs().take(run0.len() as int) =~= run0);
        }
    }
    let exit = match ran {
        Ok(code) => code,
        Err(e) => {
            return Err(e);
        },
    };
    let seen = observer.observe(before.instance_id.as_str());
    proof {
        if O::keeps_surveys() {
            assert(observer.observations().take(obs0.len() as int) =~= obs0);
        }
    }
    let after = match seen {
        Ok(a) => a,
        Err(e) => {
            return Err(e);
        },
    };
    mutation_verdict(action, &before, exit, after)
}

/// Release one exact keyboard back to the HID stack, on the same terms.
pub fn release_machine_with<E: HelperElevator, O: MutationObserver>(
    spec: &ReleaseSpec,
    elevator: &mut E,
    observer: &mut O,
) -> (r: Result<MutationView, Refusal>)
    ensures
        !spec.confirm_release ==> r is Err && bad_request(
            r->Err_0,
            "release confirmation is required"@,
        ) && r->Err_0.remedy is None,
        !spec.confirm_release ==> (E::keeps_runs() ==> final(elevator).runs() == old(elevator).runs()) && (
            O::keeps_surveys() ==> final(observer).preflights() == old(observer).preflights()
                && final(observer).observations() == old(observer).observations()),
        spec.confirm_release && E::keeps_runs() && O::keeps_surveys() ==> mutation_ran(
            HelperMutation::Release,
            spec.expected_selector@,
            spec.instance_id@,
            old(observer).preflights(),
            final(observer).preflights(),
            old(elevator).runs(),
            final(elevator).runs(),
            old(observer).observations(),
            final(observer).observations(),
            r,
        ),
        r is Ok ==> r->Ok_0.state@ == "released"@ || r->Ok_0.state@ == "recovery-required"@,
{
    if !spec.confirm_release {
        return Err(
            Refusal {
                code: RefusalCode::BadRequest,
                message: "release confirmation is required".to_owned(),
                remedy: None,
            },
        );
    }
    mutate(HelperMutation::Release, spec.expected_selector.as_str(), spec.instance_id.as_str(), elevator, observer)
}

/// What `str::to_uppercase` gives for a string: its full Unicode uppercase
/// mapping, which depends on the characters alone.
pub uninterp spec fn uppercased(s: Seq<char>) -> Seq<char>;

/// `str::to_uppercase`. Claimed: the result is `uppercased` of the argument's
/// characters, and nothing more about what that mapping is.
#[verifier::external_body]
fn to_upper(s: &str) -> (u: String)
    ensures
        u@ == uppercased(s@),
{
    s.to_uppercase()
}

/// Where one USB interface stands with respect to a WinUSB claim.
#[derive(Clone, Copy, Debug, PartialEq, Eq, Structural)]
pub enum ClaimState {
    Claimed,
    Claimable,
    NotAKeyboard,
    ForeignDriver,
    /// A Bluetooth keyboard: no USB interface to bind.
    InterceptionOnly,
}

/// One USB interface the survey found: its instance path, the driver
/// service that owns it, how it describes itself, its claim state, the HID
/// keyboard under it and the board's name when ksx knows the board.
#[derive(Clone, Debug, PartialEq, Eq)]
pub struct CandidateRow {
    pub instance_id: String,
    pub driver: Option<String>,
    pub description: String,
    pub state: ClaimState,
    pub keyboard: Option<String>,
    pub board_name: Option<String>,
}

/// One keyboard devnode: whether it can deliver a keystroke now, and if
/// not, why.
#[derive(Clone, Debug, PartialEq, Eq)]
pub struct KeyboardRow {
    pub instance_id: String,
    pub description: String,
    pub usable: bool,
    pub why_not: Option<String>,
}

/// The read-only USB survey, as `ksx winusb status` shows it.
#[derive(Clone, Debug, PartialEq, Eq)]
pub struct SurveyView {
    pub candidates: Vec<CandidateRow>,
    pub keyboards: Vec<KeyboardRow>,
}

pub open spec fn claim_verdict_text(state: ClaimState) -> Seq<char> {
    match state {
        ClaimState::Claimed => "CLAIMED  — ksx can open this; Windows sees no keyboard"@,
        ClaimState::Claimable => "CLAIMABLE — ksx could claim this"@,
        ClaimState::NotAKeyboard => "no keys   — not a keyboard interface; ksx leaves it alone"@,
        ClaimState::ForeignDriver => "foreign   — another vendor's driver owns it"@,
        ClaimState::InterceptionOnly => "no claim  — Bluetooth: no USB interface to bind, so WinUSB never applies; Interception captures it as it is"@,
    }
}

pub open spec fn candidate_text(c: CandidateRow) -> Seq<char> {
    "  "@ + uppercased(c.instance_id@) + "\n    driver     : "@ + (match c.driver {
        Some(d) => d@,
        None => "(none)"@,
    }) + "\n    device     : "@ + c.description@ + "\n    verdict    : "@ + claim_verdict_text(c.state)
        + "\n"@ + (match c.keyboard {
        Some(k) => "    keyboard   : "@ + k@ + "\n"@,
        None => seq![],
    }) + (match c.board_name {
        Some(n) => "    note       : "@ + n@ + "\n"@,
        None => seq![],
    }) + "\n"@
}

pub open spec fn candidates_text(cs: Seq<CandidateRow>) -> Seq<char>
    decreases cs.len(),
{
    if cs.len() == 0 {
        seq![]
    } else {
        candidates_text(cs.drop_last()) + candidate_text(cs.last())
    }
}

/// How many keyboards can type right now.
pub open spec fn usable_count(ks: Seq<KeyboardRow>) -> nat
    decreases ks.len(),
{
    if ks.len() == 0 {
        0
    } else {
        usable_count(ks.drop_last()) + if ks.last().usable {
            1nat
        } else {
            0nat
        }
    }
}

pub open spec fn usable_text(ks: Seq<KeyboardRow>) -> Seq<char>
    decreases ks.len(),
{
    if ks.len() == 0 {
        seq![]
    } else {
        let k = ks.last();
        usable_text(ks.drop_last()) + if k.usable {
            "  "@ + k.instance_id@ + "  "@ + k.description@ + "\n"@
        } else {
            seq![]
        }
    }
}

pub open spec fn unusable_text(ks: Seq<KeyboardRow>) -> Seq<char>
    decreases ks.len(),
{
    if ks.len() == 0 {
        seq![]
    } else {
        let k = ks.last();
        unusable_text(ks.drop_last()) + if !k.usable {
            "  "@ + k.instance_id@ + "  "@ + k.description@ + " — "@ + (match k.why_not {
                Some(w) => w@,
                None => "unknown"@,
            }) + "\n"@
        } else {
            seq![]
        }
    }
}

pub open spec fn one_keyboard_warning() -> Seq<char> {
    "\n[!] Only one keyboard is present. `ksx winusb claim` will REFUSE to take it: a\n    claimed interface is invisible to Windows, and SendInput re-injection cannot\n    reach the lock screen, a UAC prompt or Ctrl+Alt+Del. Plug a second keyboard\n    into a different port and leave it unassigned.\n"@
}

pub open spec fn claim_lifetime_note() -> Seq<char> {
    "\nA claimed panel types only while ksx is running: `ksx daemon` holds the claim for\nits whole lifetime and re-injects the panel's keys whenever emulation is stopped,\nincluding between two games. `ksx run` claims for one session only, so the panel is\ndark before and after it. See docs/ARCHITECTURE.md \"M6\" and docs/RECOVERY.md section 2.\n"@
}

/// `ksx winusb status`: every interface with its driver, canonical
/// (uppercase) instance path and verdict; then the keyboards that can type
/// right now and those that are present but cannot; the one-keyboard warning
/// when at most one can type; and what a claim means for the panel.
pub open spec fn status_text(v: SurveyView) -> Seq<char> {
    let ks = v.keyboards@;
    "USB interfaces ksx can reason about (read-only; nothing was opened)\n\n"@ + (if v.candidates@.len() == 0 {
        "  (none found)\n"@
    } else {
        seq![]
    }) + candidates_text(v.candidates@) + "keyboards that can type right now: "@ + decimal(usable_count(ks))
        + "\n"@ + usable_text(ks) + (if usable_count(ks) < ks.len() {
        "not counted (present, but cannot deliver a keystroke):\n"@ + unusable_text(ks)
    } else {
        seq![]
    }) + (if usable_count(ks) <= 1 {
        one_keyboard_warning()
    } else {
        seq![]
    }) + claim_lifetime_note()
}

proof fn lemma_usable_count_bound(ks: Seq<KeyboardRow>)
    ensures
        usable_count(ks) <= ks.len(),
        usable_count(ks) < ks.len() <==> exists|i: int| 0 <= i < ks.len() && !(#[trigger] ks[i]).usable,
        usable_count(ks) == ks.len() ==> unusable_text(ks) == Seq::<char>::empty(),
    decreases ks.len(),
{
    if ks.len() > 0 {
        let init = ks.drop_last();
        lemma_usable_count_bound(init);
        if exists|i: int| 0 <= i < init.len() && !(#[trigger] init[i]).usable {
            let i = choose|i: int| 0 <= i < init.len() && !(#[trigger] init[i]).usable;
            assert(!ks[i].usable);
        }
        if exists|i: int| 0 <= i < ks.len() && !(#[trigger] ks[i]).usable {
            let i = choose|i: int| 0 <= i < ks.len() && !(#[trigger] ks[i]).usable;
            if i < ks.len() - 1 {
                assert(!init[i].usable);
            }
        }
    }
}

fn push_verdict(out: &mut String, state: ClaimState)
    ensures
        final(out)@ == old(out)@ + claim_verdict_text(state),
{
    match state {
        ClaimState::Claimed => out.append("CLAIMED  — ksx can open this; Windows sees no keyboard"),
        ClaimState::Claimable => out.append("CLAIMABLE — ksx could claim this"),
        ClaimState::NotAKeyboard => out.append("no keys   — not a keyboard interface; ksx leaves it alone"),
        ClaimState::ForeignDriver => out.append("foreign   — another vendor's driver owns it"),
        ClaimState::InterceptionOnly => out.append(
            "no claim  — Bluetooth: no USB interface to bind, so WinUSB never applies; Interception captures it as it is",
        ),
    }
}

/// Appends `label`, the value and a line break, when there is a value.
fn push_field(out: &mut String, label: &str, value: &Option<String>)
    ensures
        final(out)@ == old(out)@ + match *value {
            Some(v) => label@ + v@ + "\n"@,
            None => Seq::<char>::empty(),
        },
{
    match value {
        Some(v) => {
            out.append(label);
            out.append(v.as_str());
            out.append("\n");
        },
        None => {
            proof {
                assert(out@ =~= old(out)@ + Seq::<char>::empty());
            }
        },
    }
}

fn push_candidate(out: &mut String, c: &CandidateRow)
    ensures
        final(out)@ == old(out)@ + candidate_text(*c),
{
    let ghost start = out@;
    out.append("  ");
    out.append(to_upper(c.instance_id.as_str()).as_str());
    out.append("\n    driver     : ");
    match &c.driver {
        Some(d) => out.append(d.as_str()),
        None => out.append("(none)"),
    }
    out.append("\n    device     : ");
    out.append(c.description.as_str());
    out.append("\n    verdict    : ");
    push_verdict(out, c.state);
    out.append("\n");
    let ghost mid = out@;
    push_field(out, "    keyboard   : ", &c.keyboard);
    push_field(out, "    note       : ", &c.board_name);
    out.append("\n");
    proof {
        assert(out@ =~= old(out)@ + candidate_text(*c));
    }
}

pub fn render_status(survey: &SurveyView) -> (text: String)
    ensures
        text@ == status_text(*survey),
{
    let mut out = "USB interfaces ksx can reason about (read-only; nothing was opened)\n\n".to_owned();
    if survey.candidates.len() == 0 {
        out.append("  (none found)\n");
    }
    let ghost head = out@;
    let mut i: usize = 0;
    while i < survey.candidates.len()
        invariant
            i <= survey.candidates@.len(),
            out@ == head + candidates_text(survey.candidates@.take(i as int)),
        decreases survey.candidates.len() - i,
    {
        assert(survey.candidates@.take(i + 1).drop_last() =~= survey.candidates@.take(i as int));
        push_candidate(&mut out, &survey.candidates[i]);
        proof {
            assert(out@ =~= head + candidates_text(survey.candidates@.take(i + 1)));
        }
        i = i + 1;
    }
    assert(survey.candidates@.take(survey.candidates@.len() as int) =~= survey.candidates@);
    let ks = &survey.keyboards;
    let mut count: usize = 0;
    let mut usable = String::new();
    let mut unusable = String::new();
    let mut j: usize = 0;
    while j < ks.len()
        invariant
            j <= ks@.len(),
            count == usable_count(ks@.take(j as int)),
            count <= j,
            usable@ == usable_text(ks@.take(j as int)),
            unusable@ == unusable_text(ks@.take(j as int)),
        decreases ks.len() - j,
    {
        assert(ks@.take(j + 1).drop_last() =~= ks@.take(j as int));
        let k = &ks[j];
        if k.usable {
            count = count + 1;
            usable.append("  ");
            usable.append(k.instance_id.as_str());
            usable.append("  ");
            usable.append(k.description.as_str());
            usable.append("\n");
        } else {
            unusable.append("  ");
            unusable.append(k.instance_id.as_str());
            unusable.append("  ");
            unusable.append(k.description.as_str());
            unusable.append(" — ");
            match &k.why_not {
                Some(w) => unusable.append(w.as_str()),
                None => unusable.append("unknown"),
            }
            unusable.append("\n");
        }
        proof {
            assert(usable@ =~= usable_text(ks@.take(j + 1)));
            assert(unusable@ =~= unusable_text(ks@.take(j + 1)));
        }
        j = j + 1;
    }
    assert(ks@.take(ks@.len() as int) =~= ks@);
    proof {
        lemma_usable_count_bound(ks@);
    }
    out.append("keyboards that can type right now: ");
    push_decimal(&mut out, count as u64);
    out.append("\n");
    out.append(usable.as_str());
    if count < ks.len() {
        out.append("not counted (present, but cannot deliver a keystroke):\n");
        out.append(unusable.as_str());
    }
    if count <= 1 {
        out.append(
            "\n[!] Only one keyboard is present. `ksx winusb claim` will REFUSE to take it: a\n    claimed interface is invisible to Windows, and SendInput re-injection cannot\n    reach the lock screen, a UAC prompt or Ctrl+Alt+Del. Plug a second keyboard\n    into a different port and leave it unassigned.\n",
        );
    }
    out.append(
        "\nA claimed panel types only while ksx is running: `ksx daemon` holds the claim for\nits whole lifetime and re-injects the panel's keys whenever emulation is stopped,\nincluding between two games. `ksx run` claims for one session only, so the panel is\ndark before and after it. See docs/ARCHITECTURE.md \"M6\" and docs/RECOVERY.md section 2.\n",
    );
    proof {
        assert(out@ =~= status_text(*survey));
    }
    out
}

/// A claim or release is done only when the fresh state afterwards is the
/// one asked for, on the exact interface asked for (ASCII case aside).
pub fn mutation_confirmed(view: &MutationView, expected: &str, instance_id: &str) -> (ok: bool)
    ensures
        ok == (view.state@ == expected@ && eq_ignore_case(view.instance_id@, instance_id@)),
{
    crate::text::str_eq(view.state.as_str(), expected) && same_ignoring_case(view.instance_id.as_str(), instance_id)
}

/// What a refused mutation prints on stderr before exiting with
/// `EXIT_APPLY_FAILED`: the message, then the remedy after a blank line.
pub fn refused_text(refusal: &Refusal) -> (text: String)
    ensures
        text@ == "REFUSED: "@ + refusal.message@ + match refusal.remedy {
            Some(r) => "\n\n"@ + r@,
            None => Seq::<char>::empty(),
        },
{
    let mut text = "REFUSED: ".to_owned();
    text.append(refusal.message.as_str());
    match &refusal.remedy {
        Some(r) => {
            text.append("\n\n");
            text.append(r.as_str());
        },
        None => {
            proof {
                assert(text@ =~= text@ + Seq::<char>::empty());
            }
        },
    }
    text
}

/// What an unconfirmed mutation prints on stderr before exiting with
/// `EXIT_RECOVERY_REQUIRED`: what was expected, what the authoritative state
/// is, the view's message and its warning.
pub fn unverified_text(view: &MutationView, expected: &str) -> (text: String)
    ensures
        text@ == "RECOVERY REQUIRED: expected "@ + expected@ + ", but the authoritative post-operation state is "@
            + view.state@ + ".\n\n"@ + view.message@ + match view.warning {
            Some(w) => "\n\n"@ + w@,
            None => Seq::<char>::empty(),
        },
{
    let mut text = "RECOVERY REQUIRED: expected ".to_owned();
    text.append(expected);
    text.append(", but the authoritative post-operation state is ");
    text.append(view.state.as_str());
    text.append(".\n\n");
    text.append(view.message.as_str());
    match &view.warning {
        Some(w) => {
            text.append("\n\n");
            text.append(w.as_str());
        },
        None => {
            proof {
                assert(text@ =~= text@ + Seq::<char>::empty());
            }
        },
    }
    text
}

pub open spec fn secure_apply_note() -> Seq<char> {
    "\nSECURE APPLY: the installed elevated helper will re-resolve this exact interface,\ncreate a durable rollback receipt, generate and sign a fixed WinUSB-only catalog,\nand install a machine-local certificate. --yes confirms all three consequences:\na spare keyboard is connected; this interface leaves the keyboard stack; and the\ntemporary KSX signing certificate is trusted until release/cleanup.\n"@
}

/// What `ksx winusb claim` prints under the plan: what applying means, and
/// that nothing happened unless it is applied.
pub fn claim_note(will_apply: bool) -> (text: String)
    ensures
        text@ == secure_apply_note() + if will_apply {
            Seq::<char>::empty()
        } else {
            "\nNothing was written and nothing was run. Re-run with --yes to apply.\nRead docs/MIGRATION-WINUSB.md first — this changes what the device IS.\n"@
        },
{
    let mut text = "\nSECURE APPLY: the installed elevated helper will re-resolve this exact interface,\ncreate a durable rollback receipt, generate and sign a fixed WinUSB-only catalog,\nand install a machine-local certificate. --yes confirms all three consequences:\na spare keyboard is connected; this interface leaves the keyboard stack; and the\ntemporary KSX signing certificate is trusted until release/cleanup.\n".to_owned();
    if !will_apply {
        text.append(
            "\nNothing was written and nothing was run. Re-run with --yes to apply.\nRead docs/MIGRATION-WINUSB.md first — this changes what the device IS.\n",
        );
    } else {
        proof {
            assert(text@ =~= secure_apply_note() + Seq::<char>::empty());
        }
    }
    text
}

/// What `ksx winusb release` prints under the plan: that `--force` changes
/// only the plan, and that nothing ran unless it is applied.
pub fn release_note(will_apply: bool, force: bool) -> (text: String)
    ensures
        text@ == (if force {
            "\nNOTE: --force changes only the read-only recovery plan. Secure apply still\nrequires an exact KSX ownership receipt and cannot release a foreign package.\n"@
        } else {
            Seq::<char>::empty()
        }) + if will_apply {
            Seq::<char>::empty()
        } else {
            "\nNothing was run. Re-run with --yes to apply.\n"@
        },
{
    let mut text = String::new();
    if force {
        text.append(
            "\nNOTE: --force changes only the read-only recovery plan. Secure apply still\nrequires an exact KSX ownership receipt and cannot release a foreign package.\n",
        );
    }
    if !will_apply {
        text.append("\nNothing was run. Re-run with --yes to apply.\n");
    }
    proof {
        reveal_strlit("");
        assert(text@ =~= (if force {
            "\nNOTE: --force changes only the read-only recovery plan. Secure apply still\nrequires an exact KSX ownership receipt and cannot release a foreign package.\n"@
        } else {
            Seq::<char>::empty()
        }) + if will_apply {
            Seq::<char>::empty()
        } else {
            "\nNothing was run. Re-run with --yes to apply.\n"@
        });
    }
    text
}

/// The way back from a confirmed preparation.
pub fn undo_hint(instance_id: &str) -> (text: String)
    ensures
        text@ == "To undo this exact KSX-owned preparation:\n  ksx winusb release "@ + instance_id@ + " --yes"@,
{
    let mut text = "To undo this exact KSX-owned preparation:\n  ksx winusb release ".to_owned();
    text.append(instance_id);
    text.append(" --yes");
    text
}

} // verus!
