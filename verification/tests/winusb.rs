use ksx_backend::winusb::{
    claim_note, mutation_confirmed, refused_text, release_note, render_status, undo_hint,
    unverified_text, CandidateRow, ClaimState, KeyboardRow, MutationView, SurveyView,
    helper_arguments, helper_exit_meaning, mutation_verdict, prepare_machine_with,
    release_machine_with, HelperElevator, HelperMutation, MutationObserver, ObservedBinding,
    ObservedMutation, Ownership, PrepareSpec, Refusal, RefusalCode, ReleaseSpec, TransactionPhase,
    EXIT_APPLY_FAILED, EXIT_RECOVERY_REQUIRED, EXIT_REFUSED,
};
use std::cell::RefCell;

#[test]
fn helper_argv_is_the_fixed_path_free_contract() {
    let instance = r"USB\VID_D209&PID_0430&MI_00\EXACT";
    assert_eq!(
        helper_arguments(HelperMutation::Prepare, instance),
        vec![
            "prepare-exact",
            instance,
            "--confirm-spare-keyboard",
            "--confirm-rebind",
            "--confirm-machine-certificate",
        ]
    );
    assert_eq!(
        helper_arguments(HelperMutation::Release, instance),
        vec!["release-exact", instance, "--confirm-release"]
    );
}

#[test]
fn exit_codes_match_the_rest_of_the_cli() {
    assert_eq!(EXIT_REFUSED, ksx_backend::EXIT_CANNOT_START);
    assert_eq!(EXIT_REFUSED, ksx_backend::setup::EXIT_REFUSED);
    assert_eq!(EXIT_APPLY_FAILED, 3);
    assert_eq!(EXIT_RECOVERY_REQUIRED, 4);
}

#[test]
fn helper_exit_codes_read_as_sentences() {
    assert_eq!(helper_exit_meaning(0), "success");
    assert_eq!(
        helper_exit_meaning(2),
        "refused: a precondition the helper will not override"
    );
    assert_eq!(
        helper_exit_meaning(4),
        "recovery-required: durable state needs inspection before retry"
    );
    assert_eq!(helper_exit_meaning(77), "unrecognised");
}

fn observed(binding: ObservedBinding, phase: Option<TransactionPhase>) -> ObservedMutation {
    ObservedMutation {
        instance_id: r"USB\VID_D209&PID_0430&MI_00\EXACT".into(),
        hardware_id: r"USB\VID_D209&PID_0430&MI_00".into(),
        binding,
        ownership: phase.map(|phase| Ownership {
            phase,
            hardware_id: r"USB\VID_D209&PID_0430&MI_00".into(),
            recovery_reason: Some("journal half-applied".into()),
        }),
    }
}

struct FakeElevator {
    exit: u32,
    calls: RefCell<Vec<(HelperMutation, String)>>,
}

impl HelperElevator for FakeElevator {
    fn run(&mut self, action: HelperMutation, instance_id: &str) -> Result<u32, Refusal> {
        self.calls.borrow_mut().push((action, instance_id.to_owned()));
        Ok(self.exit)
    }
}

struct FakeObserver {
    after: ObservedMutation,
    surveyed: usize,
}

fn fake_observer(after: ObservedMutation) -> FakeObserver {
    FakeObserver { after, surveyed: 0 }
}

impl MutationObserver for FakeObserver {
    fn preflight(
        &mut self,
        _action: HelperMutation,
        _expected_selector: &str,
        _instance_id: &str,
    ) -> Result<ObservedMutation, Refusal> {
        self.surveyed += 1;
        Ok(observed(ObservedBinding::HidUsb, None))
    }

    fn observe(&mut self, _instance_id: &str) -> Result<ObservedMutation, Refusal> {
        self.surveyed += 1;
        Ok(self.after.clone())
    }
}

fn prepare_spec(all: bool) -> PrepareSpec {
    PrepareSpec {
        instance_id: r"USB\VID_D209&PID_0430&MI_00\EXACT".into(),
        expected_selector: "usb:d209:0430:0".into(),
        confirm_spare_keyboard: true,
        confirm_rebind: all,
        confirm_machine_certificate: true,
    }
}

#[test]
fn machine_prepare_trusts_fresh_state_not_helper_exit_or_output() {
    let mut elevator = FakeElevator {
        exit: 3,
        calls: RefCell::new(Vec::new()),
    };
    let mut observer = fake_observer(observed(ObservedBinding::WinUsb, Some(TransactionPhase::Active)));
    let result = prepare_machine_with(&prepare_spec(true), &mut elevator, &mut observer).unwrap();
    assert_eq!(result.state, "prepared");
    assert_eq!(result.message, "this exact keyboard is prepared and live on WinUSB");
    assert_eq!(
        elevator.calls.borrow().as_slice(),
        [(HelperMutation::Prepare, r"USB\VID_D209&PID_0430&MI_00\EXACT".to_owned())]
    );
    assert_eq!(observer.surveyed, 2);

    let mut unverified = fake_observer(observed(ObservedBinding::HidUsb, None));
    let mut ok_exit = FakeElevator {
        exit: 0,
        calls: RefCell::new(Vec::new()),
    };
    let refusal = prepare_machine_with(&prepare_spec(true), &mut ok_exit, &mut unverified).unwrap_err();
    assert_eq!(refusal.code, RefusalCode::Named("winusb-prepare-unverified".into()));
    assert_eq!(
        refusal.message,
        "the elevated helper exited 0, but a fresh survey did not verify the requested WinUSB binding"
    );
}

#[test]
fn machine_prepare_refuses_before_elevation_without_all_consents() {
    let mut elevator = FakeElevator {
        exit: 0,
        calls: RefCell::new(Vec::new()),
    };
    let mut observer = fake_observer(observed(ObservedBinding::WinUsb, Some(TransactionPhase::Active)));
    let refusal = prepare_machine_with(&prepare_spec(false), &mut elevator, &mut observer).unwrap_err();
    assert_eq!(refusal.message, "all three WinUSB confirmations are required");
    assert_eq!(refusal.code, RefusalCode::BadRequest);
    assert!(elevator.calls.borrow().is_empty());
    assert_eq!(observer.surveyed, 0);
}

#[test]
fn machine_release_normalizes_only_verified_hidusb_to_released() {
    let spec = ReleaseSpec {
        instance_id: r"USB\VID_D209&PID_0430&MI_00\EXACT".into(),
        expected_selector: "usb:d209:0430:0".into(),
        confirm_release: true,
    };
    let mut elevator = FakeElevator {
        exit: 0,
        calls: RefCell::new(Vec::new()),
    };
    let mut released = fake_observer(observed(ObservedBinding::HidUsb, Some(TransactionPhase::Released)));
    assert_eq!(
        release_machine_with(&spec, &mut elevator, &mut released).unwrap().state,
        "released"
    );
    let mut still_winusb = fake_observer(observed(ObservedBinding::WinUsb, Some(TransactionPhase::Released)));
    assert_eq!(
        release_machine_with(&spec, &mut elevator, &mut still_winusb)
            .unwrap_err()
            .code,
        RefusalCode::Named("winusb-release-unverified".into())
    );
    let no_consent = ReleaseSpec {
        confirm_release: false,
        ..spec
    };
    assert_eq!(
        release_machine_with(&no_consent, &mut elevator, &mut released)
            .unwrap_err()
            .message,
        "release confirmation is required"
    );
}

#[test]
fn a_transaction_needing_recovery_says_so_with_its_reason() {
    let before = observed(ObservedBinding::HidUsb, None);
    let after = observed(ObservedBinding::Other, Some(TransactionPhase::RecoveryRequired));
    let view = mutation_verdict(HelperMutation::Prepare, &before, 4, after).unwrap();
    assert_eq!(view.state, "recovery-required");
    assert_eq!(view.warning.as_deref(), Some("journal half-applied"));
    assert_eq!(
        view.message,
        "the WinUSB operation did not reach a safely verified final state"
    );
}

#[test]
fn a_different_device_after_the_helper_is_not_a_success() {
    let before = observed(ObservedBinding::HidUsb, None);
    let mut after = observed(ObservedBinding::WinUsb, Some(TransactionPhase::Active));
    after.instance_id = r"USB\VID_D209&PID_0430&MI_00\OTHER".into();
    assert!(mutation_verdict(HelperMutation::Prepare, &before, 0, after).is_err());
    // The instance id is compared without regard to ASCII case.
    let mut lower = observed(ObservedBinding::WinUsb, Some(TransactionPhase::Active));
    lower.instance_id = lower.instance_id.to_lowercase();
    assert!(mutation_verdict(HelperMutation::Prepare, &before, 0, lower).is_ok());
}

const PANEL_USB: &str = r"USB\VID_D209&PID_0430&MI_00\7&1a2b3c4d&0&0000";
const PANEL_HID: &str = r"HID\VID_D209&PID_0430&MI_00\8&a1b2c3d4&0&0000";

fn one_keyboard_only() -> SurveyView {
    SurveyView {
        candidates: vec![CandidateRow {
            instance_id: PANEL_USB.into(),
            driver: Some("HidUsb".into()),
            description: "USB Input Device".into(),
            state: ClaimState::Claimable,
            keyboard: Some(PANEL_HID.into()),
            board_name: Some("Ultimarc I-PAC".into()),
        }],
        keyboards: vec![KeyboardRow {
            instance_id: PANEL_HID.into(),
            description: "HID Keyboard Device".into(),
            usable: true,
            why_not: None,
        }],
    }
}

#[test]
fn status_warns_loudly_when_there_is_only_one_keyboard() {
    let text = render_status(&one_keyboard_only());
    assert!(text.contains("Only one keyboard"), "{text}");
    assert!(text.contains("REFUSE"), "{text}");
    assert!(text.contains("lock screen"), "{text}");
    assert!(text.contains("different port"), "{text}");
}

#[test]
fn status_prints_the_instance_path_the_other_verbs_take() {
    let text = render_status(&one_keyboard_only());
    let canonical = r"USB\VID_D209&PID_0430&MI_00\7&1A2B3C4D&0&0000";
    assert!(text.contains(canonical), "{text}");
    assert!(
        !text.contains(r"7&1a2b3c4d&0&0000"),
        "the non-canonical casing must not be what a user copies: {text}"
    );
    assert!(
        text.contains(r"HID\VID_D209&PID_0430&MI_00\8&a1b2c3d4&0&0000"),
        "the HID keyboard child is what `ksx devices` shows: {text}"
    );
    assert!(text.contains("CLAIMABLE"), "{text}");
    assert!(text.contains("Ultimarc"), "{text}");
    assert!(text.contains("only while ksx is running"), "{text}");
}

#[test]
fn status_says_nothing_was_opened() {
    let empty = SurveyView { candidates: Vec::new(), keyboards: Vec::new() };
    let text = render_status(&empty);
    assert!(text.contains("nothing was opened"));
    assert!(text.contains("  (none found)\n"));
    assert!(text.contains("keyboards that can type right now: 0\n"));
}

#[test]
fn status_does_not_count_a_keyboard_that_cannot_type() {
    let mut survey = one_keyboard_only();
    survey.keyboards.push(KeyboardRow {
        instance_id: r"BTHENUM\{00001124-0000-1000-8000-00805F9B34FB}_VID&0002045E_PID&0800\7&A1B2C3D4&0&02A1B2C3D4E5_C00000000".into(),
        description: "Bluetooth Keyboard".into(),
        usable: false,
        why_not: Some("not connected".into()),
    });
    let text = render_status(&survey);
    assert!(text.contains("keyboards that can type right now: 1"), "{text}");
    assert!(text.contains("not counted"), "{text}");
    assert!(text.contains("not connected"), "{text}");
    assert!(text.contains("Only one keyboard"), "the warning must still fire: {text}");
}

#[test]
fn two_typing_keyboards_silence_the_warning() {
    let mut survey = one_keyboard_only();
    survey.keyboards.push(KeyboardRow {
        instance_id: r"HID\VID_04D9&PID_0169\1".into(),
        description: "Desk".into(),
        usable: true,
        why_not: None,
    });
    survey.candidates[0].state = ClaimState::InterceptionOnly;
    survey.candidates[0].driver = None;
    let text = render_status(&survey);
    assert!(text.contains("keyboards that can type right now: 2\n"), "{text}");
    assert!(!text.contains("Only one keyboard"), "{text}");
    assert!(!text.contains("not counted"), "{text}");
    assert!(text.contains("    driver     : (none)\n"), "{text}");
    assert!(text.contains("no claim  — Bluetooth"), "{text}");
}

fn view(state: &str, id: &str, warning: Option<&str>) -> MutationView {
    MutationView {
        instance_id: id.into(),
        hardware_id: "USB\\VID_D209&PID_0430".into(),
        state: state.into(),
        message: "the helper finished".into(),
        warning: warning.map(str::to_owned),
    }
}

#[test]
fn a_mutation_counts_only_in_the_state_asked_for_on_the_interface_asked_for() {
    assert!(mutation_confirmed(&view("prepared", "USB\\X\\ab", None), "prepared", "usb\\x\\AB"));
    assert!(!mutation_confirmed(&view("prepared", "USB\\Y", None), "prepared", "USB\\X"));
    assert!(!mutation_confirmed(&view("recovery-required", "USB\\X", None), "prepared", "USB\\X"));
    assert_eq!(
        unverified_text(&view("recovery-required", "USB\\X", Some("reboot first")), "prepared"),
        "RECOVERY REQUIRED: expected prepared, but the authoritative post-operation state is recovery-required.\n\nthe helper finished\n\nreboot first"
    );
    let refusal = Refusal {
        code: RefusalCode::Refused,
        message: "missing consent".into(),
        remedy: Some("pass --yes".into()),
    };
    assert_eq!(refused_text(&refusal), "REFUSED: missing consent\n\npass --yes");
    assert_eq!(undo_hint("USB\\X"), "To undo this exact KSX-owned preparation:\n  ksx winusb release USB\\X --yes");
}

#[test]
fn nothing_happens_without_yes_and_the_notes_say_so() {
    assert!(claim_note(false).contains("Nothing was written and nothing was run"));
    assert!(!claim_note(true).contains("Nothing was written"));
    assert!(claim_note(true).starts_with("\nSECURE APPLY"));
    assert_eq!(release_note(true, false), "");
    assert!(release_note(false, true).contains("--force changes only the read-only recovery plan"));
    assert!(release_note(false, false).contains("Nothing was run."));
}
