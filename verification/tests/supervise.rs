use ksx_backend::supervise::{
    ambiguous_captured, new_session, supervise_next, Session, SessionAction, SessionEvent, SessionPhase,
};
use ksx_backend::supervisor::{CaptureOrder, StopReason};

const PANEL: &str = r"HID\VID_D209&PID_0430&MI_00\8&A1B2C3D4&0&0000";
const DESK: &str = r"HID\VID_F00D&PID_BEEF&MI_00\7&1&0000";

fn step(s: Session, e: SessionEvent) -> (Session, SessionAction) {
    supervise_next(s, e)
}

#[test]
fn two_keyboards_sharing_a_bound_id_refuse_before_anything_is_plugged() {
    let devices = vec![PANEL.to_owned(), DESK.to_owned(), PANEL.to_owned()];
    assert_eq!(ambiguous_captured(&devices, &vec![PANEL.to_owned()]), vec![PANEL.to_owned()]);
    assert!(ambiguous_captured(&devices, &vec![DESK.to_owned()]).is_empty());

    let s = new_session(vec![PANEL.to_owned()], vec![(1, PANEL.to_owned()), (2, PANEL.to_owned())], false, true);
    let (s, a) = step(s, SessionEvent::Enumerated(devices));
    let SessionAction::Refuse(StopReason::AmbiguousDevices { ids }) = a else {
        panic!("expected a refusal, got {a:?}");
    };
    assert_eq!(ids, vec![PANEL.to_owned()]);
    assert_eq!(s.phase, SessionPhase::Finished);
    let (_, a) = step(s, SessionEvent::StepDone);
    assert!(matches!(a, SessionAction::Idle));
}

#[test]
fn a_session_plugs_then_captures_in_passthrough_then_blocks_only_bound_keyboards() {
    let s = new_session(vec![PANEL.to_owned()], vec![(1, PANEL.to_owned()), (2, PANEL.to_owned())], false, true);
    let (s, a) = step(s, SessionEvent::Enumerated(vec![PANEL.to_owned(), DESK.to_owned()]));
    assert!(matches!(a, SessionAction::PlugPads));
    assert_eq!(s.present, vec![PANEL.to_owned()]);
    let (s, a) = step(s, SessionEvent::PadsPlugged);
    assert!(matches!(a, SessionAction::StartCapture));
    let (s, a) = step(s, SessionEvent::CaptureStarted);
    let SessionAction::Capture(CaptureOrder::Whole(ids)) = a else {
        panic!("expected blocking for the bound keyboard, got {a:?}");
    };
    assert_eq!(ids, vec![PANEL.to_owned()]);
    let (s, a) = step(s, SessionEvent::StepDone);
    assert!(matches!(a, SessionAction::StartHook), "the hook starts only once blocking is applied");
    let (s, a) = step(s, SessionEvent::HookStarted(Ok(())));
    assert!(matches!(a, SessionAction::Poll));
    assert_eq!(s.phase, SessionPhase::Running);

    // The panel is unplugged: the engine releases what it held, both of its
    // slots are invalidated, and capture is told, with nothing to take.
    let (s, a) = step(s, SessionEvent::Presence(Vec::new()));
    let SessionAction::Rebind { released, order } = a else {
        panic!("expected a rebind, got {a:?}");
    };
    assert_eq!(released, vec![PANEL.to_owned()]);
    assert!(matches!(order, CaptureOrder::Passthrough));
    assert_eq!(s.invalidated, vec![1, 2]);
    // ...and back: its slots are valid again.
    let (s, a) = step(s, SessionEvent::Presence(vec![PANEL.to_owned()]));
    let SessionAction::Rebind { released, order } = a else {
        panic!("expected a rebind, got {a:?}");
    };
    assert!(released.is_empty());
    assert!(matches!(order, CaptureOrder::Whole(_)));
    assert!(s.invalidated.is_empty());
    let (s, a) = step(s, SessionEvent::Quiet);
    assert!(matches!(a, SessionAction::Poll));
    // LeftCtrl x5: blocking goes off, so macros in flight are cancelled.
    let (s, a) = step(s, SessionEvent::Escaped(false));
    assert!(matches!(a, SessionAction::Unblocked(CaptureOrder::Passthrough)));
    let (s, a) = step(s, SessionEvent::Escaped(true));
    assert!(matches!(a, SessionAction::Capture(CaptureOrder::Whole(_))));

    // Teardown: finish the hook, release, then stop the engine, then unplug.
    let (s, a) = step(s, SessionEvent::Stopped(StopReason::CtrlC));
    assert!(matches!(a, SessionAction::FinishHook));
    let (s, a) = step(s, SessionEvent::StepDone);
    assert!(matches!(a, SessionAction::ReleaseKeyboards));
    let (s, a) = step(s, SessionEvent::Escaped(false));
    assert!(matches!(a, SessionAction::Idle), "nothing re-arms capture after release");
    let (s, a) = step(s, SessionEvent::StepDone);
    assert!(matches!(a, SessionAction::StopEngine));
    let (s, a) = step(s, SessionEvent::StepDone);
    assert!(matches!(a, SessionAction::UnplugPads));
    assert_eq!(s.phase, SessionPhase::Finished);
    assert_eq!(s.stop, Some(StopReason::CtrlC));
}

#[test]
fn a_failed_game_launch_tears_down_in_order() {
    let s = new_session(vec![PANEL.to_owned()], vec![(1, PANEL.to_owned())], true, true);
    let (s, _) = step(s, SessionEvent::Enumerated(vec![PANEL.to_owned()]));
    let (s, _) = step(s, SessionEvent::PadsPlugged);
    let (s, a) = step(s, SessionEvent::CaptureStarted);
    assert!(matches!(a, SessionAction::Capture(CaptureOrder::PerKey(_))));
    let (s, a) = step(s, SessionEvent::StepDone);
    assert!(matches!(a, SessionAction::StartHook));
    let (s, a) = step(s, SessionEvent::HookStarted(Err("no such game".to_owned())));
    assert!(matches!(a, SessionAction::FinishHook));
    let (s, a) = step(s, SessionEvent::StepDone);
    assert!(matches!(a, SessionAction::ReleaseKeyboards));
    assert_eq!(s.stop, Some(StopReason::GameLaunchFailed("no such game".to_owned())));
}

#[test]
fn a_plug_failure_unplugs_with_nothing_ever_captured() {
    let s = new_session(vec![PANEL.to_owned()], vec![(1, PANEL.to_owned()), (2, PANEL.to_owned())], false, true);
    let (s, _) = step(s, SessionEvent::Enumerated(vec![PANEL.to_owned()]));
    let why = StopReason::PlugFailed { message: "bus missing".to_owned(), bus_missing: true };
    let (s, a) = step(s, SessionEvent::PlugFailed(why.clone()));
    assert!(matches!(a, SessionAction::UnplugPads));
    assert_eq!(s.stop, Some(why));
}

#[test]
fn a_capture_thread_that_cannot_start_after_plugging_ends_with_a_reason() {
    let s = new_session(vec![PANEL.to_owned()], vec![(1, PANEL.to_owned())], false, true);
    let (s, _) = step(s, SessionEvent::Enumerated(vec![PANEL.to_owned()]));
    let (s, _) = step(s, SessionEvent::PadsPlugged);
    let (s, a) = step(s, SessionEvent::CaptureFailed("no driver".to_owned()));
    assert!(matches!(a, SessionAction::UnplugPads));
    assert_eq!(s.phase, SessionPhase::Finished);
    let stop = s.stop.expect("a session that plugged its pads ends with a reason");
    assert_eq!(stop, StopReason::CaptureStartFailed("no driver".to_owned()));
    assert_eq!(stop.code(), "capture-start-failed");
    assert_eq!(
        stop.message(),
        "could not start the capture thread: no driver. Nothing was captured and the pads were unplugged"
    );
}
