use ksx_backend::config::Persona;
use ksx_backend::latency::LatencySummary;
use ksx_backend::resolve::{Blocking, PlanSlot, RunPlan};
use ksx_backend::supervisor::{
    capture_order, escape_banner, exit_reason_str, health_stop, message_stop, mirror_escapes,
    pads_wait_step, swap_handed_over, swap_plan, worker_stop, CaptureOrder, EscapeStatus,
    ExitReason, HookStop, Outcome, OutputState, PadInfo, PadWait, SessionHealth, SessionShape,
    StopReason, SwapVerdict, TimerResolution, WorkerMsg, SYNTHETIC_RELEASE, POLL_MS,
    engine_idle_ms, event_limit_due, next_stop, EngineCtl, HotSwap, NoHook, SessionHook,
};
use ksx_backend::{EXIT_CANNOT_START, EXIT_RUNTIME_FAILURE};

#[test]
fn banner_names_every_escape_before_blocking_can_start() {
    let banner = escape_banner();
    assert!(banner.contains("LeftCtrl  x5"), "{banner}");
    assert!(banner.contains("RightCtrl x5"), "{banner}");
    assert!(banner.contains("Ctrl+Alt+Del"), "{banner}");
    assert!(banner.contains("taskkill"), "{banner}");
}

#[test]
fn banner_is_honest_about_ctrl_c() {
    let banner = escape_banner();
    assert!(
        banner.contains("Ctrl+C does NOT work from a captured keyboard"),
        "{banner}"
    );
    assert!(
        banner.contains("keyboard ksx is not capturing")
            || banner.contains("keyboard ksx is not capturing, or before"),
        "{banner}"
    );
    assert!(
        banner.contains("you need a keyboard or mouse you can still"),
        "taskkill needs an input device you can act from: {banner}"
    );
    assert!(
        banner.contains("mouse is never captured"),
        "the mouse is the reliable way to reach Task Manager: {banner}"
    );
}

#[test]
fn the_banner_is_framed_by_two_bars_of_72() {
    let banner = escape_banner();
    let bar = "=".repeat(72);
    assert!(banner.starts_with(&format!("{bar}\nEMERGENCY ESCAPES")));
    assert!(banner.ends_with(&format!("frees the keyboards.\n{bar}\n")));
}

fn outcome(stop: StopReason) -> Outcome {
    Outcome {
        stop,
        pads: Vec::new(),
        latency: LatencySummary::default(),
        health: SessionHealth {
            dropped_events: 0,
            watchdog_tripped: false,
            reboot_required: false,
            panicked: false,
        },
        events: 0,
        updates: 0,
        capture_exit: "shutdown",
        toggles: 0,
        invalidated: Vec::new(),
        deltas_coalesced: 0,
        deltas_dropped: 0,
        plan_notes: Vec::new(),
    }
}

#[test]
fn every_pre_capture_failure_exits_2() {
    for message in [
        "timed out after 30s waiting for the pads to plug",
        "the output thread ended before any pad was plugged",
        "ViGEmBus target operation failed",
    ] {
        let stop = StopReason::PlugFailed {
            message: message.to_owned(),
            bus_missing: false,
        };
        assert_eq!(
            outcome(stop.clone()).exit_code(),
            EXIT_CANNOT_START,
            "'{message}' happens before any keyboard is captured"
        );
        assert!(outcome(stop).stop.message().contains(message));
    }
    assert_eq!(
        outcome(StopReason::AmbiguousDevices {
            ids: vec!["HID\\VID_D209&PID_0430&REV_0001&MI_00".to_owned()],
        })
        .exit_code(),
        EXIT_CANNOT_START
    );
    assert_eq!(
        outcome(StopReason::CaptureStartFailed("no driver".into())).exit_code(),
        EXIT_CANNOT_START
    );
}

#[test]
fn ambiguous_devices_message_names_the_id_and_the_way_out() {
    let id = "HID\\VID_D209&PID_0430&REV_0001&MI_00".to_owned();
    let text = StopReason::AmbiguousDevices {
        ids: vec![id.clone()],
    }
    .message();
    assert!(text.contains(&id), "{text}");
    assert!(text.contains("refusing to start"), "{text}");
    assert!(text.contains("Nothing was plugged"), "{text}");
    assert!(text.contains("WinUSB"), "{text}");
    assert!(text.contains(&format!("slot:\n  {id}\nThe Interception")), "{text}");
}

#[test]
fn exit_codes_split_clean_refused_and_failed() {
    assert_eq!(outcome(StopReason::CtrlC).exit_code(), 0);
    assert_eq!(outcome(StopReason::EmergencyStop).exit_code(), 0);
    assert_eq!(outcome(StopReason::EventLimit).exit_code(), 0);
    assert_eq!(outcome(StopReason::GameExited).exit_code(), 0);
    assert_eq!(outcome(StopReason::ReplayFinished).exit_code(), 0);
    assert_eq!(
        outcome(StopReason::PlugFailed {
            message: "no bus".into(),
            bus_missing: true
        })
        .exit_code(),
        EXIT_CANNOT_START
    );
    for reason in [
        StopReason::WatchdogTripped,
        StopReason::EngineThreadDied,
        StopReason::OutputThreadDied,
        StopReason::CapturePanicked,
        StopReason::CaptureEnded("thread exited"),
        StopReason::OutputError("boom".into()),
        StopReason::GameLaunchFailed("no such file".into()),
    ] {
        assert_eq!(
            outcome(reason.clone()).exit_code(),
            EXIT_RUNTIME_FAILURE,
            "{reason:?}"
        );
        assert!(!reason.message().is_empty());
        assert!(!reason.code().is_empty());
    }
}

#[test]
fn a_hook_stop_becomes_the_session_stop_reason() {
    assert_eq!(StopReason::from(HookStop::GameExited), StopReason::GameExited);
    assert_eq!(
        StopReason::from(HookStop::ReplayFinished),
        StopReason::ReplayFinished
    );
    let failed = StopReason::from(HookStop::LaunchFailed("boom".into()));
    assert_eq!(failed, StopReason::GameLaunchFailed("boom".into()));
    assert_eq!(failed.code(), "game-launch-failed");
    assert_eq!(
        failed.message(),
        "the game could not be started: boom. Emulation was torn down, so the keyboards are back to normal"
    );
    assert_eq!(outcome(failed).exit_code(), 3);
}

#[test]
fn capture_exits_have_their_own_spellings() {
    assert_eq!(exit_reason_str(ExitReason::Shutdown), "shutdown");
    assert_eq!(exit_reason_str(ExitReason::ChannelClosed), "channel-closed");
    assert_eq!(exit_reason_str(ExitReason::ScriptExhausted), "script-exhausted");
    assert_eq!(exit_reason_str(ExitReason::Panicked), "panicked");
    assert_eq!(exit_reason_str(ExitReason::DeviceLost), "device-lost");
}

const BOARD: &str = r"HID\VID_D209&PID_0430&REV_0001&MI_00";
const OTHER: &str = r"HID\VID_F00D&PID_BEEF&REV_0002&MI_00";

fn shape_slot(number: u8, device: &str, preset: &str) -> PlanSlot {
    PlanSlot {
        number,
        persona: Persona::Xbox360,
        keyboard: Some(device.to_owned()),
        mouse: None,
        preset: preset.to_owned(),
    }
}

fn shape_plan(slots: Vec<PlanSlot>) -> RunPlan {
    let mut captureable: Vec<String> = slots.iter().filter_map(|s| s.keyboard.clone()).collect();
    captureable.dedup();
    RunPlan {
        slots,
        block_keyboards: Blocking::Whole,
        captureable,
        winusb: Vec::new(),
        notes: Vec::new(),
    }
}

#[test]
fn binding_only_changes_are_hot_swappable() {
    let base = shape_plan(vec![shape_slot(1, BOARD, "Empty")]);
    let repointed = shape_plan(vec![shape_slot(1, BOARD, "Another Preset")]);
    assert_eq!(
        SessionShape::of(&base).bounce_reason(&SessionShape::of(&repointed)),
        None,
        "pointing a slot at a different preset is still just a table swap"
    );
}

#[test]
fn structural_changes_bounce_and_say_what_changed() {
    let base = shape_plan(vec![shape_slot(1, BOARD, "E"), shape_slot(2, BOARD, "E")]);
    let shape = SessionShape::of(&base);

    let fewer = shape_plan(vec![shape_slot(1, BOARD, "E")]);
    assert_eq!(
        shape.bounce_reason(&SessionShape::of(&fewer)).as_deref(),
        Some("the slot count changed (2 → 1)")
    );

    let renumbered = shape_plan(vec![shape_slot(1, BOARD, "E"), shape_slot(3, BOARD, "E")]);
    assert_eq!(
        shape.bounce_reason(&SessionShape::of(&renumbered)).as_deref(),
        Some("slot 2 became slot 3")
    );

    let mut personas = base.slots.clone();
    personas[1].persona = Persona::PlayStation;
    let repersona = shape_plan(personas);
    assert_eq!(
        shape.bounce_reason(&SessionShape::of(&repersona)).as_deref(),
        Some("slot 2 changed persona (Xbox 360 → PlayStation)")
    );

    let moved = shape_plan(vec![shape_slot(1, BOARD, "E"), shape_slot(2, OTHER, "E")]);
    assert_eq!(
        shape.bounce_reason(&SessionShape::of(&moved)).as_deref(),
        Some("slot 2's input device changed")
    );

    let mut passthrough = shape_plan(base.slots.clone());
    passthrough.block_keyboards = Blocking::Off;
    assert!(shape
        .bounce_reason(&SessionShape::of(&passthrough))
        .is_some_and(|r| r.contains("blocking")));

    let mut partial = shape_plan(base.slots.clone());
    partial.block_keyboards = Blocking::BoundKeys;
    assert_eq!(
        shape.bounce_reason(&SessionShape::of(&partial)).as_deref(),
        Some("keyboard blocking changed (whole → bound-keys)")
    );

    let mut captured = shape_plan(base.slots.clone());
    captured.captureable = vec![OTHER.to_owned()];
    assert_eq!(
        shape.bounce_reason(&SessionShape::of(&captured)).as_deref(),
        Some("the set of captured keyboards changed")
    );

    let mut winusb = shape_plan(base.slots.clone());
    winusb.winusb = vec![BOARD.to_owned()];
    assert!(shape
        .bounce_reason(&SessionShape::of(&winusb))
        .is_some_and(|r| r.contains("backend")));

    let mut noisy = shape_plan(base.slots.clone());
    noisy.notes = vec!["[WARN] something".to_owned()];
    assert_eq!(shape.bounce_reason(&SessionShape::of(&noisy)), None);
}

#[test]
fn a_shape_never_bounces_onto_itself() {
    let base = shape_plan(vec![shape_slot(1, BOARD, "E"), shape_slot(2, OTHER, "F")]);
    let shape = SessionShape::of(&base);
    assert_eq!(shape.bounce_reason(&shape.clone()), None);
}

#[test]
fn the_timer_is_raised_and_restored_in_matched_pairs() {
    let mut timer = TimerResolution::new();
    assert_eq!(timer.set(false), None);
    assert_eq!(timer.set(true), Some(true));
    assert_eq!(timer.set(true), None);
    assert_eq!(timer.set(false), Some(false));
    assert_eq!(timer.set(false), None);
}

#[test]
fn escapes_are_mirrored_one_flip_per_toggle() {
    let status = EscapeStatus {
        toggles: 3,
        stops: 0,
        mouse_escapes: 1,
    };
    let mut seen = EscapeStatus::default();
    let mut blocking = true;
    let mut toggles = 0u32;
    let mirrored = mirror_escapes(&status, &mut seen, &mut blocking, &mut toggles);
    assert!(mirrored.mouse_escape);
    assert_eq!(mirrored.flips, vec![false, true, false]);
    assert!(!blocking);
    assert_eq!(toggles, 3);
    assert_eq!(seen, status);
    // Nothing new: nothing happens.
    let again = mirror_escapes(&status, &mut seen, &mut blocking, &mut toggles);
    assert!(!again.mouse_escape);
    assert!(again.flips.is_empty());
    assert_eq!(toggles, 3);
}

#[test]
fn the_stop_checks_keep_their_order() {
    let healthy = SessionHealth {
        dropped_events: 0,
        watchdog_tripped: false,
        reboot_required: false,
        panicked: false,
    };
    let broken = SessionHealth {
        watchdog_tripped: true,
        panicked: true,
        ..healthy
    };
    assert_eq!(health_stop(false, &healthy), None);
    assert_eq!(health_stop(true, &broken), Some(StopReason::CtrlC));
    assert_eq!(health_stop(false, &broken), Some(StopReason::CapturePanicked));
    assert_eq!(
        health_stop(false, &SessionHealth { panicked: false, ..broken }),
        Some(StopReason::WatchdogTripped)
    );
    assert_eq!(worker_stop(false, false, false), None);
    assert_eq!(
        worker_stop(true, true, true),
        Some(StopReason::CaptureEnded("thread exited"))
    );
    assert_eq!(worker_stop(false, true, true), Some(StopReason::EngineThreadDied));
    assert_eq!(worker_stop(false, false, true), Some(StopReason::OutputThreadDied));
    assert_eq!(message_stop(WorkerMsg::EventLimitReached), Some(StopReason::EventLimit));
    assert_eq!(
        message_stop(WorkerMsg::OutputError("x".into())),
        Some(StopReason::OutputError("x".into()))
    );
    assert_eq!(message_stop(WorkerMsg::Timeout), None);
    assert_eq!(message_stop(WorkerMsg::Disconnected), Some(StopReason::EngineThreadDied));
}

#[test]
fn waiting_for_pads_fails_with_the_reason() {
    let pads = vec![PadInfo {
        slot: 1,
        handle: 7,
        persona: Persona::Xbox360,
        user_index: Some(0),
    }];
    assert_eq!(
        pads_wait_step(false, "30s", false, WorkerMsg::PadsReady(pads.clone())),
        PadWait::Ready(pads)
    );
    assert_eq!(
        pads_wait_step(true, "30s", false, WorkerMsg::Timeout),
        PadWait::Failed(StopReason::PlugFailed {
            message: "timed out after 30s waiting for the pads to plug".into(),
            bus_missing: false
        })
    );
    assert_eq!(
        pads_wait_step(false, "30s", true, WorkerMsg::Timeout),
        PadWait::Failed(StopReason::PlugFailed {
            message: "the output thread ended before any pad was plugged".into(),
            bus_missing: false
        })
    );
    assert_eq!(pads_wait_step(false, "30s", false, WorkerMsg::Timeout), PadWait::Wait);
}

#[test]
fn apply_capture_never_captures_an_empty_or_absent_set() {
    assert_eq!(capture_order(true, &Vec::new(), false), CaptureOrder::Passthrough);
    let present = vec!["A".to_owned()];
    assert_eq!(capture_order(false, &present, false), CaptureOrder::Passthrough);
    assert_eq!(capture_order(true, &present, false), CaptureOrder::Whole(vec!["A".to_owned()]));
    assert_eq!(capture_order(true, &present, true), CaptureOrder::PerKey(vec!["A".to_owned()]));
}

#[test]
fn a_swap_onto_a_dead_engine_is_an_error_not_a_silent_success() {
    let base = shape_plan(vec![shape_slot(1, "A", "P1")]);
    let repointed = shape_plan(vec![shape_slot(1, "A", "P2")]);
    assert_eq!(swap_plan(&SessionShape::of(&base), &SessionShape::of(&repointed)), None);
    assert_eq!(swap_handed_over(true), Ok(SwapVerdict::Applied));
    assert_eq!(swap_handed_over(false), Err("the session's engine thread has gone"));
    let fewer = shape_plan(Vec::new());
    assert_eq!(
        swap_plan(&SessionShape::of(&base), &SessionShape::of(&fewer)),
        Some(SwapVerdict::NeedsRestart("the slot count changed (1 → 0)".to_owned()))
    );

    // Through the handle: a live engine gets the tables exactly once, a
    // structural change sends nothing, a dead engine is an error.
    let (tx, rx) = crossbeam_channel::unbounded::<EngineCtl>();
    let mut handle = HotSwap::new(tx, SessionShape::of(&base));
    assert_eq!(handle.apply(&repointed), Ok(SwapVerdict::Applied));
    let got: Vec<EngineCtl> = rx.try_iter().collect();
    assert_eq!(got.len(), 1);
    assert!(matches!(&got[0], EngineCtl::SwapTables(slots) if slots[0].preset == "P2"));
    assert_eq!(
        handle.apply(&fewer),
        Ok(SwapVerdict::NeedsRestart("the slot count changed (1 → 0)".to_owned()))
    );
    assert!(rx.try_recv().is_err(), "a needed restart sends nothing");
    drop(rx);
    assert_eq!(handle.apply(&repointed), Err("the session's engine thread has gone"));
}

#[test]
fn the_first_stop_source_in_the_loop_order_wins() {
    let healthy = SessionHealth { dropped_events: 0, watchdog_tripped: false, reboot_required: false, panicked: false };
    let tripped = SessionHealth { watchdog_tripped: true, ..healthy };
    assert_eq!(
        next_stop(true, &tripped, true, Some(HookStop::GameExited), true, true, true, WorkerMsg::Disconnected),
        Some(StopReason::CtrlC)
    );
    assert_eq!(
        next_stop(false, &tripped, true, None, false, false, false, WorkerMsg::Timeout),
        Some(StopReason::WatchdogTripped)
    );
    assert_eq!(
        next_stop(false, &healthy, true, Some(HookStop::GameExited), true, false, false, WorkerMsg::Timeout),
        Some(StopReason::EmergencyStop)
    );
    assert_eq!(
        next_stop(false, &healthy, false, Some(HookStop::GameExited), true, false, false, WorkerMsg::Timeout),
        Some(StopReason::GameExited)
    );
    assert_eq!(
        next_stop(false, &healthy, false, None, false, true, false, WorkerMsg::EventLimitReached),
        Some(StopReason::EngineThreadDied)
    );
    assert_eq!(
        next_stop(false, &healthy, false, None, false, false, false, WorkerMsg::EventLimitReached),
        Some(StopReason::EventLimit)
    );
    assert_eq!(next_stop(false, &healthy, false, None, false, false, false, WorkerMsg::Timeout), None);
}

#[test]
fn a_failed_output_never_touches_the_driver_again() {
    let slots = vec![1u8, 2, 2];
    let mut out = OutputState::new();
    assert_eq!(out.target(&slots, 2), Some(1));
    assert_eq!(out.target(&slots, 9), None);
    let ok = out.updated(true, 5);
    assert!(ok.record_latency && !ok.report_failure);
    assert_eq!(out.updates, 1);
    let synthetic = out.updated(true, SYNTHETIC_RELEASE);
    assert!(!synthetic.record_latency);
    assert!(!out.serviced(true));
    let failed = out.updated(false, 6);
    assert!(failed.report_failure && !failed.record_latency);
    assert!(out.failed);
    assert_eq!(out.updates, 2);
    assert_eq!(out.target(&slots, 1), None, "no pad is updated once the output failed");
    let mut other = OutputState::new();
    assert!(other.serviced(false));
    assert!(other.failed);
}

#[test]
fn the_engine_never_sleeps_past_a_macro_step() {
    assert_eq!(engine_idle_ms(false, None, 100), POLL_MS);
    assert_eq!(engine_idle_ms(true, None, 100), 1);
    assert_eq!(engine_idle_ms(false, Some(120), 100), 20);
    assert_eq!(engine_idle_ms(false, Some(500), 100), POLL_MS);
    assert_eq!(engine_idle_ms(true, Some(90), 100), 0);
    assert!(event_limit_due(5, Some(5), false));
    assert!(!event_limit_due(5, Some(5), true));
    assert!(!event_limit_due(4, Some(5), false));
    assert!(!event_limit_due(u64::MAX, None, false));
}

#[test]
fn a_session_without_a_hook_starts_polls_and_finishes_silently() {
    let mut hook = NoHook;
    let mut out: Vec<String> = Vec::new();
    assert_eq!(hook.started(&mut out), Ok(()));
    for _ in 0..3 {
        assert_eq!(hook.poll(&mut out), None);
    }
    hook.finished(&mut out);
    assert_eq!(hook.status_line(), None);
    assert!(out.is_empty());
}

#[test]
fn the_capture_guard_sends_passthrough_exactly_once() {
    let mut guard = ksx_backend::supervisor::CaptureGuard::new();
    assert!(guard.release(), "teardown's release sends SetPassthrough");
    assert!(!guard.release(), "a second release, from unwinding, sends nothing");
    assert!(!guard.release());
}
