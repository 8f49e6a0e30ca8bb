use ksx_backend::latency::LatencySummary;
use ksx_backend::run::{render_launch, report_lines, LaunchPlan};
use ksx_backend::supervisor::{InvalidationReason, Outcome, SessionHealth, StopReason};

fn outcome(stop: StopReason) -> Outcome {
    Outcome {
        stop,
        pads: Vec::new(),
        latency: LatencySummary::default(),
        health: SessionHealth {
            dropped_events: 0,
            watchdog_tripped: false,
            reboot_required: false,
            panicked: false,
        },
        events: 12,
        updates: 7,
        capture_exit: "shutdown",
        toggles: 1,
        invalidated: Vec::new(),
        deltas_coalesced: 0,
        deltas_dropped: 0,
        plan_notes: Vec::new(),
    }
}

#[test]
fn a_quiet_session_reports_its_stop_counts_and_latency() {
    let o = outcome(StopReason::EmergencyStop);
    let lines = report_lines(&o, None, &Vec::new());
    assert_eq!(
        lines,
        vec![
            "stopped by the Ctrl+Alt+Del emergency escape".to_owned(),
            "session: 12 event(s) in, 7 pad update(s) out, capture exit 'shutdown', 1 escape toggle(s)"
                .to_owned(),
            "latency: no pad updates were submitted (nothing to measure)".to_owned(),
        ]
    );
}

#[test]
fn every_warning_the_session_earned_is_reported_in_order() {
    let mut o = outcome(StopReason::GameExited);
    o.health.dropped_events = 3;
    o.health.reboot_required = true;
    o.deltas_coalesced = 5;
    o.invalidated = vec![(2, InvalidationReason::KeyboardUnplugged)];
    let lines = report_lines(&o, Some("'Portal 2': exited"), &vec!["its keyboard was unplugged".to_owned()]);
    assert_eq!(lines.len(), 8);
    assert_eq!(lines[1], "game: 'Portal 2': exited");
    assert_eq!(lines[4], "[WARN] 3 event(s) were dropped: the engine could not keep up with capture");
    assert!(lines[5].starts_with("[FAIL] Interception keyboard-slot exhaustion detected — REBOOT REQUIRED"));
    assert!(lines[6].starts_with("[WARN] 5 pad state(s) were superseded"));
    assert_eq!(lines[7], "[FAIL] slot 2 invalidated: its keyboard was unplugged");
}

#[test]
fn a_dry_run_says_what_it_would_launch() {
    let plan = LaunchPlan {
        target: "C:\\g\\steam.exe".into(),
        protocol: false,
        process_name: Some("portal2.exe".into()),
    };
    assert_eq!(
        render_launch(Some(&plan), false, Some("Portal 2")),
        "  launch: C:\\g\\steam.exe\n          track process 'portal2.exe' after a launcher hand-off\n"
    );
    let url = LaunchPlan { target: "steam://rungameid/620".into(), protocol: true, process_name: None };
    assert!(render_launch(Some(&url), false, None).contains("no process_name: a launcher hand-off cannot be followed"));
    assert_eq!(
        render_launch(None, true, Some("MAME")),
        "  launch: skipped (--no-launch); 'MAME' profile applied only\n"
    );
    assert_eq!(render_launch(None, false, Some("MAME")), "");
    assert_eq!(render_launch(None, true, None), "");
}
