use ksx_backend::game::{GameWatch, TrackOutcome, TrackState};
use ksx_backend::supervisor::HookStop;

#[test]
fn a_launch_and_its_exit_are_both_reported() {
    let mut w = GameWatch::new("Portal 2".into());
    let lines = w.launched_lines("C:\\g\\portal2.exe", Some(4242), &Vec::new());
    assert_eq!(lines, vec!["launched 'Portal 2': C:\\g\\portal2.exe (pid 4242)".to_owned()]);
    assert_eq!(w.on_poll(&TrackOutcome::Watching), (None, None));
    assert_eq!(w.status_line(&TrackState::Running), "'Portal 2': running");
    let (line, stop) = w.on_poll(&TrackOutcome::GameExited);
    assert_eq!(line.as_deref(), Some("'Portal 2' exited — stopping emulation"));
    assert_eq!(stop, Some(HookStop::GameExited));
    assert!(w.ended);
    assert_eq!(w.finished_line(), None);
}

#[test]
fn stopping_while_the_game_runs_says_the_game_survives() {
    let w = GameWatch::new("Portal 2".into());
    let note = w.finished_line().expect("the game is still up");
    assert!(note.contains("never kills a game"), "{note}");
    assert!(note.contains("types into it"), "{note}");
}

#[test]
fn giving_up_on_detection_warns_and_never_stops() {
    let mut w = GameWatch::new("Half-Life".into());
    let warnings = vec!["[WARN] no process_name".to_owned()];
    let lines = w.launched_lines("steam://rungameid/620", None, &warnings);
    assert_eq!(lines.len(), 2);
    assert_eq!(lines[0], "launched 'Half-Life': steam://rungameid/620");
    assert_eq!(lines[1], "[WARN] no process_name");
    let (line, stop) = w.on_poll(&TrackOutcome::GaveUp("cannot follow it; LeftCtrl x5 still works".into()));
    assert_eq!(stop, None);
    assert_eq!(line.as_deref(), Some("cannot follow it; LeftCtrl x5 still works"));
    assert!(!w.ended);
    assert_eq!(
        w.status_line(&TrackState::Unresolvable("no-process-name".into())),
        "'Half-Life': running, exit not detectable (no-process-name)"
    );
}

#[test]
fn every_tracking_state_has_its_line() {
    let w = GameWatch::new("G".into());
    assert_eq!(w.status_line(&TrackState::Idle), "'G': not started");
    assert_eq!(
        w.status_line(&TrackState::LauncherHandoff),
        "'G': launcher handed off, looking for the game"
    );
    assert_eq!(w.status_line(&TrackState::Tracking(77)), "'G': running (pid 77)");
    assert_eq!(w.status_line(&TrackState::Exited), "'G': exited");
}
