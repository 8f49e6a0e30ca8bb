use ksx_backend::setup::{after_review, cancel_end, RunEnd, Wiring};
use ksx_backend::setup::{
    classify, observe_next, observe_step, steps, Countdown, Listen, Observer, AuditLevel, Axis, Binding, CancelReason, DpadDirection, Input, Key, Phase,
    Reaction, SkipReason, Wizard, AXIS_MAX,
};

const PANEL: &str = r"HID\VID_D209&PID_0430&MI_00\8&A1B2C3D4&0&0000";
const DESK: &str = r"HID\VID_F00D&PID_BEEF&MI_00\7&1&0000";

// USB HID keyboard usages.
const A: Key = Key(0x04);
const B: Key = Key(0x05);
const C: Key = Key(0x06);
const D: Key = Key(0x07);
const G: Key = Key(0x0A);
const ONE: Key = Key(0x1E);
const FIVE: Key = Key(0x22);
const ESCAPE: Key = Key(0x29);
const SPACE: Key = Key(0x2C);
const RIGHT: Key = Key(0x4F);
const LEFT: Key = Key(0x50);
const DOWN: Key = Key(0x51);
const UP: Key = Key(0x52);
const LEFT_CONTROL: Key = Key(0xE0);
const LEFT_SHIFT: Key = Key(0xE1);
const LEFT_ALT: Key = Key(0xE2);

fn press(key: Key) -> Input {
    Input::Press {
        device: PANEL.to_owned(),
        key,
    }
}

fn walk(keys: &[Key]) -> Wizard {
    let mut wizard = Wizard::new(1);
    wizard.feed(press(ONE));
    for key in keys {
        wizard.feed(press(*key));
    }
    wizard
}

fn current(wizard: &Wizard) -> Option<&'static str> {
    wizard.current().map(|s| s.id)
}

#[test]
fn a_direction_binds_the_hat_and_the_stick_from_one_press() {
    let step = steps().iter().find(|s| s.id == "up").unwrap();
    assert_eq!(step.bindings.len(), 2);
    assert_eq!(step.bindings[0], Binding::Dpad(DpadDirection::Up));
    assert_eq!(
        step.bindings[1],
        Binding::Axis {
            axis: Axis::Y,
            value: AXIS_MAX
        }
    );
}

#[test]
fn identify_takes_the_first_press_and_starts_the_controls() {
    let mut wizard = Wizard::new(2);
    assert_eq!(*wizard.phase(), Phase::Identify);
    assert!(wizard.current().is_none());
    let reaction = wizard.feed(press(ONE));
    assert_eq!(
        reaction,
        Reaction::Identified {
            device: PANEL.to_owned()
        }
    );
    assert_eq!(wizard.device(), Some(PANEL));
    assert_eq!(current(&wizard), Some("up"));
    assert!(wizard.bound().is_empty());
}

#[test]
fn a_silent_identify_gives_up_after_two_tries_and_writes_nothing() {
    let mut wizard = Wizard::new(1);
    assert_eq!(
        wizard.feed(Input::Timeout),
        Reaction::StillListening { attempts_left: 1 }
    );
    assert_eq!(
        wizard.feed(Input::Timeout),
        Reaction::Cancelled(CancelReason::NoDevice)
    );
    assert!(!wizard.can_commit());
    assert_eq!(*wizard.phase(), Phase::Cancelled(CancelReason::NoDevice));
}

#[test]
fn presses_auto_advance_and_assemble_in_prompt_order() {
    let wizard = walk(&[UP, DOWN, LEFT, RIGHT]);
    assert_eq!(current(&wizard), Some("south"));
    assert_eq!(
        wizard
            .bound()
            .iter()
            .map(|(s, k)| (s.id, *k))
            .collect::<Vec<_>>(),
        vec![("up", UP), ("down", DOWN), ("left", LEFT), ("right", RIGHT)]
    );
    let preset = wizard.preset("P1");
    assert_eq!(preset.name, "P1");
    assert!(!preset.protected);
    assert_eq!(preset.entries.len(), 8);
    assert_eq!(preset.entries[0], (UP, Binding::Dpad(DpadDirection::Up)));
    assert_eq!(
        preset.entries[1],
        (
            UP,
            Binding::Axis {
                axis: Axis::Y,
                value: AXIS_MAX
            }
        )
    );
}

#[test]
fn an_already_taken_key_is_refused_inline_and_the_prompt_stays_put() {
    let mut wizard = walk(&[UP]);
    assert_eq!(current(&wizard), Some("down"));
    assert_eq!(
        wizard.feed(press(UP)),
        Reaction::AlreadyTaken {
            key: UP,
            taken_by: "up"
        }
    );
    assert_eq!(current(&wizard), Some("down"));
    assert_eq!(wizard.bound().len(), 1);
    assert_eq!(
        wizard.feed(press(DOWN)),
        Reaction::Bound {
            step: "down",
            key: DOWN
        }
    );
    assert_eq!(current(&wizard), Some("left"));
}

#[test]
fn a_press_on_another_device_is_refused_without_advancing() {
    let mut wizard = walk(&[]);
    let reaction = wizard.feed(Input::Press {
        device: DESK.to_owned(),
        key: G,
    });
    assert_eq!(
        reaction,
        Reaction::OtherDevice {
            device: DESK.to_owned()
        }
    );
    assert_eq!(current(&wizard), Some("up"));
    assert!(wizard.bound().is_empty());
}

#[test]
fn one_silent_prompt_skips_that_control_and_advances() {
    let mut wizard = walk(&[UP]);
    assert_eq!(
        wizard.feed(Input::Timeout),
        Reaction::Skipped {
            step: "down",
            reason: SkipReason::Idle
        }
    );
    assert_eq!(current(&wizard), Some("left"));
    wizard.feed(press(LEFT));
    assert_eq!(
        wizard.feed(Input::Timeout),
        Reaction::Skipped {
            step: "right",
            reason: SkipReason::Idle
        }
    );
    assert_eq!(current(&wizard), Some("south"));
}

#[test]
fn two_silent_prompts_in_a_row_end_the_run_and_skip_the_rest() {
    let total = steps().len();
    let mut wizard = walk(&[UP, DOWN, LEFT, RIGHT]);
    wizard.feed(Input::Timeout);
    let reaction = wizard.feed(Input::Timeout);
    let remaining = total - 6;
    assert_eq!(reaction, Reaction::FinishedEarly { skipped: remaining });
    assert_eq!(*wizard.phase(), Phase::Review);
    assert!(wizard.current().is_none());
    assert_eq!(wizard.skipped().len(), total - 4);
    assert!(wizard
        .skipped()
        .iter()
        .any(|(s, r)| s.id == "north" && *r == SkipReason::NotAsked));
    assert!(wizard
        .skipped()
        .iter()
        .any(|(s, r)| s.id == "south" && *r == SkipReason::Idle));
    assert_eq!(wizard.preset("P1").entries.len(), 8);
}

#[test]
fn escape_cancels_from_anywhere_and_commits_nothing() {
    let mut wizard = walk(&[UP, DOWN]);
    assert_eq!(
        wizard.feed(classify(PANEL.to_owned(), ESCAPE)),
        Reaction::Cancelled(CancelReason::User)
    );
    assert_eq!(*wizard.phase(), Phase::Cancelled(CancelReason::User));
    assert_eq!(
        wizard.feed(press(LEFT)),
        Reaction::Cancelled(CancelReason::User)
    );
    assert_eq!(wizard.bound().len(), 2);
}

#[test]
fn an_observer_failure_cancels_with_the_reason() {
    let mut wizard = walk(&[]);
    let reaction = wizard.feed(Input::Failed("raw input sink exploded".into()));
    assert_eq!(
        reaction,
        Reaction::Cancelled(CancelReason::Failed("raw input sink exploded".into()))
    );
    assert!(!wizard.can_commit());
}

#[test]
fn a_full_run_reaches_review_with_no_leftovers() {
    let total = steps().len();
    let keys: Vec<Key> = (0x04u16..).take(total).map(Key).collect();
    assert_eq!(keys.len(), total);
    let wizard = walk(&keys);
    assert_eq!(*wizard.phase(), Phase::Review);
    assert!(wizard.skipped().is_empty());
    assert_eq!(wizard.bound().len(), total);
    assert!(wizard.can_commit());
    let expected: usize = steps().iter().map(|s| s.bindings.len()).sum();
    assert_eq!(wizard.preset("Full").entries.len(), expected);
}

fn codes(wizard: &Wizard) -> Vec<&'static str> {
    wizard.audit().iter().map(|n| n.code).collect()
}

#[test]
fn the_audit_warns_when_the_panel_cannot_reach_start_or_back() {
    let wizard = walk(&[UP, DOWN, LEFT, RIGHT, A, B, C, D]);
    assert!(codes(&wizard).contains(&"no-exit"), "{:?}", wizard.audit());
    assert!(wizard.audit().iter().any(|n| n.code == "no-exit"
        && n.level == AuditLevel::Warn
        && n.message.contains("exit keys")));
}

#[test]
fn the_audit_names_which_exit_key_is_missing() {
    let mut wizard = walk(&[UP, DOWN, LEFT, RIGHT, A, B, C, D]);
    wizard.feed(press(ONE));
    assert!(codes(&wizard).contains(&"no-back"));
    assert!(!codes(&wizard).contains(&"no-exit"));
    assert!(!codes(&wizard).contains(&"no-start"));

    let mut wizard = walk(&[UP, DOWN, LEFT, RIGHT, A, B, C, D]);
    wizard.feed(Input::Timeout);
    wizard.feed(press(FIVE));
    assert!(codes(&wizard).contains(&"no-start"));
}

#[test]
fn the_audit_counts_directions_and_face_buttons() {
    let wizard = walk(&[UP, DOWN]);
    let codes = codes(&wizard);
    assert!(codes.contains(&"partial-directions"));
    assert!(codes.contains(&"few-buttons"));
    assert!(codes.contains(&"no-exit"));
    assert!(codes.contains(&"skipped"));
}

#[test]
fn a_complete_panel_audits_clean_apart_from_the_skip_note() {
    let wizard = walk(&[
        UP,
        DOWN,
        LEFT,
        RIGHT,
        LEFT_CONTROL,
        LEFT_ALT,
        SPACE,
        LEFT_SHIFT,
        ONE,
        FIVE,
    ]);
    let notes = wizard.audit();
    assert!(notes.iter().all(|n| n.level == AuditLevel::Info), "{notes:?}");
    assert_eq!(codes(&wizard), vec!["skipped"]);
    assert!(wizard.can_commit());
}

#[test]
fn a_run_with_nothing_bound_cannot_commit() {
    let mut wizard = walk(&[]);
    wizard.feed(Input::Timeout);
    wizard.feed(Input::Timeout);
    assert!(!wizard.can_commit());
    assert_eq!(codes(&wizard), vec!["nothing-bound"]);
}

#[test]
fn escape_is_the_only_reserved_key() {
    assert_eq!(classify(PANEL.into(), ESCAPE), Input::Cancel);
    assert_eq!(
        classify(PANEL.into(), ONE),
        Input::Press {
            device: PANEL.into(),
            key: ONE
        }
    );
}

/// A scripted observer: one queued outcome per slice, and the length of
/// every slice it was asked for.
struct Scripted(Vec<Result<Option<(String, Key)>, String>>, Vec<std::time::Duration>);

impl Observer for Scripted {
    fn slice(&mut self, slice: std::time::Duration) -> Result<Option<(String, Key)>, String> {
        self.1.push(slice);
        if self.0.is_empty() {
            return Ok(None);
        }
        self.0.remove(0)
    }
}

struct Ticks(Vec<u64>);

impl Countdown for Ticks {
    fn tick(&mut self, remaining: u64) {
        self.0.push(remaining);
    }
}

#[test]
fn the_countdown_ticks_once_per_second_and_stops_on_a_press() {
    let mut observer = Scripted(vec![Ok(None), Ok(None), Ok(Some((PANEL.to_owned(), G)))], Vec::new());
    let mut ticks = Ticks(Vec::new());
    let input = observe_step(&mut observer, 6, &mut ticks);
    assert_eq!(input, Input::Press { device: PANEL.to_owned(), key: G });
    // Three slices ran, so three ticks were shown — and the countdown counts
    // DOWN from the whole prompt.
    assert_eq!(ticks.0, vec![6, 5, 4]);
    assert_eq!(observer.1, vec![std::time::Duration::from_secs(1); 3]);
}

#[test]
fn a_silent_prompt_times_out_after_the_last_slice() {
    let mut observer = Scripted(Vec::new(), Vec::new());
    let mut ticks = Ticks(Vec::new());
    let input = observe_step(&mut observer, 3, &mut ticks);
    assert_eq!(input, Input::Timeout);
    assert_eq!(ticks.0, vec![3, 2, 1]);
}

#[test]
fn an_observer_error_becomes_a_failure_not_a_timeout() {
    let mut observer = Scripted(vec![Err("no raw input".into())], Vec::new());
    let mut ticks = Ticks(Vec::new());
    let input = observe_step(&mut observer, 5, &mut ticks);
    assert_eq!(input, Input::Failed("no raw input".into()));
}

#[test]
fn a_zero_second_prompt_still_listens_once_and_escape_cancels() {
    let mut observer = Scripted(vec![Ok(Some((PANEL.to_owned(), ESCAPE)))], Vec::new());
    let mut ticks = Ticks(Vec::new());
    assert_eq!(observe_step(&mut observer, 0, &mut ticks), Input::Cancel);
    assert_eq!(ticks.0, vec![1]);
    assert_eq!(observe_next(4, Ok(None)), Listen::Tick(3));
    assert_eq!(observe_next(1, Ok(None)), Listen::Done(Input::Timeout));
}

#[test]
fn a_run_ends_by_its_review_and_its_answers() {
    assert_eq!(cancel_end(&CancelReason::User), RunEnd::Discarded);
    assert_eq!(cancel_end(&CancelReason::NoDevice), RunEnd::Refused);
    assert_eq!(cancel_end(&CancelReason::Failed("lost the window".into())), RunEnd::Refused);
    assert_eq!(after_review(false, false, true, None, true), RunEnd::Refused);
    assert_eq!(after_review(true, true, true, None, true), RunEnd::DryRun);
    assert_eq!(after_review(true, false, false, None, true), RunEnd::Discarded);
    assert_eq!(after_review(true, false, true, None, false), RunEnd::Write(Wiring::PresetOnly));
    assert_eq!(after_review(true, false, true, None, true), RunEnd::Write(Wiring::Config));
    assert_eq!(
        after_review(true, false, true, Some("Tekken".into()), true),
        RunEnd::Write(Wiring::Profile("Tekken".into()))
    );
}

#[test]
fn bound_and_skipped_add_up_to_the_progress_and_no_key_drives_two_controls() {
    let mut wizard = Wizard::new(1);
    wizard.feed(press(ONE));
    wizard.feed(press(UP));
    wizard.feed(Input::Timeout);
    wizard.feed(press(UP)); // already taken: nothing moves
    wizard.feed(press(LEFT));
    let (done, total) = wizard.progress();
    assert_eq!(total, 21);
    assert_eq!(done, 3);
    assert_eq!(wizard.bound().len() + wizard.skipped().len(), done);
    let keys: Vec<Key> = wizard.bound().into_iter().map(|(_, k)| k).collect();
    assert_eq!(keys, vec![UP, LEFT]);
}
