use ksx_backend::config::{Backend, Persona};
use ksx_backend::resolve::{
    apply, dedupe, drop_missing, needs_enumeration, Answer, Blocking, DeviceResolution,
    DeviceSpelling, PlanSlot, ResolveError, RunPlan,
};

/// The cabinet's board, in the socket it was in when the config was written.
const LIVE_PATH: &str = r"USB\VID_D209&PID_0430&MI_00\7&1A2B3C4D&0&0000";
/// The same board, one socket over.
const MOVED_PATH: &str = r"USB\VID_D209&PID_0430&MI_00\6&1B2C3D4E&0&0000";
/// A board that is not connected in any of these tests.
const ABSENT: &str = r"USB\VID_D209&PID_0430&MI_00\7&DEADBEEF&0&0000";
const MODEL: &str = "usb:d209:0430:00";

fn slot(number: u8, keyboard: &str) -> PlanSlot {
    PlanSlot {
        number,
        persona: Persona::Xbox360,
        keyboard: Some(keyboard.to_owned()),
        mouse: None,
        preset: "P1".into(),
    }
}

fn plan(slots: Vec<PlanSlot>, captureable: &[&str], winusb: &[&str]) -> RunPlan {
    RunPlan {
        slots,
        block_keyboards: Blocking::Whole,
        captureable: captureable.iter().map(|s| s.to_string()).collect(),
        winusb: winusb.iter().map(|s| s.to_string()).collect(),
        notes: Vec::new(),
    }
}

fn spelling(written: &str, alias: &str, backend: Backend) -> DeviceSpelling {
    let hardware_id = written.starts_with("HID\\") || written.starts_with("ACPI\\");
    DeviceSpelling {
        written: written.into(),
        alias: alias.into(),
        backend,
        needs_matching: !hardware_id,
        survives_replug: written.starts_with("usb:"),
    }
}

fn device(written: &str, alias: &str, backend: Backend, answer: Answer) -> DeviceResolution {
    DeviceResolution {
        spelling: spelling(written, alias, backend),
        answer,
    }
}

fn one(id: &str) -> Answer {
    Answer::One(id.to_owned())
}

fn twins() -> Answer {
    Answer::Ambiguous(vec![
        (LIVE_PATH.to_owned(), "usb:d209:0430:00:port=7&1A2B3C4D&0&0000".to_owned()),
        (MOVED_PATH.to_owned(), "usb:d209:0430:00:port=6&1B2C3D4E&0&0000".to_owned()),
    ])
}

/// A config with one `[[device]]` on WinUSB feeding slot 1, resolved
/// against what its selector found.
fn resolve(id: &str, answer: Answer) -> Result<RunPlan, ResolveError> {
    let mut p = plan(vec![slot(1, id)], &[id], &[id]);
    apply(&mut p, &vec![device(id, "ipac", Backend::Winusb, answer)])?;
    Ok(p)
}

#[test]
fn an_unplugged_second_panel_drops_only_its_own_slot_and_everyone_else_plays() {
    let mut p = plan(
        vec![slot(1, LIVE_PATH), slot(2, ABSENT)],
        &[LIVE_PATH, ABSENT],
        &[LIVE_PATH, ABSENT],
    );
    apply(
        &mut p,
        &vec![
            device(LIVE_PATH, "ipac", Backend::Winusb, one(LIVE_PATH)),
            device(ABSENT, "panel2", Backend::Winusb, Answer::Nothing),
        ],
    )
    .expect("one unplugged panel must not refuse the session");
    let numbers: Vec<u8> = p.slots.iter().map(|s| s.number).collect();
    assert_eq!(numbers, vec![1], "slot 1 keeps playing; only slot 2 is lost");
    assert!(!p.captureable.iter().any(|id| id == ABSENT));
    assert!(!p.winusb.iter().any(|id| id == ABSENT));
    assert!(p.notes.iter().any(|n| n.contains("panel2")), "{:?}", p.notes);
    assert!(p.notes.iter().any(|n| n.contains("[2]")), "{:?}", p.notes);
}

#[test]
fn a_dropped_slots_warning_offers_both_causes_and_asserts_neither() {
    let mut p = plan(
        vec![slot(1, LIVE_PATH), slot(2, ABSENT)],
        &[LIVE_PATH, ABSENT],
        &[LIVE_PATH, ABSENT],
    );
    apply(
        &mut p,
        &vec![
            device(LIVE_PATH, "ipac", Backend::Winusb, one(LIVE_PATH)),
            device(ABSENT, "panel2", Backend::Winusb, Answer::Nothing),
        ],
    )
    .expect("one unplugged panel must not refuse the session");
    let note = p.notes.iter().find(|n| n.contains("panel2")).expect("named");
    assert!(!note.to_lowercase().contains("one specific usb socket"), "{note}");
    assert!(note.contains("unplugged"), "{note}");
    assert!(
        note.contains("port-derived only for boards that report no USB serial"),
        "{note}"
    );
}

#[test]
fn an_ambiguous_winusb_entry_is_refused_even_when_a_slot_spells_the_board_longhand() {
    // The slot spells the board out longhand; the entry holds a selector that
    // two connected boards answer to.
    let mut p = plan(vec![slot(1, LIVE_PATH)], &[LIVE_PATH], &[]);
    let err = apply(&mut p, &vec![device(MODEL, "ipac", Backend::Winusb, twins())])
        .expect_err("two boards answer to this entry; ksx must not pick one");
    let ResolveError::Ambiguous {
        alias, candidates, ..
    } = &err
    else {
        panic!("expected Ambiguous, got {err:?}");
    };
    assert_eq!(alias, "ipac");
    assert_eq!(candidates.len(), 2, "every hit is carried");
    let text = err.message();
    assert!(
        text.contains("usb:d209:0430:00:port=7&1A2B3C4D&0&0000")
            && text.contains("usb:d209:0430:00:port=6&1B2C3D4E&0&0000"),
        "{text}"
    );
}

#[test]
fn twins_on_an_entry_this_session_never_captures_do_not_refuse_the_run() {
    let spare_a = r"USB\VID_D209&PID_15A2&MI_00\7&AAAAAAAA&0&0000";
    let spare_b = r"USB\VID_D209&PID_15A2&MI_00\6&BBBBBBBB&0&0000";
    let mut p = plan(vec![slot(1, LIVE_PATH)], &[LIVE_PATH], &[LIVE_PATH]);
    apply(
        &mut p,
        &vec![
            device(LIVE_PATH, "ipac", Backend::Winusb, one(LIVE_PATH)),
            device(
                "usb:d209:15a2:00",
                "spare",
                Backend::Winusb,
                Answer::Ambiguous(vec![
                    (spare_a.into(), "usb:d209:15a2:00:port=7&AAAAAAAA&0&0000".into()),
                    (spare_b.into(), "usb:d209:15a2:00:port=6&BBBBBBBB&0&0000".into()),
                ]),
            ),
        ],
    )
    .expect("the ambiguous entry feeds no slot in this plan");
    assert_eq!(p.winusb, vec![LIVE_PATH.to_owned()]);
}

#[test]
fn an_unplugged_mouse_never_costs_a_player_their_keyboard() {
    let mut s = slot(1, LIVE_PATH);
    s.mouse = Some(ABSENT.into());
    let mut p = plan(vec![s], &[LIVE_PATH], &[LIVE_PATH]);
    apply(
        &mut p,
        &vec![
            device(LIVE_PATH, "ipac", Backend::Winusb, one(LIVE_PATH)),
            device(ABSENT, "ball", Backend::Interception, Answer::Nothing),
        ],
    )
    .expect("an unplugged trackball must not refuse the session");
    assert_eq!(p.slots.len(), 1, "the player keeps playing");
    assert_eq!(p.slots[0].number, 1);
    assert!(p.slots[0].mouse.is_none(), "the dead mouse is gone");
    assert_eq!(p.slots[0].keyboard.as_deref(), Some(LIVE_PATH));
    assert!(p.notes.iter().any(|n| n.contains("ball")), "{:?}", p.notes);
}

#[test]
fn a_slot_that_spells_the_board_longhand_still_gets_its_winusb_backend() {
    let mut p = plan(vec![slot(1, LIVE_PATH)], &[LIVE_PATH], &[]);
    let devices = vec![device(MODEL, "ipac", Backend::Winusb, one(LIVE_PATH))];
    let spellings: Vec<DeviceSpelling> = devices.iter().map(|d| d.spelling.clone()).collect();
    assert!(p.winusb.is_empty(), "precondition: two spellings, no match");
    assert!(
        needs_enumeration(&p, &spellings),
        "a winusb entry must force enumeration however a slot spells it"
    );
    apply(&mut p, &devices).unwrap();
    assert_eq!(p.winusb, vec![LIVE_PATH.to_owned()]);
}

#[test]
fn when_no_slot_survives_it_still_refuses_rather_than_starting_dead() {
    let err = resolve(ABSENT, Answer::Nothing).expect_err("no playable slot left must refuse");
    let ResolveError::Missing { alias, .. } = &err else {
        panic!("expected Missing, got {err:?}");
    };
    assert_eq!(alias, "ipac");
}

#[test]
fn a_legacy_instance_path_that_still_names_its_board_keeps_working_untouched() {
    let p = resolve(LIVE_PATH, one(LIVE_PATH)).expect("still connected");
    assert_eq!(p.captureable, vec![LIVE_PATH.to_owned()]);
    assert_eq!(p.winusb, vec![LIVE_PATH.to_owned()]);
    assert_eq!(p.slots[0].keyboard.as_deref(), Some(LIVE_PATH));
    assert!(!p.notes.iter().any(|n| n.contains("resolved to")), "{:?}", p.notes);
}

#[test]
fn a_usb_model_selector_resolves_to_the_concrete_interface() {
    let p = resolve(MODEL, one(LIVE_PATH)).expect("one board");
    assert_eq!(p.captureable, vec![LIVE_PATH.to_owned()]);
    assert_eq!(p.winusb, vec![LIVE_PATH.to_owned()]);
    assert_eq!(p.slots[0].keyboard.as_deref(), Some(LIVE_PATH));
    assert!(
        p.notes
            .iter()
            .any(|n| n.contains("usb:d209:0430:00") && n.contains(LIVE_PATH)),
        "{:?}",
        p.notes
    );
    assert_eq!(
        p.notes,
        vec![format!(
            "[INFO] device \"ipac\" (id = 'usb:d209:0430:00') resolved to {LIVE_PATH}"
        )]
    );
}

#[test]
fn moving_the_board_breaks_only_the_port_pinned_spelling_and_it_says_so_by_name() {
    let p = resolve(MODEL, one(MOVED_PATH)).expect("the model rung survives a replug");
    assert_eq!(p.captureable, vec![MOVED_PATH.to_owned()]);

    let err = resolve(LIVE_PATH, Answer::Nothing).expect_err("the socket changed");
    let ResolveError::Missing { alias, .. } = &err else {
        panic!("expected Missing, got {err:?}");
    };
    assert_eq!(alias, "ipac");
    let text = err.message();
    assert!(text.contains("\"ipac\""), "{text}");
    assert!(text.contains(LIVE_PATH), "{text}");
    assert!(text.contains("unplugged"), "{text}");
    assert!(
        text.contains("port-derived only for boards that report no USB serial"),
        "{text}"
    );
    assert!(!text.contains("one specific USB SOCKET"), "{text}");
    assert!(text.contains("ksx devices"), "{text}");
}

#[test]
fn a_replug_proof_selector_that_matches_nothing_blames_the_missing_board() {
    let err = resolve(MODEL, Answer::Nothing).expect_err("nothing connected");
    let text = err.message();
    assert!(text.contains("not connected"), "{text}");
    assert!(text.contains("unplugged"), "{text}");
    assert!(!text.contains("USB SOCKET"), "{text}");
}

#[test]
fn two_identical_boards_are_refused_with_the_selector_that_separates_each() {
    let err = resolve(MODEL, twins()).expect_err("twins");
    let ResolveError::Ambiguous { candidates, .. } = &err else {
        panic!("expected Ambiguous, got {err:?}");
    };
    assert_eq!(candidates.len(), 2);
    let text = err.message();
    assert!(text.contains(LIVE_PATH), "{text}");
    assert!(text.contains(MOVED_PATH), "{text}");
    assert!(text.contains("usb:d209:0430:00:port=7&1A2B3C4D&0&0000"), "{text}");
    assert!(text.contains("usb:d209:0430:00:port=6&1B2C3D4E&0&0000"), "{text}");
    assert!(text.contains("will not guess"), "{text}");

    let pinned = "usb:d209:0430:00:port=7&1A2B3C4D&0&0000";
    let p = resolve(pinned, one(LIVE_PATH)).expect("the port rung always separates");
    assert_eq!(p.captureable, vec![LIVE_PATH.to_owned()]);
}

#[test]
fn two_entries_resolving_to_one_interface_is_refused_naming_both_aliases() {
    let mut p = plan(
        vec![slot(1, MODEL), slot(2, LIVE_PATH)],
        &[MODEL, LIVE_PATH],
        &[MODEL, LIVE_PATH],
    );
    let err = apply(
        &mut p,
        &vec![
            device(MODEL, "panel", Backend::Winusb, one(LIVE_PATH)),
            device(LIVE_PATH, "spare", Backend::Winusb, one(LIVE_PATH)),
        ],
    )
    .expect_err("one board cannot be two devices");
    let text = err.message();
    assert!(text.contains("\"panel\""), "{text}");
    assert!(text.contains("\"spare\""), "{text}");
    assert!(text.contains(LIVE_PATH), "{text}");
    assert!(text.contains("claim that one interface twice"), "{text}");
}

#[test]
fn one_board_under_two_identical_spellings_is_not_a_collision() {
    let mut p = plan(vec![slot(1, MODEL), slot(2, MODEL)], &[MODEL], &[]);
    apply(
        &mut p,
        &vec![
            device(MODEL, "p1", Backend::Interception, one(LIVE_PATH)),
            device(MODEL, "p2", Backend::Interception, one(LIVE_PATH)),
        ],
    )
    .expect("one keyboard");
    assert_eq!(p.captureable, vec![LIVE_PATH.to_owned()]);
    let using: Vec<u8> = p
        .slots
        .iter()
        .filter(|s| s.keyboard.as_deref() == Some(LIVE_PATH))
        .map(|s| s.number)
        .collect();
    assert_eq!(using, vec![1, 2]);
}

#[test]
fn an_interception_hardware_id_is_never_matched_against_the_usb_tree() {
    const HWID: &str = r"HID\VID_D209&PID_0430&REV_0001&MI_00";
    let mut p = plan(vec![slot(1, HWID)], &[HWID], &[]);
    apply(
        &mut p,
        &vec![device(HWID, "ipac", Backend::Interception, Answer::Nothing)],
    )
    .expect("nothing to enumerate, nothing to refuse");
    assert_eq!(p.captureable, vec![HWID.to_owned()]);
    assert!(p.notes.iter().all(|n| !n.contains("resolved to")));
}

#[test]
fn an_acpi_keyboard_is_left_alone_rather_than_refused() {
    const ACPI: &str = r"ACPI\PNP0303\4&1A2B3C4D&0";
    let mut p = plan(vec![slot(1, ACPI)], &[ACPI], &[]);
    apply(
        &mut p,
        &vec![device(ACPI, "laptop", Backend::Interception, Answer::Nothing)],
    )
    .expect("not a USB interface");
    assert_eq!(p.captureable, vec![ACPI.to_owned()]);
}

#[test]
fn an_interception_only_plan_never_asks_for_an_enumeration() {
    const HWID: &str = r"HID\VID_D209&PID_0430&REV_0001&MI_00";
    let p = plan(vec![slot(1, HWID)], &[HWID], &[HWID]);
    assert!(!needs_enumeration(&p, &vec![spelling(HWID, "ipac", Backend::Winusb)]));
    let p = plan(vec![slot(1, MODEL)], &[MODEL], &[MODEL]);
    assert!(needs_enumeration(&p, &vec![spelling(MODEL, "ipac", Backend::Winusb)]));
}

#[test]
fn an_unused_device_entry_is_not_resolved_and_cannot_refuse_the_run() {
    let mut p = plan(vec![slot(1, MODEL)], &[MODEL], &[]);
    apply(
        &mut p,
        &vec![
            device(MODEL, "panel", Backend::Interception, one(LIVE_PATH)),
            device("usb:dead:beef:00", "gone", Backend::Interception, Answer::Nothing),
        ],
    )
    .expect("the unplugged board is not in this plan");
    assert_eq!(p.captureable, vec![LIVE_PATH.to_owned()]);
}

#[test]
fn a_missing_board_with_no_slot_left_names_the_first_missing_entry() {
    let mut p = plan(vec![slot(1, ABSENT)], &[ABSENT], &[]);
    let missing = vec![
        spelling(ABSENT, "first", Backend::Winusb),
        spelling(MOVED_PATH, "second", Backend::Winusb),
    ];
    assert_eq!(
        drop_missing(&mut p, &missing),
        Err(ResolveError::Missing {
            alias: "first".into(),
            written: ABSENT.into(),
            replug_proof: false
        })
    );
}

#[test]
fn the_dropped_slot_notes_are_spelled_in_order() {
    let mut mouse_slot = slot(2, LIVE_PATH);
    mouse_slot.mouse = Some(ABSENT.into());
    let mut p = plan(
        vec![slot(1, ABSENT), mouse_slot],
        &[LIVE_PATH, ABSENT],
        &[],
    );
    p.notes.push("earlier".into());
    let missing = vec![spelling("usb:dead:beef:00", "gone", Backend::Winusb), spelling(ABSENT, "ball", Backend::Interception)];
    // Only the written spelling of a missing entry counts as gone.
    drop_missing(&mut p, &missing).unwrap();
    assert_eq!(p.captureable, vec![LIVE_PATH.to_owned()]);
    assert_eq!(p.notes.len(), 5);
    assert_eq!(p.notes[0], "earlier");
    assert_eq!(p.notes[1], "[WARN] device \"gone\" (id = 'usb:dead:beef:00') is not connected");
    assert!(p.notes[2].starts_with("[WARN] device \"ball\""));
    assert_eq!(
        p.notes[3],
        "[WARN] slot(s) [1] have no keyboard and will NOT play this session; the remaining slots start normally"
    );
    assert_eq!(
        p.notes[4],
        "[WARN] slot(s) [2] lost their mouse, which M4 never reads anyway; those slots play on their keyboard as usual"
    );
}

#[test]
fn dedupe_keeps_the_first_of_each_id() {
    let mut ids: Vec<String> = vec!["a".into(), "b".into(), "a".into(), "c".into(), "b".into()];
    dedupe(&mut ids);
    assert_eq!(ids, vec!["a".to_owned(), "b".to_owned(), "c".to_owned()]);
}
