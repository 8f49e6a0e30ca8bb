use ksx_backend::config::{count_xinput, GameEntry, Persona, SlotEntry, Socd};
use ksx_backend::slots::{
    plan_assign, resolve_preset, slot_rows, AppliedSlot, Assignment, SlotError, SlotSpec,
};

fn presets() -> Vec<String> {
    vec!["Panel P2".to_owned(), "panel p1".to_owned(), "Arcade".to_owned()]
}

fn spec(slot: u8, preset: Option<&str>) -> SlotSpec {
    SlotSpec {
        slot,
        preset: preset.map(str::to_owned),
        profile: None,
        persona: None,
        socd: None,
    }
}

fn entry(number: u8, preset: &str, persona: Persona) -> SlotEntry {
    SlotEntry {
        number,
        user_index: None,
        keyboard: None,
        mouse: None,
        preset: preset.into(),
        persona,
        socd: Socd::Off,
        macros: false,
    }
}

#[test]
fn a_preset_that_does_not_exist_is_refused_with_the_ones_that_do() {
    match resolve_preset(&presets(), "Nope") {
        Err(SlotError::UnknownPreset { preset, available }) => {
            assert_eq!(preset, "Nope");
            assert_eq!(available, vec!["Arcade", "panel p1", "Panel P2"]);
        }
        other => panic!("expected UnknownPreset, got {other:?}"),
    }
}

#[test]
fn the_preset_is_written_in_the_spelling_the_file_uses() {
    assert_eq!(resolve_preset(&presets(), "PANEL P1"), Ok("panel p1".to_owned()));
}

#[test]
fn a_slot_number_off_the_end_is_refused_before_anything_is_read() {
    assert_eq!(
        plan_assign(&spec(9, Some("Nope")), &presets(), &Vec::new(), &Vec::new()).unwrap_err(),
        SlotError::BadSlot { given: 9 }
    );
    assert_eq!(
        plan_assign(&spec(0, None), &presets(), &Vec::new(), &Vec::new()).unwrap_err(),
        SlotError::BadSlot { given: 0 }
    );
}

#[test]
fn assigning_the_preset_a_slot_already_uses_writes_nothing() {
    let config = vec![entry(1, "Arcade", Persona::Xbox360)];
    let a = plan_assign(&spec(1, Some("arcade")), &presets(), &config, &Vec::new()).unwrap();
    assert!(a.change.unchanged);
    assert_eq!(a.slots, config);
}

#[test]
fn a_preset_repoint_leaves_the_persona_alone() {
    let config = vec![entry(1, "Arcade", Persona::PlayStation)];
    let a = plan_assign(&spec(1, Some("Panel P2")), &presets(), &config, &Vec::new()).unwrap();
    assert!(!a.change.unchanged);
    assert_eq!(a.change.previous.as_deref(), Some("Arcade"));
    assert_eq!(a.slots[0].preset, "Panel P2");
    assert_eq!(a.slots[0].persona, Persona::PlayStation);
    assert_eq!(a.change.previous_persona, None);
}

#[test]
fn a_persona_only_write_on_a_slot_that_does_not_exist_is_refused() {
    let mut s = spec(2, None);
    s.persona = Some(Persona::PlayStation);
    assert!(matches!(
        plan_assign(&s, &presets(), &Vec::new(), &Vec::new()).unwrap_err(),
        SlotError::NoPresetToKeep { slot: 2, .. }
    ));
}

#[test]
fn a_persona_this_build_cannot_plug_is_refused_with_the_reason_and_a_way_out() {
    let mut s = spec(1, Some("Arcade"));
    s.persona = Some(Persona::DualSense);
    assert!(matches!(
        plan_assign(&s, &presets(), &Vec::new(), &Vec::new()).unwrap_err(),
        SlotError::PersonaNotImplemented { .. }
    ));
}

#[test]
fn a_fifth_xinput_slot_is_refused_naming_what_decides_it() {
    let config: Vec<SlotEntry> = (1..=4).map(|n| entry(n, "Arcade", Persona::Xbox360)).collect();
    let err = plan_assign(&spec(5, Some("Arcade")), &presets(), &config, &Vec::new()).unwrap_err();
    assert!(matches!(err, SlotError::TooManyXinputSlots { slot: 5, after: 5, .. }), "{err:?}");
}

#[test]
fn a_new_slot_is_created_in_slot_order() {
    let config = vec![entry(3, "Arcade", Persona::Xbox360)];
    let a = plan_assign(&spec(1, Some("Arcade")), &presets(), &config, &Vec::new()).unwrap();
    assert!(a.change.created);
    assert_eq!(a.change.previous, None);
    assert_eq!(a.slots.iter().map(|s| s.number).collect::<Vec<_>>(), vec![1, 3]);
}

#[test]
fn an_unknown_profile_is_refused_with_the_titles_that_exist() {
    let games = vec![GameEntry {
        title: "MAME".into(),
        slots: Vec::new(),
    }];
    let mut s = spec(1, Some("Arcade"));
    s.profile = Some("Steam".into());
    assert!(matches!(
        plan_assign(&s, &presets(), &Vec::new(), &games).unwrap_err(),
        SlotError::UnknownProfile { .. }
    ));
}

fn presets_p() -> Vec<String> {
    vec!["Panel P1".to_owned(), "Panel P2".to_owned()]
}

fn persona_spec(slot: u8, persona: Persona) -> SlotSpec {
    SlotSpec { slot, preset: None, profile: None, persona: Some(persona), socd: None }
}

fn applied_in_config(a: &Assignment, slot: u8) -> AppliedSlot {
    AppliedSlot {
        path: "config.toml".into(),
        slot,
        preset: a.change.preset.clone(),
        previous: a.change.previous.clone(),
        persona: a.change.persona,
        previous_persona: a.change.previous_persona,
        profile: a.profile.as_ref().map(|(_, t)| t.clone()),
        created: a.change.created,
        unchanged: a.change.unchanged,
        backup: None,
    }
}

#[test]
fn socd_survives_a_write_that_did_not_mention_it() {
    let first = plan_assign(&spec(1, Some("Panel P1")), &presets_p(), &Vec::new(), &Vec::new()).unwrap();
    let socd_only = SlotSpec { slot: 1, preset: None, profile: None, persona: None, socd: Some(Socd::UpPriority) };
    let after = plan_assign(&socd_only, &presets_p(), &first.slots, &Vec::new()).unwrap();
    assert_eq!(after.slots[0].socd, Socd::UpPriority);
    assert_eq!(after.slots[0].preset, "Panel P1", "a SOCD-only write keeps the preset");

    // The write that must NOT touch it: a plain preset re-point.
    let repointed = plan_assign(&spec(1, Some("Panel P2")), &presets_p(), &after.slots, &Vec::new()).unwrap();
    assert_eq!(repointed.slots[0].preset, "Panel P2");
    assert_eq!(repointed.slots[0].socd, Socd::UpPriority, "re-pointing a preset silently disabled SOCD");

    // And asking for the SOCD it already has changes nothing at all.
    let again = plan_assign(&socd_only, &presets_p(), &repointed.slots, &Vec::new()).unwrap();
    assert!(again.change.unchanged, "an identical SOCD is not a write");
}

#[test]
fn assigning_a_slot_writes_config_toml_and_says_the_pads_bounce() {
    let applied = plan_assign(&spec(1, Some("Panel P1")), &presets_p(), &Vec::new(), &Vec::new())
        .expect("a preset that exists");
    assert!(applied.change.created, "slot 1 did not exist yet");
    assert_eq!(applied.change.previous, None);
    assert_eq!(applied.profile, None);
    let message = applied_in_config(&applied, 1).message();
    assert!(message.contains("pads replugged"), "{message}");
    assert_eq!(applied.slots.len(), 1);
    assert_eq!(applied.slots[0].preset, "Panel P1");

    // Repointing reports BOTH halves — what it was and what it is.
    let moved = plan_assign(&spec(1, Some("Panel P2")), &presets_p(), &applied.slots, &Vec::new()).unwrap();
    assert_eq!(moved.change.previous.as_deref(), Some("Panel P1"));
    assert!(!moved.change.created);
    assert!(applied_in_config(&moved, 1).message().contains("\"Panel P1\" → \"Panel P2\""));
}

#[test]
fn assigning_inside_a_profile_writes_only_that_profile() {
    let games = vec![GameEntry { title: "Example Launcher".into(), slots: Vec::new() }];
    let config = vec![entry(1, "Panel P2", Persona::Xbox360)];
    let s = SlotSpec {
        slot: 3,
        preset: Some("Panel P1".into()),
        persona: None,
        profile: Some("example launcher".into()),
        socd: None,
    };
    let applied = plan_assign(&s, &presets_p(), &config, &games).unwrap();
    assert_eq!(applied.profile, Some((0, "Example Launcher".to_owned())));
    assert!(applied.change.created);
    assert_eq!(applied.slots.len(), 1);
    assert_eq!(applied.slots[0].preset, "Panel P1");
    assert_eq!(applied.slots[0].user_index, Some(3));
}

#[test]
fn list_reports_the_slots_of_one_destination_in_order() {
    let first = plan_assign(&spec(2, Some("Panel P2")), &presets_p(), &Vec::new(), &Vec::new()).unwrap();
    let second = plan_assign(&spec(1, Some("Panel P1")), &presets_p(), &first.slots, &Vec::new()).unwrap();
    let rows = slot_rows(&second.slots, &None);
    assert_eq!(rows.len(), 2);
    assert_eq!(rows[0].slot, 1);
    assert_eq!(rows[0].preset, "Panel P1");
    assert_eq!(rows[0].keyboard, "(any)");
    assert_eq!(rows[0].persona, Persona::Xbox360, "the file said nothing");
    assert_eq!(rows[1].slot, 2);
}

#[test]
fn asking_for_the_persona_a_slot_already_has_writes_nothing() {
    let first = plan_assign(&spec(1, Some("Panel P1")), &presets_p(), &Vec::new(), &Vec::new()).unwrap();
    let again = plan_assign(&persona_spec(1, Persona::Xbox360), &presets_p(), &first.slots, &Vec::new()).unwrap();
    assert!(again.change.unchanged);
    let message = applied_in_config(&again, 1).message();
    assert!(message.contains("nothing was written"), "{message}");
    assert!(message.contains("Xbox 360"), "{message}");
}

#[test]
fn a_file_already_over_the_ceiling_can_still_be_repaired() {
    let config: Vec<SlotEntry> = (1..=5).map(|n| entry(n, "Panel P1", Persona::Xbox360)).collect();
    // The repair: move slot 5 to PlayStation. 5 → 4, so it lands.
    let fixed = plan_assign(&persona_spec(5, Persona::PlayStation), &presets_p(), &config, &Vec::new()).unwrap();
    assert_eq!(fixed.change.persona, Persona::PlayStation);
    // And a write that neither adds nor removes an XInput slot is not blocked
    // by a state it did not create.
    assert!(plan_assign(&spec(3, Some("Panel P2")), &presets_p(), &config, &Vec::new()).is_ok());
}

#[test]
fn the_xinput_ceiling_is_counted_per_profile_not_per_file() {
    let four: Vec<SlotEntry> = (1..=4).map(|n| entry(n, "Panel P1", Persona::Xbox360)).collect();
    let games = vec![
        GameEntry { title: "Example Launcher".into(), slots: four.clone() },
        GameEntry { title: "MAME".into(), slots: four },
    ];
    let mut s = spec(5, Some("Panel P2"));
    s.profile = Some("MAME".into());
    let err = plan_assign(&s, &presets_p(), &Vec::new(), &games).unwrap_err();
    assert_eq!(err.code(), "too-many-xinput-slots");
    assert!(err.message().contains("MAME"), "{}", err.message());
    // Four per profile is four at a time: slot 4 of one profile repoints fine.
    let mut ok = spec(4, Some("Panel P2"));
    ok.profile = Some("Example Launcher".into());
    assert!(plan_assign(&ok, &presets_p(), &Vec::new(), &games).is_ok());
}

#[test]
fn a_slot_created_with_a_persona_reports_no_previous_one() {
    let s = SlotSpec {
        slot: 6,
        preset: Some("Panel P1".into()),
        persona: Some(Persona::PlayStation),
        profile: None,
        socd: None,
    };
    let applied = plan_assign(&s, &presets_p(), &Vec::new(), &Vec::new()).unwrap();
    assert!(applied.change.created);
    assert_eq!(applied.change.persona, Persona::PlayStation);
    assert_eq!(applied.change.previous_persona, None, "xbox360 -> was never true");
    assert!(applied_in_config(&applied, 6).message().contains("PlayStation"));
}

#[test]
fn the_ceiling_counts_is_xinput_not_the_xbox360_variant() {
    assert!(Persona::XboxSeries.is_xinput());
    let slots = vec![
        entry(1, "P", Persona::Xbox360),
        entry(2, "P", Persona::XboxSeries),
        entry(3, "P", Persona::PlayStation),
    ];
    assert_eq!(count_xinput(&slots), 2);
}
