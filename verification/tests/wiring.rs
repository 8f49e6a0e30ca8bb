use ksx_backend::config::{Backend, DeviceEntry, Persona, SlotEntry, Socd};
use ksx_backend::wiring::{
    panel_alias, preset_name_for, upsert_device, upsert_game_slot, upsert_slot, NotADeviceId,
};

const PANEL: &str = r"HID\VID_D209&PID_0430&MI_00\8&A1B2C3D4&0&0000";
const DESK: &str = r"HID\VID_F00D&PID_BEEF&MI_00\7&1&0000";

#[test]
fn a_config_wiring_names_the_device_once_and_points_the_slot_at_the_preset() {
    let mut devices: Vec<DeviceEntry> = Vec::new();
    let mut slots: Vec<SlotEntry> = Vec::new();
    let alias = upsert_device(&mut devices, PANEL, &panel_alias(1), true).unwrap();
    upsert_slot(&mut slots, 1, "P1".into(), alias);
    assert_eq!(devices.len(), 1);
    assert_eq!(devices[0].alias, "P1 panel");
    assert_eq!(devices[0].id, PANEL);
    assert_eq!(slots.len(), 1);
    assert_eq!(slots[0].number, 1);
    assert_eq!(slots[0].keyboard.as_deref(), Some("P1 panel"));
    assert_eq!(slots[0].preset, "P1");

    // Idempotent: a second run over the same id adds no second entry, does
    // not rename the one the user may have edited, and the slot follows the
    // name that is actually in the file.
    devices[0].alias = "Cabinet P1".to_owned();
    let alias = upsert_device(&mut devices, PANEL, &panel_alias(1), true).unwrap();
    assert_eq!(devices.len(), 1);
    assert_eq!(devices[0].alias, "Cabinet P1");
    assert_eq!(alias, "Cabinet P1");

    // ...and re-running the slot repoints it rather than duplicating it.
    upsert_slot(&mut slots, 1, "P1".into(), alias);
    assert_eq!(slots.len(), 1);
    assert_eq!(slots[0].keyboard.as_deref(), Some("Cabinet P1"));
}

#[test]
fn a_second_panel_never_steals_the_first_ones_alias() {
    let mut devices = Vec::new();
    assert_eq!(upsert_device(&mut devices, PANEL, "P1 panel", true).unwrap(), "P1 panel");
    assert_eq!(upsert_device(&mut devices, DESK, "P1 panel", true).unwrap(), "P1 panel (2)");
    assert_eq!(devices.len(), 2);
    assert_ne!(devices[0].alias, devices[1].alias);
}

#[test]
fn an_id_that_could_never_name_a_device_is_refused_rather_than_committed() {
    let mut devices = Vec::new();
    assert!(upsert_device(&mut devices, "not-a-device", "P1 panel", false).is_err());
    assert!(devices.is_empty());
}

#[test]
fn aliases_are_numbered_past_every_one_in_use() {
    let mut devices = vec![
        DeviceEntry { id: "a".into(), alias: "pad".into(), backend: Backend::Winusb },
        DeviceEntry { id: "b".into(), alias: "pad (3)".into(), backend: Backend::Winusb },
        DeviceEntry { id: "c".into(), alias: "pad (2)".into(), backend: Backend::Winusb },
    ];
    assert_eq!(upsert_device(&mut devices, "d", "pad", true).unwrap(), "pad (4)");
    assert_eq!(devices.len(), 4);
    assert_eq!(devices[3].id, "d");
    assert_eq!(devices[3].backend, Backend::Interception);
    assert_eq!(
        upsert_device(&mut devices, "e", "Pad", false),
        Err(NotADeviceId { id: "e".into() })
    );
    // A known id is answered even when it would not parse today.
    assert_eq!(upsert_device(&mut devices, "b", "other", false).unwrap(), "pad (3)");
    assert_eq!(devices.len(), 4);
}

#[test]
fn a_profile_wiring_stores_the_instance_path_not_an_alias() {
    let mut slots: Vec<SlotEntry> = Vec::new();
    upsert_game_slot(&mut slots, 1, "P1".into(), PANEL.into());
    assert_eq!(slots[0].keyboard.as_deref(), Some(PANEL));
    assert_eq!(slots[0].preset, "P1");
    assert_eq!(slots[0].user_index, Some(1));
    upsert_game_slot(&mut slots, 1, "P1".into(), PANEL.into());
    assert_eq!(slots.len(), 1, "re-running a slot repoints it");
}

#[test]
fn a_new_slot_joins_in_slot_order_and_keeps_the_others() {
    let existing = SlotEntry {
        number: 3,
        user_index: None,
        keyboard: Some("P3 panel".into()),
        mouse: Some("ball".into()),
        preset: "Three".into(),
        persona: Persona::PlayStation,
        socd: Socd::LastInput,
        macros: true,
    };
    let mut slots = vec![existing.clone()];
    upsert_slot(&mut slots, 2, "Two".into(), "P2 panel".into());
    assert_eq!(slots.len(), 2);
    assert_eq!(slots[0].number, 2);
    assert_eq!(slots[0].persona, Persona::Xbox360);
    assert_eq!(slots[0].socd, Socd::Off);
    assert_eq!(slots[0].mouse, None);
    assert_eq!(slots[1], existing);
    // A repoint changes the keyboard and the preset, nothing else.
    upsert_slot(&mut slots, 3, "Other".into(), "elsewhere".into());
    assert_eq!(slots[1].mouse.as_deref(), Some("ball"));
    assert_eq!(slots[1].persona, Persona::PlayStation);
    assert_eq!(slots[1].socd, Socd::LastInput);
    assert!(slots[1].macros);
    assert_eq!(slots[1].preset, "Other");
}

#[test]
fn upserting_twice_is_upserting_once() {
    let mut once: Vec<SlotEntry> = Vec::new();
    upsert_slot(&mut once, 4, "P4".into(), "P4 panel".into());
    let mut twice = once.clone();
    upsert_slot(&mut twice, 4, "P4".into(), "P4 panel".into());
    assert_eq!(once, twice);
}

#[test]
fn presets_and_panels_are_named_per_player() {
    assert_eq!(preset_name_for(Some("Street"), 1, 1), "Street");
    assert_eq!(preset_name_for(Some("Street"), 1, 2), "Street P2");
    assert_eq!(preset_name_for(None, 1, 3), "Player 3");
    assert_eq!(panel_alias(2), "P2 panel");
}
