use ksx_backend::config::{Backend, DeviceEntry, Persona, SlotEntry, Socd};
use ksx_backend::resolve::Blocking;
use ksx_backend::stage::{adopt_device, to_config, upsert_staged_device, AdoptSlot};
use ksx_backend::winusb::RefusalCode;

fn entry(id: &str, alias: &str) -> DeviceEntry {
    DeviceEntry {
        id: id.into(),
        alias: alias.into(),
        backend: Backend::Winusb,
    }
}

fn slot(number: u8, keyboard: Option<&str>) -> AdoptSlot {
    AdoptSlot {
        number,
        keyboard: keyboard.map(str::to_owned),
    }
}

#[test]
fn every_slot_on_one_entry_adopts_that_entry() {
    let devices = vec![entry("usb:d209:0430:00", "ipac"), entry("usb:dead:beef:00", "spare")];
    let slots = vec![slot(1, Some("usb:d209:0430:00")), slot(2, None), slot(3, Some("USB:D209:0430:00"))];
    assert_eq!(adopt_device("config.toml", &slots, &devices), Ok(0));
}

#[test]
fn two_keyboards_are_refused_naming_both() {
    let devices = vec![entry("usb:d209:0430:00", "ipac"), entry("usb:dead:beef:00", "spare")];
    let slots = vec![slot(1, Some("usb:d209:0430:00")), slot(2, Some("usb:dead:beef:00"))];
    let refusal = adopt_device("\"Fight Night\"", &slots, &devices).unwrap_err();
    assert_eq!(refusal.code, RefusalCode::Refused);
    assert_eq!(
        refusal.message,
        "\"Fight Night\" uses more than one keyboard (\"ipac\" and \"spare\"), and a draft holds exactly one"
    );
}

#[test]
fn a_keyboard_without_an_entry_is_refused() {
    let devices = vec![entry("usb:d209:0430:00", "ipac")];
    let slots = vec![slot(2, Some("HID\\VID_1234"))];
    let refusal = adopt_device("config.toml", &slots, &devices).unwrap_err();
    assert_eq!(
        refusal.message,
        "slot 2 names a keyboard no [[device]] entry describes, so there is no durable identity to adopt"
    );
}

#[test]
fn slots_without_keyboards_adopt_the_only_entry_or_refuse() {
    let slots = vec![slot(1, None)];
    assert_eq!(
        adopt_device("config.toml", &slots, &vec![entry("usb:1:2:0", "only")]),
        Ok(0)
    );
    assert_eq!(
        adopt_device("config.toml", &slots, &Vec::new())
            .unwrap_err()
            .message,
        "config.toml names no keyboard at all"
    );
    let several = vec![entry("usb:1:2:0", "a"), entry("usb:3:4:0", "b")];
    assert_eq!(
        adopt_device("config.toml", &slots, &several).unwrap_err().message,
        "config.toml's slots name no keyboard and config.toml describes several, so ksx cannot guess which one the draft should hold"
    );
}

#[test]
fn nothing_saved_is_nothing_to_adopt() {
    let refusal = adopt_device("config.toml", &Vec::new(), &Vec::new()).unwrap_err();
    assert_eq!(
        refusal.message,
        "config.toml has no slots to adopt — there is nothing saved to show yet"
    );
    assert_eq!(
        refusal.remedy.as_deref(),
        Some("set a keyboard and a controller up first; Save is what creates the slots")
    );
}

#[test]
fn what_is_saved_is_what_adopts_back() {
    let staged = DeviceEntry {
        id: "usb:d209:0430:00".into(),
        alias: "panel".into(),
        backend: Backend::Interception,
    };
    let staged_slots = vec![row(1, "Player 1", Persona::Xbox360), row(2, "Player 2", Persona::PlayStation)];
    let saved = to_config(&Vec::new(), &Vec::new(), &staged, &staged_slots, Blocking::BoundKeys);
    // Each saved row names its keyboard by alias; adoption reads the id that
    // alias stands for.
    let slots: Vec<AdoptSlot> = saved
        .slots
        .iter()
        .map(|s| AdoptSlot {
            number: s.number,
            keyboard: saved
                .devices
                .iter()
                .find(|d| Some(&d.alias) == s.keyboard.as_ref())
                .map(|d| d.id.clone()),
        })
        .collect();
    let k = adopt_device("config.toml", &slots, &saved.devices).expect("a saved setup adopts");
    let dev = &saved.devices[k];
    assert_eq!(dev.id, "usb:d209:0430:00");
    assert_eq!(dev.alias, "panel");
    assert_eq!(dev.backend, Backend::Interception);
    assert_eq!(saved.block_keyboards, Blocking::BoundKeys);
    assert_eq!(saved.slots.len(), 2);
    assert_eq!(saved.slots[0].persona, Persona::Xbox360);
    assert_eq!(saved.slots[0].preset, "Player 1");
    assert_eq!(saved.slots[1].persona, Persona::PlayStation);
}

fn row(number: u8, preset: &str, persona: Persona) -> SlotEntry {
    SlotEntry {
        number,
        user_index: None,
        keyboard: Some("panel".into()),
        mouse: None,
        preset: preset.into(),
        persona,
        socd: Socd::Off,
        macros: false,
    }
}

#[test]
fn a_restaged_alias_adopts_back_its_new_id() {
    let mut devices = vec![entry("usb:04d9:0169:00", "desk"), entry("usb:d209:0430:00", "panel")];
    let staged = DeviceEntry {
        id: "usb:d209:0430:01".into(),
        alias: "Panel".into(),
        backend: Backend::Interception,
    };
    upsert_staged_device(&mut devices, &staged);
    let slots = vec![slot(1, Some("usb:d209:0430:01")), slot(2, Some("usb:d209:0430:01"))];
    let k = adopt_device("config.toml", &slots, &devices).expect("a saved setup adopts");
    assert_eq!(k, 1);
    assert_eq!(devices[k].id, staged.id);
    assert_eq!(devices[k].backend, Backend::Interception);
    assert_eq!(devices[k].alias, "panel");
}
