use ksx_backend::config::Persona;
use ksx_backend::slot_cli::{
    list_lines, message, reloaded, wants_reload, ReloadAnswer, Reloaded, EXIT_REFUSED,
};
use ksx_backend::slots::{AppliedSlot, SlotRow};

fn applied(unchanged: bool) -> AppliedSlot {
    AppliedSlot {
        path: "config.toml".into(),
        slot: 1,
        preset: "Panel P2".into(),
        previous: Some("Panel P1".into()),
        persona: Persona::Xbox360,
        previous_persona: None,
        profile: None,
        created: false,
        unchanged,
        backup: None,
    }
}

#[test]
fn a_refusal_exits_two() {
    assert_eq!(EXIT_REFUSED, 2);
}

#[test]
fn the_reload_is_reported_beside_the_write_never_instead_of_it() {
    let r = reloaded(&ReloadAnswer::Restarted("reloaded".into()));
    assert!(r.restarted);
    assert_eq!(r.message, "the session restarted: reloaded (the pads replugged)");
    let text = message(&applied(false), Some(&r));
    assert_eq!(
        text,
        "slot 1: \"Panel P1\" → \"Panel P2\" — a slot change needs the pads replugged — the session restarted: reloaded (the pads replugged)"
    );
    let none = reloaded(&ReloadAnswer::NoDaemon);
    assert_eq!(none, Reloaded { restarted: false, message: "no daemon is running, so nothing had to restart".into() });
    let refused = reloaded(&ReloadAnswer::Refused("busy".into()));
    assert!(!refused.restarted);
    assert_eq!(refused.message, "the file was written, but the daemon would not reload: busy");
    assert_eq!(message(&applied(false), None), applied(false).message());
    assert!(wants_reload(true, &applied(false)));
    assert!(!wants_reload(true, &applied(true)));
    assert!(!wants_reload(false, &applied(false)));
}

#[test]
fn the_slot_list_lines_up_its_columns_and_says_how_to_change_them() {
    let rows = vec![SlotRow {
        slot: 1,
        preset: "Panel P1".into(),
        profile: None,
        keyboard: "(any)".into(),
        persona: Persona::PlayStation,
    }];
    let lines = list_lines(&rows, None);
    assert_eq!(lines[0], "Slots in config.toml:");
    assert_eq!(lines[1], "");
    assert_eq!(lines[2], format!("  slot 1  {:<24} {:<12} keyboard: (any)", "Panel P1", "playstation"));
    assert_eq!(lines.len(), 6);
    assert!(lines[4].starts_with("Repoint one:"));
    let empty = list_lines(&Vec::new(), Some("MAME"));
    assert_eq!(empty[0], "No slots in profile \"MAME\" (games.toml).");
    assert_eq!(empty.len(), 3);
}
