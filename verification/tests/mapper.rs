use ksx_backend::config::{configured_profile, GameEntry, Persona, SlotEntry, Socd};
use ksx_backend::mapper::{layout_problem, mapper_from_config, mapper_from_games, LayoutProblem, MapperSource};

fn slot(number: u8, keyboard: Option<&str>, preset: &str) -> SlotEntry {
    SlotEntry {
        number,
        user_index: None,
        keyboard: keyboard.map(str::to_owned),
        mouse: None,
        preset: preset.into(),
        persona: Persona::Xbox360,
        socd: Socd::Off,
        macros: false,
    }
}

#[test]
fn config_slots_come_first_and_an_unbound_one_reads_any() {
    let slots = vec![slot(1, Some("panel"), "Player 1"), slot(2, None, "Player 2")];
    let MapperSource::Rows { rows, source, profile } = mapper_from_config(Some(&slots)) else {
        panic!("config slots are shown");
    };
    assert_eq!(source, "config.toml [[slot]] entries");
    assert_eq!(profile, None);
    assert_eq!(rows[0].keyboard, "panel");
    assert_eq!(rows[1].keyboard, "(any)");
    assert_eq!(rows[1].preset, "Player 2");
}

#[test]
fn no_config_slots_falls_through_to_the_first_profile() {
    assert_eq!(mapper_from_config(Some(&Vec::new())), MapperSource::NeedGames);
    let games = vec![
        GameEntry {
            title: "Fight Night".into(),
            slots: vec![slot(3, Some("stick"), "FN")],
        },
        GameEntry {
            title: "Other".into(),
            slots: Vec::new(),
        },
    ];
    let MapperSource::Rows { rows, source, profile } = mapper_from_games(Some(&games)) else {
        panic!("the first profile's slots are shown");
    };
    assert_eq!(source, "slots of profile \"Fight Night\" (games.toml)");
    assert_eq!(profile.as_deref(), Some("Fight Night"));
    assert_eq!(rows.len(), 1);
    assert_eq!(rows[0].number, 3);
}

#[test]
fn unreadable_files_and_an_empty_machine_say_so() {
    assert_eq!(
        mapper_from_config(None),
        MapperSource::Unavailable(
            "The saved setup could not be read. Close and reopen ksx, then try again.".into()
        )
    );
    assert_eq!(
        mapper_from_games(None),
        MapperSource::Unavailable(
            "Saved games could not be read. Close and reopen ksx, then try again.".into()
        )
    );
    assert_eq!(
        mapper_from_games(Some(&Vec::new())),
        MapperSource::Empty {
            source: "no [[slot]] entries in config.toml and no games.toml profiles".into()
        }
    );
}

#[test]
fn a_broken_layout_names_the_player_and_the_way_out() {
    assert_eq!(
        layout_problem(2, "Street", LayoutProblem::Missing),
        "Player 2's controller layout \"Street\" is missing. Choose another layout in Setup before editing controls."
    );
    assert!(layout_problem(1, "X", LayoutProblem::Unreadable).contains("could not be read"));
    assert!(layout_problem(1, "X", LayoutProblem::Invalid).contains("is not valid"));
}

#[test]
fn a_launch_starts_on_the_first_game_only_when_config_has_no_slots() {
    let titles = vec!["Fight Night".to_owned(), "MAME".to_owned()];
    assert_eq!(configured_profile(true, Some(&titles)), None);
    assert_eq!(configured_profile(false, Some(&titles)), Some("Fight Night".to_owned()));
    assert_eq!(configured_profile(false, Some(&Vec::new())), None);
    assert_eq!(configured_profile(false, None), None);
}
