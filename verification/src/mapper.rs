//! Which slots the mapper shows, and from which file: `config.toml`'s
//! `[[slot]]` entries when there are any, otherwise the first `games.toml`
//! profile's, so a surface that offers to change a slot writes back to the
//! file it read it from. Every read failure becomes a sentence a person can
//! act on, never an error code.

use vstd::prelude::*;

use crate::config::{GameEntry, Persona, SlotEntry};
use crate::text::{decimal, push_decimal};

verus! {

/// One slot the mapper lists.
#[derive(Clone, Debug, PartialEq, Eq)]
pub struct MapperRow {
    pub number: u8,
    /// The slot's keyboard, or `(any)`.
    pub keyboard: String,
    pub preset: String,
    pub persona: Persona,
    pub macros: bool,
}

/// Where the mapper's slots come from.
#[derive(Clone, Debug, PartialEq, Eq)]
pub enum MapperSource {
    /// These rows, described by `source`; `profile` names the `games.toml`
    /// profile they were read from, `None` for `config.toml`.
    Rows { rows: Vec<MapperRow>, source: String, profile: Option<String> },
    /// Nothing is configured anywhere.
    Empty { source: String },
    /// A file could not be read; the sentence to show instead.
    Unavailable(String),
    /// `config.toml` has no slots: read `games.toml` and ask again.
    NeedGames,
}

pub open spec fn row_of(s: SlotEntry) -> (u8, Seq<char>, Seq<char>, Persona, bool) {
    (
        s.number,
        match s.keyboard {
            Some(k) => k@,
            None => "(any)"@,
        },
        s.preset@,
        s.persona,
        s.macros,
    )
}

pub open spec fn row_view(r: MapperRow) -> (u8, Seq<char>, Seq<char>, Persona, bool) {
    (r.number, r.keyboard@, r.preset@, r.persona, r.macros)
}

fn rows_of(slots: &Vec<SlotEntry>) -> (rows: Vec<MapperRow>)
    ensures
        rows@.len() == slots@.len(),
        forall|i: int| 0 <= i < slots@.len() ==> #[trigger] row_view(rows@[i]) == row_of(slots@[i]),
{
    let mut rows: Vec<MapperRow> = Vec::new();
    let mut i: usize = 0;
    while i < slots.len()
        invariant
            i <= slots@.len(),
            rows@.len() == i,
            forall|k: int| 0 <= k < i ==> #[trigger] row_view(rows@[k]) == row_of(slots@[k]),
        decreases slots.len() - i,
    {
        let s = &slots[i];
        let keyboard = match &s.keyboard {
            Some(k) => k.clone(),
            None => "(any)".to_owned(),
        };
        rows.push(
            MapperRow {
                number: s.number,
                keyboard,
                preset: s.preset.clone(),
                persona: s.persona,
                macros: s.macros,
            },
        );
        i = i + 1;
    }
    rows
}

pub open spec fn config_unreadable_text() -> Seq<char> {
    "The saved setup could not be read. Close and reopen ksx, then try again."@
}

pub open spec fn games_unreadable_text() -> Seq<char> {
    "Saved games could not be read. Close and reopen ksx, then try again."@
}

/// The first step: `config.toml`'s slots, as read (`None` when the file
/// could not be read).
pub fn mapper_from_config(config: Option<&Vec<SlotEntry>>) -> (m: MapperSource)
    ensures
        match config {
            None => m is Unavailable && m->Unavailable_0@ == config_unreadable_text(),
            Some(slots) => if slots@.len() == 0 {
                m is NeedGames
            } else {
                &&& m is Rows
                &&& m->Rows_source@ == "config.toml [[slot]] entries"@
                &&& m->profile is None
                &&& m->rows@.len() == slots@.len()
                &&& forall|i: int| 0 <= i < slots@.len() ==> #[trigger] row_view(m->rows@[i]) == row_of(slots@[i])
            },
        },
{
    match config {
        None => MapperSource::Unavailable(
            "The saved setup could not be read. Close and reopen ksx, then try again.".to_owned(),
        ),
        Some(slots) => {
            if slots.len() == 0 {
                MapperSource::NeedGames
            } else {
                MapperSource::Rows {
                    rows: rows_of(slots),
                    source: "config.toml [[slot]] entries".to_owned(),
                    profile: None,
                }
            }
        },
    }
}

pub open spec fn profile_source_text(title: Seq<char>) -> Seq<char> {
    "slots of profile \""@ + title + "\" (games.toml)"@
}

/// The second step, when `config.toml` has no slots: the first `games.toml`
/// profile's (`None` when the file could not be read).
pub fn mapper_from_games(games: Option<&Vec<GameEntry>>) -> (m: MapperSource)
    ensures
        match games {
            None => m is Unavailable && m->Unavailable_0@ == games_unreadable_text(),
            Some(list) => if list@.len() == 0 {
                m is Empty && m->Empty_source@
                    == "no [[slot]] entries in config.toml and no games.toml profiles"@
            } else {
                &&& m is Rows
                &&& m->Rows_source@ == profile_source_text(list@[0].title@)
                &&& m->profile == Some(list@[0].title)
                &&& m->rows@.len() == list@[0].slots@.len()
                &&& forall|i: int|
                    0 <= i < list@[0].slots@.len() ==> #[trigger] row_view(m->rows@[i]) == row_of(
                        list@[0].slots@[i],
                    )
            },
        },
{
    match games {
        None => MapperSource::Unavailable(
            "Saved games could not be read. Close and reopen ksx, then try again.".to_owned(),
        ),
        Some(list) => {
            if list.len() == 0 {
                MapperSource::Empty {
                    source: "no [[slot]] entries in config.toml and no games.toml profiles".to_owned(),
                }
            } else {
                let game = &list[0];
                let mut source = "slots of profile \"".to_owned();
                source.append(game.title.as_str());
                source.append("\" (games.toml)");
                MapperSource::Rows {
                    rows: rows_of(&game.slots),
                    source,
                    profile: Some(game.title.clone()),
                }
            }
        },
    }
}

/// Why a slot's preset could not be shown.
#[derive(Clone, Copy, Debug, PartialEq, Eq, Structural)]
pub enum LayoutProblem {
    Missing,
    Unreadable,
    Invalid,
}

pub open spec fn layout_problem_text(number: u8, preset: Seq<char>, problem: LayoutProblem) -> Seq<char> {
    "Player "@ + decimal(number as nat) + "'s controller layout \""@ + preset + match problem {
        LayoutProblem::Missing => "\" is missing. Choose another layout in Setup before editing controls."@,
        LayoutProblem::Unreadable => "\" could not be read. Nothing can be changed until it is repaired or replaced in Setup."@,
        LayoutProblem::Invalid => "\" is not valid. Repair it or choose another layout in Setup before editing controls."@,
    }
}

/// The sentence shown instead of the mapper when a slot's preset cannot be
/// used.
pub fn layout_problem(number: u8, preset: &str, problem: LayoutProblem) -> (text: String)
    ensures
        text@ == layout_problem_text(number, preset@, problem),
{
    let mut s = "Player ".to_owned();
    push_decimal(&mut s, number as u64);
    s.append("'s controller layout \"");
    s.append(preset);
    match problem {
        LayoutProblem::Missing => s.append(
            "\" is missing. Choose another layout in Setup before editing controls.",
        ),
        LayoutProblem::Unreadable => s.append(
            "\" could not be read. Nothing can be changed until it is repaired or replaced in Setup.",
        ),
        LayoutProblem::Invalid => s.append(
            "\" is not valid. Repair it or choose another layout in Setup before editing controls.",
        ),
    }
    s
}

} // verus!
