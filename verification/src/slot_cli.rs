//! `ksx slot`'s words: the slot list as the console shows it, the one
//! sentence an assignment prints (with the daemon's answer to a reload
//! beside it, never instead of it), and what that answer means.

use vstd::prelude::*;

use crate::slots::{AppliedSlot, SlotRow};
use crate::text::{decimal, push_decimal};

verus! {

/// Refused — nothing was written.
pub const EXIT_REFUSED: i32 = 2;

/// The daemon's answer to a reload request.
#[derive(Clone, Debug, PartialEq, Eq)]
pub enum ReloadAnswer {
    /// The session restarted; the daemon's own words.
    Restarted(String),
    /// No daemon answers the control pipe.
    NoDaemon,
    /// The daemon refused, with this message.
    Refused(String),
}

/// What a reload came to: whether the session restarted, and the clause the
/// assignment's sentence carries for it.
#[derive(Clone, Debug, PartialEq, Eq)]
pub struct Reloaded {
    pub restarted: bool,
    pub message: String,
}

pub open spec fn reload_text(answer: ReloadAnswer) -> Seq<char> {
    match answer {
        ReloadAnswer::Restarted(m) => "the session restarted: "@ + m@ + " (the pads replugged)"@,
        ReloadAnswer::NoDaemon => "no daemon is running, so nothing had to restart"@,
        ReloadAnswer::Refused(m) => "the file was written, but the daemon would not reload: "@ + m@,
    }
}

/// What the daemon's answer means for the sentence: a cabinet with no daemon
/// needed no restart, and a refusal never hides that the file was written.
pub fn reloaded(answer: &ReloadAnswer) -> (r: Reloaded)
    ensures
        r.restarted == (*answer is Restarted),
        r.message@ == reload_text(*answer),
{
    match answer {
        ReloadAnswer::Restarted(m) => {
            let mut message = "the session restarted: ".to_owned();
            message.append(m.as_str());
            message.append(" (the pads replugged)");
            Reloaded { restarted: true, message }
        },
        ReloadAnswer::NoDaemon => Reloaded {
            restarted: false,
            message: "no daemon is running, so nothing had to restart".to_owned(),
        },
        ReloadAnswer::Refused(m) => {
            let mut message = "the file was written, but the daemon would not reload: ".to_owned();
            message.append(m.as_str());
            Reloaded { restarted: false, message }
        },
    }
}

/// A reload is asked for only when it was requested and the write changed
/// something.
pub fn wants_reload(reload: bool, applied: &AppliedSlot) -> (b: bool)
    ensures
        b == (reload && !applied.unchanged),
{
    reload && !applied.unchanged
}

/// What happened, in one sentence: the write, and then the pads.
pub fn message(applied: &AppliedSlot, reloaded: Option<&Reloaded>) -> (text: String)
    ensures
        text@ == applied.message_text() + match reloaded {
            Some(r) => " — "@ + r.message@,
            None => Seq::<char>::empty(),
        },
{
    let mut text = applied.message();
    match reloaded {
        Some(r) => {
            text.append(" — ");
            text.append(r.message.as_str());
        },
        None => {
            proof {
                assert(text@ =~= applied.message_text() + Seq::<char>::empty());
            }
        },
    }
    text
}

/// `s`, then spaces up to `width` characters (`{:<width}`).
pub open spec fn left_aligned(s: Seq<char>, width: nat) -> Seq<char> {
    if s.len() >= width {
        s
    } else {
        s + Seq::new((width - s.len()) as nat, |i: int| ' ')
    }
}

fn push_left_aligned(out: &mut String, s: &str, width: usize)
    ensures
        final(out)@ == old(out)@ + left_aligned(s@, width as nat),
{
    out.append(s);
    let ghost mid = out@;
    let n = s.unicode_len();
    let mut k: usize = n;
    while k < width
        invariant
            n == s@.len(),
            n <= k,
            k <= width || k == n,
            out@ == mid + Seq::new((k - n) as nat, |i: int| ' '),
        decreases width - k,
    {
        crate::text::push_char(out, ' ');
        proof {
            assert(out@ =~= mid + Seq::new((k + 1 - n) as nat, |i: int| ' '));
        }
        k = k + 1;
    }
    proof {
        if n >= width {
            assert(out@ =~= old(out)@ + left_aligned(s@, width as nat));
        } else {
            assert(k == width);
            assert(out@ =~= old(out)@ + left_aligned(s@, width as nat));
        }
    }
}

pub open spec fn where_of(profile: Option<Seq<char>>) -> Seq<char> {
    match profile {
        Some(t) => "profile \""@ + t + "\" (games.toml)"@,
        None => "config.toml"@,
    }
}

pub open spec fn row_line(r: SlotRow) -> Seq<char> {
    "  slot "@ + decimal(r.slot as nat) + "  "@ + left_aligned(r.preset@, 24) + " "@ + left_aligned(
        r.persona.spec_as_str(),
        12,
    ) + " keyboard: "@ + r.keyboard@
}

/// `ksx slot list` for a person: the slots of one destination with the
/// commands that change them, or, with none, how to add one.
pub open spec fn list_text(rows: Seq<SlotRow>, profile: Option<Seq<char>>) -> Seq<Seq<char>> {
    let w = where_of(profile);
    if rows.len() == 0 {
        seq![
            "No slots in "@ + w + "."@,
            "Add one:  ksx slot assign --slot 1 --preset \"<preset>\""@,
            "...or run `ksx setup`, which identifies the panel by press first."@,
        ]
    } else {
        seq!["Slots in "@ + w + ":"@, Seq::<char>::empty()] + rows.map_values(|r: SlotRow| row_line(r)) + seq![
            Seq::<char>::empty(),
            "Repoint one:  ksx slot assign --slot N --preset \"<preset>\""@,
            "Re-persona one:  ksx slot assign --slot N --persona playstation"@,
        ]
    }
}

pub open spec fn line_views(lines: Seq<String>) -> Seq<Seq<char>> {
    lines.map_values(|s: String| s@)
}

fn where_string(profile: Option<&str>) -> (w: String)
    ensures
        w@ == where_of(
            match profile {
                Some(t) => Some(t@),
                None => None,
            },
        ),
{
    match profile {
        Some(t) => {
            let mut w = "profile \"".to_owned();
            w.append(t);
            w.append("\" (games.toml)");
            w
        },
        None => "config.toml".to_owned(),
    }
}

pub fn list_lines(rows: &Vec<SlotRow>, profile: Option<&str>) -> (lines: Vec<String>)
    ensures
        line_views(lines@) == list_text(
            rows@,
            match profile {
                Some(t) => Some(t@),
                None => None,
            },
        ),
{
    let w = where_string(profile);
    let mut lines: Vec<String> = Vec::new();
    if rows.len() == 0 {
        let mut first = "No slots in ".to_owned();
        first.append(w.as_str());
        first.append(".");
        lines.push(first);
        lines.push("Add one:  ksx slot assign --slot 1 --preset \"<preset>\"".to_owned());
        lines.push("...or run `ksx setup`, which identifies the panel by press first.".to_owned());
        proof {
            assert(line_views(lines@) =~= list_text(
                rows@,
                match profile {
                    Some(t) => Some(t@),
                    None => None,
                },
            ));
        }
        return lines;
    }
    let mut head = "Slots in ".to_owned();
    head.append(w.as_str());
    head.append(":");
    lines.push(head);
    lines.push(String::new());
    let ghost start = lines@;
    let mut i: usize = 0;
    while i < rows.len()
        invariant
            i <= rows@.len(),
            lines@.len() == start.len() + i,
            forall|j: int| 0 <= j < start.len() ==> #[trigger] lines@[j] == start[j],
            forall|j: int| 0 <= j < i ==> #[trigger] lines@[start.len() + j]@ == row_line(rows@[j]),
        decreases rows.len() - i,
    {
        let row = &rows[i];
        let mut line = "  slot ".to_owned();
        push_decimal(&mut line, row.slot as u64);
        line.append("  ");
        push_left_aligned(&mut line, row.preset.as_str(), 24);
        line.append(" ");
        push_left_aligned(&mut line, row.persona.as_str(), 12);
        line.append(" keyboard: ");
        line.append(row.keyboard.as_str());
        lines.push(line);
        i = i + 1;
    }
    let ghost body_end = lines@.len();
    lines.push(String::new());
    lines.push("Repoint one:  ksx slot assign --slot N --preset \"<preset>\"".to_owned());
    lines.push("Re-persona one:  ksx slot assign --slot N --persona playstation".to_owned());
    proof {
        reveal_strlit("");
        let ghost want = list_text(
            rows@,
            match profile {
                Some(t) => Some(t@),
                None => None,
            },
        );
        let n = rows@.len() as int;
        assert(start.len() == 2);
        assert(body_end == 2 + n);
        assert(want.len() == 2 + n + 3);
        assert(line_views(lines@).len() == want.len());
        assert forall|j: int| 0 <= j < want.len() implies #[trigger] line_views(lines@)[j] == want[j] by {
            if j < 2 {
                assert(lines@[j] == start[j]);
            } else if j < 2 + n {
                assert(lines@[2 + (j - 2)]@ == row_line(rows@[j - 2]));
            }
        }
        assert(line_views(lines@) =~= list_text(
            rows@,
            match profile {
                Some(t) => Some(t@),
                None => None,
            },
        ));
    }
    lines
}

} // verus!
