//! `ksx run`'s two reports: what a dry run would launch, and what a finished
//! session did, line by line, in the order a person reads them.

use vstd::prelude::*;

use crate::latency::render_text;
use crate::supervisor::Outcome;
use crate::text::{decimal, push_decimal};

verus! {

/// What `--game` would launch: the target as the game library describes it,
/// whether it is a protocol link, and the process a launcher hand-off is
/// followed to.
#[derive(Clone, Debug, PartialEq, Eq)]
pub struct LaunchPlan {
    pub target: String,
    pub protocol: bool,
    pub process_name: Option<String>,
}

pub open spec fn launch_text(launch: Option<LaunchPlan>, no_launch: bool, game: Option<Seq<char>>) -> Seq<char> {
    match launch {
        Some(plan) => {
            let tracking = match plan.process_name {
                Some(name) => "track process '"@ + name@ + "' after a launcher hand-off"@,
                None => "no process_name: a launcher hand-off cannot be followed"@,
            };
            "  launch: "@ + plan.target@ + "\n          "@ + tracking + "\n"@
        },
        None => if no_launch && game is Some {
            "  launch: skipped (--no-launch); '"@ + game->0 + "' profile applied only\n"@
        } else {
            seq![]
        },
    }
}

/// The dry run's launch paragraph: the target and how its exit is followed,
/// or that `--no-launch` applied the profile without launching it.
pub fn render_launch(launch: Option<&LaunchPlan>, no_launch: bool, game: Option<&str>) -> (text: String)
    ensures
        text@ == launch_text(
            match launch {
                Some(p) => Some(*p),
                None => None,
            },
            no_launch,
            match game {
                Some(g) => Some(g@),
                None => None,
            },
        ),
{
    match launch {
        Some(plan) => {
            let mut text = "  launch: ".to_owned();
            text.append(plan.target.as_str());
            text.append("\n          ");
            match &plan.process_name {
                Some(name) => {
                    text.append("track process '");
                    text.append(name.as_str());
                    text.append("' after a launcher hand-off");
                },
                None => text.append("no process_name: a launcher hand-off cannot be followed"),
            }
            text.append("\n");
            text
        },
        None => {
            if no_launch {
                match game {
                    Some(title) => {
                        let mut text = "  launch: skipped (--no-launch); '".to_owned();
                        text.append(title);
                        text.append("' profile applied only\n");
                        return text;
                    },
                    None => {},
                }
            }
            String::new()
        },
    }
}

pub open spec fn session_line(o: Outcome) -> Seq<char> {
    "session: "@ + decimal(o.events as nat) + " event(s) in, "@ + decimal(o.updates as nat)
        + " pad update(s) out, capture exit '"@ + o.capture_exit@ + "', "@ + decimal(o.toggles as nat)
        + " escape toggle(s)"@
}

pub open spec fn dropped_line(n: u64) -> Seq<char> {
    "[WARN] "@ + decimal(n as nat) + " event(s) were dropped: the engine could not keep up with capture"@
}

pub open spec fn reboot_line() -> Seq<char> {
    "[FAIL] Interception keyboard-slot exhaustion detected — REBOOT REQUIRED before the affected board works again"@
}

pub open spec fn coalesced_line(n: u64) -> Seq<char> {
    "[WARN] "@ + decimal(n as nat)
        + " pad state(s) were superseded before the output thread took them: the pads still hold the newest state, but the output path could not keep up"@
}

pub open spec fn invalidated_line(slot: u8, explanation: Seq<char>) -> Seq<char> {
    "[FAIL] slot "@ + decimal(slot as nat) + " invalidated: "@ + explanation
}

pub open spec fn when(cond: bool, line: Seq<char>) -> Seq<Seq<char>> {
    if cond {
        seq![line]
    } else {
        seq![]
    }
}

/// The finished session's report: why it stopped, the game's last state,
/// the counts, the latency, then each warning the session earned and each
/// slot that was invalidated (with `explanations[i]` for the `i`-th).
pub open spec fn report_text(o: Outcome, game: Option<Seq<char>>, explanations: Seq<Seq<char>>) -> Seq<Seq<char>> {
    seq![o.stop.spec_message()] + (match game {
        Some(g) => seq!["game: "@ + g],
        None => seq![],
    }) + seq![session_line(o), render_text(o.latency)] + when(
        o.health.dropped_events > 0,
        dropped_line(o.health.dropped_events),
    ) + when(o.health.reboot_required, reboot_line()) + when(
        o.deltas_coalesced > 0,
        coalesced_line(o.deltas_coalesced),
    ) + Seq::new(
        o.invalidated@.len(),
        |i: int| invalidated_line(o.invalidated@[i].0, explanations[i]),
    )
}

fn push_line(lines: &mut Vec<String>, line: String)
    ensures
        final(lines)@.len() == old(lines)@.len() + 1,
        forall|i: int| 0 <= i < old(lines)@.len() ==> #[trigger] final(lines)@[i] == old(lines)@[i],
        final(lines)@[old(lines)@.len() as int] == line,
{
    lines.push(line);
}

pub open spec fn views(lines: Seq<String>) -> Seq<Seq<char>> {
    lines.map_values(|s: String| s@)
}

pub fn report_lines(outcome: &Outcome, game_status: Option<&str>, explanations: &Vec<String>) -> (lines: Vec<String>)
    requires
        explanations@.len() == outcome.invalidated@.len(),
    ensures
        views(lines@) == report_text(
            *outcome,
            match game_status {
                Some(g) => Some(g@),
                None => None,
            },
            views(explanations@),
        ),
{
    let ghost game = match game_status {
        Some(g) => Some(g@),
        None => None,
    };
    let mut lines: Vec<String> = Vec::new();
    lines.push(outcome.stop.message());
    match game_status {
        Some(status) => {
            let mut line = "game: ".to_owned();
            line.append(status);
            lines.push(line);
        },
        None => {},
    }
    let mut session = "session: ".to_owned();
    push_decimal(&mut session, outcome.events);
    session.append(" event(s) in, ");
    push_decimal(&mut session, outcome.updates);
    session.append(" pad update(s) out, capture exit '");
    session.append(outcome.capture_exit);
    session.append("', ");
    push_decimal(&mut session, outcome.toggles as u64);
    session.append(" escape toggle(s)");
    lines.push(session);
    lines.push(outcome.latency.render());
    let ghost head = views(lines@);
    assert(head =~= seq![outcome.stop.spec_message()] + (match game {
        Some(g) => seq!["game: "@ + g],
        None => seq![],
    }) + seq![session_line(*outcome), render_text(outcome.latency)]);
    let mut tail_warn: Vec<String> = Vec::new();
    if outcome.health.dropped_events > 0 {
        let mut line = "[WARN] ".to_owned();
        push_decimal(&mut line, outcome.health.dropped_events);
        line.append(" event(s) were dropped: the engine could not keep up with capture");
        tail_warn.push(line);
    }
    let ghost t1 = views(tail_warn@);
    assert(t1 =~= when(outcome.health.dropped_events > 0, dropped_line(outcome.health.dropped_events)));
    if outcome.health.reboot_required {
        tail_warn.push(
            "[FAIL] Interception keyboard-slot exhaustion detected — REBOOT REQUIRED before the affected board works again".to_owned(),
        );
    }
    let ghost t2 = views(tail_warn@);
    assert(t2 =~= t1 + when(outcome.health.reboot_required, reboot_line()));
    if outcome.deltas_coalesced > 0 {
        let mut line = "[WARN] ".to_owned();
        push_decimal(&mut line, outcome.deltas_coalesced);
        line.append(
            " pad state(s) were superseded before the output thread took them: the pads still hold the newest state, but the output path could not keep up",
        );
        tail_warn.push(line);
    }
    let ghost t3 = views(tail_warn@);
    assert(t3 =~= t2 + when(outcome.deltas_coalesced > 0, coalesced_line(outcome.deltas_coalesced)));
    let mut fails: Vec<String> = Vec::new();
    let mut i: usize = 0;
    while i < outcome.invalidated.len()
        invariant
            i <= outcome.invalidated@.len(),
            explanations@.len() == outcome.invalidated@.len(),
            fails@.len() == i,
            forall|j: int|
                0 <= j < i ==> #[trigger] fails@[j]@ == invalidated_line(
                    outcome.invalidated@[j].0,
                    explanations@[j]@,
                ),
        decreases outcome.invalidated.len() - i,
    {
        let (slot, _) = outcome.invalidated[i];
        let mut line = "[FAIL] slot ".to_owned();
        push_decimal(&mut line, slot as u64);
        line.append(" invalidated: ");
        line.append(explanations[i].as_str());
        push_line(&mut fails, line);
        i = i + 1;
    }
    let ghost fv = views(fails@);
    assert(fv =~= Seq::new(
        outcome.invalidated@.len(),
        |k: int| invalidated_line(outcome.invalidated@[k].0, views(explanations@)[k]),
    ));
    lines.append(&mut tail_warn);
    lines.append(&mut fails);
    assert(views(lines@) =~= head + t3 + fv);
    lines
}

} // verus!
