//! `ksx run --game <Title>`: what a session says about the game it launched,
//! and when the game ends the session. The launching and the process
//! tracking are the game library's; this is the wording and the one decision
//! that matters: a game exiting ends the session, losing track of it never
//! does, and ksx never kills a game it started.

use vstd::prelude::*;

use crate::supervisor::HookStop;
use crate::text::{decimal, push_decimal};

verus! {

/// What the tracker answered on one poll.
#[derive(Clone, Debug, PartialEq, Eq)]
pub enum TrackOutcome {
    /// Still watching.
    Watching,
    /// The game exited.
    GameExited,
    /// The tracker gave up on detecting the exit; this is its explanation.
    GaveUp(String),
}

/// Where tracking stands, for the status line.
#[derive(Clone, Debug, PartialEq, Eq)]
pub enum TrackState {
    Idle,
    Running,
    LauncherHandoff,
    Tracking(u32),
    Exited,
    /// Running, with an exit that cannot be detected, for this reason code.
    Unresolvable(String),
}

/// One launched game, followed for the lifetime of a session.
pub struct GameWatch {
    pub title: String,
    /// Set once the game is known to have exited.
    pub ended: bool,
}

pub open spec fn launched_text(title: Seq<char>, what: Seq<char>, pid: Option<u32>) -> Seq<char> {
    "launched '"@ + title + "': "@ + what + match pid {
        Some(p) => " (pid "@ + decimal(p as nat) + ")"@,
        None => seq![],
    }
}

pub open spec fn exited_text(title: Seq<char>) -> Seq<char> {
    "'"@ + title + "' exited — stopping emulation"@
}

pub open spec fn not_closed_text(title: Seq<char>) -> Seq<char> {
    "note: '"@ + title
        + "' was not closed by ksx — ksx never kills a game it started. It keeps running, and your keyboard now types into it normally."@
}

pub open spec fn status_text(title: Seq<char>, state: TrackState) -> Seq<char> {
    "'"@ + title + "': "@ + match state {
        TrackState::Idle => "not started"@,
        TrackState::Running => "running"@,
        TrackState::LauncherHandoff => "launcher handed off, looking for the game"@,
        TrackState::Tracking(pid) => "running (pid "@ + decimal(pid as nat) + ")"@,
        TrackState::Exited => "exited"@,
        TrackState::Unresolvable(code) => "running, exit not detectable ("@ + code@ + ")"@,
    }
}

impl GameWatch {
    pub fn new(title: String) -> (w: GameWatch)
        ensures
            w.title == title,
            !w.ended,
    {
        GameWatch { title, ended: false }
    }

    /// The lines a successful launch prints: what was launched (with its
    /// process id when there is one), then each warning the launch raised.
    pub fn launched_lines(&self, what: &str, pid: Option<u32>, warnings: &Vec<String>) -> (lines: Vec<String>)
        ensures
            lines@.len() == warnings@.len() + 1,
            lines@[0]@ == launched_text(self.title@, what@, pid),
            forall|i: int| 0 <= i < warnings@.len() ==> #[trigger] lines@[i + 1] == warnings@[i],
    {
        let mut first = "launched '".to_owned();
        first.append(self.title.as_str());
        first.append("': ");
        first.append(what);
        match pid {
            Some(p) => {
                first.append(" (pid ");
                push_decimal(&mut first, p as u64);
                first.append(")");
            },
            None => {},
        }
        let mut lines: Vec<String> = Vec::new();
        lines.push(first);
        let mut i: usize = 0;
        while i < warnings.len()
            invariant
                i <= warnings@.len(),
                lines@.len() == i + 1,
                lines@[0]@ == launched_text(self.title@, what@, pid),
                forall|j: int| 0 <= j < i ==> #[trigger] lines@[j + 1] == warnings@[j],
            decreases warnings.len() - i,
        {
            lines.push(warnings[i].clone());
            i = i + 1;
        }
        lines
    }

    /// One poll of the tracker: the game exiting ends the session (and is
    /// remembered); a tracker that gave up says why and ends nothing, since
    /// someone may still be playing.
    pub fn on_poll(&mut self, outcome: &TrackOutcome) -> (r: (Option<String>, Option<HookStop>))
        ensures
            final(self).title == old(self).title,
            match *outcome {
                TrackOutcome::Watching => r.0 is None && r.1 is None && final(self).ended == old(self).ended,
                TrackOutcome::GameExited => r.0 is Some && r.0->0@ == exited_text(old(self).title@) && r.1
                    == Some(HookStop::GameExited) && final(self).ended,
                TrackOutcome::GaveUp(why) => r.0 == Some(why) && r.1 is None && final(self).ended
                    == old(self).ended,
            },
    {
        match outcome {
            TrackOutcome::Watching => (None, None),
            TrackOutcome::GameExited => {
                self.ended = true;
                let mut line = "'".to_owned();
                line.append(self.title.as_str());
                line.append("' exited — stopping emulation");
                (Some(line), Some(HookStop::GameExited))
            },
            TrackOutcome::GaveUp(why) => (Some(why.clone()), None),
        }
    }

    /// What teardown says about the game: nothing after it exited; otherwise
    /// that it keeps running, because ksx never closes it.
    pub fn finished_line(&self) -> (line: Option<String>)
        ensures
            self.ended ==> line is None,
            !self.ended ==> line is Some && line->0@ == not_closed_text(self.title@),
    {
        if self.ended {
            return None;
        }
        let mut line = "note: '".to_owned();
        line.append(self.title.as_str());
        line.append(
            "' was not closed by ksx — ksx never kills a game it started. It keeps running, and your keyboard now types into it normally.",
        );
        Some(line)
    }

    /// The one line `--json` and the tray tooltip carry.
    pub fn status_line(&self, state: &TrackState) -> (line: String)
        ensures
            line@ == status_text(self.title@, *state),
    {
        let mut line = "'".to_owned();
        line.append(self.title.as_str());
        line.append("': ");
        match state {
            TrackState::Idle => line.append("not started"),
            TrackState::Running => line.append("running"),
            TrackState::LauncherHandoff => line.append("launcher handed off, looking for the game"),
            TrackState::Tracking(pid) => {
                line.append("running (pid ");
                push_decimal(&mut line, *pid as u64);
                line.append(")");
            },
            TrackState::Exited => line.append("exited"),
            TrackState::Unresolvable(code) => {
                line.append("running, exit not detectable (");
                line.append(code.as_str());
                line.append(")");
            },
        }
        line
    }
}

} // verus!
