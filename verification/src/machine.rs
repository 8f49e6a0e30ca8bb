//! The machine reads a control surface shows, worded: the pad bus and the
//! keyboard filter driver, the other ksx processes, the logon task, the
//! saved games and controller layouts, and the refusals each verb answers
//! with. The reads themselves happen elsewhere; what arrives here is what
//! they found, as plain values.

use vstd::prelude::*;

use crate::config::SlotEntry;
use crate::resolve::{dedupe, deduped, id_views};
use crate::studio_launch::{trim, trim_text};
use crate::text::{decimal, decimal_string, eq_ignore_case, push_decimal, same_ignoring_case};
use crate::winusb::{Refusal, RefusalCode};

verus! {

/// A Windows service's state, as the service control manager reports it.
#[derive(Clone, Copy, Debug, PartialEq, Eq, Structural)]
pub enum ServiceState {
    Running,
    Stopped,
    StartPending,
    StopPending,
    Paused,
    PausePending,
    ContinuePending,
    NotRegistered,
    Unknown,
}

pub open spec fn service_state_text(state: ServiceState) -> Seq<char> {
    match state {
        ServiceState::Running => "service running"@,
        ServiceState::Stopped => "service stopped"@,
        ServiceState::StartPending => "service start pending"@,
        ServiceState::StopPending => "service stop pending"@,
        ServiceState::Paused => "service paused"@,
        ServiceState::PausePending => "service pause pending"@,
        ServiceState::ContinuePending => "service continue pending"@,
        ServiceState::NotRegistered => "service not registered with the SCM"@,
        ServiceState::Unknown => "service state unknown"@,
    }
}

/// How a service's state reads in a status line.
pub fn service_state_label(state: ServiceState) -> (label: &'static str)
    ensures
        label@ == service_state_text(state),
{
    match state {
        ServiceState::Running => "service running",
        ServiceState::Stopped => "service stopped",
        ServiceState::StartPending => "service start pending",
        ServiceState::StopPending => "service stop pending",
        ServiceState::Paused => "service paused",
        ServiceState::PausePending => "service pause pending",
        ServiceState::ContinuePending => "service continue pending",
        ServiceState::NotRegistered => "service not registered with the SCM",
        ServiceState::Unknown => "service state unknown",
    }
}

/// The pad bus's status line: installed or not, its service state (unknown
/// when the service could not be read) and its driver file's version.
pub open spec fn bus_text(installed: bool, state: Option<ServiceState>, version: Option<Seq<char>>) -> Seq<char> {
    if !installed {
        "not installed"@
    } else {
        let shown = match state {
            Some(s) => service_state_text(s),
            None => "service state unknown"@,
        };
        match version {
            Some(v) => "installed — "@ + shown + " — driver v"@ + v,
            None => "installed — "@ + shown + " — driver version unknown"@,
        }
    }
}

pub fn bus_line(installed: bool, state: Option<ServiceState>, version: Option<&str>) -> (line: String)
    ensures
        line@ == bus_text(
            installed,
            state,
            match version {
                Some(v) => Some(v@),
                None => None,
            },
        ),
{
    if !installed {
        return "not installed".to_owned();
    }
    let shown = match state {
        Some(s) => service_state_label(s),
        None => "service state unknown",
    };
    let mut line = "installed — ".to_owned();
    line.append(shown);
    match version {
        Some(v) => {
            line.append(" — driver v");
            line.append(v);
        },
        None => {
            line.append(" — driver version unknown");
        },
    }
    line
}

/// The keyboard filter driver's status line: installed or not, whether its
/// filter sits in the keyboard class stack, and its driver file's version.
pub open spec fn interception_text(installed: bool, filter_active: bool, version: Option<Seq<char>>) -> Seq<char> {
    if !installed {
        "not installed (the M6 target state once WinUSB capture lands)"@
    } else {
        let filter = if filter_active {
            "keyboard filter active"@
        } else {
            "keyboard filter NOT in the class stack"@
        };
        match version {
            Some(v) => "installed — "@ + filter + " — driver v"@ + v,
            None => "installed — "@ + filter,
        }
    }
}

pub fn interception_line(installed: bool, filter_active: bool, version: Option<&str>) -> (line: String)
    ensures
        line@ == interception_text(
            installed,
            filter_active,
            match version {
                Some(v) => Some(v@),
                None => None,
            },
        ),
{
    if !installed {
        return "not installed (the M6 target state once WinUSB capture lands)".to_owned();
    }
    let mut line = "installed — ".to_owned();
    if filter_active {
        line.append("keyboard filter active");
    } else {
        line.append("keyboard filter NOT in the class stack");
    }
    match version {
        Some(v) => {
            line.append(" — driver v");
            line.append(v);
        },
        None => {},
    }
    line
}

/// `n` in decimal, left-padded with zeros to `width` characters.
pub open spec fn padded(n: nat, width: nat) -> Seq<char> {
    if decimal(n).len() >= width {
        decimal(n)
    } else {
        Seq::new((width - decimal(n).len()) as nat, |i: int| '0') + decimal(n)
    }
}

fn push_padded(s: &mut String, n: u64, width: usize)
    ensures
        final(s)@ == old(s)@ + padded(n as nat, width as nat),
{
    let d = decimal_string(n);
    let len = d.unicode_len();
    let ghost start = s@;
    let mut k: usize = len;
    while k < width
        invariant
            len == decimal(n as nat).len(),
            len <= k,
            k <= width || k == len,
            s@ == start + Seq::new((k - len) as nat, |i: int| '0'),
        decreases width - k,
    {
        crate::text::push_char(s, '0');
        proof {
            assert(s@ =~= start + Seq::new((k + 1 - len) as nat, |i: int| '0'));
        }
        k = k + 1;
    }
    s.append(d.as_str());
    proof {
        if len >= width {
            assert(k == len);
            assert(s@ =~= start + padded(n as nat, width as nat));
        } else {
            assert(k == width);
            assert(s@ =~= start + padded(n as nat, width as nat));
        }
    }
}

/// `2026-08-07 14:05:09 UTC`: a UTC time as a status page stamps it.
pub open spec fn utc_text(year: u16, month: u8, day: u8, hour: u8, minute: u8, second: u8) -> Seq<char> {
    padded(year as nat, 4) + "-"@ + padded(month as nat, 2) + "-"@ + padded(day as nat, 2) + " "@
        + padded(hour as nat, 2) + ":"@ + padded(minute as nat, 2) + ":"@ + padded(second as nat, 2)
        + " UTC"@
}

pub fn utc_stamp(year: u16, month: u8, day: u8, hour: u8, minute: u8, second: u8) -> (stamp: String)
    ensures
        stamp@ == utc_text(year, month, day, hour, minute, second),
{
    let mut s = String::new();
    push_padded(&mut s, year as u64, 4);
    s.append("-");
    push_padded(&mut s, month as u64, 2);
    s.append("-");
    push_padded(&mut s, day as u64, 2);
    s.append(" ");
    push_padded(&mut s, hour as u64, 2);
    s.append(":");
    push_padded(&mut s, minute as u64, 2);
    s.append(":");
    push_padded(&mut s, second as u64, 2);
    s.append(" UTC");
    proof {
        assert(s@ =~= utc_text(year, month, day, hour, minute, second));
    }
    s
}

/// One row of the process table: its id, and whether it is a `ksx.exe`.
#[derive(Clone, Copy, Debug, PartialEq, Eq, Structural)]
pub struct ProcessRow {
    pub pid: u32,
    pub is_ksx: bool,
}

/// The ids of the `ksx.exe` processes other than this one, in table order.
pub open spec fn other_ksx(self_pid: u32, ps: Seq<ProcessRow>) -> Seq<u32>
    decreases ps.len(),
{
    if ps.len() == 0 {
        seq![]
    } else {
        let prev = other_ksx(self_pid, ps.drop_last());
        let p = ps.last();
        if p.pid != self_pid && p.is_ksx {
            prev.push(p.pid)
        } else {
            prev
        }
    }
}

/// `12, 345`: process ids joined the way the detail line lists them.
pub open spec fn pid_list(v: Seq<u32>) -> Seq<char>
    decreases v.len(),
{
    if v.len() == 0 {
        seq![]
    } else if v.len() == 1 {
        decimal(v[0] as nat)
    } else {
        pid_list(v.drop_last()) + ", "@ + decimal(v.last() as nat)
    }
}

pub open spec fn daemon_text(pids: Seq<u32>) -> Seq<char> {
    if pids.len() == 0 {
        "no other ksx.exe process (process-list check; the Session panel's control pipe is the authoritative daemon view)"@
    } else {
        "ksx.exe alive (pid "@ + pid_list(pids)
            + ") — daemon or session; if the Session panel shows no control channel, this one predates it or is a foreground `ksx run`"@
    }
}

/// Is another ksx alive, by the process list? The answer says how it was
/// found out: a process list cannot tell a tray daemon from a foreground
/// session, and the Session panel's control pipe is the authoritative view.
pub fn daemon_check(self_pid: u32, processes: &Vec<ProcessRow>) -> (r: (bool, String))
    ensures
        r.0 == (other_ksx(self_pid, processes@).len() > 0),
        r.1@ == daemon_text(other_ksx(self_pid, processes@)),
{
    let mut pids: Vec<u32> = Vec::new();
    let mut i: usize = 0;
    while i < processes.len()
        invariant
            i <= processes@.len(),
            pids@ == other_ksx(self_pid, processes@.take(i as int)),
        decreases processes.len() - i,
    {
        assert(processes@.take(i + 1).drop_last() =~= processes@.take(i as int));
        let p = processes[i];
        if p.pid != self_pid && p.is_ksx {
            pids.push(p.pid);
        }
        i = i + 1;
    }
    assert(processes@.take(processes@.len() as int) =~= processes@);
    if pids.len() == 0 {
        return (
            false,
            "no other ksx.exe process (process-list check; the Session panel's control pipe is the authoritative daemon view)".to_owned(),
        );
    }
    let mut line = "ksx.exe alive (pid ".to_owned();
    let ghost head = line@;
    let mut k: usize = 0;
    while k < pids.len()
        invariant
            k <= pids@.len(),
            line@ == head + pid_list(pids@.take(k as int)),
        decreases pids.len() - k,
    {
        assert(pids@.take(k + 1).drop_last() =~= pids@.take(k as int));
        if k > 0 {
            line.append(", ");
        }
        push_decimal(&mut line, pids[k] as u64);
        proof {
            if k == 0 {
                assert(pids@.take(1).len() == 1);
            }
            assert(line@ =~= head + pid_list(pids@.take(k + 1)));
        }
        k = k + 1;
    }
    assert(pids@.take(pids@.len() as int) =~= pids@);
    line.append(
        ") — daemon or session; if the Session panel shows no control channel, this one predates it or is a foreground `ksx run`",
    );
    (true, line)
}

/// What a query for the logon task found.
#[derive(Clone, Debug, PartialEq, Eq)]
pub enum AutostartRead {
    NotRegistered,
    /// Registered: how its command reads, when it is one ksx recognizes, and
    /// the profile it starts, if any.
    Registered { mode: Option<String>, game: Option<String> },
    /// The query itself failed, for this reason.
    Failed(String),
}

pub open spec fn autostart_text(read: AutostartRead) -> Seq<char> {
    match read {
        AutostartRead::NotRegistered => "not registered"@,
        AutostartRead::Registered { mode, game } => {
            let shown = match mode {
                Some(m) => m@,
                None => "unrecognized command"@,
            };
            match game {
                Some(g) => "registered — "@ + shown + " — profile \""@ + g@ + "\""@,
                None => "registered — "@ + shown,
            }
        },
        AutostartRead::Failed(err) => "query failed: "@ + err@,
    }
}

/// The logon task's status line.
pub fn autostart_line(read: &AutostartRead) -> (line: String)
    ensures
        line@ == autostart_text(*read),
{
    match read {
        AutostartRead::NotRegistered => "not registered".to_owned(),
        AutostartRead::Registered { mode, game } => {
            let mut line = "registered — ".to_owned();
            match mode {
                Some(m) => line.append(m.as_str()),
                None => line.append("unrecognized command"),
            }
            match game {
                Some(g) => {
                    line.append(" — profile \"");
                    line.append(g.as_str());
                    line.append("\"");
                },
                None => {},
            }
            line
        },
        AutostartRead::Failed(err) => {
            let mut line = "query failed: ".to_owned();
            line.append(err.as_str());
            line
        },
    }
}

/// How the registered task compares with the running copy of ksx.
#[derive(Clone, Copy, Debug, PartialEq, Eq, Structural)]
pub enum Staleness {
    Current,
    /// It points at a ksx that is no longer there.
    MissingExe,
    /// It starts a different copy of ksx.
    DifferentExe,
    /// It has nothing to run.
    NoCommand,
}

/// The sentence a stale registration gets; none when it is current or when
/// it could not be checked.
pub open spec fn stale_text(staleness: Option<Staleness>) -> Option<Seq<char>> {
    match staleness {
        Some(Staleness::MissingExe) => Some(
            "The registered task points at a copy of ksx that is no longer there, so this machine would start up to nothing. Turn it on again here to point it at this copy."@,
        ),
        Some(Staleness::DifferentExe) => Some(
            "The registered task starts a DIFFERENT copy of ksx than this one. That may be deliberate; if it is not, turn it on again here to point it at this copy."@,
        ),
        Some(Staleness::NoCommand) => Some(
            "The registered task has nothing to run - something edited it outside ksx. Turn it on again here to rewrite it."@,
        ),
        _ => None,
    }
}

/// The logon task as a page shows it.
#[derive(Clone, Debug, PartialEq, Eq)]
pub struct AutostartView {
    pub registered: bool,
    pub line: String,
    pub mode: Option<String>,
    pub profile: Option<String>,
    pub stale: bool,
    pub stale_detail: Option<String>,
}

/// The task as a view: `task` is its mode and profile when it is
/// registered, `line` its status line, `staleness` the comparison with this
/// copy of ksx (none when this copy could not name its own program, which
/// must never read as stale).
pub fn autostart_view(task: Option<(Option<String>, Option<String>)>, line: String, staleness: Option<Staleness>) -> (v: AutostartView)
    ensures
        v.line == line,
        v.registered == (task is Some),
        task is None ==> v.mode is None && v.profile is None && !v.stale && v.stale_detail is None,
        task matches Some((mode, profile)) ==> {
            &&& v.mode == mode
            &&& v.profile == profile
            &&& v.stale == (stale_text(staleness) is Some)
            &&& match stale_text(staleness) {
                Some(t) => v.stale_detail is Some && v.stale_detail->0@ == t,
                None => v.stale_detail is None,
            }
        },
{
    match task {
        None => AutostartView { registered: false, line, mode: None, profile: None, stale: false, stale_detail: None },
        Some((mode, profile)) => {
            let stale_detail = match staleness {
                Some(Staleness::MissingExe) => Some(
                    "The registered task points at a copy of ksx that is no longer there, so this machine would start up to nothing. Turn it on again here to point it at this copy.".to_owned(),
                ),
                Some(Staleness::DifferentExe) => Some(
                    "The registered task starts a DIFFERENT copy of ksx than this one. That may be deliberate; if it is not, turn it on again here to point it at this copy.".to_owned(),
                ),
                Some(Staleness::NoCommand) => Some(
                    "The registered task has nothing to run - something edited it outside ksx. Turn it on again here to rewrite it.".to_owned(),
                ),
                _ => None,
            };
            let stale = stale_detail.is_some();
            AutostartView { registered: true, line, mode, profile, stale, stale_detail }
        },
    }
}

/// What a sign-in change asks the scheduler to do.
#[derive(Clone, Copy, Debug, PartialEq, Eq, Structural)]
pub enum AutostartChange {
    /// Register (or rewrite) the task with the defaults.
    Enable,
    /// Remove the task.
    Remove,
}

/// A sign-in change is made only when it was confirmed.
pub fn autostart_change(confirm: bool, enable: bool) -> (r: Result<AutostartChange, Refusal>)
    ensures
        confirm ==> r == (if enable {
            Ok::<AutostartChange, Refusal>(AutostartChange::Enable)
        } else {
            Ok::<AutostartChange, Refusal>(AutostartChange::Remove)
        }),
        !confirm ==> r is Err && r->Err_0.code == RefusalCode::Refused && r->Err_0.message@
            == "changing what happens at sign-in was not confirmed"@ && r->Err_0.remedy is Some
            && r->Err_0.remedy->0@ == "tick the box, then try again"@,
{
    if !confirm {
        return Err(
            Refusal {
                code: RefusalCode::Refused,
                message: "changing what happens at sign-in was not confirmed".to_owned(),
                remedy: Some("tick the box, then try again".to_owned()),
            },
        );
    }
    if enable {
        Ok(AutostartChange::Enable)
    } else {
        Ok(AutostartChange::Remove)
    }
}

/// The scheduler would not make the change: its reason is kept, and the way
/// forward is worded for a person.
pub fn autostart_refusal(err: &str) -> (r: Refusal)
    ensures
        r.code == RefusalCode::Refused,
        r.message@ == "the logon task could not be changed: "@ + err@,
        r.remedy is Some,
        r.remedy->0@
            == "Windows would not accept the change. Try again; if it keeps failing, sign out and back in first."@,
{
    let mut message = "the logon task could not be changed: ".to_owned();
    message.append(err);
    Refusal {
        code: RefusalCode::Refused,
        message,
        remedy: Some(
            "Windows would not accept the change. Try again; if it keeps failing, sign out and back in first.".to_owned(),
        ),
    }
}

/// What the pad module decided about clearing stale virtual pads.
#[derive(Clone, Debug, PartialEq, Eq)]
pub enum PrunePlan {
    /// No virtual pads are on the bus.
    Nothing,
    /// The bus exposes no devnode to restart.
    NoBus,
    /// A session is driving these pads.
    SessionRunning { count: usize },
    /// Restarting this bus devnode clears `count` pads.
    Restart { bus_instance_id: String, count: usize },
}

/// The next step of a prune request.
#[derive(Debug, PartialEq, Eq)]
pub enum PruneStep {
    /// Answered without touching anything.
    Answer(Result<String, Refusal>),
    /// Restart the bus; `command` is the one a person could run instead.
    Restart { bus_instance_id: String, command: String, count: usize },
}

pub open spec fn restart_command_text(id: Seq<char>) -> Seq<char> {
    "pnputil /restart-device \""@ + id + "\""@
}

pub open spec fn refusal_says(r: Refusal, message: Seq<char>, remedy: Option<Seq<char>>) -> bool {
    &&& r.code == RefusalCode::Refused
    &&& r.message@ == message
    &&& match remedy {
        Some(t) => r.remedy is Some && r.remedy->0@ == t,
        None => r.remedy is None,
    }
}

/// `ksx pads --prune` without a console: a dry run unless `confirm`, and a
/// refusal that hands over the working command when this process holds no
/// administrator token (`elevated` is `None` when that could not be told).
/// `planned_command` is the command the pad module spells for the restart;
/// without one it is `pnputil /restart-device "<bus>"`.
pub fn prune_step(plan: &PrunePlan, planned_command: Option<String>, confirm: bool, elevated: Option<bool>) -> (step: PruneStep)
    ensures
        match *plan {
            PrunePlan::Nothing => step == PruneStep::Answer(
                Ok::<String, Refusal>(step->Answer_0->Ok_0),
            ) && step->Answer_0->Ok_0@ == "no virtual pads on the bus — nothing to prune."@,
            PrunePlan::NoBus => step is Answer && step->Answer_0 is Err && refusal_says(
                step->Answer_0->Err_0,
                "ViGEmBus exposes no devnode to restart"@,
                Some("if joy.cpl still lists pads, reboot — there is nothing here to act on"@),
            ),
            PrunePlan::SessionRunning { count } => step is Answer && step->Answer_0 is Err && refusal_says(
                step->Answer_0->Err_0,
                "a session is running, and those "@ + decimal(count as nat)
                    + " pad(s) are the ones it is driving — pruning would unplug them mid-game"@,
                Some("stop emulation first, then prune"@),
            ),
            PrunePlan::Restart { bus_instance_id, count } => {
                let command = match planned_command {
                    Some(c) => c@,
                    None => restart_command_text(bus_instance_id@),
                };
                if !confirm {
                    step is Answer && step->Answer_0 is Ok && step->Answer_0->Ok_0@ == "dry run — "@ + decimal(
                        count as nat,
                    ) + " virtual pad(s) would be cleared by restarting the bus. Nothing was changed."@
                } else if elevated == Some(false) {
                    step is Answer && step->Answer_0 is Err && refusal_says(
                        step->Answer_0->Err_0,
                        "restarting a bus device needs an administrator token, and ksx never self-elevates"@,
                        Some(command),
                    )
                } else {
                    step matches PruneStep::Restart { bus_instance_id: b, command: c, count: n } && b
                        == bus_instance_id && c@ == command && n == count
                }
            },
        },
{
    match plan {
        PrunePlan::Nothing => PruneStep::Answer(Ok("no virtual pads on the bus — nothing to prune.".to_owned())),
        PrunePlan::NoBus => PruneStep::Answer(
            Err(
                Refusal {
                    code: RefusalCode::Refused,
                    message: "ViGEmBus exposes no devnode to restart".to_owned(),
                    remedy: Some("if joy.cpl still lists pads, reboot — there is nothing here to act on".to_owned()),
                },
            ),
        ),
        PrunePlan::SessionRunning { count } => {
            let mut message = "a session is running, and those ".to_owned();
            push_decimal(&mut message, *count as u64);
            message.append(" pad(s) are the ones it is driving — pruning would unplug them mid-game");
            PruneStep::Answer(
                Err(
                    Refusal {
                        code: RefusalCode::Refused,
                        message,
                        remedy: Some("stop emulation first, then prune".to_owned()),
                    },
                ),
            )
        },
        PrunePlan::Restart { bus_instance_id, count } => {
            let command = match planned_command {
                Some(c) => c,
                None => {
                    let mut c = "pnputil /restart-device \"".to_owned();
                    c.append(bus_instance_id.as_str());
                    c.append("\"");
                    c
                },
            };
            if !confirm {
                let mut message = "dry run — ".to_owned();
                push_decimal(&mut message, *count as u64);
                message.append(" virtual pad(s) would be cleared by restarting the bus. Nothing was changed.");
                return PruneStep::Answer(Ok(message));
            }
            if elevated == Some(false) {
                return PruneStep::Answer(
                    Err(
                        Refusal {
                            code: RefusalCode::Refused,
                            message: "restarting a bus device needs an administrator token, and ksx never self-elevates".to_owned(),
                            remedy: Some(command),
                        },
                    ),
                );
            }
            PruneStep::Restart { bus_instance_id: bus_instance_id.clone(), command, count: *count }
        },
    }
}

/// What the bus restart answered, as the reply to the prune request.
pub fn prune_reply(count: usize, command: String, restarted: Result<(), String>) -> (r: Result<String, Refusal>)
    ensures
        restarted is Ok ==> r is Ok && r->Ok_0@ == "cleared "@ + decimal(count as nat)
            + " virtual pad(s) — the bus was restarted."@,
        restarted matches Err(err) ==> r is Err && refusal_says(
            r->Err_0,
            "the bus restart failed: "@ + err@,
            Some(command@),
        ),
{
    match restarted {
        Ok(()) => {
            let mut message = "cleared ".to_owned();
            push_decimal(&mut message, count as u64);
            message.append(" virtual pad(s) — the bus was restarted.");
            Ok(message)
        },
        Err(err) => {
            let mut message = "the bus restart failed: ".to_owned();
            message.append(err.as_str());
            Err(Refusal { code: RefusalCode::Refused, message, remedy: Some(command) })
        },
    }
}

/// What the launch preflight found about a saved game's program.
#[derive(Clone, Copy, Debug, PartialEq, Eq, Structural)]
pub enum Preflight {
    Passed,
    ExeMissing,
    NotAFile,
    NoPath,
}

/// How a saved game checks out: its state word, the sentence for it, and
/// the path a game that cannot start names.
#[derive(Clone, Debug, PartialEq, Eq)]
pub struct ProfileVerdict {
    pub state: String,
    pub verdict: String,
    pub broken_path: Option<String>,
}

/// The verdict for a saved game: `launcher` names the program a protocol
/// link (`steam://...`) is handed to, which ksx cannot check ahead of time,
/// so such a game is `launcher` and never `ok`.
pub fn profile_verdict(preflight: Preflight, launcher: Option<&str>, path: &str) -> (v: ProfileVerdict)
    ensures
        match preflight {
            Preflight::Passed => match launcher {
                Some(l) => v.state@ == "launcher"@ && v.verdict@ == "handed to "@ + l@
                    + "; ksx cannot verify it ahead of time"@ && v.broken_path is None,
                None => v.state@ == "ok"@ && v.verdict@ == "the program is there"@ && v.broken_path is None,
            },
            Preflight::ExeMissing => v.state@ == "broken"@ && v.verdict@
                == "The selected program cannot be found on this computer."@ && v.broken_path is Some
                && v.broken_path->0@ == trim(path@),
            Preflight::NotAFile => v.state@ == "broken"@ && v.verdict@
                == "The selected program is a folder, not a program."@ && v.broken_path is Some
                && v.broken_path->0@ == trim(path@),
            Preflight::NoPath => v.state@ == "broken"@ && v.verdict@ == "No program or game link is saved."@
                && v.broken_path is None,
        },
{
    match preflight {
        Preflight::Passed => match launcher {
            Some(l) => {
                let mut verdict = "handed to ".to_owned();
                verdict.append(l);
                verdict.append("; ksx cannot verify it ahead of time");
                ProfileVerdict { state: "launcher".to_owned(), verdict, broken_path: None }
            },
            None => ProfileVerdict {
                state: "ok".to_owned(),
                verdict: "the program is there".to_owned(),
                broken_path: None,
            },
        },
        Preflight::ExeMissing => ProfileVerdict {
            state: "broken".to_owned(),
            verdict: "The selected program cannot be found on this computer.".to_owned(),
            broken_path: Some(trim_text(path)),
        },
        Preflight::NotAFile => ProfileVerdict {
            state: "broken".to_owned(),
            verdict: "The selected program is a folder, not a program.".to_owned(),
            broken_path: Some(trim_text(path)),
        },
        Preflight::NoPath => ProfileVerdict {
            state: "broken".to_owned(),
            verdict: "No program or game link is saved.".to_owned(),
            broken_path: None,
        },
    }
}

pub open spec fn slot_presets(slots: Seq<SlotEntry>) -> Seq<Seq<char>> {
    slots.map_values(|s: SlotEntry| s.preset@)
}

/// The controller layouts a saved game's slots use, each once, in slot order.
pub fn profile_presets(slots: &Vec<SlotEntry>) -> (presets: Vec<String>)
    ensures
        id_views(presets@) == deduped(slot_presets(slots@)),
{
    let mut all: Vec<String> = Vec::new();
    let mut i: usize = 0;
    while i < slots.len()
        invariant
            i <= slots@.len(),
            id_views(all@) == slot_presets(slots@.take(i as int)),
        decreases slots.len() - i,
    {
        let ghost prev = all@;
        let preset = slots[i].preset.clone();
        all.push(preset);
        assert(id_views(all@) =~= id_views(prev).push(slots@[i as int].preset@));
        assert(slot_presets(slots@.take(i + 1)) =~= slot_presets(slots@.take(i as int)).push(
            slots@[i as int].preset@,
        ));
        i = i + 1;
    }
    assert(slots@.take(slots@.len() as int) =~= slots@);
    dedupe(&mut all);
    all
}

/// One row of the saved-games list on the status page.
#[derive(Clone, Debug, PartialEq, Eq)]
pub struct ProfileRow {
    pub title: String,
    pub detail: String,
}

pub open spec fn slot_count_text(n: nat) -> Seq<char> {
    if n == 1 {
        "1 slot"@
    } else {
        decimal(n) + " slots"@
    }
}

/// A saved game as a row: its title, then its program and how many slots it
/// sets up.
pub fn profile_row(title: &str, path: &str, slots: usize) -> (row: ProfileRow)
    ensures
        row.title@ == title@,
        row.detail@ == path@ + " — "@ + slot_count_text(slots as nat),
{
    let mut detail = path.to_owned();
    detail.append(" — ");
    if slots == 1 {
        detail.append("1 slot");
    } else {
        push_decimal(&mut detail, slots as u64);
        detail.append(" slots");
    }
    ProfileRow { title: title.to_owned(), detail }
}

/// The one row the list shows when `games.toml` could not be read.
pub fn unreadable_games_row(err: &str) -> (row: ProfileRow)
    ensures
        row.title@ == "(games.toml unreadable)"@,
        row.detail@ == err@,
{
    ProfileRow { title: "(games.toml unreadable)".to_owned(), detail: err.to_owned() }
}

/// Why a new controller layout could not be made.
#[derive(Clone, Debug, PartialEq, Eq)]
pub enum PresetError {
    /// A layout of this name exists.
    Exists(String),
    /// The name is empty.
    EmptyName,
    /// No starter layout of that name.
    UnknownTemplate,
    /// The starter layout has no such player.
    NoSuchPlayer,
    /// The layout could not be written.
    Config,
}

/// A new-layout refusal, worded for a surface.
pub fn preset_refusal(err: &PresetError) -> (r: Refusal)
    ensures
        match *err {
            PresetError::Exists(name) => refusal_says(
                r,
                "a controller layout called \""@ + name@ + "\" already exists"@,
                Some("choose a different name; Saved Games never overwrites a controller layout"@),
            ),
            PresetError::EmptyName => refusal_says(
                r,
                "a controller layout needs a name"@,
                Some("give the new controller layout a short name you will recognize"@),
            ),
            PresetError::UnknownTemplate => refusal_says(
                r,
                "that starter layout is not available"@,
                Some("refresh Saved Games and choose a starter layout again"@),
            ),
            PresetError::NoSuchPlayer => refusal_says(
                r,
                "that starter layout does not include the selected player"@,
                Some("choose one of the player numbers shown for that starter layout"@),
            ),
            PresetError::Config => refusal_says(
                r,
                "the controller layout could not be saved"@,
                Some("reopen ksx and try again"@),
            ),
        },
{
    let (message, remedy) = match err {
        PresetError::Exists(name) => {
            let mut m = "a controller layout called \"".to_owned();
            m.append(name.as_str());
            m.append("\" already exists");
            (m, "choose a different name; Saved Games never overwrites a controller layout")
        },
        PresetError::EmptyName => (
            "a controller layout needs a name".to_owned(),
            "give the new controller layout a short name you will recognize",
        ),
        PresetError::UnknownTemplate => (
            "that starter layout is not available".to_owned(),
            "refresh Saved Games and choose a starter layout again",
        ),
        PresetError::NoSuchPlayer => (
            "that starter layout does not include the selected player".to_owned(),
            "choose one of the player numbers shown for that starter layout",
        ),
        PresetError::Config => (
            "the controller layout could not be saved".to_owned(),
            "reopen ksx and try again",
        ),
    };
    Refusal { code: RefusalCode::Refused, message, remedy: Some(remedy.to_owned()) }
}

/// The two in-box layouts, which may never be overwritten: `default` and
/// `empty`, in any ASCII case.
pub fn preset_protected(name: &str) -> (b: bool)
    ensures
        b == (eq_ignore_case(name@, "default"@) || eq_ignore_case(name@, "empty"@)),
{
    same_ignoring_case(name, "default") || same_ignoring_case(name, "empty")
}

/// What a layout row says about a file that does not build.
pub fn preset_problem(usable: bool) -> (p: Option<String>)
    ensures
        usable ==> p is None,
        !usable ==> p is Some && p->0@ == "This controller layout needs attention before it can be used."@,
{
    if usable {
        None
    } else {
        Some("This controller layout needs attention before it can be used.".to_owned())
    }
}

pub open spec fn pick_summary_text(replaced: bool, alias: Seq<char>, selector: Seq<char>) -> Seq<char> {
    (if replaced {
        "updated"@
    } else {
        "wrote"@
    }) + " [[device]] \""@ + alias + "\" — id = "@ + selector + " — nothing was claimed"@
}

/// The one sentence a device pick is flashed with: picking never claims.
pub fn pick_summary(replaced: bool, alias: &str, selector: &str) -> (s: String)
    ensures
        s@ == pick_summary_text(replaced, alias@, selector@),
{
    let mut s = if replaced {
        "updated".to_owned()
    } else {
        "wrote".to_owned()
    };
    s.append(" [[device]] \"");
    s.append(alias);
    s.append("\" — id = ");
    s.append(selector);
    s.append(" — nothing was claimed");
    s
}

/// The command a picked but unclaimed board is shown (printed, never run).
pub fn pick_next_step(claimed: bool, instance_id: &str) -> (step: Option<String>)
    ensures
        claimed ==> step is None,
        !claimed ==> step is Some && step->0@ == "ksx winusb claim "@ + instance_id@,
{
    if claimed {
        None
    } else {
        let mut c = "ksx winusb claim ".to_owned();
        c.append(instance_id);
        Some(c)
    }
}

pub open spec fn remove_summary_text(alias: Seq<char>, id: Seq<char>, still_claimed: bool) -> Seq<char> {
    "removed [[device]] \""@ + alias + "\" (id = "@ + id + ")"@ + (if still_claimed {
        " — the board is STILL CLAIMED; releasing it is a separate step"@
    } else {
        seq![]
    })
}

/// What forgetting a `[[device]]` entry did, and the one thing it did not:
/// a claimed board stays claimed, and the command that releases it.
pub fn remove_summary(alias: &str, id: &str, still_claimed: Option<&str>) -> (r: (String, Option<String>))
    ensures
        r.0@ == remove_summary_text(alias@, id@, still_claimed is Some),
        match still_claimed {
            Some(c) => r.1 is Some && r.1->0@ == "ksx winusb release "@ + c@ + " --yes"@,
            None => r.1 is None,
        },
{
    let mut summary = "removed [[device]] \"".to_owned();
    summary.append(alias);
    summary.append("\" (id = ");
    summary.append(id);
    summary.append(")");
    match still_claimed {
        Some(c) => {
            summary.append(" — the board is STILL CLAIMED; releasing it is a separate step");
            let mut release = "ksx winusb release ".to_owned();
            release.append(c);
            release.append(" --yes");
            (summary, Some(release))
        },
        None => (summary, None),
    }
}

} // verus!
