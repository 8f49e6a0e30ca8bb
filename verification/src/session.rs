//! `ksx session` — control a running daemon over its control pipe.
//!
//! Each verb is one request line; the transport is the caller's. What this
//! module decides is the line each verb sends, and what a transport's answer
//! means for the command: success, the "no daemon" exit 2, or an error, with
//! `quit` treating an absent daemon as already done and not counting as done
//! until the daemon's pipe is gone.

use vstd::prelude::*;
use crate::studio_launch::{trim_end, trim_end_text};

verus! {

/// Done, but the daemon refused or the pipe broke mid-conversation.
pub const EXIT_ERROR: i32 = 1;

/// No daemon control channel.
pub const EXIT_DAEMON_NOT_RUNNING: i32 = 2;

/// The verbs `ksx session` offers.
#[derive(Clone, Debug, PartialEq, Eq)]
pub enum Verb {
    Status,
    Start { game: Option<String> },
    Stop,
    /// Put back the session `stop` stopped. Carries nothing.
    Resume,
    Reload,
    Quit,
}

/// A hex digit as serde_json writes it: `0`–`9`, then `a`–`f`.
pub open spec fn hex_digit(n: int) -> char {
    if n < 10 {
        (n + 48) as char
    } else {
        (n - 10 + 97) as char
    }
}

/// How serde_json writes one character inside a string: the quote and the
/// backslash escaped with a backslash; backspace, tab, line feed, form feed
/// and carriage return as `\b`, `\t`, `\n`, `\f`, `\r`; every other
/// control character below 0x20 as `\u00` and two lower-case hex digits;
/// anything else as itself.
pub open spec fn json_escaped(c: char) -> Seq<char> {
    let v = c as u32;
    if c == '"' {
        seq!['\\', '"']
    } else if c == '\\' {
        seq!['\\', '\\']
    } else if v == 0x08 {
        seq!['\\', 'b']
    } else if v == 0x09 {
        seq!['\\', 't']
    } else if v == 0x0a {
        seq!['\\', 'n']
    } else if v == 0x0c {
        seq!['\\', 'f']
    } else if v == 0x0d {
        seq!['\\', 'r']
    } else if v < 0x20 {
        seq!['\\', 'u', '0', '0', hex_digit(v as int / 16), hex_digit(v as int % 16)]
    } else {
        seq![c]
    }
}

/// The characters of a string, each as serde_json writes it.
pub open spec fn json_chars(s: Seq<char>) -> Seq<char>
    decreases s.len(),
{
    if s.len() == 0 {
        seq![]
    } else {
        json_chars(s.drop_last()) + json_escaped(s.last())
    }
}

/// What `serde_json` writes for a string: the JSON string literal.
pub open spec fn json_string(s: Seq<char>) -> Seq<char> {
    seq!['"'] + json_chars(s) + seq!['"']
}

/// `serde_json::to_string` on a string, which cannot fail for one. Claimed:
/// the result is the string between double quotes, each character escaped
/// as serde_json's escape table does (`json_string`).
#[verifier::external_body]
pub(crate) fn json_quote(s: &str) -> (r: String)
    ensures
        r@ == json_string(s@),
{
    serde_json::to_string(s).unwrap_or_default()
}

/// The request line each verb puts on the pipe.
pub open spec fn request_text(verb: Verb) -> Seq<char> {
    match verb {
        Verb::Status => "{\"verb\":\"status\"}"@,
        Verb::Start { game } => match game {
            None => "{\"verb\":\"start\"}"@,
            Some(g) => "{\"verb\":\"start\",\"profile\":"@ + json_string(g@) + "}"@,
        },
        Verb::Stop => "{\"verb\":\"stop\"}"@,
        Verb::Resume => "{\"verb\":\"resume\"}"@,
        Verb::Reload => "{\"verb\":\"reload\"}"@,
        Verb::Quit => "{\"verb\":\"quit\"}"@,
    }
}

impl Verb {
    /// The request as it goes on the wire.
    pub fn request(&self) -> (line: String)
        ensures
            line@ == request_text(*self),
    {
        match self {
            Verb::Status => "{\"verb\":\"status\"}".to_owned(),
            Verb::Start { game } => match game {
                None => "{\"verb\":\"start\"}".to_owned(),
                Some(g) => {
                    let mut line = "{\"verb\":\"start\",\"profile\":".to_owned();
                    let quoted = json_quote(g.as_str());
                    line.append(quoted.as_str());
                    line.append("}");
                    line
                },
            },
            Verb::Stop => "{\"verb\":\"stop\"}".to_owned(),
            Verb::Resume => "{\"verb\":\"resume\"}".to_owned(),
            Verb::Reload => "{\"verb\":\"reload\"}".to_owned(),
            Verb::Quit => "{\"verb\":\"quit\"}".to_owned(),
        }
    }
}

/// Why a transport could not deliver a request, in its own words.
#[derive(Clone, Debug, PartialEq, Eq)]
pub enum ClientError {
    /// No daemon is listening on the control pipe.
    NotRunning(String),
    /// Anything else went wrong on the pipe.
    Failed(String),
}

/// Why `ksx session` failed.
#[derive(Clone, Debug, PartialEq, Eq)]
pub enum CallError {
    /// No daemon control channel; carries the transport's sentence.
    NotRunning(String),
    Pipe(String),
    /// `quit` was acknowledged but the daemon's pipe did not go away.
    Shutdown(String),
}

impl CallError {
    pub open spec fn spec_code(self) -> Seq<char> {
        match self {
            CallError::NotRunning(_) => "daemon-not-running"@,
            CallError::Pipe(_) => "pipe-error"@,
            CallError::Shutdown(_) => "shutdown-incomplete"@,
        }
    }

    pub fn code(&self) -> (c: &'static str)
        ensures
            c@ == self.spec_code(),
    {
        match self {
            CallError::NotRunning(_) => "daemon-not-running",
            CallError::Pipe(_) => "pipe-error",
            CallError::Shutdown(_) => "shutdown-incomplete",
        }
    }

    /// 2 when no daemon is there to ask; 1 for every other failure.
    pub fn exit_code(&self) -> (code: i32)
        ensures
            code == if self is NotRunning {
                EXIT_DAEMON_NOT_RUNNING
            } else {
                EXIT_ERROR
            },
    {
        match self {
            CallError::NotRunning(_) => EXIT_DAEMON_NOT_RUNNING,
            _ => EXIT_ERROR,
        }
    }

    pub fn message(&self) -> (m: String)
        ensures
            m@ == match *self {
                CallError::NotRunning(t) => t@,
                CallError::Pipe(t) => t@,
                CallError::Shutdown(t) => t@,
            },
    {
        match self {
            CallError::NotRunning(t) => t.clone(),
            CallError::Pipe(t) => t.clone(),
            CallError::Shutdown(t) => t.clone(),
        }
    }
}

/// What to do once the request has been tried.
#[derive(Clone, Debug, PartialEq, Eq)]
pub enum AfterRequest {
    /// `quit` with no daemon: the requested end state already holds; answer
    /// `{"ok": true, "message": "daemon already stopped"}`.
    AlreadyStopped,
    /// Report the daemon's answer as it is.
    Answered,
    /// `quit` was acknowledged: success only once the pipe name is gone.
    WaitUntilClosed,
    Failed(CallError),
}

/// The meaning of a transport's answer to `verb`. `answer` is the reply's
/// `ok` field (when it is a boolean), or the transport's failure.
pub fn after_request(verb: &Verb, answer: Result<Option<bool>, ClientError>) -> (next: AfterRequest)
    ensures
        match answer {
            Err(ClientError::NotRunning(t)) => if *verb is Quit {
                next == AfterRequest::AlreadyStopped
            } else {
                next == AfterRequest::Failed(CallError::NotRunning(t))
            },
            Err(ClientError::Failed(t)) => next == AfterRequest::Failed(CallError::Pipe(t)),
            Ok(ok) => if *verb is Quit && ok == Some(true) {
                next == AfterRequest::WaitUntilClosed
            } else {
                next == AfterRequest::Answered
            },
        },
{
    let quit = match verb {
        Verb::Quit => true,
        _ => false,
    };
    match answer {
        Err(ClientError::NotRunning(t)) => {
            if quit {
                AfterRequest::AlreadyStopped
            } else {
                AfterRequest::Failed(CallError::NotRunning(t))
            }
        },
        Err(ClientError::Failed(t)) => AfterRequest::Failed(CallError::Pipe(t)),
        Ok(ok) => {
            if quit && ok == Some(true) {
                AfterRequest::WaitUntilClosed
            } else {
                AfterRequest::Answered
            }
        },
    }
}

/// What a call came to once the transport answered.
#[derive(Clone, Debug, PartialEq, Eq)]
pub enum Called {
    /// The reply to report.
    Reply(DaemonReply),
    /// `quit` was acknowledged with this reply: report it once the daemon's
    /// pipe is gone.
    WaitThenReply(DaemonReply),
    Failed(CallError),
}

/// The reply `quit` gets when no daemon is there: the requested end state
/// already holds.
pub open spec fn is_already_stopped(r: DaemonReply) -> bool {
    &&& r.ok == Some(true)
    &&& r.message is Some && r.message->0@ == "daemon already stopped"@
    &&& r.error is None && r.tooltip is None && r.profiles is None
}

/// A call to the daemon, once its transport answered `verb`: `quit` with no
/// daemon is answered "daemon already stopped" without any wait; an
/// acknowledged `quit` is reported only after the pipe is gone; any other
/// absence is "not running"; a broken pipe is a pipe error.
pub fn answered(verb: &Verb, answer: Result<DaemonReply, ClientError>) -> (c: Called)
    ensures
        match answer {
            Err(ClientError::NotRunning(t)) => if *verb is Quit {
                c matches Called::Reply(r) && is_already_stopped(r)
            } else {
                c == Called::Failed(CallError::NotRunning(t))
            },
            Err(ClientError::Failed(t)) => c == Called::Failed(CallError::Pipe(t)),
            Ok(reply) => if *verb is Quit && reply.ok == Some(true) {
                c == Called::WaitThenReply(reply)
            } else {
                c == Called::Reply(reply)
            },
        },
{
    let (reply, seen) = match answer {
        Ok(reply) => {
            let ok = reply.ok;
            (Some(reply), Ok(ok))
        },
        Err(e) => (None, Err(e)),
    };
    match after_request(verb, seen) {
        AfterRequest::AlreadyStopped => Called::Reply(
            DaemonReply {
                ok: Some(true),
                message: Some("daemon already stopped".to_owned()),
                error: None,
                tooltip: None,
                profiles: None,
            },
        ),
        AfterRequest::Failed(e) => Called::Failed(e),
        AfterRequest::WaitUntilClosed => match reply {
            Some(r) => Called::WaitThenReply(r),
            None => Called::Failed(CallError::Pipe(String::new())),
        },
        AfterRequest::Answered => match reply {
            Some(r) => Called::Reply(r),
            None => Called::Failed(CallError::Pipe(String::new())),
        },
    }
}

/// An acknowledged `quit` is not success until the pipe is gone.
pub fn after_close_wait(waited: Result<(), String>) -> (r: Result<(), CallError>)
    ensures
        match waited {
            Ok(()) => r is Ok,
            Err(t) => r == Err::<(), CallError>(CallError::Shutdown(t)),
        },
{
    match waited {
        Ok(()) => Ok(()),
        Err(t) => Err(CallError::Shutdown(t)),
    }
}

/// One row of the daemon's profile list, as the reply carries it.
#[derive(Clone, Debug, PartialEq, Eq)]
pub struct StatusRow {
    pub title: Option<String>,
    pub detail: Option<String>,
}

/// What the CLI reads of the daemon's reply: `ok`, the message or error,
/// the tooltip and the profile rows, each absent when the reply does not
/// carry it in the expected shape.
#[derive(Clone, Debug, PartialEq, Eq)]
pub struct DaemonReply {
    pub ok: Option<bool>,
    pub message: Option<String>,
    pub error: Option<String>,
    pub tooltip: Option<String>,
    pub profiles: Option<Vec<StatusRow>>,
}

pub open spec fn or_text(o: Option<String>, fallback: Seq<char>) -> Seq<char> {
    match o {
        Some(s) => s@,
        None => fallback,
    }
}

/// The uninstaller's reading of the answer to `quit`: a failed call gives its
/// own message; otherwise the daemon's message (or "daemon stopped") when it
/// said `ok: true`, and its refusal (or that it gave no reason) when not.
pub fn quit_for_uninstall(answer: Result<DaemonReply, CallError>) -> (r: Result<String, String>)
    ensures
        match answer {
            Err(e) => r is Err && r->Err_0@ == match e {
                CallError::NotRunning(t) => t@,
                CallError::Pipe(t) => t@,
                CallError::Shutdown(t) => t@,
            },
            Ok(reply) => if reply.ok == Some(true) {
                r is Ok && r->Ok_0@ == or_text(reply.message, "daemon stopped"@)
            } else {
                r is Err && r->Err_0@ == "daemon refused shutdown: "@ + or_text(
                    reply.error,
                    "the daemon returned no reason"@,
                )
            },
        },
{
    let reply = match answer {
        Err(e) => return Err(e.message()),
        Ok(reply) => reply,
    };
    if reply.ok != Some(true) {
        let mut text = "daemon refused shutdown: ".to_owned();
        match &reply.error {
            Some(e) => text.append(e.as_str()),
            None => text.append("the daemon returned no reason"),
        }
        return Err(text);
    }
    match reply.message {
        Some(m) => Ok(m),
        None => Ok("daemon stopped".to_owned()),
    }
}

pub open spec fn row_text(r: StatusRow) -> Seq<char> {
    "  "@ + or_text(r.title, "?"@) + " — "@ + or_text(r.detail, seq![])
}

/// `ksx session status` for a person: the daemon's own tooltip, then the
/// saved games it knows of.
pub open spec fn status_text(reply: DaemonReply) -> Seq<Seq<char>> {
    (match reply.tooltip {
        Some(t) => seq![t@],
        None => seq![],
    }) + match reply.profiles {
        Some(rows) => if rows@.len() > 0 {
            seq!["profiles:"@] + rows@.map_values(|r: StatusRow| row_text(r))
        } else {
            seq!["profiles: none in games.toml"@]
        },
        None => seq!["profiles: none in games.toml"@],
    }
}

pub open spec fn line_views(lines: Seq<String>) -> Seq<Seq<char>> {
    lines.map_values(|s: String| s@)
}

fn or_string(o: &Option<String>, fallback: &str) -> (s: String)
    ensures
        s@ == or_text(*o, fallback@),
{
    match o {
        Some(v) => v.clone(),
        None => fallback.to_owned(),
    }
}

pub fn status_lines(reply: &DaemonReply) -> (lines: Vec<String>)
    ensures
        line_views(lines@) == status_text(*reply),
{
    let mut lines: Vec<String> = Vec::new();
    match &reply.tooltip {
        Some(t) => lines.push(t.clone()),
        None => {},
    }
    let ghost head = line_views(lines@);
    let mut listed = false;
    match &reply.profiles {
        Some(rows) => {
            if rows.len() > 0 {
                let mut body: Vec<String> = Vec::new();
                body.push("profiles:".to_owned());
                let mut i: usize = 0;
                while i < rows.len()
                    invariant
                        i <= rows@.len(),
                        line_views(body@) == seq!["profiles:"@] + rows@.take(i as int).map_values(
                            |r: StatusRow| row_text(r),
                        ),
                    decreases rows.len() - i,
                {
                    let mut line = "  ".to_owned();
                    line.append(or_string(&rows[i].title, "?").as_str());
                    line.append(" — ");
                    line.append(or_string(&rows[i].detail, "").as_str());
                    proof {
                        reveal_strlit("");
                    }
                    assert(line@ == row_text(rows@[i as int]));
                    let ghost before = body@;
                    body.push(line);
                    proof {
                        assert(line_views(body@) =~= line_views(before).push(row_text(rows@[i as int])));
                        assert(rows@.take(i + 1).map_values(|r: StatusRow| row_text(r)) =~= rows@.take(
                            i as int,
                        ).map_values(|r: StatusRow| row_text(r)).push(row_text(rows@[i as int])));
                    }
                    i = i + 1;
                }
                assert(rows@.take(rows@.len() as int) =~= rows@);
                let ghost before = lines@;
                let ghost added = body@;
                lines.append(&mut body);
                assert(line_views(lines@) =~= line_views(before) + line_views(added));
                listed = true;
            }
        },
        None => {},
    }
    if !listed {
        lines.push("profiles: none in games.toml".to_owned());
    }
    proof {
        assert(line_views(lines@) =~= status_text(*reply));
    }
    lines
}

/// Where a rendered reply goes.
#[derive(Clone, Debug, PartialEq, Eq)]
pub struct Rendered {
    /// The lines a person reads.
    pub lines: Vec<String>,
    /// They go to stderr (a refusal), not stdout.
    pub to_stderr: bool,
    /// The process then exits with this code.
    pub exit: Option<i32>,
}

/// The daemon's answer for a person: a status reply as its tooltip and
/// profiles, any other success as its message (trailing whitespace dropped,
/// `done` when there is none), a refusal as its error on stderr with exit 1.
pub fn render_reply(verb: &Verb, reply: &DaemonReply) -> (r: Rendered)
    ensures
        reply.ok == Some(true) ==> !r.to_stderr && r.exit is None && (if *verb is Status {
            line_views(r.lines@) == status_text(*reply)
        } else {
            line_views(r.lines@) == seq![trim_end(or_text(reply.message, "done"@))]
        }),
        reply.ok != Some(true) ==> r.to_stderr && r.exit == Some(EXIT_ERROR) && line_views(r.lines@)
            == seq![or_text(reply.error, "the daemon refused"@)],
{
    if reply.ok == Some(true) {
        match verb {
            Verb::Status => Rendered { lines: status_lines(reply), to_stderr: false, exit: None },
            _ => {
                let text = or_string(&reply.message, "done");
                let mut lines: Vec<String> = Vec::new();
                lines.push(trim_end_text(text.as_str()));
                assert(line_views(lines@) =~= seq![trim_end(or_text(reply.message, "done"@))]);
                Rendered { lines, to_stderr: false, exit: None }
            },
        }
    } else {
        let mut lines: Vec<String> = Vec::new();
        lines.push(or_string(&reply.error, "the daemon refused"));
        assert(line_views(lines@) =~= seq![or_text(reply.error, "the daemon refused"@)]);
        Rendered { lines, to_stderr: true, exit: Some(EXIT_ERROR) }
    }
}

} // verus!
