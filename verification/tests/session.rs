use ksx_backend::session::{
    after_close_wait, after_request, answered, Called, render_reply, status_lines, quit_for_uninstall, AfterRequest,
    CallError, ClientError, DaemonReply, StatusRow, Verb, EXIT_DAEMON_NOT_RUNNING, EXIT_ERROR,
};

#[test]
fn session_each_verb_builds_the_documented_request_line() {
    assert_eq!(Verb::Status.request(), r#"{"verb":"status"}"#);
    assert_eq!(Verb::Start { game: None }.request(), r#"{"verb":"start"}"#);
    let line = Verb::Start {
        game: Some("Example Game".into()),
    }
    .request();
    let value: serde_json::Value = serde_json::from_str(&line).unwrap();
    let mut expected = serde_json::Map::new();
    expected.insert("verb".into(), serde_json::Value::String("start".into()));
    expected.insert("profile".into(), serde_json::Value::String("Example Game".into()));
    assert_eq!(value, serde_json::Value::Object(expected));
    assert_eq!(Verb::Stop.request(), r#"{"verb":"stop"}"#);
    assert_eq!(Verb::Resume.request(), r#"{"verb":"resume"}"#);
    assert_eq!(Verb::Reload.request(), r#"{"verb":"reload"}"#);
    assert_eq!(Verb::Quit.request(), r#"{"verb":"quit"}"#);
}

#[test]
fn a_profile_name_is_escaped_as_json() {
    let line = Verb::Start {
        game: Some("Say \"hi\"".into()),
    }
    .request();
    assert_eq!(line, r#"{"verb":"start","profile":"Say \"hi\""}"#);
}

#[test]
fn quit_is_idempotent_when_the_daemon_is_already_absent() {
    assert_eq!(
        after_request(&Verb::Quit, Err(ClientError::NotRunning("no daemon".into()))),
        AfterRequest::AlreadyStopped
    );
    let Called::Reply(reply) = answered(&Verb::Quit, Err(ClientError::NotRunning("no daemon".into())))
    else {
        panic!("an absent daemon is the requested end state; nothing is waited for");
    };
    assert_eq!(reply.ok, Some(true));
    assert_eq!(reply.message.as_deref(), Some("daemon already stopped"));
    assert_eq!(quit_for_uninstall(Ok(reply)), Ok("daemon already stopped".to_owned()));
}

#[test]
fn an_acknowledged_quit_waits_for_the_pipe_and_other_verbs_do_not() {
    let ack = DaemonReply {
        ok: Some(true),
        message: Some("bye".into()),
        error: None,
        tooltip: None,
        profiles: None,
    };
    assert_eq!(answered(&Verb::Quit, Ok(ack.clone())), Called::WaitThenReply(ack.clone()));
    assert_eq!(answered(&Verb::Stop, Ok(ack.clone())), Called::Reply(ack));
    assert_eq!(
        answered(&Verb::Status, Err(ClientError::NotRunning("no daemon".into()))),
        Called::Failed(CallError::NotRunning("no daemon".into()))
    );
    assert_eq!(
        answered(&Verb::Reload, Err(ClientError::Failed("broken pipe".into()))),
        Called::Failed(CallError::Pipe("broken pipe".into()))
    );
}

#[test]
fn every_other_verb_keeps_absent_daemon_exit_two() {
    let next = after_request(&Verb::Stop, Err(ClientError::NotRunning("no daemon".into())));
    let AfterRequest::Failed(error) = next else {
        panic!("expected a failure, got {next:?}");
    };
    assert_eq!(error, CallError::NotRunning("no daemon".into()));
    assert_eq!(error.exit_code(), EXIT_DAEMON_NOT_RUNNING);
    assert_eq!(error.code(), "daemon-not-running");
    assert_eq!(error.message(), "no daemon");
}

#[test]
fn quit_ack_is_not_success_until_the_pipe_name_is_absent() {
    assert_eq!(
        after_request(&Verb::Quit, Ok(Some(true))),
        AfterRequest::WaitUntilClosed
    );
    let error = after_close_wait(Err("still there".into())).unwrap_err();
    assert!(matches!(error, CallError::Shutdown(_)));
    assert_eq!(error.exit_code(), EXIT_ERROR);
    assert_eq!(error.code(), "shutdown-incomplete");
    assert!(after_close_wait(Ok(())).is_ok());
    assert_eq!(after_request(&Verb::Quit, Ok(Some(false))), AfterRequest::Answered);
    assert_eq!(after_request(&Verb::Status, Ok(Some(true))), AfterRequest::Answered);
}

#[test]
fn a_broken_pipe_is_an_error_not_an_absent_daemon() {
    let next = after_request(&Verb::Reload, Err(ClientError::Failed("broken pipe".into())));
    assert_eq!(next, AfterRequest::Failed(CallError::Pipe("broken pipe".into())));
    assert_eq!(CallError::Pipe("x".into()).exit_code(), EXIT_ERROR);
    assert_eq!(CallError::Pipe("x".into()).code(), "pipe-error");
}

#[test]
fn the_uninstaller_reads_the_quit_answer() {
    let answer = |ok: Option<bool>, error: Option<&str>, message: Option<&str>| {
        Ok(DaemonReply {
            ok,
            message: message.map(str::to_owned),
            error: error.map(str::to_owned),
            tooltip: None,
            profiles: None,
        })
    };
    assert_eq!(quit_for_uninstall(answer(Some(true), None, Some("bye"))), Ok("bye".to_owned()));
    assert_eq!(quit_for_uninstall(answer(Some(true), None, None)), Ok("daemon stopped".to_owned()));
    assert_eq!(
        quit_for_uninstall(answer(Some(false), Some("a game is running"), None)),
        Err("daemon refused shutdown: a game is running".to_owned())
    );
    assert_eq!(
        quit_for_uninstall(answer(None, None, None)),
        Err("daemon refused shutdown: the daemon returned no reason".to_owned())
    );
    assert_eq!(
        quit_for_uninstall(Err(CallError::Pipe("broken pipe".into()))),
        Err("broken pipe".to_owned())
    );
}

fn reply(ok: Option<bool>) -> DaemonReply {
    DaemonReply { ok, message: None, error: None, tooltip: None, profiles: None }
}

#[test]
fn a_status_reply_shows_the_tooltip_and_the_saved_games() {
    let mut r = reply(Some(true));
    r.tooltip = Some("ksx: idle".into());
    r.profiles = Some(vec![
        StatusRow { title: Some("MAME".into()), detail: Some("C:\\mame.exe — 2 slots".into()) },
        StatusRow { title: None, detail: None },
    ]);
    let shown = render_reply(&Verb::Status, &r);
    assert!(!shown.to_stderr);
    assert_eq!(shown.exit, None);
    assert_eq!(
        shown.lines,
        vec![
            "ksx: idle".to_owned(),
            "profiles:".to_owned(),
            "  MAME — C:\\mame.exe — 2 slots".to_owned(),
            "  ? — ".to_owned(),
        ]
    );
    let mut empty = reply(Some(true));
    empty.profiles = Some(Vec::new());
    assert_eq!(status_lines(&empty), vec!["profiles: none in games.toml".to_owned()]);
}

#[test]
fn other_replies_print_their_message_or_their_refusal() {
    let mut done = reply(Some(true));
    done.message = Some("stopped \n".into());
    assert_eq!(render_reply(&Verb::Stop, &done).lines, vec!["stopped".to_owned()]);
    assert_eq!(render_reply(&Verb::Reload, &reply(Some(true))).lines, vec!["done".to_owned()]);
    let mut refused = reply(Some(false));
    refused.error = Some("no such game".into());
    let shown = render_reply(&Verb::Start { game: Some("X".into()) }, &refused);
    assert!(shown.to_stderr);
    assert_eq!(shown.exit, Some(EXIT_ERROR));
    assert_eq!(shown.lines, vec!["no such game".to_owned()]);
    let odd = render_reply(&Verb::Quit, &reply(None));
    assert_eq!(odd.lines, vec!["the daemon refused".to_owned()]);
    assert_eq!(odd.exit, Some(EXIT_ERROR));
}

#[test]
fn control_characters_in_a_profile_name_are_escaped_as_serde_json_does() {
    let line = Verb::Start { game: Some("a\\b\n\t\u{1}".into()) }.request();
    assert_eq!(line, "{\"verb\":\"start\",\"profile\":\"a\\\\b\\n\\t\\u0001\"}");
}
