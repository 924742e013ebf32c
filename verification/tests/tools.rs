use zellij_mcp::command::{CommandOutput, Run, Step};
use zellij_mcp::schema::{
    ListPanesInput, ListSessionsInput, PaneTargetInput, ReadPaneInput, ResizePaneInput,
    SendTextInput, SpawnPaneInput, SpawnPaneOutput,
};
use zellij_mcp::server::{
    answer_document, focus_pane, kill_pane, list_panes, list_sessions, read_pane, resize_pane,
    send_text, spawn_pane, spawn_pane_with_target, start_resize, start_spawn, FocusPane, KillPane,
    ListPanes, ListSessions, ReadPane, ResizeCall, SendText, SpawnPane,
};

fn ok(stdout: &str) -> Run {
    Ok(CommandOutput {
        success: true,
        code: Some(0),
        stdout: stdout.as_bytes().to_vec(),
        stderr: vec![],
    })
}

fn failed(stderr: &str) -> Run {
    Ok(CommandOutput {
        success: false,
        code: Some(1),
        stdout: vec![],
        stderr: stderr.as_bytes().to_vec(),
    })
}

fn drive<S, T>(
    first: Step<S, T>,
    resume: fn(S, Run) -> Step<S, T>,
    runs: Vec<Run>,
) -> (Vec<String>, Result<T, String>) {
    let mut asked = vec![];
    let mut step = first;
    let mut runs = runs.into_iter();
    loop {
        match step {
            Step::Done(result) => {
                assert!(runs.next().is_none(), "runs left over");
                return (asked, result);
            }
            Step::Run { delay_ms: _, args, state } => {
                asked.push(args.join(" "));
                step = resume(state, runs.next().expect("another run"));
            }
        }
    }
}

fn error<T>(outcome: (Vec<String>, Result<T, String>)) -> String {
    match outcome.1 {
        Ok(_) => panic!("no error"),
        Err(e) => e,
    }
}

fn spawn_input() -> SpawnPaneInput {
    SpawnPaneInput {
        cwd: "/tmp".to_string(),
        command: None,
        direction: None,
        floating: None,
        name: None,
        keep_focus_on: None,
        target_pane_id: None,
        session: None,
    }
}

fn send_input() -> SendTextInput {
    SendTextInput {
        pane_id: "terminal_3".to_string(),
        text: "ls".to_string(),
        submit: None,
        newline_mode: None,
        session: None,
    }
}

fn spawned(outcome: Result<SpawnPaneOutput, String>) -> String {
    outcome.expect("spawned").pane_id
}

#[test]
fn lists_sessions() {
    let input = ListSessionsInput { session: Some("ignored".to_string()) };
    let (asked, result) =
        drive(list_sessions(input), ListSessions::resume, vec![ok("a [Created 1m ago]\n")]);
    assert_eq!(asked, vec!["list-sessions -n"]);
    let sessions = result.unwrap().sessions;
    assert_eq!(sessions.len(), 1);
    assert_eq!(sessions[0].created_age_seconds, 60);

    let start = || list_sessions(ListSessionsInput { session: None });
    assert_eq!(
        error(drive(start(), ListSessions::resume, vec![failed("none")])),
        "list-sessions: zellij list-sessions failed (exit Some(1)): none"
    );
    assert_eq!(
        error(drive(start(), ListSessions::resume, vec![ok("odd\n")])),
        "list-sessions: failed to parse session line `odd`: missing `[Created ...]`\nraw: odd\n"
    );
}

#[test]
fn lists_panes() {
    let start = |session: Option<&str>| {
        list_panes(ListPanesInput { session: session.map(|s| s.to_string()) })
    };
    let (asked, result) = drive(
        start(Some("s")),
        ListPanes::resume,
        vec![ok(r#"[{"id": 1}, {"id": 2, "is_plugin": true}]"#)],
    );
    assert_eq!(asked, vec!["--session s action list-panes -j -a"]);
    let ids: Vec<String> = result.unwrap().panes.into_iter().map(|p| p.id).collect();
    assert_eq!(ids, vec!["terminal_1", "plugin_2"]);
    assert_eq!(
        error(drive(start(None), ListPanes::resume, vec![ok("{}")])),
        "list-panes: zellij output was not a JSON array"
    );
    assert_eq!(
        error(drive(start(None), ListPanes::resume, vec![ok("[")])),
        "list-panes: failed to parse zellij JSON: EOF while parsing a list at line 1 column 1\nraw: ["
    );
    assert_eq!(
        error(drive(start(None), ListPanes::resume, vec![Err("gone".to_string())])),
        "list-panes: failed to spawn zellij (action list-panes): gone"
    );
    assert!(answer_document(&zellij_mcp::json::Json::Array(vec![])).unwrap().panes.is_empty());
}

#[test]
fn sends_text() {
    let (asked, result) = drive(send_text(send_input()), SendText::resume, vec![ok("")]);
    assert_eq!(asked, vec!["action write-chars --pane-id terminal_3 ls"]);
    assert!(result.unwrap().ok);

    let submit = |mode: Option<&str>| SendTextInput {
        submit: Some(true),
        newline_mode: mode.map(|m| m.to_string()),
        ..send_input()
    };
    for (mode, byte) in [
        (None, "13"),
        (Some("enter"), "13"),
        (Some("Enter"), "13"),
        (Some("shift_enter"), "10"),
        (Some("SHIFT_ENTER"), "10"),
    ] {
        let (asked, result) =
            drive(send_text(submit(mode)), SendText::resume, vec![ok(""), ok("")]);
        assert_eq!(asked[1], format!("action write --pane-id terminal_3 {byte}"));
        assert!(result.unwrap().ok);
    }
    assert_eq!(
        error(drive(send_text(submit(Some("TAB É"))), SendText::resume, vec![ok("")])),
        "send-text: newline_mode must be `enter` or `shift_enter`, got `tab é`"
    );
    assert_eq!(
        error(drive(send_text(submit(None)), SendText::resume, vec![failed("no")])),
        "send-text: write-chars failed: zellij action write-chars failed (exit Some(1)): no"
    );
    assert_eq!(
        error(drive(send_text(submit(None)), SendText::resume, vec![ok(""), failed("no")])),
        "send-text: submit byte write failed: zellij action write failed (exit Some(1)): no"
    );
}

#[test]
fn reads_a_pane() {
    let input = |full: Option<bool>| ReadPaneInput {
        pane_id: "terminal_3".to_string(),
        full,
        session: None,
    };
    let (asked, result) = drive(read_pane(input(Some(true))), ReadPane::resume, vec![ok("$ \n")]);
    assert_eq!(asked, vec!["action dump-screen --pane-id terminal_3 --full"]);
    assert_eq!(result.unwrap().text, "$ \n");
    let (asked, _) = drive(read_pane(input(None)), ReadPane::resume, vec![ok("")]);
    assert_eq!(asked, vec!["action dump-screen --pane-id terminal_3"]);
    assert_eq!(
        error(drive(read_pane(input(None)), ReadPane::resume, vec![failed("no")])),
        "read-pane: zellij action dump-screen failed (exit Some(1)): no"
    );
}

#[test]
fn focuses_and_kills_a_pane() {
    let input = || PaneTargetInput { pane_id: "terminal_3".to_string(), session: None };
    let (asked, result) = drive(focus_pane(input()), FocusPane::resume, vec![ok("")]);
    assert_eq!(asked, vec!["action focus-pane-id terminal_3"]);
    assert!(result.unwrap().ok);
    let (_, result) = drive(focus_pane(input()), FocusPane::resume, vec![failed("already focused")]);
    assert!(result.unwrap().ok);
    assert_eq!(
        error(drive(focus_pane(input()), FocusPane::resume, vec![failed("bogus")])),
        "focus-pane: zellij action focus-pane-id failed (exit Some(1)): bogus"
    );
    let (asked, result) = drive(kill_pane(input()), KillPane::resume, vec![ok("")]);
    assert_eq!(asked, vec!["action close-pane --pane-id terminal_3"]);
    assert!(result.unwrap().ok);
    assert_eq!(
        error(drive(kill_pane(input()), KillPane::resume, vec![failed("bogus")])),
        "kill-pane: zellij action close-pane failed (exit Some(1)): bogus"
    );
}

#[test]
fn resizes_a_pane() {
    let input = |direction: &str| ResizePaneInput {
        pane_id: "terminal_3".to_string(),
        direction: direction.to_string(),
        session: Some("s".to_string()),
    };
    let (asked, result) = drive(
        resize_pane(input("INCREASE")),
        ResizeCall::resume,
        vec![failed("Pane with id 3 not found"), ok("")],
    );
    assert_eq!(
        asked,
        vec![
            "--session s action resize --pane-id terminal_3 increase",
            "--session s action resize --pane-id terminal_3 increase"
        ]
    );
    assert!(result.unwrap().ok);
    assert_eq!(
        error(drive(resize_pane(input("Wider")), ResizeCall::resume, vec![])),
        "resize-pane: direction must be `increase` or `decrease`, got `Wider`"
    );
    assert_eq!(
        error(drive(resize_pane(input("decrease")), ResizeCall::resume, vec![failed("no")])),
        "resize-pane: zellij action resize failed (exit Some(1)): no"
    );
    assert!(matches!(start_resize(&input("x"), "decrease"), Step::Run { .. }));
}

#[test]
fn spawns_a_pane() {
    let (asked, result) = drive(
        spawn_pane(SpawnPaneInput {
            direction: Some("RIGHT".to_string()),
            floating: Some(true),
            ..spawn_input()
        }),
        SpawnPane::resume,
        vec![ok("terminal_9\n"), ok(r#"[{"id": 9}]"#)],
    );
    assert_eq!(
        asked,
        vec![
            "action new-pane --cwd /tmp --direction right --floating",
            "action list-panes -j -a"
        ]
    );
    assert_eq!(spawned(result), "terminal_9");
}

#[test]
fn spawning_keeps_the_focus() {
    let input = || SpawnPaneInput {
        keep_focus_on: Some("terminal_7".to_string()),
        target_pane_id: Some("terminal_2".to_string()),
        session: Some("s".to_string()),
        ..spawn_input()
    };
    let (asked, result) = drive(
        spawn_pane_with_target(input()),
        SpawnPane::resume,
        vec![ok(""), ok("terminal_9"), ok(r#"[{"id": 9}]"#), ok("")],
    );
    assert_eq!(asked[0], "--session s action focus-pane-id terminal_2");
    assert_eq!(asked[3], "--session s action focus-pane-id terminal_7");
    assert!(asked.iter().all(|args| args.starts_with("--session s action ")));
    assert_eq!(spawned(result), "terminal_9");

    let (asked, result) = drive(
        spawn_pane_with_target(input()),
        SpawnPane::resume,
        vec![ok(""), failed("no"), failed("ignored")],
    );
    assert_eq!(asked[2], "--session s action focus-pane-id terminal_7");
    assert_eq!(
        result.unwrap_err(),
        "spawn-pane-with-target: zellij action new-pane failed (exit Some(1)): no"
    );

    assert_eq!(
        error(drive(
            spawn_pane(input()),
            SpawnPane::resume,
            vec![ok(""), ok("terminal_9"), ok(r#"[{"id": 9}]"#), failed("gone")],
        )),
        "spawn-pane: pane `terminal_9` created, but restoring focus to `terminal_7` failed: zellij action focus-pane-id failed (exit Some(1)): gone"
    );
    assert_eq!(
        error(drive(spawn_pane(input()), SpawnPane::resume, vec![failed("gone")])),
        "spawn-pane: focusing target pane `terminal_2` failed: zellij action focus-pane-id failed (exit Some(1)): gone"
    );
}

#[test]
fn spawning_in_a_bad_direction_runs_nothing() {
    let input = |direction: &str| SpawnPaneInput {
        direction: Some(direction.to_string()),
        keep_focus_on: Some("terminal_7".to_string()),
        ..spawn_input()
    };
    let (asked, result) = drive(spawn_pane(input("SIDEWAYS É")), SpawnPane::resume, vec![]);
    assert!(asked.is_empty());
    assert_eq!(
        result.unwrap_err(),
        "spawn-pane: direction must be one of right|down|left|up, got `sideways é`"
    );
    for direction in ["right", "down", "left", "up"] {
        assert!(matches!(spawn_pane(input(direction)), Step::Run { .. }));
        let lowered = Some(direction.to_string());
        assert!(matches!(start_spawn(input("x"), "spawn-pane", lowered), Step::Run { .. }));
    }
}

#[test]
fn spawning_ends_after_sixteen_runs() {
    let missing = || vec![ok("[]"), ok("[]"), ok("[]"), ok("[]"), ok("[]"), ok("[]")];
    let mut runs = vec![ok(""), ok("terminal_1")];
    runs.extend(missing());
    runs.push(ok("terminal_2"));
    runs.extend(missing());
    runs.push(ok(""));
    assert_eq!(runs.len(), 16);
    let (asked, result) = drive(
        spawn_pane(SpawnPaneInput {
            direction: Some("up".to_string()),
            keep_focus_on: Some("terminal_7".to_string()),
            target_pane_id: Some("terminal_2".to_string()),
            ..spawn_input()
        }),
        SpawnPane::resume,
        runs,
    );
    assert_eq!(asked.len(), 16);
    assert!(result.is_err());
}
