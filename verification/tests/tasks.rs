use zellij_mcp::command::{
    focus_outcome, is_pane_not_found, run_capturing, CommandOutput, Run, Step,
};
use zellij_mcp::zellij::{
    close_pane, dump_screen, focus_pane_id, list_panes_json, list_sessions, new_pane, resize_pane,
    wait_for_listed_pane, write_byte, write_chars, zellij, NewPane, PaneWait, ResizePane,
};

fn ok(stdout: &str) -> Run {
    Ok(CommandOutput {
        success: true,
        code: Some(0),
        stdout: stdout.as_bytes().to_vec(),
        stderr: vec![],
    })
}

fn failed(stdout: &str, stderr: &str) -> Run {
    Ok(CommandOutput {
        success: false,
        code: Some(2),
        stdout: stdout.as_bytes().to_vec(),
        stderr: stderr.as_bytes().to_vec(),
    })
}

fn drive<S, T>(
    first: Step<S, T>,
    resume: fn(S, Run) -> Step<S, T>,
    runs: Vec<Run>,
) -> (Vec<(u64, String)>, Option<Result<T, String>>) {
    let mut asked = vec![];
    let mut step = first;
    let mut runs = runs.into_iter();
    loop {
        match step {
            Step::Done(result) => {
                assert!(runs.next().is_none(), "runs left over");
                return (asked, Some(result));
            }
            Step::Run { delay_ms, args, state } => {
                asked.push((delay_ms, args.join(" ")));
                match runs.next() {
                    Some(run) => step = resume(state, run),
                    None => return (asked, None),
                }
            }
        }
    }
}

#[test]
fn arguments_of_every_command() {
    assert!(zellij(None).is_empty());
    assert_eq!(zellij(Some("s")), vec!["--session", "s"]);
    assert_eq!(list_panes_json(Some("s")).join(" "), "--session s action list-panes -j -a");
    assert_eq!(list_sessions(), vec!["list-sessions", "-n"]);
    assert_eq!(focus_pane_id(None, "terminal_1").join(" "), "action focus-pane-id terminal_1");
    assert_eq!(
        write_chars(Some("s"), "terminal_1", "a b"),
        vec!["--session", "s", "action", "write-chars", "--pane-id", "terminal_1", "a b"]
    );
    assert_eq!(
        write_byte(None, "terminal_1", 13).join(" "),
        "action write --pane-id terminal_1 13"
    );
    assert_eq!(
        dump_screen(None, "terminal_1", true).join(" "),
        "action dump-screen --pane-id terminal_1 --full"
    );
    assert_eq!(
        dump_screen(None, "terminal_1", false).join(" "),
        "action dump-screen --pane-id terminal_1"
    );
    assert_eq!(close_pane(None, "terminal_1").join(" "), "action close-pane --pane-id terminal_1");
}

#[test]
fn arguments_of_a_new_pane() {
    let argv = vec!["cargo".to_string(), "test".to_string()];
    let (asked, _) = drive(
        new_pane(Some("s"), "/tmp", Some("right"), true, Some("tests"), Some(&argv)),
        NewPane::resume,
        vec![],
    );
    assert_eq!(
        asked,
        vec![(
            0,
            "--session s action new-pane --cwd /tmp --direction right --floating --name tests -- cargo test"
                .to_string()
        )]
    );
    let (asked, _) =
        drive(new_pane(None, "/tmp", None, false, None, Some(&[])), NewPane::resume, vec![]);
    assert_eq!(asked, vec![(0, "action new-pane --cwd /tmp".to_string())]);
}

#[test]
fn captures_what_a_run_printed() {
    assert_eq!(run_capturing(&ok(" out\n"), "action x"), Ok(" out\n".to_string()));
    assert_eq!(
        run_capturing(&failed("out", " no \n"), "action x"),
        Err("zellij action x failed (exit Some(2)): no".to_string())
    );
    assert_eq!(
        run_capturing(&failed(" out ", " "), "action x"),
        Err("zellij action x failed (exit Some(2)):  / stdout: out".to_string())
    );
    assert_eq!(
        run_capturing(&failed("", ""), "action x"),
        Err("zellij action x failed (exit Some(2)): ".to_string())
    );
    assert_eq!(
        run_capturing(&Err("No such file".to_string()), "list-sessions"),
        Err("failed to spawn zellij (list-sessions): No such file".to_string())
    );
    let killed =
        Ok(CommandOutput { success: false, code: None, stdout: vec![], stderr: b"x".to_vec() });
    assert_eq!(
        run_capturing(&killed, "action x"),
        Err("zellij action x failed (exit None): x".to_string())
    );
}

#[test]
fn malformed_bytes_are_replaced() {
    let output = |stdout: Vec<u8>| {
        Ok(CommandOutput { success: true, code: Some(0), stdout, stderr: vec![] })
    };
    assert_eq!(run_capturing(&output(vec![b'a', 0xff, b'b']), "x"), Ok("a\u{fffd}b".to_string()));
    assert_eq!(run_capturing(&output("é→".as_bytes().to_vec()), "x"), Ok("é→".to_string()));
}

#[test]
fn a_pane_that_has_the_focus_already() {
    assert_eq!(focus_outcome(&ok("")), Ok(()));
    assert_eq!(focus_outcome(&failed("", "Pane is already focused\n")), Ok(()));
    assert_eq!(
        focus_outcome(&failed("hm", "")),
        Err("zellij action focus-pane-id failed (exit Some(2)):  / stdout: hm".to_string())
    );
    assert_eq!(
        focus_outcome(&Err("gone".to_string())),
        Err("failed to spawn zellij (action focus-pane-id): gone".to_string())
    );
}

#[test]
fn messages_about_missing_panes() {
    assert!(is_pane_not_found("x: Pane with id Terminal(3) not found"));
    assert!(!is_pane_not_found("Pane with id Terminal(3)"));
    assert!(!is_pane_not_found("not found"));
}

#[test]
fn waits_for_a_pane() {
    let listing = "action list-panes -j -a".to_string();
    let (asked, result) = drive(
        wait_for_listed_pane(None, "terminal_3"),
        PaneWait::resume,
        vec![ok("[]"), ok("[]"), ok(r#"[{"id": 3}]"#)],
    );
    assert_eq!(asked, vec![(0, listing.clone()), (20, listing.clone()), (40, listing.clone())]);
    assert_eq!(result, Some(Ok(true)));

    let (asked, result) = drive(
        wait_for_listed_pane(None, "terminal_3"),
        PaneWait::resume,
        vec![ok("[]"), ok("[]"), ok("[]"), ok("[]"), ok("[]"), ok("[]")],
    );
    let delays: Vec<u64> = asked.iter().map(|run| run.0).collect();
    assert_eq!(delays, vec![0, 20, 40, 80, 160, 320]);
    assert_eq!(result, Some(Ok(false)));
}

#[test]
fn waits_that_fail() {
    let (asked, result) =
        drive(wait_for_listed_pane(None, "pane 3"), PaneWait::resume, vec![]);
    assert!(asked.is_empty());
    assert_eq!(result, Some(Err("invalid pane id `pane 3`".to_string())));

    let (_, result) = drive(
        wait_for_listed_pane(None, "3"),
        PaneWait::resume,
        vec![ok("[]"), failed("", "no session")],
    );
    assert_eq!(
        result,
        Some(Err("zellij action list-panes failed (exit Some(2)): no session".to_string()))
    );
}

#[test]
fn opens_a_pane_that_appears() {
    let (asked, result) = drive(
        new_pane(None, "/", Some("right"), false, None, None),
        NewPane::resume,
        vec![ok("terminal_42\n"), ok("[]"), ok(r#"[{"id": 42}]"#)],
    );
    assert_eq!(asked.len(), 3);
    assert_eq!(result, Some(Ok("terminal_42".to_string())));
}

#[test]
fn opening_a_pane_fails() {
    let (_, result) = drive(
        new_pane(None, "/", None, false, None, None),
        NewPane::resume,
        vec![ok(" \n")],
    );
    assert_eq!(result, Some(Err("zellij new-pane returned empty pane id".to_string())));

    let (_, result) = drive(
        new_pane(None, "/", None, false, None, None),
        NewPane::resume,
        vec![failed("", "no")],
    );
    assert_eq!(
        result,
        Some(Err("zellij action new-pane failed (exit Some(2)): no".to_string()))
    );

    let (_, result) = drive(
        new_pane(None, "/", None, false, None, None),
        NewPane::resume,
        vec![ok("odd id")],
    );
    assert_eq!(result, Some(Err("invalid pane id `odd id`".to_string())));

    let (_, result) = drive(
        new_pane(None, "/", None, false, None, None),
        NewPane::resume,
        vec![ok("terminal_1"), ok("[]"), ok("[]"), ok("[]"), ok("[]"), ok("[]"), ok("[]")],
    );
    assert_eq!(
        result,
        Some(Err(
            "zellij new-pane returned `terminal_1`, but the pane did not appear in list-panes"
                .to_string()
        ))
    );
}

#[test]
fn a_directed_pane_falls_back() {
    let missing = || vec![ok("[]"), ok("[]"), ok("[]"), ok("[]"), ok("[]"), ok("[]")];
    let mut runs = vec![ok("terminal_1")];
    runs.extend(missing());
    runs.push(ok("terminal_2"));
    runs.push(ok(r#"[{"id": 2, "is_plugin": false}]"#));
    let (asked, result) =
        drive(new_pane(None, "/", Some("up"), false, Some("n"), None), NewPane::resume, runs);
    assert_eq!(asked[0].1, "action new-pane --cwd / --direction up --name n");
    assert_eq!(asked[7], (0, "action new-pane --cwd / --name n".to_string()));
    assert_eq!(result, Some(Ok("terminal_2".to_string())));

    let mut runs = vec![ok("terminal_1")];
    runs.extend(missing());
    runs.push(ok("terminal_2"));
    runs.extend(missing());
    assert_eq!(runs.len(), 14);
    let (_, result) =
        drive(new_pane(None, "/", Some("up"), false, None, None), NewPane::resume, runs);
    assert_eq!(
        result,
        Some(Err("zellij new-pane returned `terminal_2` after retrying without direction, but the pane did not appear in list-panes; directed spawn had returned `terminal_1`".to_string()))
    );
}

#[test]
fn resizes_with_retries() {
    let missing = || failed("", "Pane with id Terminal(3) not found");
    let command = "action resize --pane-id terminal_3 increase".to_string();
    let (asked, result) = drive(
        resize_pane(None, "terminal_3", "increase"),
        ResizePane::resume,
        vec![missing(), missing(), ok("")],
    );
    assert_eq!(asked, vec![(0, command.clone()), (20, command.clone()), (40, command.clone())]);
    assert_eq!(result, Some(Ok(())));

    let (asked, result) = drive(
        resize_pane(None, "terminal_3", "increase"),
        ResizePane::resume,
        vec![missing(), missing(), missing(), missing(), missing()],
    );
    let delays: Vec<u64> = asked.iter().map(|run| run.0).collect();
    assert_eq!(delays, vec![0, 20, 40, 80, 160]);
    assert_eq!(
        result,
        Some(Err(
            "zellij action resize failed (exit Some(2)): Pane with id Terminal(3) not found"
                .to_string()
        ))
    );

    let (asked, result) = drive(
        resize_pane(None, "terminal_3", "increase"),
        ResizePane::resume,
        vec![failed("", "no session")],
    );
    assert_eq!(asked.len(), 1);
    assert!(matches!(result, Some(Err(_))));
}
