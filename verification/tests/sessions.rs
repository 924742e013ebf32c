use zellij_mcp::schema::SessionSummary;
use zellij_mcp::sessions::{parse_age_seconds, parse_session_line, parse_sessions};

#[test]
fn parses_list_sessions_output() {
    let sessions = parse_sessions(
        "main [Created 1h 41m 1s ago] (current)\n\
         mz [Created 7m 41s ago]\n\
         old [Created 2h ago] EXITED\n",
    )
    .expect("sessions parse");

    assert_eq!(
        sessions,
        vec![
            SessionSummary {
                name: "main".to_string(),
                created_age_seconds: 6061,
                is_attached: true,
                is_exited: false,
            },
            SessionSummary {
                name: "mz".to_string(),
                created_age_seconds: 461,
                is_attached: false,
                is_exited: false,
            },
            SessionSummary {
                name: "old".to_string(),
                created_age_seconds: 7200,
                is_attached: false,
                is_exited: true,
            },
        ]
    );
}

#[test]
fn blank_lines_are_skipped() {
    let sessions = parse_sessions("\n  \na [Created 1s ago]\r\n\t\nb [Created 2s ago]").unwrap();
    let names: Vec<&str> = sessions.iter().map(|s| s.name.as_str()).collect();
    assert_eq!(names, vec!["a", "b"]);
    assert_eq!(parse_sessions(""), Ok(vec![]));
}

#[test]
fn first_bad_line_is_reported() {
    assert_eq!(
        parse_sessions("a [Created 1s ago]\nbad\nb [Created x ago]"),
        Err("failed to parse session line `bad`: missing `[Created ...]`".to_string())
    );
}

#[test]
fn session_lines_that_cannot_be_read() {
    assert_eq!(
        parse_session_line("main"),
        Err("failed to parse session line `main`: missing `[Created ...]`".to_string())
    );
    assert_eq!(
        parse_session_line("main [Created 1s ago"),
        Err("failed to parse session line `main [Created 1s ago`: missing closing `]`".to_string())
    );
    assert_eq!(
        parse_session_line("main [Created ago]"),
        Err("unsupported age component `ago`".to_string())
    );
    assert_eq!(parse_session_line("main [Created  ago]"), Err("age was empty".to_string()));
}

#[test]
fn session_line_details() {
    let session = parse_session_line("  my work [Created 3m] (EXITED - attach to resurrect)").unwrap();
    assert_eq!(session.name, "my work");
    assert_eq!(session.created_age_seconds, 180);
    assert!(!session.is_attached);
    assert!(session.is_exited);
}

#[test]
fn ages_are_sums() {
    assert_eq!(parse_age_seconds("1h 41m 1s"), Ok(6061));
    assert_eq!(parse_age_seconds("1s 41m 1h"), Ok(6061));
    assert_eq!(parse_age_seconds("+2h"), Ok(7200));
    assert_eq!(parse_age_seconds("5124095576030431h"), Ok(18446744073709551600));
    assert_eq!(parse_age_seconds("5124095576030431h 15s"), Ok(u64::MAX));
}

#[test]
fn ages_that_cannot_be_read() {
    assert_eq!(parse_age_seconds(" "), Err("age was empty".to_string()));
    assert_eq!(parse_age_seconds("1d"), Err("unsupported age component `1d`".to_string()));
    assert_eq!(
        parse_age_seconds("xh"),
        Err("invalid age component `xh`: invalid digit found in string".to_string())
    );
    assert_eq!(
        parse_age_seconds("m"),
        Err("invalid age component `m`: cannot parse integer from empty string".to_string())
    );
    assert_eq!(
        parse_age_seconds("18446744073709551616s"),
        Err(
            "invalid age component `18446744073709551616s`: number too large to fit in target type"
                .to_string()
        )
    );
    assert_eq!(
        parse_age_seconds("5124095576030432h"),
        Err("age component `5124095576030432h` overflowed".to_string())
    );
    assert_eq!(
        parse_age_seconds("18446744073709551615s 1s"),
        Err("age total overflowed".to_string())
    );
}

#[test]
fn printed_lines_are_read_back() {
    for (h, m, s) in [(0u64, 0u64, 0u64), (1, 41, 1), (100, 61, 75), (5124095576030430, 59, 59)] {
        let line = format!("a [b] c [Created {h}h {m}m {s}s ago] (current)");
        let session = parse_session_line(&line).unwrap();
        assert_eq!(session.name, "a [b] c");
        assert_eq!(session.created_age_seconds, 3600 * h + 60 * m + s);
        assert!(session.is_attached);
    }
}

#[test]
fn the_first_beginning_of_the_brackets_counts() {
    assert_eq!(
        parse_session_line("x [Created [Created 1s ago]"),
        Err("unsupported age component `[Created`".to_string())
    );
}
