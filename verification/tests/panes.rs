use zellij_mcp::json::{parse_json, Json};
use zellij_mcp::panes::{pane_id, pane_is_listed, parse_pane, parse_pane_id, parse_panes, shows_pane};
use zellij_mcp::schema::PaneSummary;

fn field(key: &str, value: Json) -> (String, Json) {
    (key.to_string(), value)
}

fn text(s: &str) -> Json {
    Json::Text(s.to_string())
}

#[test]
fn reads_documents() {
    let document = parse_json(
        r#"{"s": "a\nb", "n": 3, "neg": -1, "f": 1.0, "big": 18446744073709551616,
            "max": 18446744073709551615, "l": [true, null, []], "o": {}}"#,
    )
    .unwrap();
    assert_eq!(document.get("s"), Some(&text("a\nb")));
    assert_eq!(document.u64_field("n"), Some(3));
    assert_eq!(document.u64_field("neg"), None);
    assert_eq!(document.u64_field("f"), None);
    assert_eq!(document.u64_field("big"), None);
    assert_eq!(document.u64_field("max"), Some(u64::MAX));
    assert_eq!(
        document.get("l").unwrap().as_array().unwrap(),
        &vec![Json::Bool(true), Json::Null, Json::Array(vec![])]
    );
    assert_eq!(document.get("o"), Some(&Json::Object(vec![])));
    assert_eq!(document.get("missing"), None);
    assert_eq!(parse_json("1").unwrap().get("n"), None);
}

#[test]
fn last_of_equal_keys_wins() {
    let document = parse_json(r#"{"id": 1, "id": 2}"#).unwrap();
    assert_eq!(document, Json::Object(vec![field("id", Json::Number(Some(2)))]));
}

#[test]
fn errors_are_those_of_serde_json() {
    for raw in ["", "[", "{\"a\":}", "nope", "[1,]", "\"\u{7}\""] {
        let theirs = serde_json::from_str::<serde_json::Value>(raw).unwrap_err().to_string();
        assert_eq!(parse_json(raw), Err(theirs));
    }
}

#[test]
fn summarises_a_terminal() {
    let document = parse_json(
        r#"[{"id": 3, "is_plugin": false, "title": "vim", "is_focused": true,
             "is_floating": true, "exited": true, "tab_id": 2, "tab_name": "Tab #1",
             "pane_command": "vim", "terminal_command": "sh", "pane_cwd": "/tmp"}]"#,
    )
    .unwrap();
    assert_eq!(
        parse_panes(&document),
        Some(vec![PaneSummary {
            id: "terminal_3".to_string(),
            title: "vim".to_string(),
            is_focused: true,
            is_plugin: false,
            is_floating: true,
            exited: true,
            tab_id: 2,
            tab_name: "Tab #1".to_string(),
            command: Some("vim".to_string()),
            cwd: Some("/tmp".to_string()),
        }])
    );
}

#[test]
fn missing_fields_take_defaults() {
    assert_eq!(
        parse_pane(&Json::Null),
        PaneSummary {
            id: "terminal_0".to_string(),
            title: String::new(),
            is_focused: false,
            is_plugin: false,
            is_floating: false,
            exited: false,
            tab_id: 0,
            tab_name: String::new(),
            command: None,
            cwd: None,
        }
    );
    let odd = Json::Object(vec![
        field("id", text("3")),
        field("is_plugin", Json::Bool(true)),
        field("title", Json::Number(Some(1))),
    ]);
    let pane = parse_pane(&odd);
    assert_eq!(pane.id, "plugin_0");
    assert_eq!(pane.title, "");
}

#[test]
fn command_of_a_pane() {
    let terminal = Json::Object(vec![field("terminal_command", text("sh"))]);
    assert_eq!(parse_pane(&terminal).command, Some("sh".to_string()));
    let unknown = Json::Object(vec![
        field("pane_command", Json::Null),
        field("terminal_command", text("sh")),
    ]);
    assert_eq!(parse_pane(&unknown).command, None);
}

#[test]
fn pane_ids() {
    assert_eq!(parse_pane_id("terminal_3"), Some((false, 3)));
    assert_eq!(parse_pane_id("plugin_1"), Some((true, 1)));
    assert_eq!(parse_pane_id("7"), Some((false, 7)));
    assert_eq!(parse_pane_id("terminal_+3"), Some((false, 3)));
    assert_eq!(parse_pane_id("terminal_"), None);
    assert_eq!(parse_pane_id("terminal_plugin_1"), None);
    assert_eq!(parse_pane_id("pane_1"), None);
    assert_eq!(parse_pane_id(""), None);
    for id in [0, 1, 42, u64::MAX] {
        for is_plugin in [false, true] {
            assert_eq!(parse_pane_id(&pane_id(is_plugin, id)), Some((is_plugin, id)));
        }
        assert_eq!(parse_pane_id(&id.to_string()), parse_pane_id(&format!("terminal_{id}")));
    }
}

#[test]
fn looks_for_a_pane() {
    let raw = r#"[{"id": 3, "is_plugin": true}, {"id": 4}, {"is_plugin": false}]"#;
    assert_eq!(pane_is_listed(raw, (true, 3)), Ok(true));
    assert_eq!(pane_is_listed(raw, (false, 3)), Ok(false));
    assert_eq!(pane_is_listed(raw, (false, 4)), Ok(true));
    assert_eq!(pane_is_listed(raw, (false, 0)), Ok(false));
    assert_eq!(
        pane_is_listed("{}", (false, 0)),
        Err("zellij list-panes output was not a JSON array".to_string())
    );
    assert_eq!(
        pane_is_listed("[", (false, 0)),
        Err(
            "failed to parse zellij list-panes JSON: EOF while parsing a list at line 1 column 1"
                .to_string()
        )
    );
}

#[test]
fn every_listed_pane_with_a_number_is_found() {
    let document = parse_json(r#"[{"id": 3, "is_plugin": true}, {"id": 4}]"#).unwrap();
    for pane in parse_panes(&document).unwrap() {
        let target = parse_pane_id(&pane.id).unwrap();
        assert_eq!(shows_pane(&document, target), Some(true));
    }
    assert_eq!(shows_pane(&Json::Bool(true), (false, 1)), None);
    assert_eq!(parse_panes(&Json::Bool(true)), None);
}

#[test]
fn every_pane_that_is_found_is_listed() {
    let document = parse_json(r#"[{"id": 3, "is_plugin": true}, {"id": 4}]"#).unwrap();
    let panes = parse_panes(&document).unwrap();
    for name in ["plugin_3", "plugin_+03", "4", "terminal_4"] {
        let target = parse_pane_id(name).unwrap();
        assert_eq!(shows_pane(&document, target), Some(true));
        assert!(panes.iter().any(|pane| pane.id == pane_id(target.0, target.1)));
    }
}
