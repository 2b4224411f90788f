use rufa::config::loader::load_from_str;
use rufa::debug_update::{
    apply_placeholders, builtin_debug_specs, collect_debug_entries, contents_to_write,
    render_entries, render_vscode_entry, render_zed_entry, update_vscode_launch_sync,
    update_zed_launch_sync, vscode_launch, DebugEntry, DebugUpdateError, PlaceholderContext,
    DEFAULT_HOST,
};
use rufa::json::{member, JsonValue};
use rufa::names::NameMap;
use rufa::state::{RuntimeState, TargetState};

fn text(value: &str) -> JsonValue {
    JsonValue::Text(value.to_string())
}

fn object(members: Vec<(&str, JsonValue)>) -> JsonValue {
    JsonValue::Object(
        members
            .into_iter()
            .map(|(name, value)| (name.to_string(), value))
            .collect(),
    )
}

fn member_text<'a>(value: &'a JsonValue, name: &str) -> Option<&'a str> {
    match value {
        JsonValue::Object(members) => match member(members, name) {
            Some(JsonValue::Text(found)) => Some(found.as_str()),
            _ => None,
        },
        _ => None,
    }
}

fn entry(vscode: Option<JsonValue>, zed: Option<JsonValue>) -> DebugEntry {
    DebugEntry {
        target: "PRG1".to_string(),
        port_name: "debug".to_string(),
        port: 5005,
        vscode,
        zed,
    }
}

#[test]
fn render_vscode_entry_sets_defaults() {
    let entry = entry(
        Some(object(vec![
            ("address", text("{{HOST}}")),
            ("request", text("attach")),
            ("type", text("pwa-node")),
        ])),
        None,
    );

    let rendered = render_vscode_entry(&entry, "RUFA").expect("rendered config");
    assert_eq!(member_text(&rendered, "name"), Some("RUFA PRG1 (debug)"));
    match &rendered {
        JsonValue::Object(members) => {
            assert_eq!(member(members, "port"), Some(&JsonValue::Unsigned(5005)));
        }
        other => panic!("unexpected {other:?}"),
    }
    assert_eq!(member_text(&rendered, "address"), Some(DEFAULT_HOST));
    assert_eq!(member_text(&rendered, "host"), Some(DEFAULT_HOST));
    assert_eq!(member_text(&rendered, "type"), Some("pwa-node"));
    assert_eq!(member_text(&rendered, "request"), Some("attach"));
}

#[test]
fn update_vscode_launch_sync_rewrites_prefixed_entries() {
    let contents = r#"{
  "version": "0.2.0",
  "configurations": [
    {"name": "RUFA Old (debug)", "type": "pwa-node", "request": "attach", "port": 4000},
    {"name": "Manual", "type": "lldb", "request": "launch"}
  ]
}"#;
    let new_entries = vec![object(vec![
        ("address", text(DEFAULT_HOST)),
        ("name", text("RUFA PRG1 (debug)")),
        ("port", JsonValue::Unsigned(5005)),
        ("request", text("attach")),
        ("type", text("pwa-node")),
    ])];

    let written = update_vscode_launch_sync(Some(contents), "RUFA", new_entries)
        .expect("update")
        .expect("something to write");

    let updated: serde_json::Value = serde_json::from_str(&written).unwrap();
    let configs = updated
        .get("configurations")
        .and_then(serde_json::Value::as_array)
        .expect("configurations array");
    assert_eq!(configs.len(), 2);
    assert!(configs
        .iter()
        .any(|cfg| cfg.get("name").and_then(serde_json::Value::as_str) == Some("Manual")));
    assert!(configs.iter().any(
        |cfg| cfg.get("name").and_then(serde_json::Value::as_str) == Some("RUFA PRG1 (debug)")
    ));
    assert_eq!(
        updated.get("version").and_then(serde_json::Value::as_str),
        Some("0.2.0")
    );
}

#[test]
fn update_zed_launch_sync_rewrites_prefixed_entries() {
    let contents = r#"[
  {"label": "RUFA Old (debug)", "adapter": "Debugpy"},
  {"label": "Keep", "adapter": "CodeLLDB"}
]"#;
    let new_entries = vec![object(vec![
        ("adapter", text("CodeLLDB")),
        ("label", text("RUFA PRG1 (debug)")),
        (
            "tcp_connection",
            object(vec![
                ("host", text(DEFAULT_HOST)),
                ("port", JsonValue::Unsigned(6006)),
            ]),
        ),
    ])];

    let written = update_zed_launch_sync(Some(contents), "RUFA", new_entries)
        .expect("update")
        .expect("something to write");

    let updated: serde_json::Value = serde_json::from_str(&written).unwrap();
    let configs = updated.as_array().expect("array");
    assert_eq!(configs.len(), 2);
    assert!(configs
        .iter()
        .any(|cfg| cfg.get("label").and_then(serde_json::Value::as_str) == Some("Keep")));
    assert!(configs.iter().any(
        |cfg| cfg.get("label").and_then(serde_json::Value::as_str) == Some("RUFA PRG1 (debug)")
    ));
    assert_eq!(
        configs[1]["tcp_connection"]["port"].as_u64(),
        Some(6006)
    );
}

#[test]
fn collect_debug_entries_uses_builtin_templates() {
    let toml = r#"
[target.APP]
type = "java-spring-boot"
kind = "service"
port.debug.type = "tcp"
port.debug.auto = true
"#;

    let config = load_from_str("/tmp/rufa/rufa.toml", false, toml).expect("config");

    let mut state = RuntimeState::default();
    let mut ports: NameMap<u16> = NameMap::new();
    ports.insert("debug".to_string(), 5005);
    let mut running = TargetState::default();
    running.generation = 1;
    running.pid = Some(1234);
    running.ports = ports;
    state.targets.insert("APP".to_string(), running);

    let entries = collect_debug_entries(&config, &state);
    assert_eq!(entries.len(), 1);
    let entry = &entries[0];
    assert_eq!(entry.target, "APP");
    assert_eq!(entry.port_name, "debug");
    assert_eq!(entry.port, 5005);
    assert!(entry.vscode.is_some());
    assert!(entry.zed.is_some());
}

#[test]
fn stopped_targets_have_no_entries() {
    let config = load_from_str(
        "rufa.toml",
        false,
        "[target.APP]\ntype = \"bun\"\nport.debug.type = \"tcp\"\nport.debug.auto = true\n",
    )
    .expect("config");
    let mut stopped = TargetState::default();
    stopped.ports.insert("debug".to_string(), 5005);
    let mut state = RuntimeState::default();
    state.targets.insert("APP".to_string(), stopped);
    assert!(collect_debug_entries(&config, &state).is_empty());
}

#[test]
fn bash_targets_bring_their_own_templates() {
    let toml = r#"
[target.APP]
type = "bash"
command = "x"
port.dbg.type = "tcp"
port.dbg.auto = true
port.dbg.debugger.vscode = { type = "lldb", deep = [1, -2, 1.5, true, "{{PORT_NAME}}"] }
port.plain.type = "tcp"
port.plain.auto = true
"#;
    let config = load_from_str("rufa.toml", false, toml).expect("config");
    let mut running = TargetState::default();
    running.pid = Some(1);
    running.ports.insert("dbg".to_string(), 7000);
    running.ports.insert("plain".to_string(), 7001);
    let mut state = RuntimeState::default();
    state.targets.insert("APP".to_string(), running);
    let entries = collect_debug_entries(&config, &state);
    assert_eq!(entries.len(), 1);
    assert_eq!(entries[0].port, 7000);
    assert!(entries[0].zed.is_none());
    let rendered = render_entries(&entries, "P", false);
    assert_eq!(rendered.len(), 1);
    assert!(render_entries(&entries, "P", true).is_empty());
    match &rendered[0] {
        JsonValue::Object(members) => assert_eq!(
            member(members, "deep"),
            Some(&JsonValue::Array(vec![
                JsonValue::Unsigned(1),
                JsonValue::Signed(-2),
                JsonValue::Float("1.5".to_string()),
                JsonValue::Bool(true),
                text("dbg"),
            ]))
        ),
        other => panic!("unexpected {other:?}"),
    }
}

#[test]
fn zed_entries_always_tell_the_port() {
    let template = object(vec![
        ("adapter", text("{{TARGET}}/{{PREFIX}}")),
        (
            "tcp_connection",
            object(vec![("host", text("{{HOST}}")), ("port", text("{{PORT}}"))]),
        ),
    ]);
    let rendered = render_zed_entry(&entry(None, Some(template)), "RUFA").expect("rendered");
    assert_eq!(member_text(&rendered, "label"), Some("RUFA PRG1 (debug)"));
    assert_eq!(member_text(&rendered, "adapter"), Some("PRG1/RUFA"));
    match &rendered {
        JsonValue::Object(members) => assert_eq!(
            member(members, "tcp_connection"),
            Some(&object(vec![
                ("host", text("127.0.0.1")),
                ("port", JsonValue::Unsigned(5005)),
            ]))
        ),
        other => panic!("unexpected {other:?}"),
    }
    let odd = object(vec![("tcp_connection", text("nowhere"))]);
    let rendered = render_zed_entry(&entry(None, Some(odd)), "RUFA").expect("rendered");
    match &rendered {
        JsonValue::Object(members) => assert_eq!(
            member(members, "tcp_connection"),
            Some(&object(vec![
                ("host", text("127.0.0.1")),
                ("port", JsonValue::Unsigned(5005)),
            ]))
        ),
        other => panic!("unexpected {other:?}"),
    }
}

#[test]
fn placeholders_are_filled_everywhere() {
    let context = PlaceholderContext {
        prefix: "X".to_string(),
        target: "T".to_string(),
        port_name: "N".to_string(),
        port: 80,
        host: "H".to_string(),
    };
    let value = JsonValue::Array(vec![
        text("{{TARGET}}-{{PORT}}-{{PORT_NAME}}-{{PREFIX}}-{{HOST}}"),
        object(vec![("{{PORT}}", text("{{PORT}}"))]),
        JsonValue::Null,
    ]);
    assert_eq!(
        apply_placeholders(&value, &context),
        JsonValue::Array(vec![
            text("T-80-N-X-H"),
            object(vec![("{{PORT}}", text("80"))]),
            JsonValue::Null,
        ])
    );
}

#[test]
fn other_drivers_have_no_templates() {
    assert!(builtin_debug_specs("bash").is_none());
    assert_eq!(builtin_debug_specs("bun").map(|specs| specs.len()), Some(1));
}

#[test]
fn updating_twice_writes_once() {
    let running = entry(Some(object(vec![("type", text("java"))])), None);
    let first = update_vscode_launch_sync(
        None,
        "RUFA",
        vec![render_vscode_entry(&running, "RUFA").unwrap()],
    )
    .unwrap()
    .expect("new file");
    assert!(first.ends_with("}\n"));
    let second = update_vscode_launch_sync(
        Some(&first),
        "RUFA",
        vec![render_vscode_entry(&running, "RUFA").unwrap()],
    )
    .unwrap();
    assert_eq!(second, None);
}

#[test]
fn blank_file_counts_as_missing() {
    let written = update_zed_launch_sync(Some("  \n"), "RUFA", vec![])
        .unwrap()
        .expect("new file");
    assert_eq!(written, "[]\n");
}

#[test]
fn file_that_is_not_json_is_refused() {
    assert!(matches!(
        update_zed_launch_sync(Some("{"), "RUFA", vec![]),
        Err(DebugUpdateError::Parse(_))
    ));
}

#[test]
fn foreign_members_and_configurations_stay() {
    let existing = object(vec![
        ("compounds", JsonValue::Array(vec![])),
        (
            "configurations",
            JsonValue::Array(vec![
                text("odd"),
                object(vec![("name", text("RUFAX"))]),
                object(vec![("name", text("mine"))]),
            ]),
        ),
    ]);
    let updated = vscode_launch(Some(existing), "RUFA", vec![JsonValue::Null]);
    assert_eq!(
        updated,
        object(vec![
            ("compounds", JsonValue::Array(vec![])),
            (
                "configurations",
                JsonValue::Array(vec![
                    text("odd"),
                    object(vec![("name", text("mine"))]),
                    JsonValue::Null,
                ])
            ),
        ])
    );
}

#[test]
fn numbers_survive_an_update() {
    let contents = "{\"a\": 18446744073709551615, \"b\": -3, \"c\": 0.1, \"d\": 1e300}";
    let written = update_vscode_launch_sync(Some(contents), "P", vec![])
        .unwrap()
        .expect("something to write");
    let updated: serde_json::Value = serde_json::from_str(&written).unwrap();
    assert_eq!(updated["a"].as_u64(), Some(u64::MAX));
    assert_eq!(updated["b"].as_i64(), Some(-3));
    assert_eq!(updated["c"].as_f64(), Some(0.1));
    assert_eq!(updated["d"].as_f64(), Some(1e300));
}

#[test]
fn contents_that_agree_are_not_written() {
    assert_eq!(contents_to_write(Some("{}\n\n"), "{}"), None);
    assert_eq!(contents_to_write(Some(" {}"), "{}"), Some("{}\n".to_string()));
    assert_eq!(contents_to_write(None, "{}"), Some("{}\n".to_string()));
}
