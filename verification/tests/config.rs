use rufa::config::error::ConfigError;
use rufa::config::loader::load_from_str;
use rufa::config::model::{
    EnvValue, PortProtocol, PortSelection, ReferenceResource, RefreshWatchType, Target,
    TargetBehavior,
};

const FIXTURE_PATH: &str = "/tmp/rufa/rufa.toml";

fn load(contents: &str) -> Result<rufa::config::model::Config, ConfigError> {
    load_from_str(FIXTURE_PATH, true, contents)
}

#[test]
fn parses_sample_configuration() {
    let toml = r#"
[debug-update]
prefix = "RUFA"
update.vscode = ".vscode/launch.json"
update.zed = ".zed/debug.json"

[log]
file = "rufa.log"
rotation_after_seconds = 86400
rotation_after_size_mb = 10
keep_history_count = 5

[env]
read_env_file = ".env"

[target.FRONT_BACK]
type = "composite"
targets = "PRG1, PRG2"

[target.PRG1]
type = "java-spring-boot"
kind = "service"
module = "panda-core"
watch = ["modules/panda-core/src", "modules/shared"]
port.http.type = "http"
port.http.auto_range = "8000-8100"
port.debug.type = "tcp"
port.debug.auto = true
env.ADD_THIS_ENVVAR = "something"
env.ADD_A_REFERENCE_TO_ANOTHER_TARGETS_PORT = "{PRG2:port.http}"
env.ADD_WHATEVER_TO_ENV = "something else"

[target.PRG2]
type = "node-script"
kind = "job"
timeout_seconds = 120
port.metrics.type = "tcp"
port.metrics.fixed = 9100
"#;

    let config = load_from_str("/tmp/rufa/rufa.toml", false, toml).expect("config parsed");

    assert_eq!(config.log.file, "/tmp/rufa/rufa.log");
    assert_eq!(config.env.read_env_file, Some("/tmp/rufa/.env".to_string()));
    assert_eq!(config.log.rotation_after, Some(86400));
    assert_eq!(config.log.rotation_size_bytes, Some(10 * 1024 * 1024));
    assert_eq!(config.log.keep_history_count, 5);
    assert_eq!(config.watch.stability, 10);
    let debug_update = config.debug_update.as_ref().expect("debug update");
    assert_eq!(debug_update.prefix, "RUFA");
    assert_eq!(
        debug_update.vscode.as_deref(),
        Some("/tmp/rufa/.vscode/launch.json")
    );
    assert_eq!(
        debug_update.zed.as_deref(),
        Some("/tmp/rufa/.zed/debug.json")
    );

    assert_eq!(config.targets.len(), 3);

    assert!(config.targets.get("FRONT_BACK").unwrap().is_composite());

    let composite = match config.targets.get("FRONT_BACK").unwrap() {
        Target::Composite(target) => target,
        _ => panic!("expected composite"),
    };
    assert_eq!(composite.name, "FRONT_BACK");
    assert_eq!(composite.members, vec!["PRG1", "PRG2"]);
    assert!(composite.properties.is_empty());

    let prg1 = match config.targets.get("PRG1").unwrap() {
        Target::Unit(unit) => unit,
        _ => panic!("expected unit target"),
    };
    assert!(prg1.behavior.is_service());
    assert_eq!(prg1.driver_type, "java-spring-boot");
    assert_eq!(prg1.name, "PRG1");
    assert!(prg1
        .watch_paths
        .iter()
        .any(|path| path.ends_with("modules/panda-core/src")));
    assert!(prg1
        .watch_paths
        .iter()
        .any(|path| path.ends_with("modules/shared")));
    assert_eq!(
        prg1.refresh_watch_type,
        RefreshWatchType::PreferRuntimeSupplied
    );
    let http_port = prg1.ports.get("http").expect("http port");
    assert_eq!(http_port.protocol, PortProtocol::Http);
    assert_eq!(
        http_port.selection,
        PortSelection::AutoRange {
            start: 8000,
            end: 8100
        }
    );
    assert_eq!(http_port.selection.as_range(), (8000, 8100));
    let debug_port = prg1.ports.get("debug").expect("debug port");
    assert_eq!(debug_port.protocol, PortProtocol::Tcp);
    assert_eq!(debug_port.selection, PortSelection::Auto);
    assert_eq!(
        prg1.env.get("ADD_THIS_ENVVAR").unwrap().as_literal(),
        Some("something")
    );
    match prg1.env.get("ADD_A_REFERENCE_TO_ANOTHER_TARGETS_PORT") {
        Some(EnvValue::Reference(reference)) => {
            assert_eq!(reference.target, "PRG2");
            assert_eq!(
                reference.resource,
                ReferenceResource::Port {
                    name: "http".to_string()
                }
            );
        }
        other => panic!("expected reference, got {other:?}"),
    }
    assert_eq!(
        prg1.properties
            .get("module")
            .and_then(|value| value.as_str()),
        Some("panda-core")
    );

    let prg2 = match config.targets.get("PRG2").unwrap() {
        Target::Unit(unit) => unit,
        _ => panic!("expected unit target"),
    };
    match &prg2.behavior {
        TargetBehavior::Job { timeout } => {
            assert_eq!(*timeout, Some(120));
        }
        _ => panic!("expected job"),
    }
    assert!(prg2.behavior.is_job());
    let metrics_port = prg2.ports.get("metrics").expect("metrics port");
    assert_eq!(metrics_port.protocol, PortProtocol::Tcp);
    assert_eq!(metrics_port.selection, PortSelection::Fixed(9100));
}

#[test]
fn rejects_invalid_env_reference() {
    let toml = r#"
[target.app]
type = "java"
env.BAD = "{missing}"
"#;
    let error = load_from_str("/tmp/rufa/rufa.toml", false, toml).unwrap_err();
    match error {
        ConfigError::InvalidEnvReference { .. } => {}
        other => panic!("unexpected error {other:?}"),
    }
}

#[test]
fn parses_refresh_watch_type() {
    let toml = r#"
[target.service]
type = "bun"
kind = "service"
script = "bun run start"
refresh_watch_type = "RUFA"
"#;

    let config = load_from_str("/tmp/rufa/rufa.toml", false, toml).expect("config parsed");
    let unit = match config.targets.get("service").unwrap() {
        Target::Unit(unit) => unit,
        _ => panic!("expected unit target"),
    };
    assert_eq!(unit.refresh_watch_type, RefreshWatchType::Rufa);
}

#[test]
fn rejects_unknown_refresh_watch_type() {
    let toml = r#"
[target.service]
type = "bun"
kind = "service"
script = "bun run start"
refresh_watch_type = "INVALID"
"#;

    let err = load_from_str("/tmp/rufa/rufa.toml", false, toml).unwrap_err();
    match err {
        ConfigError::UnknownRefreshWatchType { .. } => {}
        _ => panic!("expected UnknownRefreshWatchType"),
    }
}

#[test]
fn relative_log_file_lies_beside_the_configuration() {
    let config =
        load_from_str("/tmp/work/rufa.toml", false, "[log]\nfile = \"out.log\"\n").unwrap();
    assert_eq!(config.log.file, "/tmp/work/out.log");
}

#[test]
fn configuration_that_is_a_directory_is_its_own_base() {
    let config = load("[log]\nfile = \"out.log\"\n").unwrap();
    assert_eq!(config.log.file, "/tmp/rufa/rufa.toml/out.log");
}

#[test]
fn empty_configuration_has_defaults() {
    let config = load_from_str("rufa.toml", false, "").unwrap();
    assert_eq!(config.log.keep_history_count, 5);
    assert_eq!(config.log.rotation_after, None);
    assert_eq!(config.watch.stability, 10);
    assert_eq!(config.run_history.keep_runs, 3);
    assert!(config.debug_update.is_none());
    assert!(config.targets.is_empty());
}

#[test]
fn document_that_is_not_toml_is_refused() {
    match load("[log") {
        Err(ConfigError::Parse(message)) => assert!(!message.is_empty()),
        other => panic!("unexpected {other:?}"),
    }
}

#[test]
fn document_of_another_shape_is_refused() {
    assert!(matches!(load("log = 3\n"), Err(ConfigError::Parse(_))));
}

#[test]
fn target_without_type_is_refused() {
    match load("[target.A]\nkind = \"service\"\n") {
        Err(ConfigError::MissingField { target, field }) => {
            assert_eq!(target, "A");
            assert_eq!(field, "type");
        }
        other => panic!("unexpected {other:?}"),
    }
}

#[test]
fn unknown_kind_is_refused() {
    match load("[target.A]\ntype = \"bash\"\nkind = \"daemon\"\n") {
        Err(ConfigError::UnknownTargetKind { target, value }) => {
            assert_eq!(target, "A");
            assert_eq!(value, "daemon");
        }
        other => panic!("unexpected {other:?}"),
    }
}

#[test]
fn composite_without_members_is_refused() {
    match load("[target.A]\ntype = \"composite\"\ntargets = \"\"\n") {
        Err(ConfigError::EmptyComposite { target }) => assert_eq!(target, "A"),
        other => panic!("unexpected {other:?}"),
    }
}

#[test]
fn port_without_type_is_refused() {
    match load("[target.A]\ntype = \"bash\"\nport.http.auto = true\n") {
        Err(ConfigError::MissingPortField {
            target,
            port,
            field,
        }) => {
            assert_eq!(target, "A");
            assert_eq!(port, "http");
            assert_eq!(field, "type");
        }
        other => panic!("unexpected {other:?}"),
    }
}

#[test]
fn port_of_unknown_type_is_refused() {
    match load("[target.A]\ntype = \"bash\"\nport.p.type = \"smtp\"\nport.p.auto = true\n") {
        Err(ConfigError::UnknownPortType { value, .. }) => assert_eq!(value, "smtp"),
        other => panic!("unexpected {other:?}"),
    }
}

#[test]
fn port_chosen_two_ways_is_refused() {
    match load("[target.A]\ntype = \"bash\"\nport.p.type = \"tcp\"\nport.p.auto = true\nport.p.fixed = 80\n")
    {
        Err(ConfigError::InvalidPortSelection { port, .. }) => assert_eq!(port, "p"),
        other => panic!("unexpected {other:?}"),
    }
}

#[test]
fn port_range_that_is_no_range_is_refused() {
    match load("[target.A]\ntype = \"bash\"\nport.p.type = \"tcp\"\nport.p.auto_range = \"many\"\n")
    {
        Err(ConfigError::InvalidPortSpec { value, .. }) => assert_eq!(value, "many"),
        other => panic!("unexpected {other:?}"),
    }
}

#[test]
fn port_out_of_range_is_refused() {
    match load("[target.A]\ntype = \"bash\"\nport.p.type = \"tcp\"\nport.p.fixed = 70000\n") {
        Err(ConfigError::PortOutOfRange { target, port }) => {
            assert_eq!(target, "A");
            assert_eq!(port, "p");
        }
        other => panic!("unexpected {other:?}"),
    }
}

#[test]
fn one_wrong_target_refuses_all() {
    let toml = "[target.A]\ntype = \"bash\"\n[target.B]\nkind = \"job\"\n";
    assert!(load(toml).is_err());
    let config = load("[target.A]\ntype = \"bash\"\n").unwrap();
    assert_eq!(config.targets.keys(), vec!["A".to_string()]);
}

#[test]
fn errors_tell_what_is_wrong() {
    let error = load("[target.A]\ntype = \"composite\"\ntargets = \"\"\n").unwrap_err();
    assert!(error.message().contains("A"));
    let error = ConfigError::ReadFailure {
        path: "rufa.toml".to_string(),
        source: "gone".to_string(),
    };
    assert!(error.message().contains("rufa.toml"));
}

#[test]
fn sections_may_list_their_fields() {
    let text = r#"
log = ["a.log", 60, 2, 7, "more"]
restart = ["fixed"]
env = [".env"]
watch = [5]
run_history = [4]
debug-update = ["dev", ["launch.json", "zed.json"]]
"#;
    let listed = load_from_str("/w/rufa.toml", false, text).expect("configuration");
    let named = load_from_str(
        "/w/rufa.toml",
        false,
        r#"
[log]
file = "a.log"
rotation_after_seconds = 60
rotation_after_size_mb = 2
keep_history_count = 7
[restart]
type = "fixed"
[env]
read_env_file = ".env"
[watch]
stability_seconds = 5
[run_history]
keep_runs = 4
[debug-update]
prefix = "dev"
update.vscode = "launch.json"
update.zed = "zed.json"
"#,
    )
    .expect("configuration");
    assert_eq!(listed, named);
    assert_eq!(listed.log.keep_history_count, 7);
    assert!(load_from_str("/w/rufa.toml", false, "debug-update = [\"dev\"]").is_ok());
    for wrong in [
        "log = [\"a.log\", 60, 2]",
        "watch = []",
        "watch = [\"5\"]",
        "debug-update = [\"dev\", [\"launch.json\"]]",
        "target = []",
    ] {
        assert!(
            matches!(
                load_from_str("/w/rufa.toml", false, wrong),
                Err(ConfigError::Parse(_))
            ),
            "{wrong}"
        );
    }
}
