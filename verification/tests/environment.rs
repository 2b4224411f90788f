use rufa::config::loader::load_from_str;
use rufa::config::model::Target;
use rufa::env::{load_env_overrides, override_env};
use rufa::names::NameMap;
use rufa::runner::drivers::resolve_command;
use rufa::runner::environment::{
    build_environment, interpolate_matches, interpolate_placeholders, resolve_port_placeholder,
    Assignments,
};
use rufa::state::{RuntimeState, TargetState};

#[test]
fn load_env_overrides_accepts_dot_names() {
    let overrides = load_env_overrides(
        "FOO=bar\n.BAZ=ignored\nQUX = quux\nwith-dash=value\nWITH.DOT=found\n",
    )
    .expect("variables");
    assert_eq!(overrides.get("FOO"), Some(&"bar".to_string()));
    assert_eq!(overrides.get("QUX"), Some(&"quux".to_string()));
    assert!(!overrides.contains_key(".BAZ"));
    assert_eq!(overrides.get("with-dash"), Some(&"value".to_string()));
    assert_eq!(overrides.get("WITH.DOT"), Some(&"found".to_string()));
}

#[test]
fn last_line_of_a_variable_counts() {
    let overrides = load_env_overrides("A=1\nA=2\n").expect("variables");
    assert_eq!(overrides.get("A"), Some(&"2".to_string()));
}

#[test]
fn quotes_around_values_are_dropped() {
    let overrides = load_env_overrides("# comment\nA=\"one two\"\nB='x'\n").expect("variables");
    assert_eq!(overrides.get("A"), Some(&"one two".to_string()));
    assert_eq!(overrides.get("B"), Some(&"x".to_string()));
    assert_eq!(overrides.len(), 2);
}

#[test]
fn overrides_win_over_the_base() {
    let mut base: NameMap<String> = NameMap::new();
    base.insert("A".to_string(), "base".to_string());
    base.insert("B".to_string(), "base".to_string());
    let mut over: NameMap<String> = NameMap::new();
    over.insert("B".to_string(), "over".to_string());
    over.insert("C".to_string(), "over".to_string());
    override_env(&mut base, &over);
    assert_eq!(base.get("A"), Some(&"base".to_string()));
    assert_eq!(base.get("B"), Some(&"over".to_string()));
    assert_eq!(base.get("C"), Some(&"over".to_string()));
}

fn infra_ports() -> (Assignments, RuntimeState) {
    let mut ports: NameMap<u16> = NameMap::new();
    ports.insert("mysql".to_string(), 3307);
    ports.insert("mq".to_string(), 5673);
    let mut assignments: Assignments = NameMap::new();
    assignments.insert("infra".to_string(), ports);

    let mut entry = TargetState::default();
    entry.ports.insert("analytics".to_string(), 9999);
    let mut state = RuntimeState::default();
    state.targets.insert("infra".to_string(), entry);
    (assignments, state)
}

#[test]
fn interpolates_port_placeholders_in_env_values() {
    let (assignments, state) = infra_ports();
    let value = "mysql://127.0.0.1:${infra:port.mysql}?alt={infra:port.analytics}";
    let rendered = interpolate_placeholders(value, &assignments, &state);
    assert_eq!(rendered, "mysql://127.0.0.1:3307?alt=9999");
}

#[test]
fn unknown_placeholders_are_left_alone() {
    let (assignments, state) = infra_ports();
    let value = "é {other:port.x} ${HOME} {infra:port.none}";
    assert_eq!(
        interpolate_placeholders(value, &assignments, &state),
        value
    );
}

#[test]
fn matches_are_replaced_where_they_stand() {
    let (assignments, state) = infra_ports();
    let found = vec![vec![Some((1, 19)), None, Some((2, 18))]];
    let rendered = interpolate_matches("<{infra:port.mysql}>", &found, &assignments, &state);
    assert_eq!(rendered, "<3307>");
}

#[test]
fn assigned_port_wins_over_the_last_one() {
    let (mut assignments, mut state) = infra_ports();
    let mut entry = TargetState::default();
    entry.ports.insert("mysql".to_string(), 1111);
    state.targets.insert("infra".to_string(), entry);
    assert_eq!(
        resolve_port_placeholder("infra:port.mysql", &assignments, &state),
        Some("3307".to_string())
    );
    assignments.remove("infra");
    assert_eq!(
        resolve_port_placeholder("infra:port.mysql", &assignments, &state),
        Some("1111".to_string())
    );
}

fn unit(contents: &str, name: &str) -> rufa::config::model::UnitTarget {
    let config = load_from_str("/w/rufa.toml", false, contents).expect("configuration");
    match config.targets.get(name) {
        Some(Target::Unit(unit)) => rufa::views::Duplicate::duplicate(unit),
        other => panic!("unexpected {other:?}"),
    }
}

#[test]
fn environment_tells_ports_and_identity() {
    let (assignments, state) = infra_ports();
    let app = unit(
        "[target.APP]\ntype = \"bash\"\ncommand = \"x\"\nport.http.type = \"http\"\nport.http.auto = true\nenv.DB = \"{infra:port.mysql}\"\nenv.PLAIN = \"p\"\n",
        "APP",
    );
    let mut file: NameMap<String> = NameMap::new();
    file.insert("PLAIN".to_string(), "from file".to_string());
    file.insert("ONLY".to_string(), "file".to_string());
    let mut ports: NameMap<u16> = NameMap::new();
    ports.insert("http".to_string(), 8080);
    let env = build_environment(&app, 7, &file, &ports, &assignments, &state).expect("environment");
    assert_eq!(env.get("DB"), Some(&"3307".to_string()));
    assert_eq!(env.get("PLAIN"), Some(&"p".to_string()));
    assert_eq!(env.get("ONLY"), Some(&"file".to_string()));
    assert_eq!(env.get("RUFA_PORT_HTTP"), Some(&"8080".to_string()));
    assert_eq!(env.get("RUFA_TARGET"), Some(&"APP".to_string()));
    assert_eq!(env.get("RUFA_GENERATION"), Some(&"7".to_string()));
}

#[test]
fn reference_to_nothing_fails() {
    let (assignments, state) = infra_ports();
    let app = unit(
        "[target.APP]\ntype = \"bash\"\ncommand = \"x\"\nenv.DB = \"{gone:port.mysql}\"\n",
        "APP",
    );
    let none: NameMap<String> = NameMap::new();
    let ports: NameMap<u16> = NameMap::new();
    assert!(build_environment(&app, 1, &none, &ports, &assignments, &state).is_err());
}

#[test]
fn drivers_know_their_commands() {
    let java = unit(
        "[target.A]\ntype = \"java-spring-boot\"\nmodule = \"panda-core\"\n",
        "A",
    );
    assert_eq!(
        resolve_command(&java, false),
        Ok(
            "mvn -pl panda-core spring-boot:run -Dspring-boot.run.jvmArguments=\"-agentlib:jdwp=transport=dt_socket,server=y,suspend=n,address=*:${PORT_DEBUG}\""
                .to_string()
        )
    );
    let bash = unit("[target.A]\ntype = \"bash\"\ncommand = \"./run.sh\"\n", "A");
    assert_eq!(resolve_command(&bash, false), Ok("./run.sh".to_string()));
    let empty = unit("[target.A]\ntype = \"bash\"\n", "A");
    assert!(resolve_command(&empty, false).is_err());
}
