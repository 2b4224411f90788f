//! The commands that start targets.

use vstd::prelude::*;

use crate::config::model::{UnitTarget, UnitTargetView};
use crate::config::value::{as_text, ConfigDataView, ConfigValueView};
use crate::names::lookup;
use crate::text::{
    contains, lowercase, occurs_at, occurs_in, same, to_ascii_lowercase, trim, trim_spec,
    trim_start_spec,
};
use crate::views::outcome;

verus! {

/// The text under `key` among the properties of a target.
pub open spec fn property(properties: Seq<(Seq<char>, ConfigValueView)>, key: Seq<char>) -> Option<
    Seq<char>,
> {
    match lookup(properties, key) {
        Some(value) => as_text(value),
        None => None,
    }
}

fn text_property<'a>(unit: &'a UnitTarget, key: &str) -> (r: Option<&'a str>)
    ensures
        r.deep_view() == property(unit.deep_view().properties, key@),
{
    match unit.properties.get(key) {
        Some(value) => value.as_str(),
        None => None,
    }
}

/// A command with a flag, where it is to run in watch mode and does not hold the flag yet.
pub open spec fn with_watch_flag(command: Seq<char>, runtime_watch: bool, flag: Seq<char>) -> Seq<
    char,
> {
    if runtime_watch && !occurs_in(command, trim_spec(flag)) {
        command + flag
    } else {
        command
    }
}

fn adjust_runtime_watch_flag(command: &str, runtime_watch: bool, flag: &str) -> (r: String)
    ensures
        r@ == with_watch_flag(command@, runtime_watch, flag@),
{
    let mut r: String = command.to_owned();
    if runtime_watch && !contains(command, trim(flag).as_str()) {
        r.append(flag);
    }
    r
}

/// A text property that a target must have.
pub open spec fn required_property(unit: UnitTargetView, key: Seq<char>) -> Result<
    Seq<char>,
    Seq<char>,
> {
    match property(unit.properties, key) {
        Some(value) => Ok(value),
        None => Err(
            "target "@ + unit.name + " requires `"@ + key + "` property in configuration"@,
        ),
    }
}

fn resolve_script_property(unit: &UnitTarget, key: &str) -> (r: Result<String, String>)
    ensures
        outcome(r) == required_property(unit.deep_view(), key@),
{
    match text_property(unit, key) {
        Some(value) => Ok(value.to_owned()),
        None => {
            let mut error: String = "target ".to_owned();
            error.append(unit.name.as_str());
            error.append(" requires `");
            error.append(key);
            error.append("` property in configuration");
            Err(error)
        },
    }
}

/// Starts a Spring Boot application: by its own command, by Maven or from its archive.
pub open spec fn java_command(unit: UnitTargetView, runtime_watch: bool) -> Result<
    Seq<char>,
    Seq<char>,
> {
    let module = property(unit.properties, "module"@);
    let jar = property(unit.properties, "jar"@);
    match property(unit.properties, "command"@) {
        Some(command) => Ok(with_watch_flag(command, runtime_watch, " --spring-boot-devtools"@)),
        None => if module is Some {
            Ok(
                "mvn -pl "@ + module->0 + " spring-boot:run -Dspring-boot.run.jvmArguments=\""@
                    + "-agentlib:jdwp=transport=dt_socket,server=y,suspend=n,address=*:${PORT_DEBUG}"@
                    + (if runtime_watch {
                    " -Dspring.devtools.restart.enabled=true"@
                } else {
                    Seq::empty()
                }) + "\""@,
            )
        } else if jar is Some {
            Ok("java -jar "@ + jar->0)
        } else {
            Err(
                "target "@ + unit.name
                    + " (java-spring-boot) must define `command`, `module`, or `jar` property"@,
            )
        },
    }
}

fn resolve_java(unit: &UnitTarget, runtime_watch: bool) -> (r: Result<String, String>)
    ensures
        outcome(r) == java_command(unit.deep_view(), runtime_watch),
{
    if let Some(command) = text_property(unit, "command") {
        return Ok(
            adjust_runtime_watch_flag(command, runtime_watch, " --spring-boot-devtools"),
        );
    }
    if let Some(module) = text_property(unit, "module") {
        let mut command: String = "mvn -pl ".to_owned();
        command.append(module);
        command.append(" spring-boot:run -Dspring-boot.run.jvmArguments=\"");
        command.append(
            "-agentlib:jdwp=transport=dt_socket,server=y,suspend=n,address=*:${PORT_DEBUG}",
        );
        let ghost so_far = command@;
        if runtime_watch {
            command.append(" -Dspring.devtools.restart.enabled=true");
        } else {
            assert(so_far + Seq::<char>::empty() =~= so_far);
        }
        command.append("\"");
        return Ok(command);
    }
    if let Some(jar) = text_property(unit, "jar") {
        let mut command: String = "java -jar ".to_owned();
        command.append(jar);
        return Ok(command);
    }
    let mut error: String = "target ".to_owned();
    error.append(unit.name.as_str());
    error.append(" (java-spring-boot) must define `command`, `module`, or `jar` property");
    Err(error)
}

/// Starts a Bun script, in its watch mode where that is wanted.
pub open spec fn bun_command(unit: UnitTargetView, runtime_watch: bool) -> Result<
    Seq<char>,
    Seq<char>,
> {
    match required_property(unit, "script"@) {
        Err(error) => Err(error),
        Ok(command) => if runtime_watch && !occurs_in(command, "--watch"@) {
            Ok(command + " --watch"@)
        } else {
            Ok(command)
        },
    }
}

fn resolve_bun(unit: &UnitTarget, runtime_watch: bool) -> (r: Result<String, String>)
    ensures
        outcome(r) == bun_command(unit.deep_view(), runtime_watch),
{
    match resolve_script_property(unit, "script") {
        Err(error) => Err(error),
        Ok(command) => {
            if runtime_watch && !contains(command.as_str(), "--watch") {
                let mut watching: String = command;
                watching.append(" --watch");
                Ok(watching)
            } else {
                Ok(command)
            }
        },
    }
}

/// Runs a Rust package: by its own command or by Cargo.
pub open spec fn rust_command(unit: UnitTargetView) -> Seq<char> {
    match property(unit.properties, "command"@) {
        Some(command) => command,
        None => "cargo run"@ + (match property(unit.properties, "bin"@) {
            Some(bin) => " --bin "@ + bin,
            None => Seq::empty(),
        }) + (match property(unit.properties, "package"@) {
            Some(package) => " -p "@ + package,
            None => Seq::empty(),
        }),
    }
}

fn resolve_rust(unit: &UnitTarget) -> (r: String)
    ensures
        r@ == rust_command(unit.deep_view()),
{
    if let Some(command) = text_property(unit, "command") {
        return command.to_owned();
    }
    let mut base: String = "cargo run".to_owned();
    if let Some(bin) = text_property(unit, "bin") {
        let ghost before = base@;
        base.append(" --bin ");
        base.append(bin);
        assert(base@ =~= before + (" --bin "@ + bin@));
    } else {
        assert(base@ + Seq::<char>::empty() =~= base@);
    }
    if let Some(package) = text_property(unit, "package") {
        let ghost before = base@;
        base.append(" -p ");
        base.append(package);
        assert(base@ =~= before + (" -p "@ + package@));
    } else {
        assert(base@ + Seq::<char>::empty() =~= base@);
    }
    base
}

/// Brings up a Docker Compose file.
pub open spec fn compose_command(unit: UnitTargetView) -> Result<Seq<char>, Seq<char>> {
    match property(unit.properties, "compose_file"@) {
        Some(file) => Ok(
            "docker-compose --file="@ + file
                + " up --abort-on-container-exit --attach-dependencies -y"@,
        ),
        None => Err(
            "target "@ + unit.name + " (docker-compose) requires `compose_file` property"@,
        ),
    }
}

fn resolve_compose(unit: &UnitTarget) -> (r: Result<String, String>)
    ensures
        outcome(r) == compose_command(unit.deep_view()),
{
    match text_property(unit, "compose_file") {
        Some(file) => {
            let mut command: String = "docker-compose --file=".to_owned();
            command.append(file);
            command.append(" up --abort-on-container-exit --attach-dependencies -y");
            Ok(command)
        },
        None => {
            let mut error: String = "target ".to_owned();
            error.append(unit.name.as_str());
            error.append(" (docker-compose) requires `compose_file` property");
            Err(error)
        },
    }
}

/// Runs what the target names as its command or script.
pub open spec fn generic_command(unit: UnitTargetView) -> Result<Seq<char>, Seq<char>> {
    let script = property(unit.properties, "script"@);
    match property(unit.properties, "command"@) {
        Some(command) => Ok(command),
        None => if script is Some {
            Ok(script->0)
        } else {
            Err("target "@ + unit.name + " is missing a `command` or `script` property"@)
        },
    }
}

fn resolve_generic(unit: &UnitTarget) -> (r: Result<String, String>)
    ensures
        outcome(r) == generic_command(unit.deep_view()),
{
    if let Some(command) = text_property(unit, "command") {
        return Ok(command.to_owned());
    }
    if let Some(script) = text_property(unit, "script") {
        return Ok(script.to_owned());
    }
    let mut error: String = "target ".to_owned();
    error.append(unit.name.as_str());
    error.append(" is missing a `command` or `script` property");
    Err(error)
}

/// The command line of a target, by its driver.
pub open spec fn command_spec(unit: UnitTargetView, runtime_watch: bool) -> Result<
    Seq<char>,
    Seq<char>,
> {
    let driver = lowercase(unit.driver_type);
    if driver == "java-spring-boot"@ {
        java_command(unit, runtime_watch)
    } else if driver == "bun"@ {
        bun_command(unit, runtime_watch)
    } else if driver == "bash"@ {
        required_property(unit, "command"@)
    } else if driver == "rust"@ {
        Ok(rust_command(unit))
    } else if driver == "docker-compose"@ {
        compose_command(unit)
    } else {
        generic_command(unit)
    }
}

/// The command line of the target, by its driver, or what is missing for it.
pub fn resolve_command(unit: &UnitTarget, runtime_watch: bool) -> (r: Result<String, String>)
    ensures
        outcome(r) == command_spec(unit.deep_view(), runtime_watch),
{
    let driver: String = to_ascii_lowercase(unit.driver_type.as_str());
    if same(driver.as_str(), "java-spring-boot") {
        resolve_java(unit, runtime_watch)
    } else if same(driver.as_str(), "bun") {
        resolve_bun(unit, runtime_watch)
    } else if same(driver.as_str(), "bash") {
        resolve_script_property(unit, "command")
    } else if same(driver.as_str(), "rust") {
        Ok(resolve_rust(unit))
    } else if same(driver.as_str(), "docker-compose") {
        resolve_compose(unit)
    } else {
        resolve_generic(unit)
    }
}

// ---------------------------------------------------------------------------
// Laws
// ---------------------------------------------------------------------------

/// The text that a target has written under a key.
pub open spec fn written(unit: UnitTargetView, key: Seq<char>) -> Option<Seq<char>> {
    match lookup(unit.properties, key) {
        Some(value) => match value.data {
            ConfigDataView::Text(text) => Some(text),
            _ => None,
        },
        None => None,
    }
}

proof fn lemma_drivers_differ()
    ensures
        "java-spring-boot"@.len() == 16,
        "docker-compose"@.len() == 14,
        "bun"@.len() == 3,
        "bash"@.len() == 4,
        "rust"@.len() == 4,
        "bash"@ != "rust"@,
{
    reveal_strlit("java-spring-boot");
    reveal_strlit("bun");
    reveal_strlit("bash");
    reveal_strlit("rust");
    reveal_strlit("docker-compose");
    assert("bash"@[0] != "rust"@[0]);
}

/// A Rust target without a command of its own is run by Cargo: the command begins with
/// `cargo run`, goes on with the binary where one is named, ends with the package where one is
/// named, and holds nothing else.
pub proof fn cargo_runs_the_named_binary(unit: UnitTargetView, runtime_watch: bool)
    requires
        lowercase(unit.driver_type) == "rust"@,
        written(unit, "command"@) is None,
    ensures
        command_spec(unit, runtime_watch) matches Ok(command) && {
            let bin = written(unit, "bin"@);
            let package = written(unit, "package"@);
            &&& "cargo run"@.is_prefix_of(command)
            &&& bin matches Some(name) ==> ("cargo run"@ + " --bin "@ + name).is_prefix_of(command)
            &&& package matches Some(name) ==> (" -p "@ + name).is_suffix_of(command)
            &&& command.len() == 9 + (match bin {
                Some(name) => 7 + name.len(),
                None => 0,
            }) + (match package {
                Some(name) => 4 + name.len(),
                None => 0,
            })
        },
{
    lemma_drivers_differ();
    reveal_strlit("cargo run");
    reveal_strlit(" --bin ");
    reveal_strlit(" -p ");
    let command = command_spec(unit, runtime_watch)->Ok_0;
    assert(command.take(9) =~= "cargo run"@);
    if let Some(name) = written(unit, "bin"@) {
        let front = "cargo run"@ + " --bin "@ + name;
        assert(command.take(front.len() as int) =~= front);
    }
    if let Some(name) = written(unit, "package"@) {
        let back = " -p "@ + name;
        assert(command.subrange(command.len() - back.len(), command.len() as int) =~= back);
    }
}

/// Rust targets that differ only in the binary that they name have different commands.
pub proof fn different_binaries_have_different_commands(
    one: UnitTargetView,
    other: UnitTargetView,
    runtime_watch: bool,
)
    requires
        lowercase(one.driver_type) == "rust"@,
        lowercase(other.driver_type) == "rust"@,
        written(one, "command"@) is None,
        written(other, "command"@) is None,
        written(one, "package"@) == written(other, "package"@),
        written(one, "bin"@) != written(other, "bin"@),
    ensures
        command_spec(one, runtime_watch) != command_spec(other, runtime_watch),
{
    cargo_runs_the_named_binary(one, runtime_watch);
    cargo_runs_the_named_binary(other, runtime_watch);
    if command_spec(one, runtime_watch) == command_spec(other, runtime_watch) {
        reveal_strlit("cargo run");
        reveal_strlit(" --bin ");
        let command = command_spec(one, runtime_watch)->Ok_0;
        if let (Some(a), Some(b)) = (written(one, "bin"@), written(other, "bin"@)) {
            assert(a.len() == b.len());
            let n = 16 + a.len() as int;
            assert(command.take(n) =~= "cargo run"@ + " --bin "@ + a);
            assert(command.take(n) =~= "cargo run"@ + " --bin "@ + b);
            assert(command.take(n).skip(16) =~= a);
            assert(command.take(n).skip(16) =~= b);
        }
    }
}

/// A target of the driver `rust`, or of a driver that is not known, runs the command that it
/// writes, word for word and watched or not.
pub proof fn written_command_is_run(unit: UnitTargetView, command: Seq<char>, runtime_watch: bool)
    requires
        lowercase(unit.driver_type) != "java-spring-boot"@,
        lowercase(unit.driver_type) != "bun"@,
        lowercase(unit.driver_type) != "docker-compose"@,
        written(unit, "command"@) == Some(command),
    ensures
        command_spec(unit, runtime_watch) == Ok::<Seq<char>, Seq<char>>(command),
{
}

/// A target of the driver `bash` is run exactly where it writes a command.
pub proof fn bash_needs_a_command(unit: UnitTargetView, runtime_watch: bool)
    requires
        lowercase(unit.driver_type) == "bash"@,
    ensures
        command_spec(unit, runtime_watch) matches Ok(command) ==> written(unit, "command"@) == Some(
            command,
        ),
        command_spec(unit, runtime_watch) is Err <==> written(unit, "command"@) is None,
{
    lemma_drivers_differ();
}

/// A target of a driver that is not known runs its script where it writes no command, and is
/// refused where it writes neither.
pub proof fn unknown_driver_runs_the_script(unit: UnitTargetView, runtime_watch: bool)
    requires
        lowercase(unit.driver_type) != "java-spring-boot"@,
        lowercase(unit.driver_type) != "bun"@,
        lowercase(unit.driver_type) != "bash"@,
        lowercase(unit.driver_type) != "rust"@,
        lowercase(unit.driver_type) != "docker-compose"@,
        written(unit, "command"@) is None,
    ensures
        command_spec(unit, runtime_watch) matches Ok(command) ==> written(unit, "script"@) == Some(
            command,
        ),
        command_spec(unit, runtime_watch) is Err <==> written(unit, "script"@) is None,
{
}

/// A Bun target runs its script, and nothing else than the script where it is not watched by its
/// runtime. Where it is, the command holds `--watch`, begins with the script and has at most the
/// flag behind it.
pub proof fn bun_runs_the_script(unit: UnitTargetView, runtime_watch: bool)
    requires
        lowercase(unit.driver_type) == "bun"@,
    ensures
        command_spec(unit, runtime_watch) is Err <==> written(unit, "script"@) is None,
        command_spec(unit, runtime_watch) matches Ok(command) ==> {
            let script = written(unit, "script"@)->0;
            &&& !runtime_watch ==> command == script
            &&& runtime_watch ==> occurs_in(command, "--watch"@)
            &&& occurs_in(script, "--watch"@) ==> command == script
            &&& command == script || command == script + " --watch"@
        },
{
    lemma_drivers_differ();
    reveal_strlit("--watch");
    reveal_strlit(" --watch");
    if let Some(script) = written(unit, "script"@) {
        let watching = script + " --watch"@;
        assert(watching.subrange(script.len() as int + 1, script.len() as int + 8) =~= "--watch"@);
        assert(occurs_at(watching, "--watch"@, script.len() as int + 1));
    }
}

/// A Spring Boot target runs its own command where it writes one. Where it is watched by its
/// runtime the command holds the flag of the developer tools, once.
pub proof fn spring_boot_runs_its_command(
    unit: UnitTargetView,
    command: Seq<char>,
    runtime_watch: bool,
)
    requires
        lowercase(unit.driver_type) == "java-spring-boot"@,
        written(unit, "command"@) == Some(command),
    ensures
        command_spec(unit, runtime_watch) matches Ok(line) && {
            &&& !runtime_watch ==> line == command
            &&& runtime_watch ==> occurs_in(line, "--spring-boot-devtools"@)
            &&& occurs_in(command, "--spring-boot-devtools"@) ==> line == command
            &&& line == command || line == command + " --spring-boot-devtools"@
        },
{
    let flag = " --spring-boot-devtools"@;
    let bare = "--spring-boot-devtools"@;
    reveal_strlit(" --spring-boot-devtools");
    reveal_strlit("--spring-boot-devtools");
    assert(trim_spec(flag) == bare) by {
        reveal_with_fuel(trim_start_spec, 2);
        assert(flag.drop_first() =~= bare);
    }
    let line = command + flag;
    assert(line.subrange(command.len() as int + 1, line.len() as int) =~= bare);
    assert(occurs_at(line, bare, command.len() as int + 1));
}

/// A Spring Boot target that names a module is run by Maven, with the debug port open, and with
/// restarts of the developer tools exactly where it is watched by its runtime.
pub proof fn spring_boot_runs_its_module(
    unit: UnitTargetView,
    module: Seq<char>,
    runtime_watch: bool,
)
    requires
        lowercase(unit.driver_type) == "java-spring-boot"@,
        written(unit, "command"@) is None,
        written(unit, "module"@) == Some(module),
    ensures
        command_spec(unit, runtime_watch) matches Ok(line) && {
            let agent =
                "-agentlib:jdwp=transport=dt_socket,server=y,suspend=n,address=*:${PORT_DEBUG}"@;
            let front = "mvn -pl "@ + module + " spring-boot:run "@
                + "-Dspring-boot.run.jvmArguments=\""@ + agent;
            &&& front.is_prefix_of(line)
            &&& runtime_watch ==> " -Dspring.devtools.restart.enabled=true\""@.is_suffix_of(line)
                && line.len() == front.len() + 40
            &&& !runtime_watch ==> line == front + "\""@
        },
{
    let agent = "-agentlib:jdwp=transport=dt_socket,server=y,suspend=n,address=*:${PORT_DEBUG}"@;
    let watched = " -Dspring.devtools.restart.enabled=true\""@;
    reveal_strlit("mvn -pl ");
    reveal_strlit(" spring-boot:run ");
    reveal_strlit("-Dspring-boot.run.jvmArguments=\"");
    reveal_strlit(" spring-boot:run -Dspring-boot.run.jvmArguments=\"");
    reveal_strlit("-agentlib:jdwp=transport=dt_socket,server=y,suspend=n,address=*:${PORT_DEBUG}");
    reveal_strlit(" -Dspring.devtools.restart.enabled=true");
    reveal_strlit(" -Dspring.devtools.restart.enabled=true\"");
    reveal_strlit("\"");
    let front = "mvn -pl "@ + module + " spring-boot:run "@ + "-Dspring-boot.run.jvmArguments=\""@
        + agent;
    let line = command_spec(unit, runtime_watch)->Ok_0;
    assert(" spring-boot:run -Dspring-boot.run.jvmArguments=\""@ =~= " spring-boot:run "@
        + "-Dspring-boot.run.jvmArguments=\""@);
    assert(line.take(front.len() as int) =~= front);
    if runtime_watch {
        assert(line.subrange(line.len() - watched.len(), line.len() as int) =~= watched);
    } else {
        assert(line =~= front + "\""@);
    }
}

/// A Spring Boot target without command and module is run from its archive, and is refused where
/// it names none.
pub proof fn spring_boot_runs_its_archive(unit: UnitTargetView, runtime_watch: bool)
    requires
        lowercase(unit.driver_type) == "java-spring-boot"@,
        written(unit, "command"@) is None,
        written(unit, "module"@) is None,
    ensures
        command_spec(unit, runtime_watch) is Err <==> written(unit, "jar"@) is None,
        command_spec(unit, runtime_watch) matches Ok(line) ==> line == "java -jar "@ + written(
            unit,
            "jar"@,
        )->0,
{
}

/// A Docker Compose target brings its file up, whatever else it writes, and is refused where it
/// names no file.
pub proof fn compose_brings_its_file_up(unit: UnitTargetView, runtime_watch: bool)
    requires
        lowercase(unit.driver_type) == "docker-compose"@,
    ensures
        command_spec(unit, runtime_watch) is Err <==> written(unit, "compose_file"@) is None,
        command_spec(unit, runtime_watch) matches Ok(line) ==> {
            let file = written(unit, "compose_file"@)->0;
            let back = " up --abort-on-container-exit --attach-dependencies -y"@;
            &&& ("docker-compose --file="@ + file).is_prefix_of(line)
            &&& back.is_suffix_of(line)
            &&& line.len() == 22 + file.len() + back.len()
        },
{
    lemma_drivers_differ();
    reveal_strlit("docker-compose --file=");
    if let Some(file) = written(unit, "compose_file"@) {
        let back = " up --abort-on-container-exit --attach-dependencies -y"@;
        let front = "docker-compose --file="@ + file;
        let line = command_spec(unit, runtime_watch)->Ok_0;
        assert(line.take(front.len() as int) =~= front);
        assert(line.subrange(line.len() - back.len(), line.len() as int) =~= back);
    }
}

/// The driver of a target is found whatever the case in which it is written: targets that differ
/// in nothing else have the same command.
pub proof fn case_of_a_driver_does_not_matter(
    one: UnitTargetView,
    other: UnitTargetView,
    runtime_watch: bool,
)
    requires
        lowercase(one.driver_type) == lowercase(other.driver_type),
        one.name == other.name,
        one.properties == other.properties,
    ensures
        command_spec(one, runtime_watch) == command_spec(other, runtime_watch),
{
}

/// A target that cannot be run is named by the error.
pub proof fn missing_property_names_the_target(unit: UnitTargetView, runtime_watch: bool)
    ensures
        command_spec(unit, runtime_watch) matches Err(message) ==> ("target "@
            + unit.name).is_prefix_of(message),
{
    reveal_strlit("target ");
    if let Err(message) = command_spec(unit, runtime_watch) {
        let front = "target "@ + unit.name;
        assert(message.take(front.len() as int) =~= front);
    }
}

} // verus!
