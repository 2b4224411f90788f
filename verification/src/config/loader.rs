//! From the written configuration to its meaning.

use vstd::prelude::*;

use crate::config::error::{ConfigError, ConfigErrorView, ConfigResult};
use crate::config::model::{
    CompositeTarget, CompositeTargetView, Config, ConfigView, DebugUpdateConfig,
    DebugUpdateConfigView, EnvConfig, EnvConfigView, EnvReference, EnvReferenceView, EnvValue,
    EnvValueView, LogConfig, LogConfigView, PortDefinition, PortDefinitionView, PortProtocol,
    PortSelection, ReferenceResource, ReferenceResourceView, RefreshWatchType, RestartConfig,
    RestartStrategy, RunHistoryConfig, Target, TargetBehavior, TargetView, UnitTarget,
    UnitTargetView, WatchConfig, WatchPreference,
};
use crate::config::raw::{
    RawConfig, RawConfigView, RawDebugUpdateConfig, RawDebugUpdateConfigView, RawEnvConfig,
    RawEnvConfigView, RawLogConfig, RawLogConfigView, RawPortConfig, RawPortConfigView,
    RawRunHistoryConfig, RawRunHistoryConfigView, RawTarget, RawTargetView, RawWatchConfig,
    RawWatchConfigView,
};
use crate::config::schema::{raw_config, read_raw_config};
use crate::config::value::{
    as_text, lemma_value_view, read_document, toml_document, ConfigData, ConfigDataView,
    ConfigValue, ConfigValueView,
};
use crate::names::{lookup, put, without, NameMap};
use crate::numbers::{decimal, decimal_spec, parse, parse_spec, signed_decimal, signed_decimal_spec};
use crate::parts::{split, split_once, split_once_spec, split_spec};
use crate::paths::{absolute, is_absolute, join, join_spec, parent, parent_spec};
use crate::text::{
    drop_leading, drop_trailing, ends_with, eq_ignore_ascii_case, is_empty, lowercase, same,
    starts_with, strip_prefixes, strip_prefixes_spec, to_ascii_lowercase, to_ascii_uppercase, trim,
    trim_end_matches, trim_spec, trim_start_matches, uppercase,
};
use crate::views::{outcome, Duplicate};

verus! {

// ---------------------------------------------------------------------------
// Paths
// ---------------------------------------------------------------------------

/// The directory that relative paths of a configuration start from.
pub open spec fn base_dir(base: Seq<char>, base_is_dir: bool) -> Seq<char> {
    if base_is_dir {
        base
    } else {
        match parent_spec(base) {
            Some(dir) => dir,
            None => "."@,
        }
    }
}

/// A path of the configuration, seen from the directory of the configuration.
pub open spec fn resolve_spec(base: Seq<char>, base_is_dir: bool, value: Seq<char>) -> Seq<char> {
    if absolute(value) {
        value
    } else {
        join_spec(base_dir(base, base_is_dir), value)
    }
}

fn resolve_relative_path(base: &str, base_is_dir: bool, value: &str) -> (r: String)
    ensures
        r@ == resolve_spec(base@, base_is_dir, value@),
{
    if is_absolute(value) {
        return value.to_owned();
    }
    if base_is_dir {
        return join(base, value);
    }
    match parent(base) {
        Some(dir) => join(dir.as_str(), value),
        None => join(".", value),
    }
}

// ---------------------------------------------------------------------------
// Sections
// ---------------------------------------------------------------------------

/// A number of megabytes in bytes, as far as 64 bits reach.
pub open spec fn megabytes(mb: u64) -> u64 {
    if mb * 1048576 > u64::MAX {
        u64::MAX
    } else {
        (mb * 1048576) as u64
    }
}

/// The log settings.
pub open spec fn log_config(base: Seq<char>, base_is_dir: bool, raw: RawLogConfigView) -> LogConfigView {
    LogConfigView {
        file: match raw.file {
            Some(file) => resolve_spec(base, base_is_dir, file),
            None => "rufa.log"@,
        },
        rotation_after: raw.rotation_after_seconds,
        rotation_size_bytes: match raw.rotation_after_size_mb {
            Some(mb) => Some(megabytes(mb)),
            None => None,
        },
        keep_history_count: match raw.keep_history_count {
            Some(count) => count,
            None => 5,
        },
    }
}

fn convert_log_config(base: &str, base_is_dir: bool, raw: &RawLogConfig) -> (r: LogConfig)
    ensures
        r.deep_view() == log_config(base@, base_is_dir, raw.deep_view()),
{
    let file: String = match &raw.file {
        Some(file) => resolve_relative_path(base, base_is_dir, file.as_str()),
        None => "rufa.log".to_owned(),
    };
    let rotation_size_bytes: Option<u64> = match raw.rotation_after_size_mb {
        Some(mb) => if mb > 17592186044415 {
            Some(u64::MAX)
        } else {
            Some(mb * 1048576)
        },
        None => None,
    };
    let keep_history_count: usize = match raw.keep_history_count {
        Some(count) => count,
        None => 5,
    };
    LogConfig {
        file,
        rotation_after: raw.rotation_after_seconds,
        rotation_size_bytes,
        keep_history_count,
    }
}

/// The environment settings.
pub open spec fn env_config(
    base: Seq<char>,
    base_is_dir: bool,
    raw: Option<RawEnvConfigView>,
) -> EnvConfigView {
    EnvConfigView {
        read_env_file: match raw {
            Some(env) => match env.read_env_file {
                Some(file) => Some(resolve_spec(base, base_is_dir, file)),
                None => None,
            },
            None => None,
        },
    }
}

fn convert_env_config(base: &str, base_is_dir: bool, raw: &Option<RawEnvConfig>) -> (r: EnvConfig)
    ensures
        r.deep_view() == env_config(base@, base_is_dir, raw.deep_view()),
{
    match raw {
        Some(env) => match &env.read_env_file {
            Some(file) => EnvConfig {
                read_env_file: Some(resolve_relative_path(base, base_is_dir, file.as_str())),
            },
            None => EnvConfig::default(),
        },
        None => EnvConfig::default(),
    }
}

/// The watch settings: at least one second, ten where nothing is said.
pub open spec fn watch_config(raw: Option<RawWatchConfigView>) -> WatchConfig {
    WatchConfig {
        stability: match raw {
            Some(watch) => match watch.stability_seconds {
                Some(seconds) => if seconds < 1 {
                    1
                } else {
                    seconds
                },
                None => 10,
            },
            None => 10,
        },
    }
}

fn convert_watch_config(raw: &Option<RawWatchConfig>) -> (r: WatchConfig)
    ensures
        r == watch_config(raw.deep_view()),
{
    match raw {
        Some(watch) => match watch.stability_seconds {
            Some(seconds) => WatchConfig {
                stability: if seconds < 1 {
                    1
                } else {
                    seconds
                },
            },
            None => WatchConfig::default(),
        },
        None => WatchConfig::default(),
    }
}

/// The history settings: at least one run, three where nothing is said.
pub open spec fn run_history_config(raw: Option<RawRunHistoryConfigView>) -> RunHistoryConfig {
    RunHistoryConfig {
        keep_runs: match raw {
            Some(history) => match history.keep_runs {
                Some(keep) => if keep < 1 {
                    1
                } else {
                    keep
                },
                None => 3,
            },
            None => 3,
        },
    }
}

fn convert_run_history_config(raw: &Option<RawRunHistoryConfig>) -> (r: RunHistoryConfig)
    ensures
        r == run_history_config(raw.deep_view()),
{
    match raw {
        Some(history) => match history.keep_runs {
            Some(keep) => RunHistoryConfig {
                keep_runs: if keep < 1 {
                    1
                } else {
                    keep
                },
            },
            None => RunHistoryConfig::default(),
        },
        None => RunHistoryConfig::default(),
    }
}

/// An editor file that is named, unless the name is blank.
pub open spec fn editor_file(
    base: Seq<char>,
    base_is_dir: bool,
    value: Option<Seq<char>>,
) -> Option<Seq<char>> {
    match value {
        Some(text) => if trim_spec(text).len() == 0 {
            None
        } else {
            Some(resolve_spec(base, base_is_dir, trim_spec(text)))
        },
        None => None,
    }
}

fn convert_editor_file(base: &str, base_is_dir: bool, value: &Option<String>) -> (r: Option<String>)
    ensures
        r.deep_view() == editor_file(base@, base_is_dir, value.deep_view()),
{
    match value {
        Some(text) => {
            let trimmed: String = trim(text.as_str());
            if is_empty(trimmed.as_str()) {
                None
            } else {
                Some(resolve_relative_path(base, base_is_dir, trimmed.as_str()))
            }
        },
        None => None,
    }
}

/// The editor files to keep up to date, where at least one is named.
pub open spec fn debug_update_config(
    base: Seq<char>,
    base_is_dir: bool,
    raw: Option<RawDebugUpdateConfigView>,
) -> Option<DebugUpdateConfigView> {
    match raw {
        None => None,
        Some(config) => {
            let vscode = match config.update {
                Some(update) => editor_file(base, base_is_dir, update.vscode),
                None => None,
            };
            let zed = match config.update {
                Some(update) => editor_file(base, base_is_dir, update.zed),
                None => None,
            };
            if vscode is None && zed is None {
                None
            } else {
                Some(
                    DebugUpdateConfigView {
                        prefix: match config.prefix {
                            Some(prefix) => prefix,
                            None => "RUFA"@,
                        },
                        vscode,
                        zed,
                    },
                )
            }
        },
    }
}

fn convert_debug_update_config(
    base: &str,
    base_is_dir: bool,
    raw: &Option<RawDebugUpdateConfig>,
) -> (r: Option<DebugUpdateConfig>)
    ensures
        r.deep_view() == debug_update_config(base@, base_is_dir, raw.deep_view()),
{
    let config = match raw {
        Some(config) => config,
        None => return None,
    };
    let mut vscode: Option<String> = None;
    let mut zed: Option<String> = None;
    if let Some(update) = &config.update {
        vscode = convert_editor_file(base, base_is_dir, &update.vscode);
        zed = convert_editor_file(base, base_is_dir, &update.zed);
    }
    if vscode.is_none() && zed.is_none() {
        return None;
    }
    let prefix: String = match &config.prefix {
        Some(prefix) => prefix.clone(),
        None => "RUFA".to_owned(),
    };
    Some(DebugUpdateConfig { prefix, vscode, zed })
}

// ---------------------------------------------------------------------------
// Behaviour
// ---------------------------------------------------------------------------

/// What kind of target it is: a service unless it says otherwise.
pub open spec fn behavior(
    target: Seq<char>,
    kind: Option<Seq<char>>,
    timeout_seconds: Option<u64>,
) -> Result<TargetBehavior, ConfigErrorView> {
    let value = match kind {
        Some(text) => lowercase(text),
        None => "service"@,
    };
    if value == "service"@ {
        Ok(TargetBehavior::Service)
    } else if value == "job"@ {
        Ok(TargetBehavior::Job { timeout: timeout_seconds })
    } else {
        Err(ConfigErrorView::UnknownTargetKind { target, value })
    }
}

fn determine_behavior(target_name: &str, kind: &Option<String>, timeout_seconds: Option<u64>) -> (r:
    ConfigResult<TargetBehavior>)
    ensures
        outcome(r) == behavior(target_name@, kind.deep_view(), timeout_seconds),
{
    let value: String = match kind {
        Some(text) => to_ascii_lowercase(text.as_str()),
        None => "service".to_owned(),
    };
    if same(value.as_str(), "service") {
        Ok(TargetBehavior::Service)
    } else if same(value.as_str(), "job") {
        Ok(TargetBehavior::Job { timeout: timeout_seconds })
    } else {
        Err(ConfigError::UnknownTargetKind { target: target_name.to_owned(), value })
    }
}

/// Who watches the files of the target: its runtime unless it says otherwise.
pub open spec fn refresh_watch_type(
    target: Seq<char>,
    properties: Seq<(Seq<char>, ConfigValueView)>,
) -> Result<RefreshWatchType, ConfigErrorView> {
    match lookup(properties, "refresh_watch_type"@) {
        None => Ok(WatchPreference::PreferRuntimeSupplied),
        Some(value) => match as_text(value) {
            None => Err(ConfigErrorView::UnknownRefreshWatchType { target, value: value.text }),
            Some(text) => {
                let upper = uppercase(text);
                if upper == "RUFA"@ || upper == "RUNFA"@ {
                    Ok(WatchPreference::Rufa)
                } else if upper == "PREFER_RUNTIME_SUPPLIED"@ || upper == "RUNTIME"@ || upper
                    == "RUNTIME_SUPPLIED"@ {
                    Ok(WatchPreference::PreferRuntimeSupplied)
                } else {
                    Err(ConfigErrorView::UnknownRefreshWatchType { target, value: text })
                }
            },
        },
    }
}

fn extract_refresh_watch_type(target_name: &str, properties: &NameMap<ConfigValue>) -> (r:
    ConfigResult<RefreshWatchType>)
    ensures
        outcome(r) == refresh_watch_type(target_name@, properties.deep_view()),
{
    let value = match properties.get("refresh_watch_type") {
        Some(value) => value,
        None => return Ok(WatchPreference::default()),
    };
    let text = match value.as_str() {
        Some(text) => text,
        None => return Err(
            ConfigError::UnknownRefreshWatchType {
                target: target_name.to_owned(),
                value: value.text.clone(),
            },
        ),
    };
    let upper: String = to_ascii_uppercase(text);
    if same(upper.as_str(), "RUFA") || same(upper.as_str(), "RUNFA") {
        Ok(WatchPreference::Rufa)
    } else if same(upper.as_str(), "PREFER_RUNTIME_SUPPLIED") || same(upper.as_str(), "RUNTIME")
        || same(upper.as_str(), "RUNTIME_SUPPLIED") {
        Ok(WatchPreference::PreferRuntimeSupplied)
    } else {
        Err(
            ConfigError::UnknownRefreshWatchType {
                target: target_name.to_owned(),
                value: text.to_owned(),
            },
        )
    }
}

// ---------------------------------------------------------------------------
// Environment values
// ---------------------------------------------------------------------------

/// Whether a text is put in braces, white space around it aside.
pub open spec fn braced(value: Seq<char>) -> bool {
    let trimmed = trim_spec(value);
    "{"@.is_prefix_of(trimmed) && "}"@.is_suffix_of(trimmed)
}

/// The reference that a text in braces stands for: a target, a colon and `port.` with a name.
pub open spec fn reference_spec(value: Seq<char>) -> Option<EnvReferenceView> {
    let inner = drop_trailing(drop_leading(trim_spec(value), '{'), '}');
    let parts = split_spec(inner, ':');
    if braced(value) && parts.len() >= 2 && "port."@.is_prefix_of(trim_spec(parts[1])) {
        Some(
            EnvReferenceView {
                target: trim_spec(parts[0]),
                resource: ReferenceResourceView::Port {
                    name: strip_prefixes_spec(trim_spec(parts[1]), "port."@),
                },
            },
        )
    } else {
        None
    }
}

fn parse_reference(value: &str) -> (r: Option<EnvReference>)
    ensures
        r.deep_view() == reference_spec(value@),
{
    let trimmed: String = trim(value);
    if !(starts_with(trimmed.as_str(), "{") && ends_with(trimmed.as_str(), "}")) {
        return None;
    }
    let opened: String = trim_start_matches(trimmed.as_str(), '{');
    let inner: String = trim_end_matches(opened.as_str(), '}');
    let parts: Vec<String> = split(inner.as_str(), ':');
    let ghost shown = parts.deep_view();
    if parts.len() < 2 {
        return None;
    }
    assert(shown[0] == parts@[0]@ && shown[1] == parts@[1]@);
    let target: String = trim(parts[0].as_str());
    let resource: String = trim(parts[1].as_str());
    if !starts_with(resource.as_str(), "port.") {
        return None;
    }
    let name: String = strip_prefixes(resource.as_str(), "port.");
    Some(EnvReference { target, resource: ReferenceResource::Port { name } })
}

/// The value of a variable that is written as a text.
pub open spec fn env_text(target: Seq<char>, key: Seq<char>, value: Seq<char>) -> Result<
    EnvValueView,
    ConfigErrorView,
> {
    match reference_spec(value) {
        Some(reference) => Ok(EnvValueView::Reference(reference)),
        None => if braced(value) {
            Err(ConfigErrorView::InvalidEnvReference { target, key, value })
        } else {
            Ok(EnvValueView::Literal(value))
        },
    }
}

fn parse_env_string(target_name: &str, key: &str, value: &str) -> (r: ConfigResult<EnvValue>)
    ensures
        outcome(r) == env_text(target_name@, key@, value@),
{
    if let Some(reference) = parse_reference(value) {
        return Ok(EnvValue::Reference(reference));
    }
    let trimmed: String = trim(value);
    if starts_with(trimmed.as_str(), "{") && ends_with(trimmed.as_str(), "}") {
        return Err(
            ConfigError::InvalidEnvReference {
                target: target_name.to_owned(),
                key: key.to_owned(),
                value: value.to_owned(),
            },
        );
    }
    Ok(EnvValue::Literal(value.to_owned()))
}

/// The value of a variable.
pub open spec fn env_value(target: Seq<char>, key: Seq<char>, value: ConfigValueView) -> Result<
    EnvValueView,
    ConfigErrorView,
> {
    match value.data {
        ConfigDataView::Text(text) => env_text(target, key, text),
        ConfigDataView::Integer(number) => Ok(
            EnvValueView::Literal(signed_decimal_spec(number as int)),
        ),
        ConfigDataView::Float { plain, json } => Ok(EnvValueView::Literal(plain)),
        ConfigDataView::Boolean(flag) => Ok(
            EnvValueView::Literal(
                if flag {
                    "true"@
                } else {
                    "false"@
                },
            ),
        ),
        ConfigDataView::Datetime(text) => Ok(EnvValueView::Literal(text)),
        ConfigDataView::Array(_) => Ok(EnvValueView::Literal(value.text)),
        ConfigDataView::Table(_) => Ok(EnvValueView::Literal(value.text)),
    }
}

fn convert_env_value(target_name: &str, key: &str, value: &ConfigValue) -> (r: ConfigResult<
    EnvValue,
>)
    ensures
        outcome(r) == env_value(target_name@, key@, value.deep_view()),
{
    match &value.data {
        ConfigData::Text(text) => parse_env_string(target_name, key, text.as_str()),
        ConfigData::Integer(number) => Ok(EnvValue::Literal(signed_decimal(*number))),
        ConfigData::Float { plain, json: _ } => Ok(EnvValue::Literal(plain.clone())),
        ConfigData::Boolean(flag) => Ok(
            EnvValue::Literal(
                if *flag {
                    "true".to_owned()
                } else {
                    "false".to_owned()
                },
            ),
        ),
        ConfigData::Datetime(text) => Ok(EnvValue::Literal(text.clone())),
        ConfigData::Array(_) => Ok(EnvValue::Literal(value.text.clone())),
        ConfigData::Table(_) => Ok(EnvValue::Literal(value.text.clone())),
    }
}

/// The variables of a target; the first one that is wrong decides the error.
pub open spec fn env_values(target: Seq<char>, values: Seq<(Seq<char>, ConfigValueView)>) -> Result<
    Seq<(Seq<char>, EnvValueView)>,
    ConfigErrorView,
>
    decreases values.len(),
{
    if values.len() == 0 {
        Ok(Seq::empty())
    } else {
        match env_values(target, values.drop_last()) {
            Err(error) => Err(error),
            Ok(done) => match env_value(target, values.last().0, values.last().1) {
                Err(error) => Err(error),
                Ok(value) => Ok(put(done, values.last().0, value)),
            },
        }
    }
}

proof fn lemma_env_values_error(target: Seq<char>, values: Seq<(Seq<char>, ConfigValueView)>, i: int)
    requires
        0 <= i <= values.len(),
        env_values(target, values.take(i)) is Err,
    ensures
        env_values(target, values) == env_values(target, values.take(i)),
    decreases values.len() - i,
{
    if i < values.len() {
        assert(values.take(i + 1).drop_last() =~= values.take(i));
        lemma_env_values_error(target, values, i + 1);
    } else {
        assert(values.take(i) =~= values);
    }
}

fn convert_env_values(target_name: &str, map: &NameMap<ConfigValue>) -> (r: ConfigResult<
    NameMap<EnvValue>,
>)
    ensures
        outcome(r) == env_values(target_name@, map.deep_view()),
{
    let mut result: NameMap<EnvValue> = NameMap::new();
    let mut i: usize = 0;
    let ghost list = map.deep_view();
    assert(list.take(0) =~= Seq::empty());
    while i < map.len()
        invariant
            i <= list.len(),
            list == map.deep_view(),
            env_values(target_name@, list.take(i as int)) == Ok::<_, ConfigErrorView>(
                result.deep_view(),
            ),
        decreases list.len() - i,
    {
        assert(list.take(i + 1).drop_last() =~= list.take(i as int));
        let key: &String = map.name_at(i);
        match convert_env_value(target_name, key.as_str(), map.value_at(i)) {
            Ok(value) => {
                let _ = result.insert(key.clone(), value);
            },
            Err(error) => {
                proof {
                    lemma_env_values_error(target_name@, list, i + 1);
                }
                return Err(error);
            },
        }
        i = i + 1;
    }
    assert(list.take(i as int) =~= list);
    Ok(result)
}

// ---------------------------------------------------------------------------
// Ports
// ---------------------------------------------------------------------------

/// The protocol of a port.
pub open spec fn port_protocol(target: Seq<char>, port: Seq<char>, value: Option<Seq<char>>) -> Result<
    PortProtocol,
    ConfigErrorView,
> {
    match value {
        None => Err(ConfigErrorView::MissingPortField { target, port, field: "type"@ }),
        Some(text) => {
            let lower = lowercase(text);
            if lower == "http"@ {
                Ok(PortProtocol::Http)
            } else if lower == "ftp"@ {
                Ok(PortProtocol::Ftp)
            } else if lower == "tcp"@ {
                Ok(PortProtocol::Tcp)
            } else {
                Err(ConfigErrorView::UnknownPortType { target, port, value: lower })
            }
        },
    }
}

fn parse_port_protocol(target_name: &str, port_name: &str, value: &Option<String>) -> (r:
    ConfigResult<PortProtocol>)
    ensures
        outcome(r) == port_protocol(target_name@, port_name@, value.deep_view()),
{
    let text = match value {
        Some(text) => text,
        None => return Err(
            ConfigError::MissingPortField {
                target: target_name.to_owned(),
                port: port_name.to_owned(),
                field: "type".to_owned(),
            },
        ),
    };
    let lower: String = to_ascii_lowercase(text.as_str());
    if same(lower.as_str(), "http") {
        Ok(PortProtocol::Http)
    } else if same(lower.as_str(), "ftp") {
        Ok(PortProtocol::Ftp)
    } else if same(lower.as_str(), "tcp") {
        Ok(PortProtocol::Tcp)
    } else {
        Err(
            ConfigError::UnknownPortType {
                target: target_name.to_owned(),
                port: port_name.to_owned(),
                value: lower,
            },
        )
    }
}

fn invalid_port(target_name: &str, port_name: &str, value: &str) -> (r: ConfigError)
    ensures
        r.deep_view() == (ConfigErrorView::InvalidPortSpec {
            target: target_name@,
            port: port_name@,
            value: value@,
        }),
{
    ConfigError::InvalidPortSpec {
        target: target_name.to_owned(),
        port: port_name.to_owned(),
        value: value.to_owned(),
    }
}

/// A port number: an integer in range, or a text that writes one.
pub open spec fn port_number(target: Seq<char>, port: Seq<char>, value: ConfigValueView) -> Result<
    u16,
    ConfigErrorView,
> {
    match value.data {
        ConfigDataView::Integer(number) => if 0 <= number <= 65535 {
            Ok(number as u16)
        } else {
            Err(ConfigErrorView::PortOutOfRange { target, port })
        },
        ConfigDataView::Text(text) => match parse_spec(trim_spec(text), 65535) {
            Some(number) => Ok(number as u16),
            None => Err(ConfigErrorView::InvalidPortSpec { target, port, value: text }),
        },
        _ => Err(ConfigErrorView::InvalidPortSpec { target, port, value: value.text }),
    }
}

fn parse_port_number_value(target_name: &str, port_name: &str, value: &ConfigValue) -> (r:
    ConfigResult<u16>)
    ensures
        outcome(r) == port_number(target_name@, port_name@, value.deep_view()),
{
    match &value.data {
        ConfigData::Integer(number) => {
            if 0 <= *number && *number <= 65535 {
                Ok(*number as u16)
            } else {
                Err(
                    ConfigError::PortOutOfRange {
                        target: target_name.to_owned(),
                        port: port_name.to_owned(),
                    },
                )
            }
        },
        ConfigData::Text(text) => match parse(trim(text.as_str()).as_str(), 65535) {
            Some(number) => Ok(number as u16),
            None => Err(invalid_port(target_name, port_name, text.as_str())),
        },
        _ => Err(invalid_port(target_name, port_name, value.text.as_str())),
    }
}

/// The bounds of a range, which must not be the wrong way round.
pub open spec fn checked_range(target: Seq<char>, port: Seq<char>, start: u16, end: u16) -> Result<
    (u16, u16),
    ConfigErrorView,
> {
    if start > end {
        Err(
            ConfigErrorView::InvalidPortSpec {
                target,
                port,
                value: decimal_spec(start as nat) + "-"@ + decimal_spec(end as nat),
            },
        )
    } else {
        Ok((start, end))
    }
}

fn validate_port_range(target_name: &str, port_name: &str, start: u16, end: u16) -> (r:
    ConfigResult<(u16, u16)>)
    ensures
        outcome(r) == checked_range(target_name@, port_name@, start, end),
{
    if start > end {
        let mut value: String = decimal(start as u64);
        value.append("-");
        value.append(decimal(end as u64).as_str());
        Err(invalid_port(target_name, port_name, value.as_str()))
    } else {
        Ok((start, end))
    }
}

/// A range that is written as two numbers with a hyphen between them.
pub open spec fn range_text(target: Seq<char>, port: Seq<char>, value: Seq<char>) -> Result<
    (u16, u16),
    ConfigErrorView,
> {
    let trimmed = trim_spec(value);
    let invalid = ConfigErrorView::InvalidPortSpec { target, port, value: trimmed };
    match split_once_spec(trimmed, '-') {
        None => Err(invalid),
        Some((first, second)) => match (
            parse_spec(trim_spec(first), 65535),
            parse_spec(trim_spec(second), 65535),
        ) {
            (Some(start), Some(end)) => checked_range(target, port, start as u16, end as u16),
            _ => Err(invalid),
        },
    }
}

fn parse_port_range_string(target_name: &str, port_name: &str, value: &str) -> (r: ConfigResult<
    (u16, u16),
>)
    ensures
        outcome(r) == range_text(target_name@, port_name@, value@),
{
    let trimmed: String = trim(value);
    match split_once(trimmed.as_str(), '-') {
        None => Err(invalid_port(target_name, port_name, trimmed.as_str())),
        Some((first, second)) => {
            let start = parse(trim(first.as_str()).as_str(), 65535);
            let end = parse(trim(second.as_str()).as_str(), 65535);
            match (start, end) {
                (Some(start), Some(end)) => validate_port_range(
                    target_name,
                    port_name,
                    start as u16,
                    end as u16,
                ),
                _ => Err(invalid_port(target_name, port_name, trimmed.as_str())),
            }
        },
    }
}

/// A range of ports: a text, or an array of two port numbers.
pub open spec fn port_range(target: Seq<char>, port: Seq<char>, value: ConfigValueView) -> Result<
    (u16, u16),
    ConfigErrorView,
> {
    match value.data {
        ConfigDataView::Text(text) => range_text(target, port, text),
        ConfigDataView::Array(items) => if items.len() == 2 {
            match port_number(target, port, items[0]) {
                Err(error) => Err(error),
                Ok(start) => match port_number(target, port, items[1]) {
                    Err(error) => Err(error),
                    Ok(end) => checked_range(target, port, start, end),
                },
            }
        } else {
            Err(ConfigErrorView::InvalidPortSpec { target, port, value: value.text })
        },
        _ => Err(ConfigErrorView::InvalidPortSpec { target, port, value: value.text }),
    }
}

fn parse_port_range_value(target_name: &str, port_name: &str, value: &ConfigValue) -> (r:
    ConfigResult<(u16, u16)>)
    ensures
        outcome(r) == port_range(target_name@, port_name@, value.deep_view()),
{
    proof {
        lemma_value_view(*value);
    }
    match &value.data {
        ConfigData::Text(text) => parse_port_range_string(target_name, port_name, text.as_str()),
        ConfigData::Array(items) => {
            if items.len() == 2 {
                let ghost shown = items.deep_view();
                assert(shown[0] == items@[0].deep_view() && shown[1] == items@[1].deep_view());
                let start: u16 = match parse_port_number_value(target_name, port_name, &items[0]) {
                    Ok(start) => start,
                    Err(error) => return Err(error),
                };
                let end: u16 = match parse_port_number_value(target_name, port_name, &items[1]) {
                    Ok(end) => end,
                    Err(error) => return Err(error),
                };
                validate_port_range(target_name, port_name, start, end)
            } else {
                Err(invalid_port(target_name, port_name, value.text.as_str()))
            }
        },
        _ => Err(invalid_port(target_name, port_name, value.text.as_str())),
    }
}

/// The one way in which a port is chosen, out of the three that can be written.
pub open spec fn port_selection(
    target: Seq<char>,
    port: Seq<char>,
    auto: Option<bool>,
    auto_range: Option<ConfigValueView>,
    fixed: Option<ConfigValueView>,
) -> Result<PortSelection, ConfigErrorView> {
    let wants_auto = auto == Some(true);
    let range = port_range(target, port, auto_range->0);
    let number = port_number(target, port, fixed->0);
    let many = ConfigErrorView::InvalidPortSelection { target, port };
    if auto_range is Some && range is Err {
        Err(range->Err_0)
    } else if auto_range is Some && wants_auto {
        Err(many)
    } else if fixed is Some && number is Err {
        Err(number->Err_0)
    } else if fixed is Some && (wants_auto || auto_range is Some) {
        Err(many)
    } else if fixed is Some {
        Ok(PortSelection::Fixed(number->Ok_0))
    } else if auto_range is Some {
        Ok(PortSelection::AutoRange { start: range->Ok_0.0, end: range->Ok_0.1 })
    } else if wants_auto {
        Ok(PortSelection::Auto)
    } else {
        Err(many)
    }
}

fn merge_selection(
    current: Option<PortSelection>,
    next: PortSelection,
    target_name: &str,
    port_name: &str,
) -> (r: ConfigResult<PortSelection>)
    ensures
        outcome(r) == (if current is Some {
            Err(
                ConfigErrorView::InvalidPortSelection { target: target_name@, port: port_name@ },
            )
        } else {
            Ok(next)
        }),
{
    if current.is_some() {
        Err(
            ConfigError::InvalidPortSelection {
                target: target_name.to_owned(),
                port: port_name.to_owned(),
            },
        )
    } else {
        Ok(next)
    }
}

fn determine_port_selection(
    target_name: &str,
    port_name: &str,
    auto: Option<bool>,
    auto_range: &Option<ConfigValue>,
    fixed: &Option<ConfigValue>,
) -> (r: ConfigResult<PortSelection>)
    ensures
        outcome(r) == port_selection(
            target_name@,
            port_name@,
            auto,
            auto_range.deep_view(),
            fixed.deep_view(),
        ),
{
    let mut selection: Option<PortSelection> = None;
    if let Some(true) = auto {
        selection = Some(PortSelection::Auto);
    }
    if let Some(value) = auto_range {
        match parse_port_range_value(target_name, port_name, value) {
            Err(error) => return Err(error),
            Ok((start, end)) => {
                match merge_selection(
                    selection,
                    PortSelection::AutoRange { start, end },
                    target_name,
                    port_name,
                ) {
                    Err(error) => return Err(error),
                    Ok(next) => {
                        selection = Some(next);
                    },
                }
            },
        }
    }
    if let Some(value) = fixed {
        match parse_port_number_value(target_name, port_name, value) {
            Err(error) => return Err(error),
            Ok(port) => {
                match merge_selection(selection, PortSelection::Fixed(port), target_name, port_name) {
                    Err(error) => return Err(error),
                    Ok(next) => {
                        selection = Some(next);
                    },
                }
            },
        }
    }
    match selection {
        Some(selection) => Ok(selection),
        None => Err(
            ConfigError::InvalidPortSelection {
                target: target_name.to_owned(),
                port: port_name.to_owned(),
            },
        ),
    }
}

/// A port of a target.
pub open spec fn port_definition(target: Seq<char>, port: Seq<char>, raw: RawPortConfigView) -> Result<
    PortDefinitionView,
    ConfigErrorView,
> {
    match port_protocol(target, port, raw.port_type) {
        Err(error) => Err(error),
        Ok(protocol) => match port_selection(target, port, raw.auto, raw.auto_range, raw.fixed) {
            Err(error) => Err(error),
            Ok(selection) => Ok(
                PortDefinitionView { protocol, selection, properties: raw.extra },
            ),
        },
    }
}

fn convert_port(target_name: &str, port_name: &str, raw: &RawPortConfig) -> (r: ConfigResult<
    PortDefinition,
>)
    ensures
        outcome(r) == port_definition(target_name@, port_name@, raw.deep_view()),
{
    let protocol = match parse_port_protocol(target_name, port_name, &raw.port_type) {
        Ok(protocol) => protocol,
        Err(error) => return Err(error),
    };
    match determine_port_selection(
        target_name,
        port_name,
        raw.auto,
        &raw.auto_range,
        &raw.fixed,
    ) {
        Ok(selection) => Ok(
            PortDefinition { protocol, selection, properties: raw.extra.duplicate() },
        ),
        Err(error) => Err(error),
    }
}

/// The ports of a target; the first one that is wrong decides the error.
pub open spec fn port_definitions(
    target: Seq<char>,
    ports: Seq<(Seq<char>, RawPortConfigView)>,
) -> Result<Seq<(Seq<char>, PortDefinitionView)>, ConfigErrorView>
    decreases ports.len(),
{
    if ports.len() == 0 {
        Ok(Seq::empty())
    } else {
        match port_definitions(target, ports.drop_last()) {
            Err(error) => Err(error),
            Ok(done) => match port_definition(target, ports.last().0, ports.last().1) {
                Err(error) => Err(error),
                Ok(port) => Ok(put(done, ports.last().0, port)),
            },
        }
    }
}

proof fn lemma_port_definitions_error(
    target: Seq<char>,
    ports: Seq<(Seq<char>, RawPortConfigView)>,
    i: int,
)
    requires
        0 <= i <= ports.len(),
        port_definitions(target, ports.take(i)) is Err,
    ensures
        port_definitions(target, ports) == port_definitions(target, ports.take(i)),
    decreases ports.len() - i,
{
    if i < ports.len() {
        assert(ports.take(i + 1).drop_last() =~= ports.take(i));
        lemma_port_definitions_error(target, ports, i + 1);
    } else {
        assert(ports.take(i) =~= ports);
    }
}

fn convert_ports(target_name: &str, ports: &NameMap<RawPortConfig>) -> (r: ConfigResult<
    NameMap<PortDefinition>,
>)
    ensures
        outcome(r) == port_definitions(target_name@, ports.deep_view()),
{
    let mut result: NameMap<PortDefinition> = NameMap::new();
    let mut i: usize = 0;
    let ghost list = ports.deep_view();
    assert(list.take(0) =~= Seq::empty());
    while i < ports.len()
        invariant
            i <= list.len(),
            list == ports.deep_view(),
            port_definitions(target_name@, list.take(i as int)) == Ok::<_, ConfigErrorView>(
                result.deep_view(),
            ),
        decreases list.len() - i,
    {
        assert(list.take(i + 1).drop_last() =~= list.take(i as int));
        let name: &String = ports.name_at(i);
        match convert_port(target_name, name.as_str(), ports.value_at(i)) {
            Ok(definition) => {
                let _ = result.insert(name.clone(), definition);
            },
            Err(error) => {
                proof {
                    lemma_port_definitions_error(target_name@, list, i + 1);
                }
                return Err(error);
            },
        }
        i = i + 1;
    }
    assert(list.take(i as int) =~= list);
    Ok(result)
}

// ---------------------------------------------------------------------------
// Targets
// ---------------------------------------------------------------------------

/// The paths, seen from the directory of the configuration.
pub open spec fn resolved_paths(base: Seq<char>, base_is_dir: bool, paths: Seq<Seq<char>>) -> Seq<
    Seq<char>,
> {
    paths.map_values(|path: Seq<char>| resolve_spec(base, base_is_dir, path))
}

fn resolve_paths(base: &str, base_is_dir: bool, paths: &Vec<String>) -> (r: Vec<String>)
    ensures
        r.deep_view() == resolved_paths(base@, base_is_dir, paths.deep_view()),
{
    let mut r: Vec<String> = Vec::new();
    let mut i: usize = 0;
    while i < paths.len()
        invariant
            i <= paths@.len(),
            r@.len() == i,
            forall|k: int|
                0 <= k < i ==> (#[trigger] r@[k])@ == resolve_spec(base@, base_is_dir, paths@[k]@),
        decreases paths@.len() - i,
    {
        r.push(resolve_relative_path(base, base_is_dir, paths[i].as_str()));
        i = i + 1;
    }
    assert(r.deep_view() =~= resolved_paths(base@, base_is_dir, paths.deep_view()));
    r
}

/// A target.
pub open spec fn target_spec(
    base: Seq<char>,
    base_is_dir: bool,
    name: Seq<char>,
    raw: RawTargetView,
) -> Result<TargetView, ConfigErrorView> {
    match raw.target_type {
        None => Err(ConfigErrorView::MissingField { target: name, field: "type"@ }),
        Some(target_type) => if lowercase(target_type) == lowercase("composite"@) {
            if raw.targets.len() == 0 {
                Err(ConfigErrorView::EmptyComposite { target: name })
            } else {
                Ok(
                    TargetView::Composite(
                        CompositeTargetView {
                            name,
                            members: raw.targets,
                            properties: raw.extra,
                        },
                    ),
                )
            }
        } else {
            let kind = behavior(name, raw.kind, raw.timeout_seconds);
            let env = env_values(name, raw.env);
            let ports = port_definitions(name, raw.port);
            let watch = refresh_watch_type(name, raw.extra);
            if kind is Err {
                Err(kind->Err_0)
            } else if env is Err {
                Err(env->Err_0)
            } else if ports is Err {
                Err(ports->Err_0)
            } else if watch is Err {
                Err(watch->Err_0)
            } else {
                Ok(
                    TargetView::Unit(
                        UnitTargetView {
                            name,
                            driver_type: target_type,
                            behavior: kind->Ok_0,
                            env: env->Ok_0,
                            ports: ports->Ok_0,
                            properties: without(raw.extra, "refresh_watch_type"@),
                            watch_paths: resolved_paths(base, base_is_dir, raw.watch),
                            refresh_watch_type: watch->Ok_0,
                        },
                    ),
                )
            }
        },
    }
}

fn convert_target(base: &str, base_is_dir: bool, name: &str, raw: &RawTarget) -> (r: ConfigResult<
    Target,
>)
    ensures
        outcome(r) == target_spec(base@, base_is_dir, name@, raw.deep_view()),
{
    let target_type = match &raw.target_type {
        Some(target_type) => target_type,
        None => return Err(
            ConfigError::MissingField { target: name.to_owned(), field: "type".to_owned() },
        ),
    };
    if eq_ignore_ascii_case(target_type.as_str(), "composite") {
        if raw.targets.0.len() == 0 {
            return Err(ConfigError::EmptyComposite { target: name.to_owned() });
        }
        return Ok(
            Target::Composite(
                CompositeTarget {
                    name: name.to_owned(),
                    members: raw.targets.0.duplicate(),
                    properties: raw.extra.duplicate(),
                },
            ),
        );
    }
    let behavior = match determine_behavior(name, &raw.kind, raw.timeout_seconds) {
        Ok(behavior) => behavior,
        Err(error) => return Err(error),
    };
    let env = match convert_env_values(name, &raw.env) {
        Ok(env) => env,
        Err(error) => return Err(error),
    };
    let ports = match convert_ports(name, &raw.port) {
        Ok(ports) => ports,
        Err(error) => return Err(error),
    };
    let watch_paths: Vec<String> = resolve_paths(base, base_is_dir, &raw.watch.0);
    let refresh_watch_type = match extract_refresh_watch_type(name, &raw.extra) {
        Ok(refresh_watch_type) => refresh_watch_type,
        Err(error) => return Err(error),
    };
    let mut properties = raw.extra.duplicate();
    let _ = properties.remove("refresh_watch_type");
    Ok(
        Target::Unit(
            UnitTarget {
                name: name.to_owned(),
                driver_type: target_type.clone(),
                behavior,
                env,
                ports,
                properties,
                watch_paths,
                refresh_watch_type,
            },
        ),
    )
}

/// The targets; the first one that is wrong decides the error.
pub open spec fn targets_spec(
    base: Seq<char>,
    base_is_dir: bool,
    raw: Seq<(Seq<char>, RawTargetView)>,
) -> Result<Seq<(Seq<char>, TargetView)>, ConfigErrorView>
    decreases raw.len(),
{
    if raw.len() == 0 {
        Ok(Seq::empty())
    } else {
        match targets_spec(base, base_is_dir, raw.drop_last()) {
            Err(error) => Err(error),
            Ok(done) => match target_spec(base, base_is_dir, raw.last().0, raw.last().1) {
                Err(error) => Err(error),
                Ok(target) => Ok(put(done, raw.last().0, target)),
            },
        }
    }
}

proof fn lemma_targets_error(
    base: Seq<char>,
    base_is_dir: bool,
    raw: Seq<(Seq<char>, RawTargetView)>,
    i: int,
)
    requires
        0 <= i <= raw.len(),
        targets_spec(base, base_is_dir, raw.take(i)) is Err,
    ensures
        targets_spec(base, base_is_dir, raw) == targets_spec(base, base_is_dir, raw.take(i)),
    decreases raw.len() - i,
{
    if i < raw.len() {
        assert(raw.take(i + 1).drop_last() =~= raw.take(i));
        lemma_targets_error(base, base_is_dir, raw, i + 1);
    } else {
        assert(raw.take(i) =~= raw);
    }
}

fn convert_targets(base: &str, base_is_dir: bool, raw: &NameMap<RawTarget>) -> (r: ConfigResult<
    NameMap<Target>,
>)
    ensures
        outcome(r) == targets_spec(base@, base_is_dir, raw.deep_view()),
{
    let mut targets: NameMap<Target> = NameMap::new();
    let mut i: usize = 0;
    let ghost list = raw.deep_view();
    assert(list.take(0) =~= Seq::empty());
    while i < raw.len()
        invariant
            i <= list.len(),
            list == raw.deep_view(),
            targets_spec(base@, base_is_dir, list.take(i as int)) == Ok::<_, ConfigErrorView>(
                targets.deep_view(),
            ),
        decreases list.len() - i,
    {
        assert(list.take(i + 1).drop_last() =~= list.take(i as int));
        let name: &String = raw.name_at(i);
        match convert_target(base, base_is_dir, name.as_str(), raw.value_at(i)) {
            Ok(target) => {
                let _ = targets.insert(name.clone(), target);
            },
            Err(error) => {
                proof {
                    lemma_targets_error(base@, base_is_dir, list, i + 1);
                }
                return Err(error);
            },
        }
        i = i + 1;
    }
    assert(list.take(i as int) =~= list);
    Ok(targets)
}

// ---------------------------------------------------------------------------
// The configuration
// ---------------------------------------------------------------------------

/// The meaning of a written configuration.
pub open spec fn config_spec(base: Seq<char>, base_is_dir: bool, raw: RawConfigView) -> Result<
    ConfigView,
    ConfigErrorView,
> {
    match targets_spec(base, base_is_dir, raw.targets) {
        Err(error) => Err(error),
        Ok(targets) => Ok(
            ConfigView {
                log: log_config(base, base_is_dir, raw.log),
                restart: RestartConfig { strategy: RestartStrategy::Backoff },
                env: env_config(base, base_is_dir, raw.env),
                watch: watch_config(raw.watch),
                run_history: run_history_config(raw.run_history),
                debug_update: debug_update_config(base, base_is_dir, raw.debug_update),
                targets,
            },
        ),
    }
}

/// The meaning of the written configuration.
pub fn convert_raw_config(base: &str, base_is_dir: bool, raw: &RawConfig) -> (r: ConfigResult<
    Config,
>)
    ensures
        outcome(r) == config_spec(base@, base_is_dir, raw.deep_view()),
{
    let log = convert_log_config(base, base_is_dir, &raw.log);
    let env = convert_env_config(base, base_is_dir, &raw.env);
    let watch = convert_watch_config(&raw.watch);
    let run_history = convert_run_history_config(&raw.run_history);
    let debug_update = convert_debug_update_config(base, base_is_dir, &raw.debug_update);
    match convert_targets(base, base_is_dir, &raw.targets) {
        Ok(targets) => Ok(
            Config {
                log,
                restart: RestartConfig::default(),
                env,
                watch,
                run_history,
                debug_update,
                targets,
            },
        ),
        Err(error) => Err(error),
    }
}

/// The meaning of a document.
pub open spec fn document_config(
    base: Seq<char>,
    base_is_dir: bool,
    document: Result<ConfigValueView, Seq<char>>,
) -> Result<ConfigView, ConfigErrorView> {
    match document {
        Err(message) => Err(ConfigErrorView::Parse(message)),
        Ok(value) => match raw_config(value) {
            Err(message) => Err(ConfigErrorView::Parse(message)),
            Ok(raw) => config_spec(base, base_is_dir, raw),
        },
    }
}

/// The configuration that a document stands for, or what the reader said of a text that is none.
pub fn load_document(
    config_path: &str,
    base_is_dir: bool,
    document: &Result<ConfigValue, String>,
) -> (r: ConfigResult<Config>)
    ensures
        outcome(r) == document_config(config_path@, base_is_dir, outcome(*document)),
{
    match document {
        Err(message) => Err(ConfigError::Parse(message.clone())),
        Ok(value) => match read_raw_config(value) {
            Err(message) => Err(ConfigError::Parse(message)),
            Ok(raw) => convert_raw_config(config_path, base_is_dir, &raw),
        },
    }
}

/// The configuration in `contents`. Relative paths start from `config_path` where that is a
/// directory, and from its parent otherwise.
pub fn load_from_str(config_path: &str, base_is_dir: bool, contents: &str) -> (r: ConfigResult<
    Config,
>)
    ensures
        outcome(r) == document_config(config_path@, base_is_dir, toml_document(contents@)),
{
    let document = read_document(contents);
    load_document(config_path, base_is_dir, &document)
}

} // verus!
