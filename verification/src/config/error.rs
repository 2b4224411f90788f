//! Errors of the configuration.

use vstd::prelude::*;

use crate::text::{occurs_in, part_occurs};

verus! {

/// Why a configuration is refused.
#[derive(Debug, PartialEq, Eq)]
pub enum ConfigError {
    /// The file cannot be read; `source` says why.
    ReadFailure { path: String, source: String },
    /// The document is not TOML or does not have the expected shape.
    Parse(String),
    MissingField { target: String, field: String },
    UnknownTargetKind { target: String, value: String },
    EmptyComposite { target: String },
    MissingPortField { target: String, port: String, field: String },
    UnknownPortType { target: String, port: String, value: String },
    InvalidPortSelection { target: String, port: String },
    InvalidPortSpec { target: String, port: String, value: String },
    PortOutOfRange { target: String, port: String },
    InvalidEnvReference { target: String, key: String, value: String },
    UnknownRefreshWatchType { target: String, value: String },
}

/// What a [`ConfigError`] stands for.
pub enum ConfigErrorView {
    ReadFailure { path: Seq<char>, source: Seq<char> },
    Parse(Seq<char>),
    MissingField { target: Seq<char>, field: Seq<char> },
    UnknownTargetKind { target: Seq<char>, value: Seq<char> },
    EmptyComposite { target: Seq<char> },
    MissingPortField { target: Seq<char>, port: Seq<char>, field: Seq<char> },
    UnknownPortType { target: Seq<char>, port: Seq<char>, value: Seq<char> },
    InvalidPortSelection { target: Seq<char>, port: Seq<char> },
    InvalidPortSpec { target: Seq<char>, port: Seq<char>, value: Seq<char> },
    PortOutOfRange { target: Seq<char>, port: Seq<char> },
    InvalidEnvReference { target: Seq<char>, key: Seq<char>, value: Seq<char> },
    UnknownRefreshWatchType { target: Seq<char>, value: Seq<char> },
}

impl DeepView for ConfigError {
    type V = ConfigErrorView;

    open spec fn deep_view(&self) -> ConfigErrorView {
        match self {
            ConfigError::ReadFailure { path, source } => ConfigErrorView::ReadFailure {
                path: path.deep_view(),
                source: source.deep_view(),
            },
            ConfigError::Parse(a) => ConfigErrorView::Parse(a.deep_view()),
            ConfigError::MissingField { target, field } => ConfigErrorView::MissingField {
                target: target.deep_view(),
                field: field.deep_view(),
            },
            ConfigError::UnknownTargetKind { target, value } => ConfigErrorView::UnknownTargetKind {
                target: target.deep_view(),
                value: value.deep_view(),
            },
            ConfigError::EmptyComposite { target } => ConfigErrorView::EmptyComposite {
                target: target.deep_view(),
            },
            ConfigError::MissingPortField { target, port, field } => ConfigErrorView::MissingPortField {
                target: target.deep_view(),
                port: port.deep_view(),
                field: field.deep_view(),
            },
            ConfigError::UnknownPortType { target, port, value } => ConfigErrorView::UnknownPortType {
                target: target.deep_view(),
                port: port.deep_view(),
                value: value.deep_view(),
            },
            ConfigError::InvalidPortSelection { target, port } => ConfigErrorView::InvalidPortSelection {
                target: target.deep_view(),
                port: port.deep_view(),
            },
            ConfigError::InvalidPortSpec { target, port, value } => ConfigErrorView::InvalidPortSpec {
                target: target.deep_view(),
                port: port.deep_view(),
                value: value.deep_view(),
            },
            ConfigError::PortOutOfRange { target, port } => ConfigErrorView::PortOutOfRange {
                target: target.deep_view(),
                port: port.deep_view(),
            },
            ConfigError::InvalidEnvReference { target, key, value } => ConfigErrorView::InvalidEnvReference {
                target: target.deep_view(),
                key: key.deep_view(),
                value: value.deep_view(),
            },
            ConfigError::UnknownRefreshWatchType { target, value } => ConfigErrorView::UnknownRefreshWatchType {
                target: target.deep_view(),
                value: value.deep_view(),
            },
        }
    }
}

/// What is shown of an error.
pub open spec fn message_spec(error: ConfigErrorView) -> Seq<char> {
    match error {
        ConfigErrorView::ReadFailure { path, source } => "failed to read config file '"@ + path
            + "': "@ + source,
        ConfigErrorView::Parse(message) => "failed to parse config: "@ + message,
        ConfigErrorView::MissingField { target, field } => "missing '"@ + field
            + "' for target '"@ + target + "'"@,
        ConfigErrorView::UnknownTargetKind { target, value } => "unknown target kind '"@ + value
            + "' for target '"@ + target + "'"@,
        ConfigErrorView::EmptyComposite { target } => "composite target '"@ + target
            + "' requires at least one member"@,
        ConfigErrorView::MissingPortField { target, port, field } => "missing '"@ + field
            + "' for port '"@ + port + "' on target '"@ + target + "'"@,
        ConfigErrorView::UnknownPortType { target, port, value } => "unknown port type '"@
            + value + "' for '"@ + target + ":"@ + port + "'"@,
        ConfigErrorView::InvalidPortSelection { target, port } => "port selection for '"@
            + target + ":"@ + port + "' must specify exactly one of auto/auto_range/fixed"@,
        ConfigErrorView::InvalidPortSpec { target, port, value } => "port definition '"@ + value
            + "' for '"@ + target + ":"@ + port + "' is invalid"@,
        ConfigErrorView::PortOutOfRange { target, port } => "port values must be within valid u16 range for '"@ + target + ":"@ + port + "'"@,
        ConfigErrorView::InvalidEnvReference { target, key, value } => "environment reference '"@ + value + "' for '"@ + target + ":"@ + key + "' is invalid"@,
        ConfigErrorView::UnknownRefreshWatchType { target, value } => "unknown refresh watch type '"@ + value + "' for target '"@ + target + "'"@,
    }
}

impl ConfigError {
    /// What is shown of the error.
    pub fn message(&self) -> (r: String)
        ensures
            r@ == message_spec(self.deep_view()),
    {
        match self {
            ConfigError::ReadFailure { path, source } => {
                let mut r: String = "failed to read config file '".to_owned();
                r.append(path.as_str());
                r.append("': ");
                r.append(source.as_str());
                r
            },
            ConfigError::Parse(message) => {
                let mut r: String = "failed to parse config: ".to_owned();
                r.append(message.as_str());
                r
            },
            ConfigError::MissingField { target, field } => {
                let mut r: String = "missing '".to_owned();
                r.append(field.as_str());
                r.append("' for target '");
                r.append(target.as_str());
                r.append("'");
                r
            },
            ConfigError::UnknownTargetKind { target, value } => {
                let mut r: String = "unknown target kind '".to_owned();
                r.append(value.as_str());
                r.append("' for target '");
                r.append(target.as_str());
                r.append("'");
                r
            },
            ConfigError::EmptyComposite { target } => {
                let mut r: String = "composite target '".to_owned();
                r.append(target.as_str());
                r.append("' requires at least one member");
                r
            },
            ConfigError::MissingPortField { target, port, field } => {
                let mut r: String = "missing '".to_owned();
                r.append(field.as_str());
                r.append("' for port '");
                r.append(port.as_str());
                r.append("' on target '");
                r.append(target.as_str());
                r.append("'");
                r
            },
            ConfigError::UnknownPortType { target, port, value } => {
                let mut r: String = "unknown port type '".to_owned();
                r.append(value.as_str());
                r.append("' for '");
                r.append(target.as_str());
                r.append(":");
                r.append(port.as_str());
                r.append("'");
                r
            },
            ConfigError::InvalidPortSelection { target, port } => {
                let mut r: String = "port selection for '".to_owned();
                r.append(target.as_str());
                r.append(":");
                r.append(port.as_str());
                r.append("' must specify exactly one of auto/auto_range/fixed");
                r
            },
            ConfigError::InvalidPortSpec { target, port, value } => {
                let mut r: String = "port definition '".to_owned();
                r.append(value.as_str());
                r.append("' for '");
                r.append(target.as_str());
                r.append(":");
                r.append(port.as_str());
                r.append("' is invalid");
                r
            },
            ConfigError::PortOutOfRange { target, port } => {
                let mut r: String = "port values must be within valid u16 range for '".to_owned();
                r.append(target.as_str());
                r.append(":");
                r.append(port.as_str());
                r.append("'");
                r
            },
            ConfigError::InvalidEnvReference { target, key, value } => {
                let mut r: String = "environment reference '".to_owned();
                r.append(value.as_str());
                r.append("' for '");
                r.append(target.as_str());
                r.append(":");
                r.append(key.as_str());
                r.append("' is invalid");
                r
            },
            ConfigError::UnknownRefreshWatchType { target, value } => {
                let mut r: String = "unknown refresh watch type '".to_owned();
                r.append(value.as_str());
                r.append("' for target '");
                r.append(target.as_str());
                r.append("'");
                r
            },
        }
    }
}

/// The outcome of reading a configuration.
pub type ConfigResult<T> = Result<T, ConfigError>;

// ---------------------------------------------------------------------------
// Laws
// ---------------------------------------------------------------------------

/// The target that an error is about.
pub open spec fn target_of(error: ConfigErrorView) -> Option<Seq<char>> {
    match error {
        ConfigErrorView::ReadFailure { .. } => None,
        ConfigErrorView::Parse(_) => None,
        ConfigErrorView::MissingField { target, .. } => Some(target),
        ConfigErrorView::UnknownTargetKind { target, .. } => Some(target),
        ConfigErrorView::EmptyComposite { target } => Some(target),
        ConfigErrorView::MissingPortField { target, .. } => Some(target),
        ConfigErrorView::UnknownPortType { target, .. } => Some(target),
        ConfigErrorView::InvalidPortSelection { target, .. } => Some(target),
        ConfigErrorView::InvalidPortSpec { target, .. } => Some(target),
        ConfigErrorView::PortOutOfRange { target, .. } => Some(target),
        ConfigErrorView::InvalidEnvReference { target, .. } => Some(target),
        ConfigErrorView::UnknownRefreshWatchType { target, .. } => Some(target),
    }
}

/// The port that an error is about.
pub open spec fn port_of(error: ConfigErrorView) -> Option<Seq<char>> {
    match error {
        ConfigErrorView::MissingPortField { port, .. } => Some(port),
        ConfigErrorView::UnknownPortType { port, .. } => Some(port),
        ConfigErrorView::InvalidPortSelection { port, .. } => Some(port),
        ConfigErrorView::InvalidPortSpec { port, .. } => Some(port),
        ConfigErrorView::PortOutOfRange { port, .. } => Some(port),
        _ => None,
    }
}

/// What an error says is wrong: a field that is missing, or a value that is written.
pub open spec fn culprit_of(error: ConfigErrorView) -> Option<Seq<char>> {
    match error {
        ConfigErrorView::ReadFailure { path, .. } => Some(path),
        ConfigErrorView::Parse(message) => Some(message),
        ConfigErrorView::MissingField { field, .. } => Some(field),
        ConfigErrorView::UnknownTargetKind { value, .. } => Some(value),
        ConfigErrorView::MissingPortField { field, .. } => Some(field),
        ConfigErrorView::UnknownPortType { value, .. } => Some(value),
        ConfigErrorView::InvalidPortSpec { value, .. } => Some(value),
        ConfigErrorView::InvalidEnvReference { value, .. } => Some(value),
        ConfigErrorView::UnknownRefreshWatchType { value, .. } => Some(value),
        _ => None,
    }
}

proof fn lemma_last_part_occurs(a: Seq<char>, p: Seq<char>)
    ensures
        occurs_in(a + p, p),
{
    assert(a + p + Seq::empty() =~= a + p);
    part_occurs(a, p, Seq::empty());
}

proof fn lemma_three(
    a: Seq<char>,
    x: Seq<char>,
    b: Seq<char>,
    y: Seq<char>,
    c: Seq<char>,
    z: Seq<char>,
    d: Seq<char>,
)
    ensures
        occurs_in(a + x + b + y + c + z + d, x),
        occurs_in(a + x + b + y + c + z + d, y),
        occurs_in(a + x + b + y + c + z + d, z),
{
    assert(a + x + (b + y + c + z + d) =~= a + x + b + y + c + z + d);
    assert(a + x + b + y + (c + z + d) =~= a + x + b + y + c + z + d);
    part_occurs(a, x, b + y + c + z + d);
    part_occurs(a + x + b, y, c + z + d);
    part_occurs(a + x + b + y + c, z, d);
}

/// What is shown of an error names the target, the port and the field or value that it is about.
pub proof fn message_names_what_is_wrong(error: ConfigErrorView)
    ensures
        target_of(error) matches Some(target) ==> occurs_in(message_spec(error), target),
        port_of(error) matches Some(port) ==> occurs_in(message_spec(error), port),
        culprit_of(error) matches Some(culprit) ==> occurs_in(message_spec(error), culprit),
        error matches ConfigErrorView::ReadFailure { source, .. } ==> occurs_in(
            message_spec(error),
            source,
        ),
        error matches ConfigErrorView::InvalidEnvReference { key, .. } ==> occurs_in(
            message_spec(error),
            key,
        ),
{
    match error {
        ConfigErrorView::ReadFailure { path, source } => {
            assert("failed to read config file '"@ + path + ("': "@ + source)
                =~= message_spec(error));
            part_occurs("failed to read config file '"@, path, "': "@ + source);
            lemma_last_part_occurs("failed to read config file '"@ + path + "': "@, source);
        },
        ConfigErrorView::Parse(message) => {
            lemma_last_part_occurs("failed to parse config: "@, message);
        },
        ConfigErrorView::MissingField { target, field } => {
            lemma_two("missing '"@, field, "' for target '"@, target, "'"@);
        },
        ConfigErrorView::UnknownTargetKind { target, value } => {
            lemma_two("unknown target kind '"@, value, "' for target '"@, target, "'"@);
        },
        ConfigErrorView::EmptyComposite { target } => {
            part_occurs("composite target '"@, target, "' requires at least one member"@);
        },
        ConfigErrorView::MissingPortField { target, port, field } => {
            lemma_three(
                "missing '"@,
                field,
                "' for port '"@,
                port,
                "' on target '"@,
                target,
                "'"@,
            );
        },
        ConfigErrorView::UnknownPortType { target, port, value } => {
            lemma_three(
                "unknown port type '"@,
                value,
                "' for '"@,
                target,
                ":"@,
                port,
                "'"@,
            );
        },
        ConfigErrorView::InvalidPortSelection { target, port } => {
            lemma_two(
                "port selection for '"@,
                target,
                ":"@,
                port,
                "' must specify exactly one of auto/auto_range/fixed"@,
            );
        },
        ConfigErrorView::InvalidPortSpec { target, port, value } => {
            lemma_three(
                "port definition '"@,
                value,
                "' for '"@,
                target,
                ":"@,
                port,
                "' is invalid"@,
            );
        },
        ConfigErrorView::PortOutOfRange { target, port } => {
            lemma_two(
                "port values must be within valid u16 range for '"@,
                target,
                ":"@,
                port,
                "'"@,
            );
        },
        ConfigErrorView::InvalidEnvReference { target, key, value } => {
            lemma_three(
                "environment reference '"@,
                value,
                "' for '"@,
                target,
                ":"@,
                key,
                "' is invalid"@,
            );
        },
        ConfigErrorView::UnknownRefreshWatchType { target, value } => {
            lemma_two(
                "unknown refresh watch type '"@,
                value,
                "' for target '"@,
                target,
                "'"@,
            );
        },
    }
}

proof fn lemma_two(a: Seq<char>, x: Seq<char>, b: Seq<char>, y: Seq<char>, c: Seq<char>)
    ensures
        occurs_in(a + x + b + y + c, x),
        occurs_in(a + x + b + y + c, y),
{
    assert(a + x + (b + y + c) =~= a + x + b + y + c);
    part_occurs(a, x, b + y + c);
    part_occurs(a + x + b, y, c);
}

} // verus!
