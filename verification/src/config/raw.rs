//! The configuration as it is written.

use vstd::prelude::*;

use crate::config::value::{ConfigValue, ConfigValueView};
use crate::names::NameMap;

verus! {

/// The `log` table.
#[derive(Debug, PartialEq, Eq)]
pub struct RawLogConfig {
    pub file: Option<String>,
    pub rotation_after_seconds: Option<u64>,
    pub rotation_after_size_mb: Option<u64>,
    pub keep_history_count: Option<usize>,
}

/// What a [`RawLogConfig`] stands for.
pub struct RawLogConfigView {
    pub file: Option<Seq<char>>,
    pub rotation_after_seconds: Option<u64>,
    pub rotation_after_size_mb: Option<u64>,
    pub keep_history_count: Option<usize>,
}

impl DeepView for RawLogConfig {
    type V = RawLogConfigView;

    open spec fn deep_view(&self) -> RawLogConfigView {
        RawLogConfigView {
            file: self.file.deep_view(),
            rotation_after_seconds: self.rotation_after_seconds.deep_view(),
            rotation_after_size_mb: self.rotation_after_size_mb.deep_view(),
            keep_history_count: self.keep_history_count.deep_view(),
        }
    }
}

/// The `restart` table.
#[derive(Debug, PartialEq, Eq)]
pub struct RawRestartConfig {
    pub strategy: Option<String>,
}

/// What a [`RawRestartConfig`] stands for.
pub struct RawRestartConfigView {
    pub strategy: Option<Seq<char>>,
}

impl DeepView for RawRestartConfig {
    type V = RawRestartConfigView;

    open spec fn deep_view(&self) -> RawRestartConfigView {
        RawRestartConfigView {
            strategy: self.strategy.deep_view(),
        }
    }
}

/// The `env` table.
#[derive(Debug, PartialEq, Eq)]
pub struct RawEnvConfig {
    pub read_env_file: Option<String>,
}

/// What a [`RawEnvConfig`] stands for.
pub struct RawEnvConfigView {
    pub read_env_file: Option<Seq<char>>,
}

impl DeepView for RawEnvConfig {
    type V = RawEnvConfigView;

    open spec fn deep_view(&self) -> RawEnvConfigView {
        RawEnvConfigView {
            read_env_file: self.read_env_file.deep_view(),
        }
    }
}

/// The `watch` table.
#[derive(Debug, PartialEq, Eq)]
pub struct RawWatchConfig {
    pub stability_seconds: Option<u64>,
}

/// What a [`RawWatchConfig`] stands for.
pub struct RawWatchConfigView {
    pub stability_seconds: Option<u64>,
}

impl DeepView for RawWatchConfig {
    type V = RawWatchConfigView;

    open spec fn deep_view(&self) -> RawWatchConfigView {
        RawWatchConfigView {
            stability_seconds: self.stability_seconds.deep_view(),
        }
    }
}

/// The `run_history` table.
#[derive(Debug, PartialEq, Eq)]
pub struct RawRunHistoryConfig {
    pub keep_runs: Option<usize>,
}

/// What a [`RawRunHistoryConfig`] stands for.
pub struct RawRunHistoryConfigView {
    pub keep_runs: Option<usize>,
}

impl DeepView for RawRunHistoryConfig {
    type V = RawRunHistoryConfigView;

    open spec fn deep_view(&self) -> RawRunHistoryConfigView {
        RawRunHistoryConfigView {
            keep_runs: self.keep_runs.deep_view(),
        }
    }
}

/// The `update` table of `debug-update`.
#[derive(Debug, PartialEq, Eq)]
pub struct RawDebugUpdateTargets {
    pub vscode: Option<String>,
    pub zed: Option<String>,
}

/// What a [`RawDebugUpdateTargets`] stands for.
pub struct RawDebugUpdateTargetsView {
    pub vscode: Option<Seq<char>>,
    pub zed: Option<Seq<char>>,
}

impl DeepView for RawDebugUpdateTargets {
    type V = RawDebugUpdateTargetsView;

    open spec fn deep_view(&self) -> RawDebugUpdateTargetsView {
        RawDebugUpdateTargetsView {
            vscode: self.vscode.deep_view(),
            zed: self.zed.deep_view(),
        }
    }
}

/// The `debug-update` table.
#[derive(Debug, PartialEq, Eq)]
pub struct RawDebugUpdateConfig {
    pub prefix: Option<String>,
    pub update: Option<RawDebugUpdateTargets>,
}

/// What a [`RawDebugUpdateConfig`] stands for.
pub struct RawDebugUpdateConfigView {
    pub prefix: Option<Seq<char>>,
    pub update: Option<RawDebugUpdateTargetsView>,
}

impl DeepView for RawDebugUpdateConfig {
    type V = RawDebugUpdateConfigView;

    open spec fn deep_view(&self) -> RawDebugUpdateConfigView {
        RawDebugUpdateConfigView {
            prefix: self.prefix.deep_view(),
            update: self.update.deep_view(),
        }
    }
}

/// One port of a target.
#[derive(Debug, PartialEq, Eq)]
pub struct RawPortConfig {
    pub port_type: Option<String>,
    pub auto: Option<bool>,
    pub auto_range: Option<ConfigValue>,
    pub fixed: Option<ConfigValue>,
    pub extra: NameMap<ConfigValue>,
}

/// What a [`RawPortConfig`] stands for.
pub struct RawPortConfigView {
    pub port_type: Option<Seq<char>>,
    pub auto: Option<bool>,
    pub auto_range: Option<ConfigValueView>,
    pub fixed: Option<ConfigValueView>,
    pub extra: Seq<(Seq<char>, ConfigValueView)>,
}

impl DeepView for RawPortConfig {
    type V = RawPortConfigView;

    open spec fn deep_view(&self) -> RawPortConfigView {
        RawPortConfigView {
            port_type: self.port_type.deep_view(),
            auto: self.auto.deep_view(),
            auto_range: self.auto_range.deep_view(),
            fixed: self.fixed.deep_view(),
            extra: self.extra.deep_view(),
        }
    }
}

/// A list of names.
#[derive(Debug, PartialEq, Eq)]
pub struct TargetList(pub Vec<String>);

impl DeepView for TargetList {
    type V = Seq<Seq<char>>;

    open spec fn deep_view(&self) -> Seq<Seq<char>> {
        self.0.deep_view()
    }
}

impl TargetList {
    /// The names.
    pub fn into_vec(self) -> (r: Vec<String>)
        ensures
            r.deep_view() == self.deep_view(),
    {
        self.0
    }
}

/// One target.
#[derive(Debug, PartialEq, Eq)]
pub struct RawTarget {
    pub target_type: Option<String>,
    pub kind: Option<String>,
    pub targets: TargetList,
    pub env: NameMap<ConfigValue>,
    pub port: NameMap<RawPortConfig>,
    pub timeout_seconds: Option<u64>,
    pub watch: TargetList,
    pub extra: NameMap<ConfigValue>,
}

/// What a [`RawTarget`] stands for.
pub struct RawTargetView {
    pub target_type: Option<Seq<char>>,
    pub kind: Option<Seq<char>>,
    pub targets: Seq<Seq<char>>,
    pub env: Seq<(Seq<char>, ConfigValueView)>,
    pub port: Seq<(Seq<char>, RawPortConfigView)>,
    pub timeout_seconds: Option<u64>,
    pub watch: Seq<Seq<char>>,
    pub extra: Seq<(Seq<char>, ConfigValueView)>,
}

impl DeepView for RawTarget {
    type V = RawTargetView;

    open spec fn deep_view(&self) -> RawTargetView {
        RawTargetView {
            target_type: self.target_type.deep_view(),
            kind: self.kind.deep_view(),
            targets: self.targets.deep_view(),
            env: self.env.deep_view(),
            port: self.port.deep_view(),
            timeout_seconds: self.timeout_seconds.deep_view(),
            watch: self.watch.deep_view(),
            extra: self.extra.deep_view(),
        }
    }
}

/// The whole document.
#[derive(Debug, PartialEq, Eq)]
pub struct RawConfig {
    pub log: RawLogConfig,
    pub restart: RawRestartConfig,
    pub env: Option<RawEnvConfig>,
    pub debug_update: Option<RawDebugUpdateConfig>,
    pub watch: Option<RawWatchConfig>,
    pub run_history: Option<RawRunHistoryConfig>,
    pub targets: NameMap<RawTarget>,
}

/// What a [`RawConfig`] stands for.
pub struct RawConfigView {
    pub log: RawLogConfigView,
    pub restart: RawRestartConfigView,
    pub env: Option<RawEnvConfigView>,
    pub debug_update: Option<RawDebugUpdateConfigView>,
    pub watch: Option<RawWatchConfigView>,
    pub run_history: Option<RawRunHistoryConfigView>,
    pub targets: Seq<(Seq<char>, RawTargetView)>,
}

impl DeepView for RawConfig {
    type V = RawConfigView;

    open spec fn deep_view(&self) -> RawConfigView {
        RawConfigView {
            log: self.log.deep_view(),
            restart: self.restart.deep_view(),
            env: self.env.deep_view(),
            debug_update: self.debug_update.deep_view(),
            watch: self.watch.deep_view(),
            run_history: self.run_history.deep_view(),
            targets: self.targets.deep_view(),
        }
    }
}

} // verus!
