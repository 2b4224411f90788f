//! What an accepted configuration says is what is written in its document.

use vstd::prelude::*;

use crate::config::error::ConfigErrorView;
use crate::config::laws::lemma_targets_sound;
use crate::config::loader::{
    behavior, braced, config_spec, document_config, env_text, env_value, env_values,
    port_definition, port_definitions, port_number, port_range, range_text, target_spec,
    targets_spec,
};
use crate::config::model::{
    ConfigView, EnvReferenceView, EnvValueView, PortProtocol, PortSelection, ReferenceResourceView,
    RestartStrategy, TargetBehavior, TargetView, WatchPreference,
};
use crate::config::raw::{RawConfigView, RawPortConfigView, RawTargetView};
use crate::config::schema::{
    count_of, field_spec, flag_of, list_of, mismatch_spec, number_of, properties_of, raw_config,
    raw_port, raw_ports, raw_target, raw_targets, section_of, table_of, text_of, texts_of,
    trimmed_parts, Properties, Section,
};
use crate::config::value::{ConfigDataView, ConfigValueView};
use crate::names::{lemma_lookup_put, lemma_lookup_without, lookup};
use crate::numbers::{decimal_round_trip, decimal_spec, is_digit, lemma_decimal_digits, parse_spec};
use crate::parts::{join_spec as join_parts, lemma_position_is, split_spec};
use crate::paths::{absolute, join_spec, lemma_split_between, lemma_split_none, parent_spec};
use crate::text::{
    drop_leading, drop_trailing, is_white, lowercase, occurs_in, part_occurs, strip_prefixes_spec,
    trim_end_spec, trim_spec, trim_start_spec, uppercase,
};

verus! {

// ---------------------------------------------------------------------------
// Finding things in a document
// ---------------------------------------------------------------------------

/// The value under a name of a table.
pub open spec fn entry(value: ConfigValueView, name: Seq<char>) -> Option<ConfigValueView> {
    match value.data {
        ConfigDataView::Table(entries) => lookup(entries, name),
        _ => None,
    }
}

/// The value under a name of a table under a name.
pub open spec fn entry_of(
    value: ConfigValueView,
    section: Seq<char>,
    name: Seq<char>,
) -> Option<ConfigValueView> {
    match entry(value, section) {
        Some(inner) => entry(inner, name),
        None => None,
    }
}

/// The text that a value is.
pub open spec fn text_in(value: Option<ConfigValueView>) -> Option<Seq<char>> {
    match value {
        Some(found) => match found.data {
            ConfigDataView::Text(text) => Some(text),
            _ => None,
        },
        None => None,
    }
}

/// The number that a value is.
pub open spec fn number_in(value: Option<ConfigValueView>) -> Option<int> {
    match value {
        Some(found) => match found.data {
            ConfigDataView::Integer(number) => Some(number as int),
            _ => None,
        },
        None => None,
    }
}

/// Whether a section is missing or written as a table.
pub open spec fn plain_section(document: ConfigValueView, section: Seq<char>) -> bool {
    entry(document, section) matches Some(value) ==> value.data is Table
}

// ---------------------------------------------------------------------------
// Sections
// ---------------------------------------------------------------------------

/// A path of a configuration, seen from the directory that holds the configuration.
pub open spec fn seen_from(base: Seq<char>, base_is_dir: bool, path: Seq<char>) -> Seq<char> {
    if absolute(path) {
        path
    } else if base_is_dir {
        join_spec(base, path)
    } else {
        match parent_spec(base) {
            Some(dir) => join_spec(dir, path),
            None => join_spec("."@, path),
        }
    }
}

/// The settings of an accepted configuration are those that its document writes, and otherwise
/// what they are by default: the log in `rufa.log` with five old ones kept, no file of variables,
/// ten seconds of stability and three kept runs. Fewer than one second or run counts as one.
pub proof fn settings_are_as_written(
    base: Seq<char>,
    base_is_dir: bool,
    document: ConfigValueView,
    config: ConfigView,
)
    requires
        document_config(base, base_is_dir, Ok(document)) == Ok::<ConfigView, ConfigErrorView>(config),
        plain_section(document, "log"@),
        plain_section(document, "env"@),
        plain_section(document, "watch"@),
        plain_section(document, "run_history"@),
    ensures
        config.log.file == (match text_in(entry_of(document, "log"@, "file"@)) {
            Some(file) => seen_from(base, base_is_dir, file),
            None => "rufa.log"@,
        }),
        match number_in(entry_of(document, "log"@, "rotation_after_seconds"@)) {
            Some(seconds) => config.log.rotation_after matches Some(after) && after == seconds,
            None => config.log.rotation_after is None,
        },
        match number_in(entry_of(document, "log"@, "rotation_after_size_mb"@)) {
            Some(size) => config.log.rotation_size_bytes matches Some(bytes) && (size * 1024 * 1024
                <= u64::MAX ==> bytes == size * 1024 * 1024) && (size * 1024 * 1024 > u64::MAX
                ==> bytes == u64::MAX),
            None => config.log.rotation_size_bytes is None,
        },
        config.log.keep_history_count == (match number_in(
            entry_of(document, "log"@, "keep_history_count"@),
        ) {
            Some(count) => count,
            None => 5,
        }),
        config.env.read_env_file == (match text_in(
            entry_of(document, "env"@, "read_env_file"@),
        ) {
            Some(file) => Some(seen_from(base, base_is_dir, file)),
            None => None,
        }),
        config.watch.stability == (match number_in(
            entry_of(document, "watch"@, "stability_seconds"@),
        ) {
            Some(seconds) => if seconds < 1 {
                1
            } else {
                seconds
            },
            None => 10,
        }),
        config.run_history.keep_runs == (match number_in(
            entry_of(document, "run_history"@, "keep_runs"@),
        ) {
            Some(runs) => if runs < 1 {
                1
            } else {
                runs
            },
            None => 3,
        }),
{
}

/// The editor files of an accepted configuration are those that its document writes, seen from
/// the directory of the configuration, with the written prefix or `RUFA`; there are none where no
/// file is written.
pub proof fn editor_files_are_as_written(
    base: Seq<char>,
    base_is_dir: bool,
    document: ConfigValueView,
    config: ConfigView,
    section: ConfigValueView,
    update: ConfigValueView,
)
    requires
        document_config(base, base_is_dir, Ok(document)) == Ok::<ConfigView, ConfigErrorView>(config),
        entry(document, "debug-update"@) == Some(section),
        section.data is Table,
        entry(section, "update"@) == Some(update),
        update.data is Table,
        text_in(entry(update, "vscode"@)) matches Some(file) ==> trim_spec(file) == file && file.len()
            > 0,
        text_in(entry(update, "zed"@)) matches Some(file) ==> trim_spec(file) == file && file.len()
            > 0,
    ensures
        ({
            let vscode = text_in(entry(update, "vscode"@));
            let zed = text_in(entry(update, "zed"@));
            &&& config.debug_update is None <==> vscode is None && zed is None
            &&& config.debug_update matches Some(editors) ==> {
                &&& editors.prefix == (match text_in(entry(section, "prefix"@)) {
                    Some(prefix) => prefix,
                    None => "RUFA"@,
                })
                &&& editors.vscode == (match vscode {
                    Some(file) => Some(seen_from(base, base_is_dir, file)),
                    None => None,
                })
                &&& editors.zed == (match zed {
                    Some(file) => Some(seen_from(base, base_is_dir, file)),
                    None => None,
                })
            }
        }),
{
}

/// A configuration without a section on editors updates none.
pub proof fn no_editor_files_are_updated_by_default(
    base: Seq<char>,
    base_is_dir: bool,
    document: ConfigValueView,
    config: ConfigView,
)
    requires
        document_config(base, base_is_dir, Ok(document)) == Ok::<ConfigView, ConfigErrorView>(config),
        entry(document, "debug-update"@) is None,
    ensures
        config.debug_update is None,
{
}

/// A text that is no document is refused with what was wrong with it.
pub proof fn unreadable_document_is_refused(base: Seq<char>, base_is_dir: bool, message: Seq<char>)
    ensures
        document_config(base, base_is_dir, Err(message)) == Err::<ConfigView, ConfigErrorView>(
            ConfigErrorView::Parse(message),
        ),
{
}

// ---------------------------------------------------------------------------
// From tables to lists
// ---------------------------------------------------------------------------

proof fn lemma_properties(
    entries: Seq<(Seq<char>, ConfigValueView)>,
    kind: Properties,
    name: Seq<char>,
)
    ensures
        lookup(properties_of(entries, kind), name) == (if (match kind {
            Properties::All => true,
            Properties::OfTarget => name != "type"@ && name != "kind"@ && name != "targets"@ && name
                != "env"@ && name != "port"@ && name != "timeout_seconds"@ && name != "watch"@,
            Properties::OfPort => name != "type"@ && name != "auto"@ && name != "auto_range"@ && name
                != "fixed"@,
        }) {
            lookup(entries, name)
        } else {
            None
        }),
    decreases entries.len(),
{
    if entries.len() > 0 {
        lemma_properties(entries.drop_last(), kind, name);
        lemma_lookup_put(
            properties_of(entries.drop_last(), kind),
            entries.last().0,
            entries.last().1,
            name,
        );
    }
}

proof fn lemma_raw_ports(
    entries: Seq<(Seq<char>, ConfigValueView)>,
    place: Seq<char>,
    name: Seq<char>,
)
    requires
        raw_ports(entries, place) is Ok,
    ensures
        match lookup(entries, name) {
            Some(value) => raw_port(value, field_spec(place, name)) is Ok && lookup(
                raw_ports(entries, place)->Ok_0,
                name,
            ) == Some(raw_port(value, field_spec(place, name))->Ok_0),
            None => lookup(raw_ports(entries, place)->Ok_0, name) is None,
        },
    decreases entries.len(),
{
    if entries.len() > 0 {
        let front = entries.drop_last();
        let last = entries.last();
        lemma_raw_ports(front, place, name);
        lemma_lookup_put(
            raw_ports(front, place)->Ok_0,
            last.0,
            raw_port(last.1, field_spec(place, last.0))->Ok_0,
            name,
        );
    }
}

proof fn lemma_raw_targets(entries: Seq<(Seq<char>, ConfigValueView)>, name: Seq<char>)
    requires
        raw_targets(entries) is Ok,
    ensures
        match lookup(entries, name) {
            Some(value) => raw_target(value, field_spec("target"@, name)) is Ok && lookup(
                raw_targets(entries)->Ok_0,
                name,
            ) == Some(raw_target(value, field_spec("target"@, name))->Ok_0),
            None => lookup(raw_targets(entries)->Ok_0, name) is None,
        },
    decreases entries.len(),
{
    if entries.len() > 0 {
        let front = entries.drop_last();
        let last = entries.last();
        lemma_raw_targets(front, name);
        lemma_lookup_put(
            raw_targets(front)->Ok_0,
            last.0,
            raw_target(last.1, field_spec("target"@, last.0))->Ok_0,
            name,
        );
    }
}

proof fn lemma_env_values(
    target: Seq<char>,
    values: Seq<(Seq<char>, ConfigValueView)>,
    key: Seq<char>,
)
    requires
        env_values(target, values) is Ok,
    ensures
        match lookup(values, key) {
            Some(value) => env_value(target, key, value) is Ok && lookup(
                env_values(target, values)->Ok_0,
                key,
            ) == Some(env_value(target, key, value)->Ok_0),
            None => lookup(env_values(target, values)->Ok_0, key) is None,
        },
    decreases values.len(),
{
    if values.len() > 0 {
        let front = values.drop_last();
        let last = values.last();
        lemma_env_values(target, front, key);
        lemma_lookup_put(
            env_values(target, front)->Ok_0,
            last.0,
            env_value(target, last.0, last.1)->Ok_0,
            key,
        );
    }
}

proof fn lemma_port_definitions(
    target: Seq<char>,
    ports: Seq<(Seq<char>, RawPortConfigView)>,
    name: Seq<char>,
)
    requires
        port_definitions(target, ports) is Ok,
    ensures
        match lookup(ports, name) {
            Some(raw) => port_definition(target, name, raw) is Ok && lookup(
                port_definitions(target, ports)->Ok_0,
                name,
            ) == Some(port_definition(target, name, raw)->Ok_0),
            None => lookup(port_definitions(target, ports)->Ok_0, name) is None,
        },
    decreases ports.len(),
{
    if ports.len() > 0 {
        let front = ports.drop_last();
        let last = ports.last();
        lemma_port_definitions(target, front, name);
        lemma_lookup_put(
            port_definitions(target, front)->Ok_0,
            last.0,
            port_definition(target, last.0, last.1)->Ok_0,
            name,
        );
    }
}

/// The table that is written for a target.
pub open spec fn written_target(document: ConfigValueView, name: Seq<char>) -> Option<
    ConfigValueView,
> {
    entry_of(document, "target"@, name)
}

/// What is known of a target once its configuration was accepted.
pub open spec fn raw_of(target: ConfigValueView, name: Seq<char>) -> RawTargetView {
    raw_target(target, field_spec("target"@, name))->Ok_0
}

proof fn lemma_target(
    base: Seq<char>,
    base_is_dir: bool,
    document: ConfigValueView,
    config: ConfigView,
    name: Seq<char>,
)
    requires
        document_config(base, base_is_dir, Ok(document)) == Ok::<ConfigView, ConfigErrorView>(config),
    ensures
        match written_target(document, name) {
            Some(target) => {
                &&& target.data is Table
                &&& raw_target(target, field_spec("target"@, name)) is Ok
                &&& target_spec(base, base_is_dir, name, raw_of(target, name)) is Ok
                &&& lookup(config.targets, name) == Some(
                    target_spec(base, base_is_dir, name, raw_of(target, name))->Ok_0,
                )
            },
            None => lookup(config.targets, name) is None,
        },
{
    let raw = raw_config(document)->Ok_0;
    let root = document.data->Table_0;
    let table = match lookup(root, "target"@) {
        Some(value) => value.data->Table_0,
        None => Seq::empty(),
    };
    lemma_raw_targets(table, name);
    lemma_targets_sound(base, base_is_dir, raw.targets);
    if let Some(target) = written_target(document, name) {
        lemma_target_accepted(base, base_is_dir, raw.targets, name);
    }
}

proof fn lemma_target_accepted(
    base: Seq<char>,
    base_is_dir: bool,
    raw: Seq<(Seq<char>, RawTargetView)>,
    name: Seq<char>,
)
    requires
        targets_spec(base, base_is_dir, raw) is Ok,
        lookup(raw, name) is Some,
    ensures
        target_spec(base, base_is_dir, name, lookup(raw, name)->0) is Ok,
    decreases raw.len(),
{
    if raw.last().0 != name {
        lemma_target_accepted(base, base_is_dir, raw.drop_last(), name);
    }
}

// ---------------------------------------------------------------------------
// Targets
// ---------------------------------------------------------------------------

/// Exactly the targets that a document writes are configured. A target of the type `composite`, in
/// whatever case, is a composite of the written members; any other is a unit that is run by the
/// driver of its type.
pub proof fn targets_are_as_written(
    base: Seq<char>,
    base_is_dir: bool,
    document: ConfigValueView,
    config: ConfigView,
    name: Seq<char>,
)
    requires
        document_config(base, base_is_dir, Ok(document)) == Ok::<ConfigView, ConfigErrorView>(config),
    ensures
        lookup(config.targets, name) is Some <==> written_target(document, name) is Some,
        written_target(document, name) matches Some(target) ==> {
            let kind = text_in(entry(target, "type"@));
            &&& kind is Some
            &&& lookup(config.targets, name) matches Some(TargetView::Composite(composite)) ==> {
                &&& lowercase(kind->0) == "composite"@
                &&& composite.name == name
                &&& composite.members.len() > 0
                &&& list_of(entry(target, "targets"@), field_spec(
                    field_spec("target"@, name),
                    "targets"@,
                )) == Ok::<Seq<Seq<char>>, Seq<char>>(composite.members)
            }
            &&& lookup(config.targets, name) matches Some(TargetView::Unit(unit)) ==> {
                &&& lowercase(kind->0) != "composite"@
                &&& unit.name == name
                &&& unit.driver_type == kind->0
            }
        },
{
    lemma_target(base, base_is_dir, document, config, name);
    reveal_strlit("composite");
    assert(lowercase("composite"@) =~= "composite"@);
}

/// A unit is a service unless it is written as a job, in whatever case; a job has the time limit
/// that is written, or none.
pub proof fn kind_is_as_written(
    base: Seq<char>,
    base_is_dir: bool,
    document: ConfigValueView,
    config: ConfigView,
    name: Seq<char>,
    target: ConfigValueView,
)
    requires
        document_config(base, base_is_dir, Ok(document)) == Ok::<ConfigView, ConfigErrorView>(config),
        written_target(document, name) == Some(target),
    ensures
        lookup(config.targets, name) matches Some(TargetView::Unit(unit)) ==> {
            let kind = text_in(entry(target, "kind"@));
            &&& kind is None ==> unit.behavior == TargetBehavior::Service
            &&& kind matches Some(text) ==> {
                &&& lowercase(text) == "service"@ || lowercase(text) == "job"@
                &&& unit.behavior is Service <==> lowercase(text) == "service"@
                &&& lowercase(text) == "job"@ ==> (unit.behavior matches TargetBehavior::Job {
                    timeout,
                } && match number_in(entry(target, "timeout_seconds"@)) {
                    Some(seconds) => timeout matches Some(limit) && limit == seconds,
                    None => timeout is None,
                })
            }
        },
{
    lemma_target(base, base_is_dir, document, config, name);
    reveal_strlit("service");
    reveal_strlit("job");
    assert("service"@.len() != "job"@.len());
}

/// A kind that is neither `service` nor `job` is refused and named.
pub proof fn unknown_kind_is_refused(target: Seq<char>, kind: Seq<char>, timeout: Option<u64>)
    requires
        lowercase(kind) != "service"@,
        lowercase(kind) != "job"@,
    ensures
        behavior(target, Some(kind), timeout) == Err::<TargetBehavior, ConfigErrorView>(
            ConfigErrorView::UnknownTargetKind { target, value: lowercase(kind) },
        ),
{
}

/// A target without a type is refused, and so is a composite without members.
pub proof fn incomplete_targets_are_refused(
    base: Seq<char>,
    base_is_dir: bool,
    name: Seq<char>,
    raw: RawTargetView,
)
    ensures
        raw.target_type is None ==> target_spec(base, base_is_dir, name, raw) == Err::<
            TargetView,
            ConfigErrorView,
        >(ConfigErrorView::MissingField { target: name, field: "type"@ }),
        raw.target_type matches Some(kind) ==> (lowercase(kind) == "composite"@ && raw.targets.len()
            == 0 ==> target_spec(base, base_is_dir, name, raw) == Err::<TargetView, ConfigErrorView>(
            ConfigErrorView::EmptyComposite { target: name },
        )),
{
    reveal_strlit("composite");
    assert(lowercase("composite"@) =~= "composite"@);
}

/// What a unit writes beside the fields that have a meaning of their own is kept as it is written,
/// for its driver; the fields themselves are not.
pub proof fn properties_are_as_written(
    base: Seq<char>,
    base_is_dir: bool,
    document: ConfigValueView,
    config: ConfigView,
    name: Seq<char>,
    target: ConfigValueView,
    key: Seq<char>,
)
    requires
        document_config(base, base_is_dir, Ok(document)) == Ok::<ConfigView, ConfigErrorView>(config),
        written_target(document, name) == Some(target),
    ensures
        lookup(config.targets, name) matches Some(TargetView::Unit(unit)) ==> lookup(
            unit.properties,
            key,
        ) == (if key == "type"@ || key == "kind"@ || key == "targets"@ || key == "env"@ || key
            == "port"@ || key == "timeout_seconds"@ || key == "watch"@ || key
            == "refresh_watch_type"@ {
            None
        } else {
            entry(target, key)
        }),
{
    lemma_target(base, base_is_dir, document, config, name);
    let raw = raw_of(target, name);
    lemma_properties(target.data->Table_0, Properties::OfTarget, key);
    lemma_lookup_without(raw.extra, "refresh_watch_type"@, key);
}

/// Who watches the files of a unit is as it writes, in whatever case and with the short names; its
/// runtime where it writes nothing.
pub proof fn watch_preference_is_as_written(
    base: Seq<char>,
    base_is_dir: bool,
    document: ConfigValueView,
    config: ConfigView,
    name: Seq<char>,
    target: ConfigValueView,
)
    requires
        document_config(base, base_is_dir, Ok(document)) == Ok::<ConfigView, ConfigErrorView>(config),
        written_target(document, name) == Some(target),
    ensures
        lookup(config.targets, name) matches Some(TargetView::Unit(unit)) ==> {
            let written = entry(target, "refresh_watch_type"@);
            &&& written is None ==> unit.refresh_watch_type
                == WatchPreference::PreferRuntimeSupplied
            &&& written is Some ==> (text_in(written) matches Some(text) && {
                let upper = uppercase(text);
                &&& upper == "RUFA"@ || upper == "RUNFA"@ || upper == "PREFER_RUNTIME_SUPPLIED"@
                    || upper == "RUNTIME"@ || upper == "RUNTIME_SUPPLIED"@
                &&& unit.refresh_watch_type == WatchPreference::Rufa <==> upper == "RUFA"@ || upper
                    == "RUNFA"@
            })
        },
{
    lemma_target(base, base_is_dir, document, config, name);
    reveal_strlit("type");
    reveal_strlit("kind");
    reveal_strlit("targets");
    reveal_strlit("env");
    reveal_strlit("port");
    reveal_strlit("timeout_seconds");
    reveal_strlit("watch");
    reveal_strlit("refresh_watch_type");
    assert("refresh_watch_type"@.len() == 18);
    lemma_properties(target.data->Table_0, Properties::OfTarget, "refresh_watch_type"@);
}

/// The watch paths of a unit are those that it writes, each seen from the directory of the
/// configuration.
pub proof fn watch_paths_are_as_written(
    base: Seq<char>,
    base_is_dir: bool,
    document: ConfigValueView,
    config: ConfigView,
    name: Seq<char>,
    target: ConfigValueView,
)
    requires
        document_config(base, base_is_dir, Ok(document)) == Ok::<ConfigView, ConfigErrorView>(config),
        written_target(document, name) == Some(target),
    ensures
        lookup(config.targets, name) matches Some(TargetView::Unit(unit)) ==> (list_of(
            entry(target, "watch"@),
            field_spec(field_spec("target"@, name), "watch"@),
        ) matches Ok(paths) && unit.watch_paths.len() == paths.len() && forall|i: int|
            0 <= i < paths.len() ==> #[trigger] unit.watch_paths[i] == seen_from(
                base,
                base_is_dir,
                paths[i],
            )),
{
    lemma_target(base, base_is_dir, document, config, name);
}

// ---------------------------------------------------------------------------
// Lists of names
// ---------------------------------------------------------------------------

/// A list that is not written is empty.
pub proof fn missing_list_is_empty(field: Seq<char>)
    ensures
        list_of(None, field) == Ok::<Seq<Seq<char>>, Seq<char>>(Seq::empty()),
{
}

/// An array of texts is the list of these texts, in their order.
pub proof fn array_of_texts_is_the_list(
    value: ConfigValueView,
    field: Seq<char>,
    items: Seq<ConfigValueView>,
    texts: Seq<Seq<char>>,
)
    requires
        value.data == ConfigDataView::Array(items),
        items.len() == texts.len(),
        forall|i: int|
            0 <= i < items.len() ==> (#[trigger] items[i]).data == ConfigDataView::Text(texts[i])
                && trim_spec(texts[i]).len() > 0,
    ensures
        list_of(Some(value), field) == Ok::<Seq<Seq<char>>, Seq<char>>(texts),
{
    lemma_texts_of(items, texts);
}

proof fn lemma_texts_of(items: Seq<ConfigValueView>, texts: Seq<Seq<char>>)
    requires
        items.len() == texts.len(),
        forall|i: int|
            0 <= i < items.len() ==> (#[trigger] items[i]).data == ConfigDataView::Text(texts[i])
                && trim_spec(texts[i]).len() > 0,
    ensures
        texts_of(items) == Some(texts),
    decreases items.len(),
{
    if items.len() > 0 {
        let front = items.drop_last();
        assert forall|i: int| 0 <= i < front.len() implies (#[trigger] front[i]).data
            == ConfigDataView::Text(texts.drop_last()[i]) && trim_spec(texts.drop_last()[i]).len()
            > 0 by {
            assert(items[i] == front[i]);
        }
        lemma_texts_of(front, texts.drop_last());
        let last = items[items.len() - 1];
        assert(last.data == ConfigDataView::Text(texts[items.len() - 1]));
        assert(texts.drop_last().push(texts.last()) =~= texts);
    } else {
        assert(texts =~= Seq::empty());
    }
}

/// Whether a text can stand between the commas of a list.
pub open spec fn list_item(text: Seq<char>) -> bool {
    text.len() > 0 && !text.contains(',') && !is_white(text[0]) && !is_white(text.last())
}

/// A text with commas is the list of what stands between the commas.
pub proof fn text_with_commas_is_the_list(
    value: ConfigValueView,
    field: Seq<char>,
    names: Seq<Seq<char>>,
)
    requires
        names.len() > 0,
        forall|i: int| 0 <= i < names.len() ==> list_item(#[trigger] names[i]),
        value.data == ConfigDataView::Text(join_parts(names, seq![','])),
    ensures
        list_of(Some(value), field) == Ok::<Seq<Seq<char>>, Seq<char>>(names),
{
    lemma_split_join(names);
    lemma_trimmed_parts(names);
}

proof fn lemma_split_join(names: Seq<Seq<char>>)
    requires
        names.len() > 0,
        forall|i: int| 0 <= i < names.len() ==> list_item(#[trigger] names[i]),
    ensures
        split_spec(join_parts(names, seq![',']), ',') == names,
    decreases names.len(),
{
    let last = names[names.len() - 1];
    assert(list_item(last));
    lemma_split_none(last, ',');
    if names.len() > 1 {
        let front = names.drop_last();
        assert forall|i: int| 0 <= i < front.len() implies list_item(#[trigger] front[i]) by {
            assert(front[i] == names[i]);
        }
        lemma_split_join(front);
        lemma_split_between(join_parts(front, seq![',']), ',', last);
        assert(front + seq![last] =~= names);
    } else {
        assert(seq![last] =~= names);
    }
}

/// A text without white space at its ends is not trimmed.
proof fn lemma_trimmed(text: Seq<char>)
    requires
        text.len() > 0,
        !is_white(text[0]),
        !is_white(text.last()),
    ensures
        trim_spec(text) == text,
{
}

proof fn lemma_trimmed_parts(names: Seq<Seq<char>>)
    requires
        forall|i: int| 0 <= i < names.len() ==> list_item(#[trigger] names[i]),
    ensures
        trimmed_parts(names) == names,
    decreases names.len(),
{
    if names.len() > 0 {
        let front = names.drop_last();
        let last = names[names.len() - 1];
        assert forall|i: int| 0 <= i < front.len() implies list_item(#[trigger] front[i]) by {
            assert(front[i] == names[i]);
        }
        lemma_trimmed_parts(front);
        assert(list_item(last));
        lemma_trimmed(last);
        assert(front.push(last) =~= names);
    } else {
        assert(names =~= Seq::empty());
    }
}

// ---------------------------------------------------------------------------
// Environment values
// ---------------------------------------------------------------------------

/// Whether a text is put in braces.
pub open spec fn in_braces(text: Seq<char>) -> bool {
    let trimmed = trim_spec(text);
    trimmed.len() > 0 && trimmed[0] == '{' && trimmed.last() == '}'
}

/// Whether a text writes an integer in decimal, with a minus sign where it is negative.
pub open spec fn writes_integer(text: Seq<char>, number: int) -> bool {
    if number < 0 {
        text.len() > 1 && text[0] == '-' && parse_spec(text.drop_first(), (-number) as nat) == Some(
            (-number) as nat,
        )
    } else {
        parse_spec(text, number as nat) == Some(number as nat) && is_digit(text[0])
    }
}

/// A scalar that is written as an environment value is loaded as its text: a Boolean as `true` or
/// `false`, an integer as its decimal digits, and a text that is not put in braces as it is.
pub proof fn scalar_is_loaded_as_its_text(
    target: Seq<char>,
    key: Seq<char>,
    value: ConfigValueView,
)
    ensures
        value.data == ConfigDataView::Boolean(true) ==> env_value(target, key, value) == Ok::<
            EnvValueView,
            ConfigErrorView,
        >(EnvValueView::Literal("true"@)),
        value.data == ConfigDataView::Boolean(false) ==> env_value(target, key, value) == Ok::<
            EnvValueView,
            ConfigErrorView,
        >(EnvValueView::Literal("false"@)),
        value.data matches ConfigDataView::Integer(number) ==> (env_value(target, key, value)
            matches Ok(EnvValueView::Literal(text)) && writes_integer(text, number as int)),
        value.data matches ConfigDataView::Text(text) ==> (!in_braces(text) ==> env_value(
            target,
            key,
            value,
        ) == Ok::<EnvValueView, ConfigErrorView>(EnvValueView::Literal(text))),
        value.data matches ConfigDataView::Float { plain, .. } ==> env_value(target, key, value)
            == Ok::<EnvValueView, ConfigErrorView>(EnvValueView::Literal(plain)),
        value.data matches ConfigDataView::Datetime(text) ==> env_value(target, key, value) == Ok::<
            EnvValueView,
            ConfigErrorView,
        >(EnvValueView::Literal(text)),
{
    if let ConfigDataView::Integer(number) = value.data {
        let size = if number < 0 {
            (-(number as int)) as nat
        } else {
            number as nat
        };
        decimal_round_trip(size, size);
        lemma_decimal_digits(size);
        assert(is_digit(decimal_spec(size)[0]));
        if number < 0 {
            let text = seq!['-'] + decimal_spec(size);
            assert(text.drop_first() =~= decimal_spec(size));
        }
    }
    if let ConfigDataView::Text(text) = value.data {
        lemma_braced(text);
    }
}

proof fn lemma_braced(text: Seq<char>)
    ensures
        braced(text) == in_braces(text),
{
    reveal_strlit("{");
    reveal_strlit("}");
    let trimmed = trim_spec(text);
    if trimmed.len() > 0 {
        assert(trimmed.take(1) =~= seq![trimmed[0]]);
        assert(trimmed.subrange(trimmed.len() - 1, trimmed.len() as int) =~= seq![trimmed.last()]);
        assert("{"@ =~= seq!['{']);
        assert("}"@ =~= seq!['}']);
        if braced(text) {
            assert(trimmed.take(1)[0] == '{');
            assert(trimmed.subrange(trimmed.len() - 1, trimmed.len() as int)[0] == '}');
        }
    }
}

/// The variables of a unit are exactly those that it writes, each with the value that its text has.
pub proof fn variables_are_as_written(
    base: Seq<char>,
    base_is_dir: bool,
    document: ConfigValueView,
    config: ConfigView,
    name: Seq<char>,
    target: ConfigValueView,
    key: Seq<char>,
)
    requires
        document_config(base, base_is_dir, Ok(document)) == Ok::<ConfigView, ConfigErrorView>(config),
        written_target(document, name) == Some(target),
    ensures
        lookup(config.targets, name) matches Some(TargetView::Unit(unit)) ==> (match entry_of(
            target,
            "env"@,
            key,
        ) {
            Some(value) => env_value(name, key, value) matches Ok(read) && lookup(unit.env, key)
                == Some(read),
            None => lookup(unit.env, key) is None,
        }),
{
    lemma_target(base, base_is_dir, document, config, name);
    let raw = raw_of(target, name);
    let entries = match entry(target, "env"@) {
        Some(value) => value.data->Table_0,
        None => Seq::empty(),
    };
    lemma_properties(entries, Properties::All, key);
    if lookup(config.targets, name)->0 is Unit {
        lemma_env_values(name, raw.env, key);
    }
}

/// Whether a text can name a target or a port in a reference.
pub open spec fn reference_part(text: Seq<char>) -> bool {
    text.len() > 0 && !text.contains(':') && !text.contains('{') && !text.contains('}')
        && !is_white(text[0]) && !is_white(text.last()) && !"port."@.is_prefix_of(text)
}

/// A target, a colon and `port.` with the name of a port, put in braces, are a reference to that
/// port of that target.
pub proof fn braces_refer_to_a_port(
    target: Seq<char>,
    key: Seq<char>,
    other: Seq<char>,
    port: Seq<char>,
)
    requires
        reference_part(other),
        reference_part(port),
    ensures
        env_text(target, key, seq!['{'] + other + seq![':'] + "port."@ + port + seq!['}']) == Ok::<
            EnvValueView,
            ConfigErrorView,
        >(
            EnvValueView::Reference(
                EnvReferenceView {
                    target: other,
                    resource: ReferenceResourceView::Port { name: port },
                },
            ),
        ),
{
    reveal_strlit("port.");
    let resource = "port."@ + port;
    let inner = other + seq![':'] + resource;
    let text = seq!['{'] + other + seq![':'] + "port."@ + port + seq!['}'];
    assert(text =~= seq!['{'] + inner + seq!['}']);
    lemma_trimmed(text);
    lemma_braced(text);
    assert(text[0] == '{' && text.last() == '}');
    assert(other.contains(other[0]) && port.contains(port.last()));
    assert(text.drop_first() =~= inner + seq!['}']);
    assert((inner + seq!['}'])[0] == other[0]);
    reveal_with_fuel(drop_leading, 2);
    reveal_with_fuel(drop_trailing, 2);
    assert(drop_leading(text, '{') == inner + seq!['}']);
    assert((inner + seq!['}']).drop_last() =~= inner);
    assert(inner.last() == port.last());
    assert(drop_trailing(inner + seq!['}'], '}') == inner);
    lemma_split_between(other, ':', resource);
    lemma_split_none(other, ':');
    assert(!resource.contains(':')) by {
        if resource.contains(':') {
            let i = choose|i: int| 0 <= i < resource.len() && resource[i] == ':';
            if i >= 5 {
                assert(port[i - 5] == ':');
            } else {
                assert("port."@[i] == ':');
            }
        }
    }
    lemma_split_none(resource, ':');
    assert(split_spec(inner, ':') =~= seq![other, resource]);
    lemma_trimmed(other);
    assert(resource[0] == "port."@[0] && resource.last() == port.last());
    lemma_trimmed(resource);
    assert(resource.take(5) =~= "port."@);
    assert(resource.skip(5) =~= port);
    reveal_with_fuel(strip_prefixes_spec, 2);
    assert(strip_prefixes_spec(resource, "port."@) == port);
}

/// A text in braces that holds no colon is refused and told.
pub proof fn other_braces_are_refused(target: Seq<char>, key: Seq<char>, text: Seq<char>)
    requires
        in_braces(text),
        !text.contains(':'),
    ensures
        env_text(target, key, text) == Err::<EnvValueView, ConfigErrorView>(
            ConfigErrorView::InvalidEnvReference { target, key, value: text },
        ),
{
    lemma_braced(text);
    let trimmed = trim_spec(text);
    let inner = drop_trailing(drop_leading(trimmed, '{'), '}');
    lemma_no_colon(text);
    lemma_split_none(inner, ':');
}

proof fn lemma_no_colon(text: Seq<char>)
    requires
        !text.contains(':'),
    ensures
        !drop_trailing(drop_leading(trim_spec(text), '{'), '}').contains(':'),
{
    lemma_trim_start_keeps(text, ':');
    lemma_trim_end_keeps(trim_start_spec(text), ':');
    lemma_leading_keeps(trim_spec(text), '{', ':');
    lemma_trailing_keeps(drop_leading(trim_spec(text), '{'), '}', ':');
}

proof fn lemma_trim_start_keeps(s: Seq<char>, c: char)
    requires
        !s.contains(c),
    ensures
        !trim_start_spec(s).contains(c),
    decreases s.len(),
{
    if s.len() > 0 && is_white(s[0]) {
        lemma_part_keeps(s, 1, s.len() as int, c);
        assert(s.drop_first() =~= s.subrange(1, s.len() as int));
        lemma_trim_start_keeps(s.drop_first(), c);
    }
}

proof fn lemma_trim_end_keeps(s: Seq<char>, c: char)
    requires
        !s.contains(c),
    ensures
        !trim_end_spec(s).contains(c),
    decreases s.len(),
{
    if s.len() > 0 && is_white(s.last()) {
        lemma_part_keeps(s, 0, s.len() - 1, c);
        assert(s.drop_last() =~= s.subrange(0, s.len() - 1));
        lemma_trim_end_keeps(s.drop_last(), c);
    }
}

proof fn lemma_leading_keeps(s: Seq<char>, d: char, c: char)
    requires
        !s.contains(c),
    ensures
        !drop_leading(s, d).contains(c),
    decreases s.len(),
{
    if s.len() > 0 && s[0] == d {
        lemma_part_keeps(s, 1, s.len() as int, c);
        assert(s.drop_first() =~= s.subrange(1, s.len() as int));
        lemma_leading_keeps(s.drop_first(), d, c);
    }
}

proof fn lemma_trailing_keeps(s: Seq<char>, d: char, c: char)
    requires
        !s.contains(c),
    ensures
        !drop_trailing(s, d).contains(c),
    decreases s.len(),
{
    if s.len() > 0 && s.last() == d {
        lemma_part_keeps(s, 0, s.len() - 1, c);
        assert(s.drop_last() =~= s.subrange(0, s.len() - 1));
        lemma_trailing_keeps(s.drop_last(), d, c);
    }
}

proof fn lemma_part_keeps(s: Seq<char>, from: int, to: int, c: char)
    requires
        0 <= from <= to <= s.len(),
        !s.contains(c),
    ensures
        !s.subrange(from, to).contains(c),
{
    let part = s.subrange(from, to);
    if part.contains(c) {
        let i = choose|i: int| 0 <= i < part.len() && part[i] == c;
        assert(s[from + i] == c);
    }
}

// ---------------------------------------------------------------------------
// Ports
// ---------------------------------------------------------------------------

/// A port number is what the integer or the digits say, and a number beyond 65535 is refused.
pub proof fn port_number_is_as_written(
    target: Seq<char>,
    port: Seq<char>,
    value: ConfigValueView,
    number: nat,
)
    ensures
        value.data matches ConfigDataView::Integer(written) ==> (0 <= written <= 65535 ==> (
        port_number(target, port, value) matches Ok(read) && read == written)),
        value.data matches ConfigDataView::Integer(written) ==> (!(0 <= written <= 65535)
            ==> port_number(target, port, value) == Err::<u16, ConfigErrorView>(
            ConfigErrorView::PortOutOfRange { target, port },
        )),
        value.data == ConfigDataView::Text(decimal_spec(number)) ==> (number <= 65535 ==> (
        port_number(target, port, value) matches Ok(read) && read == number)),
{
    lemma_decimal_trimmed(number);
    if number <= 65535 {
        decimal_round_trip(number, 65535);
    }
}

proof fn lemma_decimal_trimmed(number: nat)
    ensures
        trim_spec(decimal_spec(number)) == decimal_spec(number),
        !decimal_spec(number).contains('-'),
{
    lemma_decimal_digits(number);
    let digits = decimal_spec(number);
    assert(is_digit(digits[0]));
    assert(is_digit(digits[digits.len() - 1]));
    lemma_trimmed(digits);
    if digits.contains('-') {
        let i = choose|i: int| 0 <= i < digits.len() && digits[i] == '-';
        assert(is_digit(digits[i]));
    }
}

/// A range of ports is from the first written number to the second, as a text with a hyphen or as
/// an array; one that is the wrong way round is refused.
pub proof fn port_range_is_as_written(
    target: Seq<char>,
    port: Seq<char>,
    value: ConfigValueView,
    start: u16,
    end: u16,
)
    requires
        value.data == ConfigDataView::Text(
            decimal_spec(start as nat) + seq!['-'] + decimal_spec(end as nat),
        ) || (value.data matches ConfigDataView::Array(items) && items.len() == 2 && items[0].data
            == ConfigDataView::Integer(start as i64) && items[1].data == ConfigDataView::Integer(
            end as i64,
        )),
    ensures
        start <= end ==> port_range(target, port, value) == Ok::<(u16, u16), ConfigErrorView>(
            (start, end),
        ),
        start > end ==> port_range(target, port, value) is Err,
{
    let a = decimal_spec(start as nat);
    let b = decimal_spec(end as nat);
    let text = a + seq!['-'] + b;
    lemma_decimal_trimmed(start as nat);
    lemma_decimal_trimmed(end as nat);
    lemma_decimal_digits(start as nat);
    lemma_decimal_digits(end as nat);
    decimal_round_trip(start as nat, 65535);
    decimal_round_trip(end as nat, 65535);
    assert(is_digit(a[0]) && is_digit(b[b.len() - 1]));
    assert(text[0] == a[0] && text.last() == b[b.len() - 1]);
    lemma_trimmed(text);
    let n = a.len() as int;
    assert forall|k: int| 0 <= k < n implies text[k] != '-' by {
        assert(text[k] == a[k]);
        assert(a.contains(a[k]));
    }
    assert(text[n] == '-');
    lemma_position_is(text, '-', n);
    assert(text.take(n) =~= a);
    assert(text.skip(n + 1) =~= b);
    if value.data == ConfigDataView::Text(text) {
        assert(port_range(target, port, value) == range_text(target, port, text));
    }
}

/// The ports of a unit are exactly those that it writes. Each has the written protocol, in
/// whatever case, and is chosen in the one way that is written: always the fixed number, one out
/// of the range, or any.
pub proof fn ports_are_as_written(
    base: Seq<char>,
    base_is_dir: bool,
    document: ConfigValueView,
    config: ConfigView,
    name: Seq<char>,
    target: ConfigValueView,
    port: Seq<char>,
)
    requires
        document_config(base, base_is_dir, Ok(document)) == Ok::<ConfigView, ConfigErrorView>(config),
        written_target(document, name) == Some(target),
    ensures
        lookup(config.targets, name) matches Some(TargetView::Unit(unit)) ==> {
            let written = entry_of(target, "port"@, port);
            &&& lookup(unit.ports, port) is Some <==> written is Some
            &&& written matches Some(table) ==> {
                let definition = lookup(unit.ports, port)->0;
                let protocol = text_in(entry(table, "type"@));
                let fixed = entry(table, "fixed"@);
                let range = entry(table, "auto_range"@);
                &&& protocol is Some
                &&& definition.protocol == PortProtocol::Http <==> lowercase(protocol->0)
                    == "http"@
                &&& definition.protocol == PortProtocol::Ftp <==> lowercase(protocol->0) == "ftp"@
                &&& definition.protocol == PortProtocol::Tcp <==> lowercase(protocol->0) == "tcp"@
                &&& fixed matches Some(value) ==> (definition.selection matches PortSelection::Fixed(
                    number,
                ) && port_number(name, port, value) == Ok::<u16, ConfigErrorView>(number))
                &&& range matches Some(value) ==> (definition.selection matches
                    PortSelection::AutoRange { start, end } && start <= end && port_range(
                    name,
                    port,
                    value,
                ) == Ok::<(u16, u16), ConfigErrorView>((start, end)))
                &&& fixed is None && range is None ==> definition.selection == PortSelection::Auto
                    && (entry(table, "auto"@) matches Some(auto) && auto.data
                    == ConfigDataView::Boolean(true))
            }
        },
{
    lemma_target(base, base_is_dir, document, config, name);
    let raw = raw_of(target, name);
    let place = field_spec(field_spec("target"@, name), "port"@);
    let entries = match entry(target, "port"@) {
        Some(value) => value.data->Table_0,
        None => Seq::empty(),
    };
    reveal_strlit("http");
    reveal_strlit("ftp");
    reveal_strlit("tcp");
    assert("http"@.len() == 4 && "ftp"@.len() == 3 && "tcp"@.len() == 3);
    assert("ftp"@[0] != "tcp"@[0]);
    lemma_raw_ports(entries, place, port);
    if lookup(config.targets, name)->0 is Unit {
        lemma_port_definitions(name, raw.port, port);
    }
}

/// A port of an unknown protocol, or of none, is refused.
pub proof fn unknown_protocol_is_refused(
    target: Seq<char>,
    port: Seq<char>,
    raw: RawPortConfigView,
)
    ensures
        raw.port_type is None ==> port_definition(target, port, raw) is Err,
        raw.port_type matches Some(text) ==> (lowercase(text) != "http"@ && lowercase(text)
            != "ftp"@ && lowercase(text) != "tcp"@ ==> port_definition(target, port, raw) is Err),
{
}

// ---------------------------------------------------------------------------
// What is accepted
// ---------------------------------------------------------------------------

/// Whether a value is missing or a text.
pub open spec fn text_or_missing(value: Option<ConfigValueView>) -> bool {
    value matches Some(found) ==> found.data is Text
}

/// Whether a value is missing or a number that is not negative.
pub open spec fn count_or_missing(value: Option<ConfigValueView>) -> bool {
    value matches Some(found) ==> (found.data matches ConfigDataView::Integer(number) && number >= 0)
}

/// Whether a value is missing, a text, or an array of texts.
pub open spec fn names_or_missing(value: Option<ConfigValueView>) -> bool {
    value matches Some(found) ==> found.data is Text || (found.data matches ConfigDataView::Array(
        items,
    ) && forall|i: int| 0 <= i < items.len() ==> (#[trigger] items[i]).data is Text)
}

/// Whether a value is missing or a table.
pub open spec fn table_or_missing(value: Option<ConfigValueView>) -> bool {
    value matches Some(found) ==> found.data is Table
}

proof fn lemma_texts_accepted(items: Seq<ConfigValueView>)
    ensures
        texts_of(items) is Some <==> forall|i: int|
            0 <= i < items.len() ==> (#[trigger] items[i]).data is Text,
    decreases items.len(),
{
    if items.len() > 0 {
        let front = items.drop_last();
        lemma_texts_accepted(front);
        if texts_of(items) is Some {
            assert forall|i: int| 0 <= i < items.len() implies (#[trigger] items[i]).data is Text by {
                if i < front.len() {
                    assert(front[i] == items[i]);
                }
            }
        }
        if forall|i: int| 0 <= i < items.len() ==> (#[trigger] items[i]).data is Text {
            assert forall|i: int| 0 <= i < front.len() implies (#[trigger] front[i]).data is Text by {
                assert(front[i] == items[i]);
            }
            assert(items[items.len() - 1].data is Text);
        }
    }
}

proof fn lemma_list_accepted(value: Option<ConfigValueView>, field: Seq<char>)
    ensures
        list_of(value, field) is Ok <==> names_or_missing(value),
{
    if let Some(found) = value {
        if let ConfigDataView::Array(items) = found.data {
            lemma_texts_accepted(items);
        }
    }
}

/// A target is read exactly where it is a table whose fields are of the right sort; what else the
/// table holds does not matter.
pub proof fn target_of_the_right_shape_is_read(target: ConfigValueView, place: Seq<char>)
    ensures
        raw_target(target, place) is Ok <==> {
            &&& target.data is Table
            &&& text_or_missing(entry(target, "type"@))
            &&& text_or_missing(entry(target, "kind"@))
            &&& names_or_missing(entry(target, "targets"@))
            &&& table_or_missing(entry(target, "env"@))
            &&& table_or_missing(entry(target, "port"@))
            &&& raw_ports(
                match entry(target, "port"@) {
                    Some(ports) => ports.data->Table_0,
                    None => Seq::empty(),
                },
                field_spec(place, "port"@),
            ) is Ok
            &&& count_or_missing(entry(target, "timeout_seconds"@))
            &&& names_or_missing(entry(target, "watch"@))
        },
{
    lemma_list_accepted(entry(target, "targets"@), field_spec(place, "targets"@));
    lemma_list_accepted(entry(target, "watch"@), field_spec(place, "watch"@));
}

/// A port is read exactly where it is a table whose type is a text and whose `auto` is a Boolean,
/// where they are written.
pub proof fn port_of_the_right_shape_is_read(port: ConfigValueView, place: Seq<char>)
    ensures
        raw_port(port, place) is Ok <==> port.data is Table && text_or_missing(entry(port, "type"@))
            && (entry(port, "auto"@) matches Some(auto) ==> auto.data is Boolean),
{
}

/// A composite is accepted exactly where it has members. A unit is accepted exactly where its kind
/// and its watch preference are known and all its variables and ports are right.
pub proof fn right_targets_are_accepted(
    base: Seq<char>,
    base_is_dir: bool,
    name: Seq<char>,
    raw: RawTargetView,
)
    ensures
        target_spec(base, base_is_dir, name, raw) is Ok <==> (raw.target_type matches Some(kind) && (
        if lowercase(kind) == "composite"@ {
            raw.targets.len() > 0
        } else {
            &&& raw.kind matches Some(text) ==> lowercase(text) == "service"@ || lowercase(text)
                == "job"@
            &&& forall|i: int|
                0 <= i < raw.env.len() ==> env_value(
                    name,
                    (#[trigger] raw.env[i]).0,
                    raw.env[i].1,
                ) is Ok
            &&& forall|i: int|
                0 <= i < raw.port.len() ==> port_definition(
                    name,
                    (#[trigger] raw.port[i]).0,
                    raw.port[i].1,
                ) is Ok
            &&& lookup(raw.extra, "refresh_watch_type"@) matches Some(value) ==> (value.data matches
                ConfigDataView::Text(text) && {
                let upper = uppercase(text);
                upper == "RUFA"@ || upper == "RUNFA"@ || upper == "PREFER_RUNTIME_SUPPLIED"@ || upper
                    == "RUNTIME"@ || upper == "RUNTIME_SUPPLIED"@
            })
        })),
{
    reveal_strlit("composite");
    assert(lowercase("composite"@) =~= "composite"@);
    lemma_variables_accepted(name, raw.env);
    lemma_ports_accepted(name, raw.port);
}

proof fn lemma_variables_accepted(target: Seq<char>, values: Seq<(Seq<char>, ConfigValueView)>)
    ensures
        env_values(target, values) is Ok <==> forall|i: int|
            0 <= i < values.len() ==> env_value(
                target,
                (#[trigger] values[i]).0,
                values[i].1,
            ) is Ok,
    decreases values.len(),
{
    if values.len() > 0 {
        let front = values.drop_last();
        lemma_variables_accepted(target, front);
        if env_values(target, values) is Ok {
            assert forall|i: int| 0 <= i < values.len() implies env_value(
                target,
                (#[trigger] values[i]).0,
                values[i].1,
            ) is Ok by {
                if i < front.len() {
                    assert(front[i] == values[i]);
                }
            }
        }
        if forall|i: int|
            0 <= i < values.len() ==> env_value(target, (#[trigger] values[i]).0, values[i].1) is Ok {
            assert forall|i: int| 0 <= i < front.len() implies env_value(
                target,
                (#[trigger] front[i]).0,
                front[i].1,
            ) is Ok by {
                assert(front[i] == values[i]);
            }
            assert(env_value(
                target,
                values[values.len() - 1].0,
                values[values.len() - 1].1,
            ) is Ok);
        }
    }
}

proof fn lemma_ports_accepted(target: Seq<char>, ports: Seq<(Seq<char>, RawPortConfigView)>)
    ensures
        port_definitions(target, ports) is Ok <==> forall|i: int|
            0 <= i < ports.len() ==> port_definition(
                target,
                (#[trigger] ports[i]).0,
                ports[i].1,
            ) is Ok,
    decreases ports.len(),
{
    if ports.len() > 0 {
        let front = ports.drop_last();
        lemma_ports_accepted(target, front);
        if port_definitions(target, ports) is Ok {
            assert forall|i: int| 0 <= i < ports.len() implies port_definition(
                target,
                (#[trigger] ports[i]).0,
                ports[i].1,
            ) is Ok by {
                if i < front.len() {
                    assert(front[i] == ports[i]);
                }
            }
        }
        if forall|i: int|
            0 <= i < ports.len() ==> port_definition(
                target,
                (#[trigger] ports[i]).0,
                ports[i].1,
            ) is Ok {
            assert forall|i: int| 0 <= i < front.len() implies port_definition(
                target,
                (#[trigger] front[i]).0,
                front[i].1,
            ) is Ok by {
                assert(front[i] == ports[i]);
            }
            assert(port_definition(
                target,
                ports[ports.len() - 1].0,
                ports[ports.len() - 1].1,
            ) is Ok);
        }
    }
}

/// A port is accepted exactly where its protocol is known and it is chosen in one way, rightly
/// written.
pub proof fn right_ports_are_accepted(target: Seq<char>, port: Seq<char>, raw: RawPortConfigView)
    ensures
        port_definition(target, port, raw) is Ok <==> {
            &&& raw.port_type matches Some(text) && (lowercase(text) == "http"@ || lowercase(text)
                == "ftp"@ || lowercase(text) == "tcp"@)
            &&& {
                let auto = raw.auto == Some(true);
                ||| auto && raw.auto_range is None && raw.fixed is None
                ||| !auto && raw.fixed is None && (raw.auto_range matches Some(value) && port_range(
                    target,
                    port,
                    value,
                ) is Ok)
                ||| !auto && raw.auto_range is None && (raw.fixed matches Some(value)
                    && port_number(target, port, value) is Ok)
            }
        },
        port_definition(target, port, raw) matches Ok(definition) ==> definition.properties
            == raw.extra,
{
}

/// A value of a variable is refused only where it is a text in braces.
pub proof fn only_braces_are_refused(target: Seq<char>, key: Seq<char>, value: ConfigValueView)
    ensures
        env_value(target, key, value) is Err ==> (value.data matches ConfigDataView::Text(text)
            && in_braces(text)),
{
    if let ConfigDataView::Text(text) = value.data {
        lemma_braced(text);
    }
}

/// A configuration is accepted exactly where all its targets are.
pub proof fn right_configurations_are_accepted(
    base: Seq<char>,
    base_is_dir: bool,
    raw: RawConfigView,
)
    ensures
        config_spec(base, base_is_dir, raw) is Ok <==> forall|i: int|
            0 <= i < raw.targets.len() ==> target_spec(
                base,
                base_is_dir,
                (#[trigger] raw.targets[i]).0,
                raw.targets[i].1,
            ) is Ok,
{
    lemma_targets_accepted(base, base_is_dir, raw.targets);
}

proof fn lemma_targets_accepted(
    base: Seq<char>,
    base_is_dir: bool,
    raw: Seq<(Seq<char>, RawTargetView)>,
)
    ensures
        targets_spec(base, base_is_dir, raw) is Ok <==> forall|i: int|
            0 <= i < raw.len() ==> target_spec(
                base,
                base_is_dir,
                (#[trigger] raw[i]).0,
                raw[i].1,
            ) is Ok,
    decreases raw.len(),
{
    if raw.len() > 0 {
        let front = raw.drop_last();
        lemma_targets_accepted(base, base_is_dir, front);
        if targets_spec(base, base_is_dir, raw) is Ok {
            assert forall|i: int| 0 <= i < raw.len() implies target_spec(
                base,
                base_is_dir,
                (#[trigger] raw[i]).0,
                raw[i].1,
            ) is Ok by {
                if i < front.len() {
                    assert(front[i] == raw[i]);
                }
            }
        }
        if forall|i: int|
            0 <= i < raw.len() ==> target_spec(
                base,
                base_is_dir,
                (#[trigger] raw[i]).0,
                raw[i].1,
            ) is Ok {
            assert forall|i: int| 0 <= i < front.len() implies target_spec(
                base,
                base_is_dir,
                (#[trigger] front[i]).0,
                front[i].1,
            ) is Ok by {
                assert(front[i] == raw[i]);
            }
            assert(target_spec(base, base_is_dir, raw[raw.len() - 1].0, raw[raw.len() - 1].1) is Ok);
        }
    }
}

// ---------------------------------------------------------------------------
// Sections as arrays, and values of the wrong type
// ---------------------------------------------------------------------------

/// A section that is written as an array holds its fields in their order, and is refused where
/// fields are missing that it needs. Further items count for nothing.
pub proof fn array_holds_the_fields_in_order(
    value: ConfigValueView,
    items: Seq<ConfigValueView>,
    field: Seq<char>,
)
    requires
        value.data == ConfigDataView::Array(items),
    ensures
        ({
            let read = section_of(Some(value), field, Section::Log);
            &&& items.len() < 4 <==> read is Err
            &&& items.len() >= 4 ==> {
                let entries = read->Ok_0->0;
                &&& lookup(entries, "file"@) == Some(items[0])
                &&& lookup(entries, "rotation_after_seconds"@) == Some(items[1])
                &&& lookup(entries, "rotation_after_size_mb"@) == Some(items[2])
                &&& lookup(entries, "keep_history_count"@) == Some(items[3])
            }
        }),
        ({
            let read = section_of(Some(value), field, Section::DebugUpdate);
            &&& items.len() < 1 <==> read is Err
            &&& items.len() >= 1 ==> lookup(read->Ok_0->0, "prefix"@) == Some(items[0])
            &&& items.len() == 1 ==> lookup(read->Ok_0->0, "update"@) is None
            &&& items.len() >= 2 ==> lookup(read->Ok_0->0, "update"@) == Some(items[1])
        }),
        ({
            let read = section_of(Some(value), field, Section::DebugUpdateTargets);
            &&& items.len() < 2 <==> read is Err
            &&& items.len() >= 2 ==> lookup(read->Ok_0->0, "vscode"@) == Some(items[0]) && lookup(
                read->Ok_0->0,
                "zed"@,
            ) == Some(items[1])
        }),
        ({
            let env = section_of(Some(value), field, Section::Env);
            let watch = section_of(Some(value), field, Section::Watch);
            let history = section_of(Some(value), field, Section::RunHistory);
            let restart = section_of(Some(value), field, Section::Restart);
            &&& items.len() == 0 ==> env is Err && watch is Err && history is Err && restart is Err
            &&& items.len() > 0 ==> {
                &&& lookup(env->Ok_0->0, "read_env_file"@) == Some(items[0])
                &&& lookup(watch->Ok_0->0, "stability_seconds"@) == Some(items[0])
                &&& lookup(history->Ok_0->0, "keep_runs"@) == Some(items[0])
                &&& lookup(restart->Ok_0->0, "type"@) == Some(items[0])
            }
        }),
{
    reveal_strlit("file");
    reveal_strlit("rotation_after_seconds");
    reveal_strlit("rotation_after_size_mb");
    reveal_strlit("keep_history_count");
    reveal_strlit("prefix");
    reveal_strlit("update");
    reveal_strlit("vscode");
    reveal_strlit("zed");
    assert("file"@.len() == 4 && "keep_history_count"@.len() == 18);
    assert("rotation_after_seconds"@[15] == 's' && "rotation_after_seconds"@[16] == 'e');
    assert("rotation_after_size_mb"@[16] == 'i');
    assert("rotation_after_seconds"@.len() == 22 && "rotation_after_size_mb"@.len() == 22);
    assert("prefix"@[0] == 'p' && "update"@[0] == 'u');
    assert("vscode"@.len() == 6 && "zed"@.len() == 3);
    reveal_with_fuel(lookup, 5);
    if items.len() >= 4 {
        let entries = section_of(Some(value), field, Section::Log)->Ok_0->0;
        let three = entries.drop_last();
        let two = three.drop_last();
        let one = two.drop_last();
        assert(entries.len() == 4 && three.len() == 3 && two.len() == 2 && one.len() == 1);
        assert(entries.last() == ("keep_history_count"@, items[3]));
        assert(three.last() == ("rotation_after_size_mb"@, items[2]));
        assert(two.last() == ("rotation_after_seconds"@, items[1]));
        assert(one.last() == ("file"@, items[0]));
    }
    if items.len() >= 2 {
        let update = section_of(Some(value), field, Section::DebugUpdate)->Ok_0->0;
        assert(update.last() == ("update"@, items[1]));
        assert(update.drop_last().last() == ("prefix"@, items[0]));
        let files = section_of(Some(value), field, Section::DebugUpdateTargets)->Ok_0->0;
        assert(files.last() == ("zed"@, items[1]));
        assert(files.drop_last().last() == ("vscode"@, items[0]));
    }
    if items.len() == 1 {
        let update = section_of(Some(value), field, Section::DebugUpdate)->Ok_0->0;
        assert(update.len() == 1);
        assert(update.last() == ("prefix"@, items[0]));
        assert(update.drop_last().len() == 0);
    }
    if items.len() > 0 {
        let env = section_of(Some(value), field, Section::Env)->Ok_0->0;
        let watch = section_of(Some(value), field, Section::Watch)->Ok_0->0;
        let history = section_of(Some(value), field, Section::RunHistory)->Ok_0->0;
        let restart = section_of(Some(value), field, Section::Restart)->Ok_0->0;
        assert(env.len() == 1 && watch.len() == 1 && history.len() == 1 && restart.len() == 1);
        assert(env.last() == ("read_env_file"@, items[0]));
        assert(watch.last() == ("stability_seconds"@, items[0]));
        assert(history.last() == ("keep_runs"@, items[0]));
        assert(restart.last() == ("type"@, items[0]));
    }
}

/// A value of the wrong type is refused, and the refusal names the field.
pub proof fn wrong_type_is_refused(value: ConfigValueView, field: Seq<char>, section: Section)
    ensures
        text_of(Some(value), field) is Err <==> !(value.data is Text),
        flag_of(Some(value), field) is Err <==> !(value.data is Boolean),
        table_of(Some(value), field) is Err <==> !(value.data is Table),
        count_of(Some(value), field) is Err <==> !(value.data matches ConfigDataView::Integer(
            number,
        ) && 0 <= number <= usize::MAX),
        number_of(Some(value), field, u64::MAX as nat) is Err <==> !(value.data matches
            ConfigDataView::Integer(number) && 0 <= number),
        !(value.data is Table) && !(value.data is Array) ==> section_of(
            Some(value),
            field,
            section,
        ) is Err,
        text_of(Some(value), field) matches Err(message) ==> occurs_in(message, field),
        flag_of(Some(value), field) matches Err(message) ==> occurs_in(message, field),
        table_of(Some(value), field) matches Err(message) ==> occurs_in(message, field),
        count_of(Some(value), field) matches Err(message) ==> occurs_in(message, field),
        number_of(Some(value), field, u64::MAX as nat) matches Err(message) ==> occurs_in(
            message,
            field,
        ),
        section_of(Some(value), field, section) matches Err(message) ==> occurs_in(
            message,
            field,
        ),
        list_of(Some(value), field) matches Err(message) ==> occurs_in(message, field),
{
    lemma_mismatch(field, "a string"@);
    lemma_mismatch(field, "a natural number"@);
    lemma_mismatch(field, "a boolean"@);
    lemma_mismatch(field, "a table"@);
    lemma_mismatch(field, "an item for each field"@);
    lemma_mismatch(field, "a list of target names or a comma-separated string"@);
}

proof fn lemma_mismatch(field: Seq<char>, wanted: Seq<char>)
    ensures
        occurs_in(mismatch_spec(field, wanted), field),
{
    let rest = "`, expected "@ + wanted;
    assert("invalid type for `"@ + field + rest =~= mismatch_spec(field, wanted));
    part_occurs("invalid type for `"@, field, rest);
}

/// Targets that end unexpectedly are restarted after growing delays, whatever the document writes.
pub proof fn restarts_wait_longer_and_longer(
    base: Seq<char>,
    base_is_dir: bool,
    document: ConfigValueView,
)
    ensures
        document_config(base, base_is_dir, Ok(document)) matches Ok(config)
            ==> config.restart.strategy == RestartStrategy::Backoff,
{
}

} // verus!
