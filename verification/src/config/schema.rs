//! The shape of a configuration document.

use vstd::prelude::*;

use crate::config::raw::{
    RawConfig, RawConfigView, RawDebugUpdateConfig, RawDebugUpdateConfigView,
    RawDebugUpdateTargets, RawDebugUpdateTargetsView, RawEnvConfig, RawEnvConfigView,
    RawLogConfig, RawLogConfigView, RawPortConfig, RawPortConfigView, RawRestartConfig,
    RawRestartConfigView, RawRunHistoryConfig, RawRunHistoryConfigView, RawTarget, RawTargetView,
    RawWatchConfig, RawWatchConfigView, TargetList,
};
use crate::config::value::{
    find, lemma_value_view, ConfigData, ConfigDataView, ConfigValue, ConfigValueView,
};
use crate::names::{lookup, put, NameMap};
use crate::parts::{split, split_spec};
use crate::text::{is_empty, same, trim, trim_spec};
use crate::views::{outcome, Duplicate};

verus! {

// ---------------------------------------------------------------------------
// Fields
// ---------------------------------------------------------------------------

/// What is said of a field whose value has the wrong type.
pub open spec fn mismatch_spec(field: Seq<char>, wanted: Seq<char>) -> Seq<char> {
    "invalid type for `"@ + field + "`, expected "@ + wanted
}

fn mismatch(field: &str, wanted: &str) -> (r: String)
    ensures
        r@ == mismatch_spec(field@, wanted@),
{
    let mut r: String = "invalid type for `".to_owned();
    r.append(field);
    r.append("`, expected ");
    r.append(wanted);
    r
}

/// The name of a field, with the table that holds it in front.
pub open spec fn field_spec(place: Seq<char>, name: Seq<char>) -> Seq<char> {
    place + "."@ + name
}

fn field(place: &str, name: &str) -> (r: String)
    ensures
        r@ == field_spec(place@, name@),
{
    let mut r: String = place.to_owned();
    r.append(".");
    r.append(name);
    r
}

/// An optional text.
pub open spec fn text_of(value: Option<ConfigValueView>, field: Seq<char>) -> Result<
    Option<Seq<char>>,
    Seq<char>,
> {
    match value {
        None => Ok(None),
        Some(v) => match v.data {
            ConfigDataView::Text(text) => Ok(Some(text)),
            _ => Err(mismatch_spec(field, "a string"@)),
        },
    }
}

fn read_text(value: Option<&ConfigValue>, field: &str) -> (r: Result<Option<String>, String>)
    ensures
        outcome(r) == text_of(value.deep_view(), field@),
{
    match value {
        None => Ok(None),
        Some(v) => match &v.data {
            ConfigData::Text(text) => Ok(Some(text.clone())),
            _ => Err(mismatch(field, "a string")),
        },
    }
}

/// An optional number from zero to `max`.
pub open spec fn number_of(value: Option<ConfigValueView>, field: Seq<char>, max: nat) -> Result<
    Option<u64>,
    Seq<char>,
> {
    match value {
        None => Ok(None),
        Some(v) => match v.data {
            ConfigDataView::Integer(number) => if 0 <= number <= max {
                Ok(Some(number as u64))
            } else {
                Err(mismatch_spec(field, "a natural number"@))
            },
            _ => Err(mismatch_spec(field, "a natural number"@)),
        },
    }
}

fn read_number(value: Option<&ConfigValue>, field: &str, max: u64) -> (r: Result<
    Option<u64>,
    String,
>)
    ensures
        outcome(r) == number_of(value.deep_view(), field@, max as nat),
        r matches Ok(Some(n)) ==> n <= max,
{
    match value {
        None => Ok(None),
        Some(v) => match &v.data {
            ConfigData::Integer(number) => {
                if *number >= 0 && (*number as u64) <= max {
                    Ok(Some(*number as u64))
                } else {
                    Err(mismatch(field, "a natural number"))
                }
            },
            _ => Err(mismatch(field, "a natural number")),
        },
    }
}

/// An optional number that counts things in memory.
pub open spec fn count_of(value: Option<ConfigValueView>, field: Seq<char>) -> Result<
    Option<usize>,
    Seq<char>,
> {
    match number_of(value, field, usize::MAX as nat) {
        Err(error) => Err(error),
        Ok(None) => Ok(None),
        Ok(Some(number)) => Ok(Some(number as usize)),
    }
}

fn read_count(value: Option<&ConfigValue>, field: &str) -> (r: Result<Option<usize>, String>)
    ensures
        outcome(r) == count_of(value.deep_view(), field@),
{
    match read_number(value, field, usize::MAX as u64) {
        Err(error) => Err(error),
        Ok(None) => Ok(None),
        Ok(Some(number)) => Ok(Some(number as usize)),
    }
}

/// An optional flag.
pub open spec fn flag_of(value: Option<ConfigValueView>, field: Seq<char>) -> Result<
    Option<bool>,
    Seq<char>,
> {
    match value {
        None => Ok(None),
        Some(v) => match v.data {
            ConfigDataView::Boolean(flag) => Ok(Some(flag)),
            _ => Err(mismatch_spec(field, "a boolean"@)),
        },
    }
}

fn read_flag(value: Option<&ConfigValue>, field: &str) -> (r: Result<Option<bool>, String>)
    ensures
        outcome(r) == flag_of(value.deep_view(), field@),
{
    match value {
        None => Ok(None),
        Some(v) => match &v.data {
            ConfigData::Boolean(flag) => Ok(Some(*flag)),
            _ => Err(mismatch(field, "a boolean")),
        },
    }
}

/// An optional table.
pub open spec fn table_of(value: Option<ConfigValueView>, field: Seq<char>) -> Result<
    Option<Seq<(Seq<char>, ConfigValueView)>>,
    Seq<char>,
> {
    match value {
        None => Ok(None),
        Some(v) => match v.data {
            ConfigDataView::Table(entries) => Ok(Some(entries)),
            _ => Err(mismatch_spec(field, "a table"@)),
        },
    }
}

fn read_table<'a>(value: Option<&'a ConfigValue>, field: &str) -> (r: Result<
    Option<&'a Vec<(String, ConfigValue)>>,
    String,
>)
    ensures
        outcome(r) == table_of(value.deep_view(), field@),
{
    match value {
        None => Ok(None),
        Some(v) => {
            proof {
                lemma_value_view(*v);
            }
            match &v.data {
                ConfigData::Table(entries) => Ok(Some(entries)),
                _ => Err(mismatch(field, "a table")),
            }
        },
    }
}

// ---------------------------------------------------------------------------
// Lists of names
// ---------------------------------------------------------------------------

/// The trimmed parts that are not empty.
pub open spec fn trimmed_parts(parts: Seq<Seq<char>>) -> Seq<Seq<char>>
    decreases parts.len(),
{
    if parts.len() == 0 {
        Seq::empty()
    } else if trim_spec(parts.last()).len() == 0 {
        trimmed_parts(parts.drop_last())
    } else {
        trimmed_parts(parts.drop_last()).push(trim_spec(parts.last()))
    }
}

/// The texts of an array that hold more than white space, or nothing where an item is no text.
pub open spec fn texts_of(items: Seq<ConfigValueView>) -> Option<Seq<Seq<char>>>
    decreases items.len(),
{
    if items.len() == 0 {
        Some(Seq::empty())
    } else {
        match (texts_of(items.drop_last()), items.last().data) {
            (Some(texts), ConfigDataView::Text(text)) => if trim_spec(text).len() == 0 {
                Some(texts)
            } else {
                Some(texts.push(text))
            },
            _ => None,
        }
    }
}

/// A list of names: an array of texts, or one text with commas between the names.
pub open spec fn list_of(value: Option<ConfigValueView>, field: Seq<char>) -> Result<
    Seq<Seq<char>>,
    Seq<char>,
> {
    match value {
        None => Ok(Seq::empty()),
        Some(v) => match v.data {
            ConfigDataView::Text(text) => Ok(trimmed_parts(split_spec(text, ','))),
            ConfigDataView::Array(items) => match texts_of(items) {
                Some(texts) => Ok(texts),
                None => Err(
                    mismatch_spec(field, "a list of target names or a comma-separated string"@),
                ),
            },
            _ => Err(mismatch_spec(field, "a list of target names or a comma-separated string"@)),
        },
    }
}

fn split_names(text: &str) -> (names: Vec<String>)
    ensures
        names.deep_view() == trimmed_parts(split_spec(text@, ',')),
{
    let parts: Vec<String> = split(text, ',');
    let mut names: Vec<String> = Vec::new();
    let mut i: usize = 0;
    assert(parts.deep_view().take(0) =~= Seq::empty());
    assert(names.deep_view() =~= Seq::empty());
    while i < parts.len()
        invariant
            i <= parts@.len(),
            names.deep_view() == trimmed_parts(parts.deep_view().take(i as int)),
        decreases parts@.len() - i,
    {
        let ghost before = names.deep_view();
        let part: String = trim(parts[i].as_str());
        assert(parts.deep_view().take(i + 1).drop_last() =~= parts.deep_view().take(i as int));
        if !is_empty(part.as_str()) {
            let ghost shown = part@;
            names.push(part);
            assert(names.deep_view() =~= before.push(shown));
        }
        i = i + 1;
    }
    assert(parts.deep_view().take(i as int) =~= parts.deep_view());
    names
}

fn array_names(items: &Vec<ConfigValue>) -> (r: Option<Vec<String>>)
    ensures
        r.deep_view() == texts_of(items.deep_view()),
{
    let mut names: Vec<String> = Vec::new();
    let mut sound: bool = true;
    let mut i: usize = 0;
    assert(items.deep_view().take(0) =~= Seq::empty());
    assert(names.deep_view() =~= Seq::empty());
    while i < items.len()
        invariant
            i <= items@.len(),
            texts_of(items.deep_view().take(i as int)) == (if sound {
                Some(names.deep_view())
            } else {
                None
            }),
        decreases items@.len() - i,
    {
        let ghost before = names.deep_view();
        assert(items.deep_view().take(i + 1).drop_last() =~= items.deep_view().take(i as int));
        match &items[i].data {
            ConfigData::Text(text) => {
                if !is_empty(trim(text.as_str()).as_str()) {
                    names.push(text.clone());
                    assert(names.deep_view() =~= before.push(text@));
                }
            },
            _ => {
                sound = false;
            },
        }
        i = i + 1;
    }
    assert(items.deep_view().take(i as int) =~= items.deep_view());
    if sound {
        Some(names)
    } else {
        None
    }
}

fn read_list(value: Option<&ConfigValue>, field: &str) -> (r: Result<TargetList, String>)
    ensures
        outcome(r) == list_of(value.deep_view(), field@),
{
    match value {
        None => {
            let names: Vec<String> = Vec::new();
            assert(names.deep_view() =~= Seq::empty());
            Ok(TargetList(names))
        },
        Some(v) => {
            proof {
                lemma_value_view(*v);
            }
            match &v.data {
                ConfigData::Text(text) => Ok(TargetList(split_names(text.as_str()))),
                ConfigData::Array(items) => match array_names(items) {
                    Some(names) => Ok(TargetList(names)),
                    None => Err(
                        mismatch(field, "a list of target names or a comma-separated string"),
                    ),
                },
                _ => Err(mismatch(field, "a list of target names or a comma-separated string")),
            }
        },
    }
}

// ---------------------------------------------------------------------------
// Properties
// ---------------------------------------------------------------------------

/// Whether a name of a target's table has a meaning of its own.
pub open spec fn target_field(name: Seq<char>) -> bool {
    ||| name == "type"@
    ||| name == "kind"@
    ||| name == "targets"@
    ||| name == "env"@
    ||| name == "port"@
    ||| name == "timeout_seconds"@
    ||| name == "watch"@
}

/// Whether a name of a port's table has a meaning of its own.
pub open spec fn port_field(name: Seq<char>) -> bool {
    ||| name == "type"@
    ||| name == "auto"@
    ||| name == "auto_range"@
    ||| name == "fixed"@
}

/// Which names of a table count as its properties.
pub enum Properties {
    /// Every name.
    All,
    /// The names of a target's table that have no meaning of their own.
    OfTarget,
    /// The names of a port's table that have no meaning of their own.
    OfPort,
}

/// Whether a name counts as a property.
pub open spec fn is_property(kind: Properties, name: Seq<char>) -> bool {
    match kind {
        Properties::All => true,
        Properties::OfTarget => !target_field(name),
        Properties::OfPort => !port_field(name),
    }
}

/// The properties of a table.
pub open spec fn properties_of(
    entries: Seq<(Seq<char>, ConfigValueView)>,
    kind: Properties,
) -> Seq<(Seq<char>, ConfigValueView)>
    decreases entries.len(),
{
    if entries.len() == 0 {
        Seq::empty()
    } else if is_property(kind, entries.last().0) {
        put(properties_of(entries.drop_last(), kind), entries.last().0, entries.last().1)
    } else {
        properties_of(entries.drop_last(), kind)
    }
}

fn counts(kind: &Properties, name: &str) -> (r: bool)
    ensures
        r == is_property(*kind, name@),
{
    match kind {
        Properties::All => true,
        Properties::OfTarget => !(same(name, "type") || same(name, "kind") || same(name, "targets")
            || same(name, "env") || same(name, "port") || same(name, "timeout_seconds") || same(
            name,
            "watch",
        )),
        Properties::OfPort => !(same(name, "type") || same(name, "auto") || same(name, "auto_range")
            || same(name, "fixed")),
    }
}

fn read_properties(entries: &Vec<(String, ConfigValue)>, kind: Properties) -> (r: NameMap<
    ConfigValue,
>)
    ensures
        r.deep_view() == properties_of(entries.deep_view(), kind),
{
    let mut r: NameMap<ConfigValue> = NameMap::new();
    let mut i: usize = 0;
    assert(entries.deep_view().take(0) =~= Seq::empty());
    while i < entries.len()
        invariant
            i <= entries@.len(),
            r.deep_view() == properties_of(entries.deep_view().take(i as int), kind),
        decreases entries@.len() - i,
    {
        assert(entries.deep_view().take(i + 1).drop_last() =~= entries.deep_view().take(i as int));
        if counts(&kind, entries[i].0.as_str()) {
            let _ = r.insert(entries[i].0.clone(), entries[i].1.duplicate());
        }
        i = i + 1;
    }
    assert(entries.deep_view().take(i as int) =~= entries.deep_view());
    r
}

/// The entries of an optional table; none where the table is missing.
pub open spec fn entries_of(table: Option<Seq<(Seq<char>, ConfigValueView)>>) -> Seq<
    (Seq<char>, ConfigValueView),
> {
    match table {
        Some(entries) => entries,
        None => Seq::empty(),
    }
}

fn find_in<'a>(table: &'a Option<Vec<(String, ConfigValue)>>, name: &str) -> (r: Option<
    &'a ConfigValue,
>)
    ensures
        r.deep_view() == lookup(entries_of(table.deep_view()), name@),
{
    match table {
        Some(entries) => find(entries, name),
        None => None,
    }
}

// ---------------------------------------------------------------------------
// Sections
// ---------------------------------------------------------------------------

/// The sections with fixed fields.
#[derive(Debug, Clone, Copy, PartialEq, Eq, Structural)]
pub enum Section {
    Log,
    Restart,
    Env,
    DebugUpdate,
    DebugUpdateTargets,
    Watch,
    RunHistory,
}

/// The fields of a section, in their order.
pub open spec fn section_fields(section: Section) -> Seq<Seq<char>> {
    match section {
        Section::Log => seq![
            "file"@,
            "rotation_after_seconds"@,
            "rotation_after_size_mb"@,
            "keep_history_count"@,
        ],
        Section::Restart => seq!["type"@],
        Section::Env => seq!["read_env_file"@],
        Section::DebugUpdate => seq!["prefix"@, "update"@],
        Section::DebugUpdateTargets => seq!["vscode"@, "zed"@],
        Section::Watch => seq!["stability_seconds"@],
        Section::RunHistory => seq!["keep_runs"@],
    }
}

/// How many fields must be there where a section is written as an array: all, but for the last of
/// `debug-update`.
pub open spec fn fields_needed(section: Section) -> nat {
    match section {
        Section::DebugUpdate => 1,
        _ => section_fields(section).len(),
    }
}

/// Fields with the items of an array, one after the other. Items beyond the fields are dropped.
pub open spec fn in_field_order(fields: Seq<Seq<char>>, items: Seq<ConfigValueView>) -> Seq<
    (Seq<char>, ConfigValueView),
> {
    Seq::new(
        if fields.len() <= items.len() {
            fields.len()
        } else {
            items.len()
        },
        |i: int| (fields[i], items[i]),
    )
}

/// An optional section: a table, or an array with the fields in their order.
pub open spec fn section_of(
    value: Option<ConfigValueView>,
    field: Seq<char>,
    section: Section,
) -> Result<Option<Seq<(Seq<char>, ConfigValueView)>>, Seq<char>> {
    match value {
        None => Ok(None),
        Some(v) => match v.data {
            ConfigDataView::Table(entries) => Ok(Some(entries)),
            ConfigDataView::Array(items) => if items.len() < fields_needed(section) {
                Err(mismatch_spec(field, "an item for each field"@))
            } else {
                Ok(Some(in_field_order(section_fields(section), items)))
            },
            _ => Err(mismatch_spec(field, "a table"@)),
        },
    }
}

fn fields_of(section: Section) -> (r: Vec<String>)
    ensures
        r.deep_view() == section_fields(section),
{
    let mut r: Vec<String> = Vec::new();
    match section {
        Section::Log => {
            r.push("file".to_owned());
            r.push("rotation_after_seconds".to_owned());
            r.push("rotation_after_size_mb".to_owned());
            r.push("keep_history_count".to_owned());
        },
        Section::Restart => {
            r.push("type".to_owned());
        },
        Section::Env => {
            r.push("read_env_file".to_owned());
        },
        Section::DebugUpdate => {
            r.push("prefix".to_owned());
            r.push("update".to_owned());
        },
        Section::DebugUpdateTargets => {
            r.push("vscode".to_owned());
            r.push("zed".to_owned());
        },
        Section::Watch => {
            r.push("stability_seconds".to_owned());
        },
        Section::RunHistory => {
            r.push("keep_runs".to_owned());
        },
    }
    assert(r.deep_view() =~= section_fields(section));
    r
}

fn pair_fields(fields: &Vec<String>, items: &Vec<ConfigValue>) -> (r: Vec<(String, ConfigValue)>)
    ensures
        r.deep_view() == in_field_order(fields.deep_view(), items.deep_view()),
{
    let ghost all = in_field_order(fields.deep_view(), items.deep_view());
    let mut r: Vec<(String, ConfigValue)> = Vec::new();
    let mut i: usize = 0;
    assert(r.deep_view() =~= all.take(0));
    while i < fields.len() && i < items.len()
        invariant
            i <= fields@.len(),
            i <= items@.len(),
            all == in_field_order(fields.deep_view(), items.deep_view()),
            r.deep_view() == all.take(i as int),
        decreases fields@.len() - i,
    {
        let ghost before = r.deep_view();
        let name: String = fields[i].clone();
        let value: ConfigValue = items[i].duplicate();
        assert(all[i as int] == (name@, value.deep_view()));
        r.push((name, value));
        assert(r.deep_view() =~= before.push(all[i as int]));
        assert(all.take(i + 1) =~= all.take(i as int).push(all[i as int]));
        i = i + 1;
    }
    assert(all.take(i as int) =~= all);
    r
}

fn read_section(value: Option<&ConfigValue>, field: &str, section: Section) -> (r: Result<
    Option<Vec<(String, ConfigValue)>>,
    String,
>)
    ensures
        outcome(r) == section_of(value.deep_view(), field@, section),
{
    match value {
        None => Ok(None),
        Some(v) => {
            proof {
                lemma_value_view(*v);
            }
            match &v.data {
                ConfigData::Table(entries) => Ok(Some(entries.duplicate())),
                ConfigData::Array(items) => {
                    let fields: Vec<String> = fields_of(section);
                    let needed: usize = match section {
                        Section::DebugUpdate => 1,
                        _ => fields.len(),
                    };
                    assert(needed == fields_needed(section)) by {
                        assert(fields@.len() == fields.deep_view().len());
                    }
                    if items.len() < needed {
                        Err(mismatch(field, "an item for each field"))
                    } else {
                        Ok(Some(pair_fields(&fields, items)))
                    }
                },
                _ => Err(mismatch(field, "a table")),
            }
        },
    }
}

/// The `log` section.
pub open spec fn raw_log(root: Seq<(Seq<char>, ConfigValueView)>) -> Result<
    RawLogConfigView,
    Seq<char>,
> {
    let table = section_of(lookup(root, "log"@), "log"@, Section::Log);
    let t = entries_of(table->Ok_0);
    let file = text_of(lookup(t, "file"@), "log.file"@);
    let after = number_of(
        lookup(t, "rotation_after_seconds"@),
        "log.rotation_after_seconds"@,
        u64::MAX as nat,
    );
    let size = number_of(
        lookup(t, "rotation_after_size_mb"@),
        "log.rotation_after_size_mb"@,
        u64::MAX as nat,
    );
    let keep = count_of(lookup(t, "keep_history_count"@), "log.keep_history_count"@);
    if table is Err {
        Err(table->Err_0)
    } else if file is Err {
        Err(file->Err_0)
    } else if after is Err {
        Err(after->Err_0)
    } else if size is Err {
        Err(size->Err_0)
    } else if keep is Err {
        Err(keep->Err_0)
    } else {
        Ok(
            RawLogConfigView {
                file: file->Ok_0,
                rotation_after_seconds: after->Ok_0,
                rotation_after_size_mb: size->Ok_0,
                keep_history_count: keep->Ok_0,
            },
        )
    }
}

fn read_log(root: &Vec<(String, ConfigValue)>) -> (r: Result<RawLogConfig, String>)
    ensures
        outcome(r) == raw_log(root.deep_view()),
{
    let table = match read_section(find(root, "log"), "log", Section::Log) {
        Ok(table) => table,
        Err(error) => return Err(error),
    };
    let file = match read_text(find_in(&table, "file"), "log.file") {
        Ok(file) => file,
        Err(error) => return Err(error),
    };
    let after = match read_number(
        find_in(&table, "rotation_after_seconds"),
        "log.rotation_after_seconds",
        u64::MAX,
    ) {
        Ok(after) => after,
        Err(error) => return Err(error),
    };
    let size = match read_number(
        find_in(&table, "rotation_after_size_mb"),
        "log.rotation_after_size_mb",
        u64::MAX,
    ) {
        Ok(size) => size,
        Err(error) => return Err(error),
    };
    match read_count(find_in(&table, "keep_history_count"), "log.keep_history_count") {
        Ok(keep) => Ok(
            RawLogConfig {
                file,
                rotation_after_seconds: after,
                rotation_after_size_mb: size,
                keep_history_count: keep,
            },
        ),
        Err(error) => Err(error),
    }
}

/// The `restart` section.
pub open spec fn raw_restart(root: Seq<(Seq<char>, ConfigValueView)>) -> Result<
    RawRestartConfigView,
    Seq<char>,
> {
    match section_of(lookup(root, "restart"@), "restart"@, Section::Restart) {
        Err(error) => Err(error),
        Ok(table) => match text_of(lookup(entries_of(table), "type"@), "restart.type"@) {
            Err(error) => Err(error),
            Ok(strategy) => Ok(RawRestartConfigView { strategy }),
        },
    }
}

fn read_restart(root: &Vec<(String, ConfigValue)>) -> (r: Result<RawRestartConfig, String>)
    ensures
        outcome(r) == raw_restart(root.deep_view()),
{
    match read_section(find(root, "restart"), "restart", Section::Restart) {
        Err(error) => Err(error),
        Ok(table) => match read_text(find_in(&table, "type"), "restart.type") {
            Err(error) => Err(error),
            Ok(strategy) => Ok(RawRestartConfig { strategy }),
        },
    }
}

/// The `env` section.
pub open spec fn raw_env(root: Seq<(Seq<char>, ConfigValueView)>) -> Result<
    Option<RawEnvConfigView>,
    Seq<char>,
> {
    match section_of(lookup(root, "env"@), "env"@, Section::Env) {
        Err(error) => Err(error),
        Ok(None) => Ok(None),
        Ok(Some(table)) => match text_of(lookup(table, "read_env_file"@), "env.read_env_file"@) {
            Err(error) => Err(error),
            Ok(read_env_file) => Ok(Some(RawEnvConfigView { read_env_file })),
        },
    }
}

fn read_env(root: &Vec<(String, ConfigValue)>) -> (r: Result<Option<RawEnvConfig>, String>)
    ensures
        outcome(r) == raw_env(root.deep_view()),
{
    match read_section(find(root, "env"), "env", Section::Env) {
        Err(error) => Err(error),
        Ok(None) => Ok(None),
        Ok(Some(table)) => match read_text(find(&table, "read_env_file"), "env.read_env_file") {
            Err(error) => Err(error),
            Ok(read_env_file) => Ok(Some(RawEnvConfig { read_env_file })),
        },
    }
}

/// The `debug-update` section.
pub open spec fn raw_debug_update(root: Seq<(Seq<char>, ConfigValueView)>) -> Result<
    Option<RawDebugUpdateConfigView>,
    Seq<char>,
> {
    let table = section_of(lookup(root, "debug-update"@), "debug-update"@, Section::DebugUpdate);
    let t = entries_of(table->Ok_0);
    let prefix = text_of(lookup(t, "prefix"@), "debug-update.prefix"@);
    let update = section_of(
        lookup(t, "update"@),
        "debug-update.update"@,
        Section::DebugUpdateTargets,
    );
    let u = entries_of(update->Ok_0);
    let vscode = text_of(lookup(u, "vscode"@), "debug-update.update.vscode"@);
    let zed = text_of(lookup(u, "zed"@), "debug-update.update.zed"@);
    if table is Err {
        Err(table->Err_0)
    } else if table->Ok_0 is None {
        Ok(None)
    } else if prefix is Err {
        Err(prefix->Err_0)
    } else if update is Err {
        Err(update->Err_0)
    } else if vscode is Err {
        Err(vscode->Err_0)
    } else if zed is Err {
        Err(zed->Err_0)
    } else {
        Ok(
            Some(
                RawDebugUpdateConfigView {
                    prefix: prefix->Ok_0,
                    update: if update->Ok_0 is None {
                        None
                    } else {
                        Some(RawDebugUpdateTargetsView { vscode: vscode->Ok_0, zed: zed->Ok_0 })
                    },
                },
            ),
        )
    }
}

fn read_debug_update(root: &Vec<(String, ConfigValue)>) -> (r: Result<
    Option<RawDebugUpdateConfig>,
    String,
>)
    ensures
        outcome(r) == raw_debug_update(root.deep_view()),
{
    let table = match read_section(find(root, "debug-update"), "debug-update", Section::DebugUpdate) {
        Err(error) => return Err(error),
        Ok(None) => return Ok(None),
        Ok(Some(table)) => table,
    };
    let prefix = match read_text(find(&table, "prefix"), "debug-update.prefix") {
        Ok(prefix) => prefix,
        Err(error) => return Err(error),
    };
    let update = match read_section(
        find(&table, "update"),
        "debug-update.update",
        Section::DebugUpdateTargets,
    ) {
        Ok(update) => update,
        Err(error) => return Err(error),
    };
    let vscode = match read_text(find_in(&update, "vscode"), "debug-update.update.vscode") {
        Ok(vscode) => vscode,
        Err(error) => return Err(error),
    };
    let zed = match read_text(find_in(&update, "zed"), "debug-update.update.zed") {
        Ok(zed) => zed,
        Err(error) => return Err(error),
    };
    let update: Option<RawDebugUpdateTargets> = match update {
        None => None,
        Some(_) => Some(RawDebugUpdateTargets { vscode, zed }),
    };
    Ok(Some(RawDebugUpdateConfig { prefix, update }))
}

/// The `watch` section.
pub open spec fn raw_watch(root: Seq<(Seq<char>, ConfigValueView)>) -> Result<
    Option<RawWatchConfigView>,
    Seq<char>,
> {
    match section_of(lookup(root, "watch"@), "watch"@, Section::Watch) {
        Err(error) => Err(error),
        Ok(None) => Ok(None),
        Ok(Some(table)) => match number_of(
            lookup(table, "stability_seconds"@),
            "watch.stability_seconds"@,
            u64::MAX as nat,
        ) {
            Err(error) => Err(error),
            Ok(stability_seconds) => Ok(Some(RawWatchConfigView { stability_seconds })),
        },
    }
}

fn read_watch(root: &Vec<(String, ConfigValue)>) -> (r: Result<Option<RawWatchConfig>, String>)
    ensures
        outcome(r) == raw_watch(root.deep_view()),
{
    match read_section(find(root, "watch"), "watch", Section::Watch) {
        Err(error) => Err(error),
        Ok(None) => Ok(None),
        Ok(Some(table)) => match read_number(
            find(&table, "stability_seconds"),
            "watch.stability_seconds",
            u64::MAX,
        ) {
            Err(error) => Err(error),
            Ok(stability_seconds) => Ok(Some(RawWatchConfig { stability_seconds })),
        },
    }
}

/// The `run_history` section.
pub open spec fn raw_run_history(root: Seq<(Seq<char>, ConfigValueView)>) -> Result<
    Option<RawRunHistoryConfigView>,
    Seq<char>,
> {
    match section_of(lookup(root, "run_history"@), "run_history"@, Section::RunHistory) {
        Err(error) => Err(error),
        Ok(None) => Ok(None),
        Ok(Some(table)) => match count_of(lookup(table, "keep_runs"@), "run_history.keep_runs"@) {
            Err(error) => Err(error),
            Ok(keep_runs) => Ok(Some(RawRunHistoryConfigView { keep_runs })),
        },
    }
}

fn read_run_history(root: &Vec<(String, ConfigValue)>) -> (r: Result<
    Option<RawRunHistoryConfig>,
    String,
>)
    ensures
        outcome(r) == raw_run_history(root.deep_view()),
{
    match read_section(find(root, "run_history"), "run_history", Section::RunHistory) {
        Err(error) => Err(error),
        Ok(None) => Ok(None),
        Ok(Some(table)) => match read_count(find(&table, "keep_runs"), "run_history.keep_runs") {
            Err(error) => Err(error),
            Ok(keep_runs) => Ok(Some(RawRunHistoryConfig { keep_runs })),
        },
    }
}

// ---------------------------------------------------------------------------
// Targets
// ---------------------------------------------------------------------------

/// One port of a target.
pub open spec fn raw_port(value: ConfigValueView, place: Seq<char>) -> Result<
    RawPortConfigView,
    Seq<char>,
> {
    let table = table_of(Some(value), place);
    let t = entries_of(table->Ok_0);
    let port_type = text_of(lookup(t, "type"@), field_spec(place, "type"@));
    let auto = flag_of(lookup(t, "auto"@), field_spec(place, "auto"@));
    if table is Err {
        Err(table->Err_0)
    } else if port_type is Err {
        Err(port_type->Err_0)
    } else if auto is Err {
        Err(auto->Err_0)
    } else {
        Ok(
            RawPortConfigView {
                port_type: port_type->Ok_0,
                auto: auto->Ok_0,
                auto_range: lookup(t, "auto_range"@),
                fixed: lookup(t, "fixed"@),
                extra: properties_of(t, Properties::OfPort),
            },
        )
    }
}

fn copied(value: Option<&ConfigValue>) -> (r: Option<ConfigValue>)
    ensures
        r.deep_view() == value.deep_view(),
{
    match value {
        Some(v) => Some(v.duplicate()),
        None => None,
    }
}

fn read_port(value: &ConfigValue, place: &str) -> (r: Result<RawPortConfig, String>)
    ensures
        outcome(r) == raw_port(value.deep_view(), place@),
{
    let table = match read_table(Some(value), place) {
        Err(error) => return Err(error),
        Ok(Some(table)) => table,
        Ok(None) => return Err(mismatch(place, "a table")),
    };
    let port_type = match read_text(find(table, "type"), field(place, "type").as_str()) {
        Ok(port_type) => port_type,
        Err(error) => return Err(error),
    };
    match read_flag(find(table, "auto"), field(place, "auto").as_str()) {
        Ok(auto) => Ok(
            RawPortConfig {
                port_type,
                auto,
                auto_range: copied(find(table, "auto_range")),
                fixed: copied(find(table, "fixed")),
                extra: read_properties(table, Properties::OfPort),
            },
        ),
        Err(error) => Err(error),
    }
}

/// The ports of a target.
pub open spec fn raw_ports(entries: Seq<(Seq<char>, ConfigValueView)>, place: Seq<char>) -> Result<
    Seq<(Seq<char>, RawPortConfigView)>,
    Seq<char>,
>
    decreases entries.len(),
{
    if entries.len() == 0 {
        Ok(Seq::empty())
    } else {
        match raw_ports(entries.drop_last(), place) {
            Err(error) => Err(error),
            Ok(ports) => match raw_port(
                entries.last().1,
                field_spec(place, entries.last().0),
            ) {
                Err(error) => Err(error),
                Ok(port) => Ok(put(ports, entries.last().0, port)),
            },
        }
    }
}

proof fn lemma_raw_ports_error(
    entries: Seq<(Seq<char>, ConfigValueView)>,
    place: Seq<char>,
    i: int,
)
    requires
        0 <= i <= entries.len(),
        raw_ports(entries.take(i), place) is Err,
    ensures
        raw_ports(entries, place) == raw_ports(entries.take(i), place),
    decreases entries.len() - i,
{
    if i < entries.len() {
        assert(entries.take(i + 1).drop_last() =~= entries.take(i));
        lemma_raw_ports_error(entries, place, i + 1);
    } else {
        assert(entries.take(i) =~= entries);
    }
}

fn read_ports(entries: &Vec<(String, ConfigValue)>, place: &str) -> (r: Result<
    NameMap<RawPortConfig>,
    String,
>)
    ensures
        outcome(r) == raw_ports(entries.deep_view(), place@),
{
    let mut ports: NameMap<RawPortConfig> = NameMap::new();
    let mut i: usize = 0;
    let ghost list = entries.deep_view();
    assert(list.take(0) =~= Seq::empty());
    while i < entries.len()
        invariant
            i <= entries@.len(),
            list == entries.deep_view(),
            raw_ports(list.take(i as int), place@) == Ok::<_, Seq<char>>(ports.deep_view()),
        decreases entries@.len() - i,
    {
        assert(list.take(i + 1).drop_last() =~= list.take(i as int));
        let name: &String = &entries[i].0;
        match read_port(&entries[i].1, field(place, name.as_str()).as_str()) {
            Ok(port) => {
                let _ = ports.insert(name.clone(), port);
            },
            Err(error) => {
                proof {
                    lemma_raw_ports_error(list, place@, i + 1);
                }
                return Err(error);
            },
        }
        i = i + 1;
    }
    assert(list.take(i as int) =~= list);
    Ok(ports)
}

/// One target.
pub open spec fn raw_target(value: ConfigValueView, place: Seq<char>) -> Result<
    RawTargetView,
    Seq<char>,
> {
    let table = table_of(Some(value), place);
    let t = entries_of(table->Ok_0);
    let target_type = text_of(lookup(t, "type"@), field_spec(place, "type"@));
    let kind = text_of(lookup(t, "kind"@), field_spec(place, "kind"@));
    let targets = list_of(lookup(t, "targets"@), field_spec(place, "targets"@));
    let env = table_of(lookup(t, "env"@), field_spec(place, "env"@));
    let port = table_of(lookup(t, "port"@), field_spec(place, "port"@));
    let ports = raw_ports(entries_of(port->Ok_0), field_spec(place, "port"@));
    let timeout = number_of(
        lookup(t, "timeout_seconds"@),
        field_spec(place, "timeout_seconds"@),
        u64::MAX as nat,
    );
    let watch = list_of(lookup(t, "watch"@), field_spec(place, "watch"@));
    if table is Err {
        Err(table->Err_0)
    } else if target_type is Err {
        Err(target_type->Err_0)
    } else if kind is Err {
        Err(kind->Err_0)
    } else if targets is Err {
        Err(targets->Err_0)
    } else if env is Err {
        Err(env->Err_0)
    } else if port is Err {
        Err(port->Err_0)
    } else if ports is Err {
        Err(ports->Err_0)
    } else if timeout is Err {
        Err(timeout->Err_0)
    } else if watch is Err {
        Err(watch->Err_0)
    } else {
        Ok(
            RawTargetView {
                target_type: target_type->Ok_0,
                kind: kind->Ok_0,
                targets: targets->Ok_0,
                env: properties_of(entries_of(env->Ok_0), Properties::All),
                port: ports->Ok_0,
                timeout_seconds: timeout->Ok_0,
                watch: watch->Ok_0,
                extra: properties_of(t, Properties::OfTarget),
            },
        )
    }
}

fn read_target(value: &ConfigValue, place: &str) -> (r: Result<RawTarget, String>)
    ensures
        outcome(r) == raw_target(value.deep_view(), place@),
{
    let table = match read_table(Some(value), place) {
        Err(error) => return Err(error),
        Ok(Some(table)) => table,
        Ok(None) => return Err(mismatch(place, "a table")),
    };
    let target_type = match read_text(find(table, "type"), field(place, "type").as_str()) {
        Ok(target_type) => target_type,
        Err(error) => return Err(error),
    };
    let kind = match read_text(find(table, "kind"), field(place, "kind").as_str()) {
        Ok(kind) => kind,
        Err(error) => return Err(error),
    };
    let targets = match read_list(find(table, "targets"), field(place, "targets").as_str()) {
        Ok(targets) => targets,
        Err(error) => return Err(error),
    };
    let empty: Vec<(String, ConfigValue)> = Vec::new();
    assert(empty.deep_view() =~= Seq::empty());
    let env = match read_table(find(table, "env"), field(place, "env").as_str()) {
        Ok(Some(env)) => env,
        Ok(None) => &empty,
        Err(error) => return Err(error),
    };
    let port_place: String = field(place, "port");
    let port = match read_table(find(table, "port"), port_place.as_str()) {
        Ok(Some(port)) => port,
        Ok(None) => &empty,
        Err(error) => return Err(error),
    };
    let ports = match read_ports(port, port_place.as_str()) {
        Ok(ports) => ports,
        Err(error) => return Err(error),
    };
    let timeout = match read_number(
        find(table, "timeout_seconds"),
        field(place, "timeout_seconds").as_str(),
        u64::MAX,
    ) {
        Ok(timeout) => timeout,
        Err(error) => return Err(error),
    };
    match read_list(find(table, "watch"), field(place, "watch").as_str()) {
        Ok(watch) => Ok(
            RawTarget {
                target_type,
                kind,
                targets,
                env: read_properties(env, Properties::All),
                port: ports,
                timeout_seconds: timeout,
                watch,
                extra: read_properties(table, Properties::OfTarget),
            },
        ),
        Err(error) => Err(error),
    }
}

/// The targets of a document.
pub open spec fn raw_targets(entries: Seq<(Seq<char>, ConfigValueView)>) -> Result<
    Seq<(Seq<char>, RawTargetView)>,
    Seq<char>,
>
    decreases entries.len(),
{
    if entries.len() == 0 {
        Ok(Seq::empty())
    } else {
        match raw_targets(entries.drop_last()) {
            Err(error) => Err(error),
            Ok(targets) => match raw_target(
                entries.last().1,
                field_spec("target"@, entries.last().0),
            ) {
                Err(error) => Err(error),
                Ok(target) => Ok(put(targets, entries.last().0, target)),
            },
        }
    }
}

proof fn lemma_raw_targets_error(entries: Seq<(Seq<char>, ConfigValueView)>, i: int)
    requires
        0 <= i <= entries.len(),
        raw_targets(entries.take(i)) is Err,
    ensures
        raw_targets(entries) == raw_targets(entries.take(i)),
    decreases entries.len() - i,
{
    if i < entries.len() {
        assert(entries.take(i + 1).drop_last() =~= entries.take(i));
        lemma_raw_targets_error(entries, i + 1);
    } else {
        assert(entries.take(i) =~= entries);
    }
}

fn read_targets(entries: &Vec<(String, ConfigValue)>) -> (r: Result<NameMap<RawTarget>, String>)
    ensures
        outcome(r) == raw_targets(entries.deep_view()),
{
    let mut targets: NameMap<RawTarget> = NameMap::new();
    let mut i: usize = 0;
    let ghost list = entries.deep_view();
    assert(list.take(0) =~= Seq::empty());
    while i < entries.len()
        invariant
            i <= entries@.len(),
            list == entries.deep_view(),
            raw_targets(list.take(i as int)) == Ok::<_, Seq<char>>(targets.deep_view()),
        decreases entries@.len() - i,
    {
        assert(list.take(i + 1).drop_last() =~= list.take(i as int));
        let name: &String = &entries[i].0;
        match read_target(&entries[i].1, field("target", name.as_str()).as_str()) {
            Ok(target) => {
                let _ = targets.insert(name.clone(), target);
            },
            Err(error) => {
                proof {
                    lemma_raw_targets_error(list, i + 1);
                }
                return Err(error);
            },
        }
        i = i + 1;
    }
    assert(list.take(i as int) =~= list);
    Ok(targets)
}

// ---------------------------------------------------------------------------
// The document
// ---------------------------------------------------------------------------

/// The document as it is written, or what is wrong with its shape.
pub open spec fn raw_config(document: ConfigValueView) -> Result<RawConfigView, Seq<char>> {
    let table = table_of(Some(document), "document"@);
    let root = entries_of(table->Ok_0);
    let log = raw_log(root);
    let restart = raw_restart(root);
    let env = raw_env(root);
    let debug_update = raw_debug_update(root);
    let watch = raw_watch(root);
    let run_history = raw_run_history(root);
    let target = table_of(lookup(root, "target"@), "target"@);
    let targets = raw_targets(entries_of(target->Ok_0));
    if table is Err {
        Err(table->Err_0)
    } else if log is Err {
        Err(log->Err_0)
    } else if restart is Err {
        Err(restart->Err_0)
    } else if env is Err {
        Err(env->Err_0)
    } else if debug_update is Err {
        Err(debug_update->Err_0)
    } else if watch is Err {
        Err(watch->Err_0)
    } else if run_history is Err {
        Err(run_history->Err_0)
    } else if target is Err {
        Err(target->Err_0)
    } else if targets is Err {
        Err(targets->Err_0)
    } else {
        Ok(
            RawConfigView {
                log: log->Ok_0,
                restart: restart->Ok_0,
                env: env->Ok_0,
                debug_update: debug_update->Ok_0,
                watch: watch->Ok_0,
                run_history: run_history->Ok_0,
                targets: targets->Ok_0,
            },
        )
    }
}

/// Reads the document into its sections.
pub fn read_raw_config(document: &ConfigValue) -> (r: Result<RawConfig, String>)
    ensures
        outcome(r) == raw_config(document.deep_view()),
{
    let root = match read_table(Some(document), "document") {
        Err(error) => return Err(error),
        Ok(Some(root)) => root,
        Ok(None) => return Err(mismatch("document", "a table")),
    };
    let log = match read_log(root) {
        Ok(log) => log,
        Err(error) => return Err(error),
    };
    let restart = match read_restart(root) {
        Ok(restart) => restart,
        Err(error) => return Err(error),
    };
    let env = match read_env(root) {
        Ok(env) => env,
        Err(error) => return Err(error),
    };
    let debug_update = match read_debug_update(root) {
        Ok(debug_update) => debug_update,
        Err(error) => return Err(error),
    };
    let watch = match read_watch(root) {
        Ok(watch) => watch,
        Err(error) => return Err(error),
    };
    let run_history = match read_run_history(root) {
        Ok(run_history) => run_history,
        Err(error) => return Err(error),
    };
    let empty: Vec<(String, ConfigValue)> = Vec::new();
    assert(empty.deep_view() =~= Seq::empty());
    let target = match read_table(find(root, "target"), "target") {
        Ok(Some(target)) => target,
        Ok(None) => &empty,
        Err(error) => return Err(error),
    };
    match read_targets(target) {
        Ok(targets) => Ok(
            RawConfig { log, restart, env, debug_update, watch, run_history, targets },
        ),
        Err(error) => Err(error),
    }
}

} // verus!
