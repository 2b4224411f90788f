//! Debugger configurations of editors, kept in step with the ports of running targets.

use vstd::prelude::*;

use crate::cli::log_laws::lemma_trim_around;
use crate::config::model::{
    Config, PortDefinition, PortDefinitionView, Target, TargetView, UnitTargetView,
};
use crate::config::value::{
    find, lemma_value_view, ConfigData, ConfigDataView, ConfigValue, ConfigValueView,
};
use crate::json::{
    array, deepest, default_member, is_plain, json_document, json_text, lemma_json_view, member, object,
    read_json, set_member, text_value, with_default, write_json, JsonValue, JsonView,
};
use crate::names::{lemma_lookup_put, lookup, put, NameMap};
use crate::numbers::{decimal, decimal_spec};
use crate::parts::{replace, replace_spec};
use crate::state::{RuntimeState, TargetState, TargetStateView};
use crate::text::{
    is_empty, is_white, same, starts_with, trim, trim_end, trim_end_spec, trim_spec,
};
use crate::views::{outcome, Duplicate};

verus! {

/// The host that debuggers connect to.
pub const DEFAULT_HOST: &'static str = "127.0.0.1";

/// A port of a running target that a debugger can connect to, with the templates of the editors.
#[derive(Debug, PartialEq, Eq)]
pub struct DebugEntry {
    pub target: String,
    pub port_name: String,
    pub port: u16,
    pub vscode: Option<JsonValue>,
    pub zed: Option<JsonValue>,
}

/// What a [`DebugEntry`] stands for.
pub struct DebugEntryView {
    pub target: Seq<char>,
    pub port_name: Seq<char>,
    pub port: u16,
    pub vscode: Option<JsonView>,
    pub zed: Option<JsonView>,
}

impl DeepView for DebugEntry {
    type V = DebugEntryView;

    open spec fn deep_view(&self) -> DebugEntryView {
        DebugEntryView {
            target: self.target.deep_view(),
            port_name: self.port_name.deep_view(),
            port: self.port,
            vscode: self.vscode.deep_view(),
            zed: self.zed.deep_view(),
        }
    }
}

impl Duplicate for DebugEntry {
    fn duplicate(&self) -> (copy: Self) {
        DebugEntry {
            target: self.target.duplicate(),
            port_name: self.port_name.duplicate(),
            port: self.port,
            vscode: self.vscode.duplicate(),
            zed: self.zed.duplicate(),
        }
    }
}

/// The templates for a port of targets with a certain driver.
#[derive(Debug, PartialEq, Eq)]
pub struct DebugEntrySpec {
    pub port_name: String,
    pub vscode: Option<JsonValue>,
    pub zed: Option<JsonValue>,
}

/// What a [`DebugEntrySpec`] stands for.
pub struct DebugEntrySpecView {
    pub port_name: Seq<char>,
    pub vscode: Option<JsonView>,
    pub zed: Option<JsonView>,
}

impl DeepView for DebugEntrySpec {
    type V = DebugEntrySpecView;

    open spec fn deep_view(&self) -> DebugEntrySpecView {
        DebugEntrySpecView {
            port_name: self.port_name.deep_view(),
            vscode: self.vscode.deep_view(),
            zed: self.zed.deep_view(),
        }
    }
}

impl Duplicate for DebugEntrySpec {
    fn duplicate(&self) -> (copy: Self) {
        DebugEntrySpec {
            port_name: self.port_name.duplicate(),
            vscode: self.vscode.duplicate(),
            zed: self.zed.duplicate(),
        }
    }
}

/// The templates of a port.
#[derive(Debug, PartialEq, Eq)]
pub struct DebugTemplates {
    pub vscode: Option<JsonValue>,
    pub zed: Option<JsonValue>,
}

/// What a [`DebugTemplates`] stands for.
pub struct DebugTemplatesView {
    pub vscode: Option<JsonView>,
    pub zed: Option<JsonView>,
}

impl DeepView for DebugTemplates {
    type V = DebugTemplatesView;

    open spec fn deep_view(&self) -> DebugTemplatesView {
        DebugTemplatesView {
            vscode: self.vscode.deep_view(),
            zed: self.zed.deep_view(),
        }
    }
}

impl Duplicate for DebugTemplates {
    fn duplicate(&self) -> (copy: Self) {
        DebugTemplates {
            vscode: self.vscode.duplicate(),
            zed: self.zed.duplicate(),
        }
    }
}

/// What the placeholders of a template stand for.
#[derive(Debug, PartialEq, Eq)]
pub struct PlaceholderContext {
    pub prefix: String,
    pub target: String,
    pub port_name: String,
    pub port: u16,
    pub host: String,
}

/// What a [`PlaceholderContext`] stands for.
pub struct PlaceholderContextView {
    pub prefix: Seq<char>,
    pub target: Seq<char>,
    pub port_name: Seq<char>,
    pub port: u16,
    pub host: Seq<char>,
}

impl DeepView for PlaceholderContext {
    type V = PlaceholderContextView;

    open spec fn deep_view(&self) -> PlaceholderContextView {
        PlaceholderContextView {
            prefix: self.prefix.deep_view(),
            target: self.target.deep_view(),
            port_name: self.port_name.deep_view(),
            port: self.port,
            host: self.host.deep_view(),
        }
    }
}

impl Duplicate for PlaceholderContext {
    fn duplicate(&self) -> (copy: Self) {
        PlaceholderContext {
            prefix: self.prefix.duplicate(),
            target: self.target.duplicate(),
            port_name: self.port_name.duplicate(),
            port: self.port,
            host: self.host.duplicate(),
        }
    }
}

/// Why a file of debugger configurations was not brought up to date.
#[derive(Debug, PartialEq, Eq)]
pub enum DebugUpdateError {
    /// What it holds is not JSON.
    Parse(String),
    /// The configurations could not be written as JSON.
    Write(String),
}

/// What a [`DebugUpdateError`] stands for.
pub enum DebugUpdateErrorView {
    Parse(Seq<char>),
    Write(Seq<char>),
}

impl DeepView for DebugUpdateError {
    type V = DebugUpdateErrorView;

    open spec fn deep_view(&self) -> DebugUpdateErrorView {
        match self {
            DebugUpdateError::Parse(a) => DebugUpdateErrorView::Parse(a.deep_view()),
            DebugUpdateError::Write(a) => DebugUpdateErrorView::Write(a.deep_view()),
        }
    }
}

impl Duplicate for DebugUpdateError {
    fn duplicate(&self) -> (copy: Self) {
        match self {
            DebugUpdateError::Parse(a) => DebugUpdateError::Parse(a.duplicate()),
            DebugUpdateError::Write(a) => DebugUpdateError::Write(a.duplicate()),
        }
    }
}


// ---------------------------------------------------------------------------
// Templates
// ---------------------------------------------------------------------------

/// What a configuration value is as JSON.
pub open spec fn config_json(value: ConfigValueView) -> JsonView
    decreases value,
{
    match value.data {
        ConfigDataView::Text(text) => JsonView::Text(text),
        ConfigDataView::Integer(number) => if number >= 0 {
            JsonView::Unsigned(number as u64)
        } else {
            JsonView::Signed(number)
        },
        ConfigDataView::Boolean(flag) => JsonView::Bool(flag),
        ConfigDataView::Float { plain, json } => match json {
            Some(text) => JsonView::Float(text),
            None => JsonView::Null,
        },
        ConfigDataView::Datetime(text) => JsonView::Text(text),
        ConfigDataView::Array(items) => JsonView::Array(
            Seq::new(
                items.len(),
                |i: int|
                    if 0 <= i < items.len() {
                        config_json(items[i])
                    } else {
                        arbitrary()
                    },
            ),
        ),
        ConfigDataView::Table(entries) => JsonView::Object(members_of(entries)),
    }
}

/// The members that the entries of a table become.
pub open spec fn members_of(
    entries: Seq<(Seq<char>, ConfigValueView)>,
) -> Seq<(Seq<char>, JsonView)>
    decreases entries,
{
    if entries.len() == 0 {
        Seq::empty()
    } else {
        let last = entries[entries.len() - 1];
        put(members_of(entries.drop_last()), last.0, config_json(last.1))
    }
}

proof fn lemma_config_json(value: ConfigValueView)
    ensures
        value.data matches ConfigDataView::Array(items) ==> config_json(value) == JsonView::Array(
            Seq::new(items.len(), |i: int| config_json(items[i])),
        ),
{
    if let ConfigDataView::Array(items) = value.data {
        assert(config_json(value)->Array_0 =~= Seq::new(
            items.len(),
            |i: int| config_json(items[i]),
        ));
    }
}

/// The configuration value as JSON.
pub fn toml_to_json(value: &ConfigValue) -> (r: JsonValue)
    ensures
        r.deep_view() == config_json(value.deep_view()),
    decreases value,
{
    proof {
        lemma_value_view(*value);
        lemma_config_json(value.deep_view());
    }
    match &value.data {
        ConfigData::Text(text) => JsonValue::Text(text.clone()),
        ConfigData::Integer(number) => if *number >= 0 {
            JsonValue::Unsigned(*number as u64)
        } else {
            JsonValue::Signed(*number)
        },
        ConfigData::Boolean(flag) => JsonValue::Bool(*flag),
        ConfigData::Float { plain: _, json } => match json {
            Some(text) => JsonValue::Float(text.clone()),
            None => JsonValue::Null,
        },
        ConfigData::Datetime(text) => JsonValue::Text(text.clone()),
        ConfigData::Array(items) => {
            let mut out: Vec<JsonValue> = Vec::new();
            let mut i: usize = 0;
            while i < items.len()
                invariant
                    i <= items@.len(),
                    out@.len() == i,
                    value.data == ConfigData::Array(*items),
                    forall|k: int|
                        0 <= k < i ==> (#[trigger] out@[k]).deep_view() == config_json(
                            items@[k].deep_view(),
                        ),
                decreases items@.len() - i,
            {
                let item = &items[i];
                assert(decreases_to!(value => value.data));
                assert(decreases_to!(value.data => value.data->Array_0));
                assert(decreases_to!(items => items@[i as int]));
                out.push(toml_to_json(item));
                i = i + 1;
            }
            assert(out.deep_view() =~= Seq::new(
                items.deep_view().len(),
                |i: int| config_json(items.deep_view()[i]),
            ));
            array(out)
        },
        ConfigData::Table(entries) => {
            let mut out: Vec<(String, JsonValue)> = Vec::new();
            let ghost list = entries.deep_view();
            let mut i: usize = 0;
            assert(list.take(0) =~= Seq::empty());
            assert(out.deep_view() =~= Seq::empty());
            while i < entries.len()
                invariant
                    i <= entries@.len(),
                    value.data == ConfigData::Table(*entries),
                    list == entries.deep_view(),
                    out.deep_view() == members_of(list.take(i as int)),
                decreases entries@.len() - i,
            {
                let entry = &entries[i];
                assert(decreases_to!(value => value.data));
                assert(decreases_to!(value.data => value.data->Table_0));
                assert(decreases_to!(entries => entries@[i as int]));
                assert(decreases_to!(entries@[i as int] => entries@[i as int].1));
                assert(list.take(i + 1).drop_last() =~= list.take(i as int));
                assert(list[i as int] == (entry.0@, entry.1.deep_view()));
                assert(list.take(i + 1)[i as int] == list[i as int]);
                set_member(&mut out, entry.0.as_str(), toml_to_json(&entry.1));
                i = i + 1;
            }
            assert(list.take(i as int) =~= list);
            object(out)
        },
    }
}

/// The templates that a port brings with it, under the name `debugger`.
pub open spec fn port_templates(definition: PortDefinitionView) -> Option<DebugTemplatesView> {
    match lookup(definition.properties, "debugger"@) {
        Some(value) => match value.data {
            ConfigDataView::Table(table) => {
                let vscode = lookup(table, "vscode"@);
                let zed = lookup(table, "zed"@);
                if vscode is None && zed is None {
                    None
                } else {
                    Some(
                        DebugTemplatesView {
                            vscode: template(vscode),
                            zed: template(zed),
                        },
                    )
                }
            },
            _ => None,
        },
        None => None,
    }
}

/// A template as JSON, where there is one.
pub open spec fn template(value: Option<ConfigValueView>) -> Option<JsonView> {
    match value {
        Some(value) => Some(config_json(value)),
        None => None,
    }
}

fn template_json(value: Option<&ConfigValue>) -> (r: Option<JsonValue>)
    ensures
        r.deep_view() == template(value.deep_view()),
{
    match value {
        Some(value) => Some(toml_to_json(value)),
        None => None,
    }
}

/// The templates that the port brings with it.
pub fn extract_debug_templates(definition: &PortDefinition) -> (r: Option<DebugTemplates>)
    ensures
        r.deep_view() == port_templates(definition.deep_view()),
{
    match definition.properties.get("debugger") {
        Some(value) => {
            proof {
                lemma_value_view(*value);
            }
            match &value.data {
                ConfigData::Table(table) => {
                    let vscode = find(table, "vscode");
                    let zed = find(table, "zed");
                    if vscode.is_none() && zed.is_none() {
                        return None;
                    }
                    Some(DebugTemplates { vscode: template_json(vscode), zed: template_json(zed) })
                },
                _ => None,
            }
        },
        None => None,
    }
}

/// The part of a Zed template that tells where to connect.
pub open spec fn connection_template() -> JsonView {
    JsonView::Object(
        seq![
            ("host"@, JsonView::Text("{{HOST}}"@)),
            ("port"@, JsonView::Text("{{PORT}}"@)),
        ],
    )
}

/// A Zed template for an adapter.
pub open spec fn zed_template(adapter: Seq<char>) -> JsonView {
    JsonView::Object(
        seq![
            ("adapter"@, JsonView::Text(adapter)),
            ("request"@, JsonView::Text("attach"@)),
            ("tcp_connection"@, connection_template()),
        ],
    )
}

/// The VS Code template for Java.
pub open spec fn java_template() -> JsonView {
    JsonView::Object(
        seq![
            ("hostName"@, JsonView::Text("{{HOST}}"@)),
            ("port"@, JsonView::Text("{{PORT}}"@)),
            ("request"@, JsonView::Text("attach"@)),
            ("type"@, JsonView::Text("java"@)),
        ],
    )
}

/// The VS Code template for Bun.
pub open spec fn bun_template() -> JsonView {
    JsonView::Object(
        seq![
            ("address"@, JsonView::Text("{{HOST}}"@)),
            ("localRoot"@, JsonView::Text("${workspaceFolder}"@)),
            ("port"@, JsonView::Text("{{PORT}}"@)),
            ("remoteRoot"@, JsonView::Text("${workspaceFolder}"@)),
            ("request"@, JsonView::Text("attach"@)),
            ("type"@, JsonView::Text("pwa-node"@)),
        ],
    )
}

/// The templates that come with a driver.
pub open spec fn builtin_specs(driver_type: Seq<char>) -> Option<Seq<DebugEntrySpecView>> {
    if driver_type == "java-spring-boot"@ {
        Some(
            seq![
                DebugEntrySpecView {
                    port_name: "debug"@,
                    vscode: Some(java_template()),
                    zed: Some(zed_template("Java"@)),
                },
            ],
        )
    } else if driver_type == "bun"@ {
        Some(
            seq![
                DebugEntrySpecView {
                    port_name: "debug"@,
                    vscode: Some(bun_template()),
                    zed: Some(zed_template("JavaScript"@)),
                },
            ],
        )
    } else {
        None
    }
}

fn add_text(members: &mut Vec<(String, JsonValue)>, name: &str, text: &str)
    ensures
        final(members).deep_view() == old(members).deep_view().push((name@, JsonView::Text(text@))),
{
    members.push((name.to_owned(), text_value(text)));
    assert(members.deep_view() =~= old(members).deep_view().push((name@, JsonView::Text(text@))));
}

fn new_zed_template(adapter: &str) -> (r: JsonValue)
    ensures
        r.deep_view() == zed_template(adapter@),
{
    let mut connection: Vec<(String, JsonValue)> = Vec::new();
    add_text(&mut connection, "host", "{{HOST}}");
    add_text(&mut connection, "port", "{{PORT}}");
    assert(connection.deep_view() =~= connection_template()->Object_0);
    let mut members: Vec<(String, JsonValue)> = Vec::new();
    add_text(&mut members, "adapter", adapter);
    add_text(&mut members, "request", "attach");
    let ghost before = members.deep_view();
    members.push(("tcp_connection".to_owned(), object(connection)));
    assert(members.deep_view() =~= before.push(("tcp_connection"@, connection_template())));
    assert(members.deep_view() =~= zed_template(adapter@)->Object_0);
    object(members)
}

/// The templates that come with the driver.
pub fn builtin_debug_specs(driver_type: &str) -> (r: Option<Vec<DebugEntrySpec>>)
    ensures
        r.deep_view() == builtin_specs(driver_type@),
{
    let mut members: Vec<(String, JsonValue)> = Vec::new();
    let mut specs: Vec<DebugEntrySpec> = Vec::new();
    if same(driver_type, "java-spring-boot") {
        add_text(&mut members, "hostName", "{{HOST}}");
        add_text(&mut members, "port", "{{PORT}}");
        add_text(&mut members, "request", "attach");
        add_text(&mut members, "type", "java");
        assert(members.deep_view() =~= java_template()->Object_0);
        specs.push(
            DebugEntrySpec {
                port_name: "debug".to_owned(),
                vscode: Some(object(members)),
                zed: Some(new_zed_template("Java")),
            },
        );
        assert(specs.deep_view() =~= builtin_specs(driver_type@)->0);
        return Some(specs);
    }
    if same(driver_type, "bun") {
        assert("bun"@ != "java-spring-boot"@);
        add_text(&mut members, "address", "{{HOST}}");
        add_text(&mut members, "localRoot", "${workspaceFolder}");
        add_text(&mut members, "port", "{{PORT}}");
        add_text(&mut members, "remoteRoot", "${workspaceFolder}");
        add_text(&mut members, "request", "attach");
        add_text(&mut members, "type", "pwa-node");
        assert(members.deep_view() =~= bun_template()->Object_0);
        specs.push(
            DebugEntrySpec {
                port_name: "debug".to_owned(),
                vscode: Some(object(members)),
                zed: Some(new_zed_template("JavaScript")),
            },
        );
        assert(specs.deep_view() =~= builtin_specs(driver_type@)->0);
        return Some(specs);
    }
    None
}

// ---------------------------------------------------------------------------
// Entries
// ---------------------------------------------------------------------------

/// The entries that built-in templates give for a target.
pub open spec fn builtin_entries(
    specs: Seq<DebugEntrySpecView>,
    target: Seq<char>,
    defined: Seq<(Seq<char>, PortDefinitionView)>,
    ports: Seq<(Seq<char>, u16)>,
) -> Seq<DebugEntryView>
    decreases specs.len(),
{
    if specs.len() == 0 {
        Seq::empty()
    } else {
        let front = builtin_entries(specs.drop_last(), target, defined, ports);
        let wanted = specs.last();
        if lookup(defined, wanted.port_name) is Some && lookup(ports, wanted.port_name) is Some {
            front.push(
                DebugEntryView {
                    target,
                    port_name: wanted.port_name,
                    port: lookup(ports, wanted.port_name)->0,
                    vscode: wanted.vscode,
                    zed: wanted.zed,
                },
            )
        } else {
            front
        }
    }
}

/// The entries that the templates of its ports give for a target.
pub open spec fn template_entries(
    defined: Seq<(Seq<char>, PortDefinitionView)>,
    target: Seq<char>,
    ports: Seq<(Seq<char>, u16)>,
) -> Seq<DebugEntryView>
    decreases defined.len(),
{
    if defined.len() == 0 {
        Seq::empty()
    } else {
        let front = template_entries(defined.drop_last(), target, ports);
        let name = defined.last().0;
        let templates = port_templates(defined.last().1);
        if lookup(ports, name) is Some && templates is Some {
            front.push(
                DebugEntryView {
                    target,
                    port_name: name,
                    port: lookup(ports, name)->0,
                    vscode: templates->0.vscode,
                    zed: templates->0.zed,
                },
            )
        } else {
            front
        }
    }
}

/// The entries of a unit that runs with the given ports.
pub open spec fn unit_entries(
    name: Seq<char>,
    unit: UnitTargetView,
    ports: Seq<(Seq<char>, u16)>,
) -> Seq<DebugEntryView> {
    match builtin_specs(unit.driver_type) {
        Some(specs) => builtin_entries(specs, name, unit.ports, ports),
        None => if unit.driver_type == "bash"@ {
            template_entries(unit.ports, name, ports)
        } else {
            Seq::empty()
        },
    }
}

/// The entries of one target: none unless it is a unit that runs.
pub open spec fn target_entries(
    name: Seq<char>,
    state: TargetStateView,
    targets: Seq<(Seq<char>, TargetView)>,
) -> Seq<DebugEntryView> {
    match lookup(targets, name) {
        Some(TargetView::Unit(unit)) => if state.pid is Some {
            unit_entries(name, unit, state.ports)
        } else {
            Seq::empty()
        },
        _ => Seq::empty(),
    }
}

/// The entries of all targets.
pub open spec fn collected(
    states: Seq<(Seq<char>, TargetStateView)>,
    targets: Seq<(Seq<char>, TargetView)>,
) -> Seq<DebugEntryView>
    decreases states.len(),
{
    if states.len() == 0 {
        Seq::empty()
    } else {
        collected(states.drop_last(), targets) + target_entries(
            states.last().0,
            states.last().1,
            targets,
        )
    }
}

fn builtin_target_entries(
    specs: &Vec<DebugEntrySpec>,
    target: &str,
    defined: &NameMap<PortDefinition>,
    ports: &NameMap<u16>,
) -> (r: Vec<DebugEntry>)
    ensures
        r.deep_view() == builtin_entries(
            specs.deep_view(),
            target@,
            defined.deep_view(),
            ports.deep_view(),
        ),
{
    let ghost list = specs.deep_view();
    let mut r: Vec<DebugEntry> = Vec::new();
    let mut i: usize = 0;
    assert(list.take(0) =~= Seq::empty());
    assert(r.deep_view() =~= Seq::empty());
    while i < specs.len()
        invariant
            i <= specs@.len(),
            list == specs.deep_view(),
            r.deep_view() == builtin_entries(
                list.take(i as int),
                target@,
                defined.deep_view(),
                ports.deep_view(),
            ),
        decreases specs@.len() - i,
    {
        assert(list.take(i + 1).drop_last() =~= list.take(i as int));
        assert(specs@[i as int].deep_view() == list[i as int]);
        let entry_spec = &specs[i];
        if defined.contains_key(entry_spec.port_name.as_str()) {
            if let Some(port) = ports.get(entry_spec.port_name.as_str()) {
                let entry = DebugEntry {
                    target: target.to_owned(),
                    port_name: entry_spec.port_name.clone(),
                    port: *port,
                    vscode: entry_spec.vscode.duplicate(),
                    zed: entry_spec.zed.duplicate(),
                };
                let ghost before = r.deep_view();
                r.push(entry);
                assert(r.deep_view() =~= before.push(entry.deep_view()));
            }
        }
        i = i + 1;
    }
    assert(list.take(i as int) =~= list);
    r
}

fn template_target_entries(
    defined: &NameMap<PortDefinition>,
    target: &str,
    ports: &NameMap<u16>,
) -> (r: Vec<DebugEntry>)
    ensures
        r.deep_view() == template_entries(defined.deep_view(), target@, ports.deep_view()),
{
    let ghost list = defined.deep_view();
    let mut r: Vec<DebugEntry> = Vec::new();
    let mut i: usize = 0;
    assert(list.take(0) =~= Seq::empty());
    assert(r.deep_view() =~= Seq::empty());
    while i < defined.len()
        invariant
            i <= list.len(),
            list == defined.deep_view(),
            r.deep_view() == template_entries(list.take(i as int), target@, ports.deep_view()),
        decreases list.len() - i,
    {
        assert(list.take(i + 1).drop_last() =~= list.take(i as int));
        if let Some(port) = ports.get(defined.name_at(i).as_str()) {
            if let Some(templates) = extract_debug_templates(defined.value_at(i)) {
                let entry = DebugEntry {
                    target: target.to_owned(),
                    port_name: defined.name_at(i).clone(),
                    port: *port,
                    vscode: templates.vscode,
                    zed: templates.zed,
                };
                let ghost before = r.deep_view();
                r.push(entry);
                assert(r.deep_view() =~= before.push(entry.deep_view()));
            }
        }
        i = i + 1;
    }
    assert(list.take(i as int) =~= list);
    r
}

fn entries_of_target(name: &str, state: &TargetState, targets: &NameMap<Target>) -> (r: Vec<
    DebugEntry,
>)
    ensures
        r.deep_view() == target_entries(name@, state.deep_view(), targets.deep_view()),
{
    let r: Vec<DebugEntry> = Vec::new();
    assert(r.deep_view() =~= Seq::empty());
    if state.pid.is_none() {
        return r;
    }
    match targets.get(name) {
        Some(Target::Unit(unit)) => match builtin_debug_specs(unit.driver_type.as_str()) {
            Some(specs) => builtin_target_entries(&specs, name, &unit.ports, &state.ports),
            None => if same(unit.driver_type.as_str(), "bash") {
                template_target_entries(&unit.ports, name, &state.ports)
            } else {
                r
            },
        },
        _ => r,
    }
}

/// The ports of running targets that debuggers can connect to, in name order of the targets.
pub fn collect_debug_entries(config: &Config, state: &RuntimeState) -> (r: Vec<DebugEntry>)
    ensures
        r.deep_view() == collected(state.deep_view().targets, config.deep_view().targets),
{
    let ghost list = state.targets.deep_view();
    let mut r: Vec<DebugEntry> = Vec::new();
    let mut i: usize = 0;
    assert(list.take(0) =~= Seq::empty());
    assert(r.deep_view() =~= Seq::empty());
    while i < state.targets.len()
        invariant
            i <= list.len(),
            list == state.targets.deep_view(),
            r.deep_view() == collected(list.take(i as int), config.targets.deep_view()),
        decreases list.len() - i,
    {
        assert(list.take(i + 1).drop_last() =~= list.take(i as int));
        let mut more: Vec<DebugEntry> = entries_of_target(
            state.targets.name_at(i).as_str(),
            state.targets.value_at(i),
            &config.targets,
        );
        let ghost before = r.deep_view();
        let ghost here = more.deep_view();
        r.append(&mut more);
        assert(r.deep_view() =~= before + here);
        i = i + 1;
    }
    assert(list.take(i as int) =~= list);
    r
}

// ---------------------------------------------------------------------------
// Rendering
// ---------------------------------------------------------------------------

/// A text with what its placeholders stand for, one kind of placeholder after the other.
pub open spec fn filled_text(text: Seq<char>, context: PlaceholderContextView) -> Seq<char> {
    let a = replace_spec(text, "{{TARGET}}"@, context.target);
    let b = replace_spec(a, "{{PORT}}"@, decimal_spec(context.port as nat));
    let c = replace_spec(b, "{{PORT_NAME}}"@, context.port_name);
    let d = replace_spec(c, "{{PREFIX}}"@, context.prefix);
    replace_spec(d, "{{HOST}}"@, context.host)
}

/// A template with what its placeholders stand for, in every text that it holds.
pub open spec fn filled(value: JsonView, context: PlaceholderContextView) -> JsonView
    decreases value,
{
    match value {
        JsonView::Text(text) => JsonView::Text(filled_text(text, context)),
        JsonView::Array(items) => JsonView::Array(
            Seq::new(
                items.len(),
                |i: int|
                    if 0 <= i < items.len() {
                        filled(items[i], context)
                    } else {
                        arbitrary()
                    },
            ),
        ),
        JsonView::Object(members) => JsonView::Object(
            Seq::new(
                members.len(),
                |i: int|
                    if 0 <= i < members.len() {
                        (members[i].0, filled(members[i].1, context))
                    } else {
                        arbitrary()
                    },
            ),
        ),
        other => other,
    }
}

fn fill_text(text: &str, context: &PlaceholderContext) -> (r: String)
    ensures
        r@ == filled_text(text@, context.deep_view()),
{
    proof {
        reveal_strlit("{{TARGET}}");
        reveal_strlit("{{PORT}}");
        reveal_strlit("{{PORT_NAME}}");
        reveal_strlit("{{PREFIX}}");
        reveal_strlit("{{HOST}}");
    }
    let a: String = replace(text, "{{TARGET}}", context.target.as_str());
    let b: String = replace(a.as_str(), "{{PORT}}", decimal(context.port as u64).as_str());
    let c: String = replace(b.as_str(), "{{PORT_NAME}}", context.port_name.as_str());
    let d: String = replace(c.as_str(), "{{PREFIX}}", context.prefix.as_str());
    replace(d.as_str(), "{{HOST}}", context.host.as_str())
}

/// The template with what its placeholders stand for, in every text that it holds.
pub fn apply_placeholders(value: &JsonValue, context: &PlaceholderContext) -> (r: JsonValue)
    ensures
        r.deep_view() == filled(value.deep_view(), context.deep_view()),
    decreases value,
{
    proof {
        lemma_json_view(*value);
    }
    match value {
        JsonValue::Text(text) => JsonValue::Text(fill_text(text.as_str(), context)),
        JsonValue::Array(items) => {
            let mut out: Vec<JsonValue> = Vec::new();
            let mut i: usize = 0;
            while i < items.len()
                invariant
                    i <= items@.len(),
                    out@.len() == i,
                    *value == JsonValue::Array(*items),
                    forall|k: int|
                        0 <= k < i ==> (#[trigger] out@[k]).deep_view() == filled(
                            items@[k].deep_view(),
                            context.deep_view(),
                        ),
                decreases items@.len() - i,
            {
                let item = &items[i];
                assert(decreases_to!(*value => value->Array_0));
                assert(decreases_to!(items => items@[i as int]));
                out.push(apply_placeholders(item, context));
                i = i + 1;
            }
            let r = array(out);
            assert(r.deep_view()->Array_0 =~= filled(
                value.deep_view(),
                context.deep_view(),
            )->Array_0);
            r
        },
        JsonValue::Object(members) => {
            let mut out: Vec<(String, JsonValue)> = Vec::new();
            let mut i: usize = 0;
            while i < members.len()
                invariant
                    i <= members@.len(),
                    out@.len() == i,
                    *value == JsonValue::Object(*members),
                    forall|k: int|
                        0 <= k < i ==> (#[trigger] out@[k]).0@ == members@[k].0@
                            && out@[k].1.deep_view() == filled(
                            members@[k].1.deep_view(),
                            context.deep_view(),
                        ),
                decreases members@.len() - i,
            {
                let item = &members[i];
                assert(decreases_to!(*value => value->Object_0));
                assert(decreases_to!(members => members@[i as int]));
                assert(decreases_to!(members@[i as int] => members@[i as int].1));
                out.push((item.0.clone(), apply_placeholders(&item.1, context)));
                i = i + 1;
            }
            let r = object(out);
            assert(r.deep_view()->Object_0 =~= filled(
                value.deep_view(),
                context.deep_view(),
            )->Object_0);
            r
        },
        other => other.duplicate(),
    }
}

/// The label of an entry.
pub open spec fn label_spec(prefix: Seq<char>, target: Seq<char>, port_name: Seq<char>) -> Seq<
    char,
> {
    prefix + " "@ + target + " ("@ + port_name + ")"@
}

/// The label of an entry.
pub fn format_label(prefix: &str, target: &str, port_name: &str) -> (r: String)
    ensures
        r@ == label_spec(prefix@, target@, port_name@),
{
    let mut r: String = prefix.to_owned();
    r.append(" ");
    r.append(target);
    r.append(" (");
    r.append(port_name);
    r.append(")");
    r
}

/// What the placeholders stand for in the templates of an entry.
pub open spec fn context_of(entry: DebugEntryView, prefix: Seq<char>) -> PlaceholderContextView {
    PlaceholderContextView {
        prefix,
        target: entry.target,
        port_name: entry.port_name,
        port: entry.port,
        host: DEFAULT_HOST@,
    }
}

/// The members of a filled template; none where it is no object.
pub open spec fn filled_members(
    template: JsonView,
    entry: DebugEntryView,
    prefix: Seq<char>,
) -> Seq<(Seq<char>, JsonView)> {
    match filled(template, context_of(entry, prefix)) {
        JsonView::Object(members) => members,
        _ => Seq::empty(),
    }
}

/// An entry as VS Code reads it: the template with its name and port, and with the host where the
/// template tells none.
pub open spec fn vscode_entry(entry: DebugEntryView, prefix: Seq<char>) -> Option<JsonView> {
    match entry.vscode {
        Some(template) => {
            let label = label_spec(prefix, entry.target, entry.port_name);
            let host = JsonView::Text(DEFAULT_HOST@);
            let members = filled_members(template, entry, prefix);
            let named = put(members, "name"@, JsonView::Text(label));
            let with_port = put(named, "port"@, JsonView::Unsigned(entry.port as u64));
            Some(
                JsonView::Object(
                    with_default(with_default(with_port, "address"@, host), "host"@, host),
                ),
            )
        },
        None => None,
    }
}

/// Where a Zed entry connects to: the host that the template tells, and always the port.
pub open spec fn connection(
    members: Seq<(Seq<char>, JsonView)>,
    port: u16,
) -> JsonView {
    let told = match lookup(members, "tcp_connection"@) {
        Some(JsonView::Object(tcp)) => tcp,
        _ => Seq::empty(),
    };
    JsonView::Object(
        put(
            with_default(told, "host"@, JsonView::Text(DEFAULT_HOST@)),
            "port"@,
            JsonView::Unsigned(port as u64),
        ),
    )
}

/// An entry as Zed reads it: the template with its label, and where to connect.
pub open spec fn zed_entry(entry: DebugEntryView, prefix: Seq<char>) -> Option<JsonView> {
    match entry.zed {
        Some(template) => {
            let label = label_spec(prefix, entry.target, entry.port_name);
            let members = filled_members(template, entry, prefix);
            let labelled = put(members, "label"@, JsonView::Text(label));
            Some(
                JsonView::Object(
                    put(labelled, "tcp_connection"@, connection(labelled, entry.port)),
                ),
            )
        },
        None => None,
    }
}

fn fill_template(template: &JsonValue, entry: &DebugEntry, prefix: &str) -> (r: Vec<
    (String, JsonValue),
>)
    ensures
        r.deep_view() == filled_members(template.deep_view(), entry.deep_view(), prefix@),
{
    let context = PlaceholderContext {
        prefix: prefix.to_owned(),
        target: entry.target.clone(),
        port_name: entry.port_name.clone(),
        port: entry.port,
        host: DEFAULT_HOST.to_owned(),
    };
    let value = apply_placeholders(template, &context);
    proof {
        lemma_json_view(value);
    }
    match value {
        JsonValue::Object(members) => members,
        _ => {
            let members: Vec<(String, JsonValue)> = Vec::new();
            assert(members.deep_view() =~= Seq::empty());
            members
        },
    }
}

/// The entry as VS Code reads it, where there is a template for it.
pub fn render_vscode_entry(entry: &DebugEntry, prefix: &str) -> (r: Option<JsonValue>)
    ensures
        r.deep_view() == vscode_entry(entry.deep_view(), prefix@),
{
    match &entry.vscode {
        Some(template) => {
            let mut members = fill_template(template, entry, prefix);
            let label = format_label(prefix, entry.target.as_str(), entry.port_name.as_str());
            set_member(&mut members, "name", JsonValue::Text(label));
            set_member(&mut members, "port", JsonValue::Unsigned(entry.port as u64));
            default_member(&mut members, "address", text_value(DEFAULT_HOST));
            default_member(&mut members, "host", text_value(DEFAULT_HOST));
            Some(object(members))
        },
        None => None,
    }
}

/// The entry as Zed reads it, where there is a template for it.
pub fn render_zed_entry(entry: &DebugEntry, prefix: &str) -> (r: Option<JsonValue>)
    ensures
        r.deep_view() == zed_entry(entry.deep_view(), prefix@),
{
    match &entry.zed {
        Some(template) => {
            let mut members = fill_template(template, entry, prefix);
            let label = format_label(prefix, entry.target.as_str(), entry.port_name.as_str());
            set_member(&mut members, "label", JsonValue::Text(label));
            let mut tcp: Vec<(String, JsonValue)> = Vec::new();
            assert(tcp.deep_view() =~= Seq::empty());
            if let Some(told) = member(&members, "tcp_connection") {
                let told = told.duplicate();
                proof {
                    lemma_json_view(told);
                }
                if let JsonValue::Object(inner) = told {
                    tcp = inner;
                }
            }
            default_member(&mut tcp, "host", text_value(DEFAULT_HOST));
            set_member(&mut tcp, "port", JsonValue::Unsigned(entry.port as u64));
            set_member(&mut members, "tcp_connection", object(tcp));
            Some(object(members))
        },
        None => None,
    }
}

/// The entries that an editor has templates for, as it reads them.
pub open spec fn rendered(
    entries: Seq<DebugEntryView>,
    prefix: Seq<char>,
    zed: bool,
) -> Seq<JsonView>
    decreases entries.len(),
{
    if entries.len() == 0 {
        Seq::empty()
    } else {
        let front = rendered(entries.drop_last(), prefix, zed);
        let shown = if zed {
            zed_entry(entries.last(), prefix)
        } else {
            vscode_entry(entries.last(), prefix)
        };
        match shown {
            Some(value) => front.push(value),
            None => front,
        }
    }
}

/// The entries that the editor has templates for, as it reads them.
pub fn render_entries(entries: &Vec<DebugEntry>, prefix: &str, zed: bool) -> (r: Vec<JsonValue>)
    ensures
        r.deep_view() == rendered(entries.deep_view(), prefix@, zed),
{
    let ghost list = entries.deep_view();
    let mut r: Vec<JsonValue> = Vec::new();
    let mut i: usize = 0;
    assert(list.take(0) =~= Seq::empty());
    assert(r.deep_view() =~= Seq::empty());
    while i < entries.len()
        invariant
            i <= entries@.len(),
            list == entries.deep_view(),
            r.deep_view() == rendered(list.take(i as int), prefix@, zed),
        decreases entries@.len() - i,
    {
        assert(list.take(i + 1).drop_last() =~= list.take(i as int));
        assert(entries@[i as int].deep_view() == list[i as int]);
        let ghost before = r.deep_view();
        let shown: Option<JsonValue> = if zed {
            render_zed_entry(&entries[i], prefix)
        } else {
            render_vscode_entry(&entries[i], prefix)
        };
        if let Some(value) = shown {
            r.push(value);
            assert(r.deep_view() =~= before.push(value.deep_view()));
        }
        i = i + 1;
    }
    assert(list.take(i as int) =~= list);
    r
}

// ---------------------------------------------------------------------------
// Files
// ---------------------------------------------------------------------------

/// Whether a configuration stays: its name, under `field`, does not start with the prefix.
pub open spec fn stays(value: JsonView, field: Seq<char>, prefix: Seq<char>) -> bool {
    match value {
        JsonView::Object(members) => match lookup(members, field) {
            Some(JsonView::Text(name)) => !prefix.is_prefix_of(name),
            _ => true,
        },
        _ => true,
    }
}

/// The configurations that stay, in order.
pub open spec fn staying(list: Seq<JsonView>, field: Seq<char>, prefix: Seq<char>) -> Seq<JsonView>
    decreases list.len(),
{
    if list.len() == 0 {
        Seq::empty()
    } else if stays(list.last(), field, prefix) {
        staying(list.drop_last(), field, prefix).push(list.last())
    } else {
        staying(list.drop_last(), field, prefix)
    }
}

/// The members of a launch file of VS Code before it is brought up to date.
pub open spec fn launch_members(existing: Option<JsonView>) -> Seq<(Seq<char>, JsonView)> {
    match existing {
        Some(JsonView::Object(members)) => members,
        Some(_) => Seq::empty(),
        None => seq![("version"@, JsonView::Text("0.2.0"@))],
    }
}

/// The configurations among the members of a launch file.
pub open spec fn configurations(members: Seq<(Seq<char>, JsonView)>) -> Seq<JsonView> {
    match lookup(members, "configurations"@) {
        Some(JsonView::Array(items)) => items,
        _ => Seq::empty(),
    }
}

/// A launch file of VS Code with the new entries in place of those that carry the prefix.
pub open spec fn vscode_updated(
    existing: Option<JsonView>,
    prefix: Seq<char>,
    new_entries: Seq<JsonView>,
) -> JsonView {
    let members = launch_members(existing);
    let kept = staying(configurations(members), "name"@, prefix);
    JsonView::Object(put(members, "configurations"@, JsonView::Array(kept + new_entries)))
}

/// The entries of a debug file of Zed before it is brought up to date.
pub open spec fn zed_entries(existing: Option<JsonView>) -> Seq<JsonView> {
    match existing {
        Some(JsonView::Array(items)) => items,
        _ => Seq::empty(),
    }
}

/// A debug file of Zed with the new entries in place of those that carry the prefix.
pub open spec fn zed_updated(
    existing: Option<JsonView>,
    prefix: Seq<char>,
    new_entries: Seq<JsonView>,
) -> JsonView {
    JsonView::Array(staying(zed_entries(existing), "label"@, prefix) + new_entries)
}

fn entry_stays(value: &JsonValue, field: &str, prefix: &str) -> (r: bool)
    ensures
        r == stays(value.deep_view(), field@, prefix@),
{
    proof {
        lemma_json_view(*value);
    }
    match value {
        JsonValue::Object(members) => match member(members, field) {
            Some(JsonValue::Text(name)) => !starts_with(name.as_str(), prefix),
            _ => true,
        },
        _ => true,
    }
}

fn keep_staying(list: &Vec<JsonValue>, field: &str, prefix: &str) -> (r: Vec<JsonValue>)
    ensures
        r.deep_view() == staying(list.deep_view(), field@, prefix@),
{
    let ghost all = list.deep_view();
    let mut r: Vec<JsonValue> = Vec::new();
    let mut i: usize = 0;
    assert(all.take(0) =~= Seq::empty());
    assert(r.deep_view() =~= Seq::empty());
    while i < list.len()
        invariant
            i <= list@.len(),
            all == list.deep_view(),
            r.deep_view() == staying(all.take(i as int), field@, prefix@),
        decreases list@.len() - i,
    {
        assert(all.take(i + 1).drop_last() =~= all.take(i as int));
        assert(list@[i as int].deep_view() == all[i as int]);
        let ghost before = r.deep_view();
        if entry_stays(&list[i], field, prefix) {
            r.push(list[i].duplicate());
            assert(r.deep_view() =~= before.push(all[i as int]));
        }
        i = i + 1;
    }
    assert(all.take(i as int) =~= all);
    r
}

/// The launch file of VS Code with the new entries in place of those that carry the prefix.
pub fn vscode_launch(existing: Option<JsonValue>, prefix: &str, new_entries: Vec<JsonValue>) -> (r:
    JsonValue)
    ensures
        r.deep_view() == vscode_updated(existing.deep_view(), prefix@, new_entries.deep_view()),
{
    let ghost shown = existing.deep_view();
    let ghost new = new_entries.deep_view();
    let mut members: Vec<(String, JsonValue)> = Vec::new();
    assert(members.deep_view() =~= Seq::empty());
    match existing {
        Some(value) => {
            proof {
                lemma_json_view(value);
            }
            if let JsonValue::Object(found) = value {
                members = found;
            }
        },
        None => {
            add_text(&mut members, "version", "0.2.0");
            assert(members.deep_view() =~= launch_members(None));
        },
    }
    assert(members.deep_view() == launch_members(shown));
    let mut kept: Vec<JsonValue> = Vec::new();
    assert(kept.deep_view() =~= Seq::empty());
    if let Some(value) = member(&members, "configurations") {
        proof {
            lemma_json_view(*value);
        }
        if let JsonValue::Array(items) = value {
            kept = keep_staying(items, "name", prefix);
        }
    }
    let ghost stayed = kept.deep_view();
    let mut more: Vec<JsonValue> = new_entries;
    kept.append(&mut more);
    assert(kept.deep_view() =~= stayed + new);
    set_member(&mut members, "configurations", array(kept));
    object(members)
}

/// The debug file of Zed with the new entries in place of those that carry the prefix.
pub fn zed_launch(existing: Option<JsonValue>, prefix: &str, new_entries: Vec<JsonValue>) -> (r:
    JsonValue)
    ensures
        r.deep_view() == zed_updated(existing.deep_view(), prefix@, new_entries.deep_view()),
{
    let ghost new = new_entries.deep_view();
    let mut kept: Vec<JsonValue> = Vec::new();
    assert(kept.deep_view() =~= Seq::empty());
    if let Some(value) = &existing {
        proof {
            lemma_json_view(*value);
        }
        if let JsonValue::Array(items) = value {
            kept = keep_staying(items, "label", prefix);
        }
    }
    let ghost stayed = kept.deep_view();
    let mut more: Vec<JsonValue> = new_entries;
    kept.append(&mut more);
    assert(kept.deep_view() =~= stayed + new);
    array(kept)
}

/// What a file holds: nothing where it is missing or blank.
pub open spec fn existing_json(contents: Option<Seq<char>>) -> Result<
    Option<JsonView>,
    DebugUpdateErrorView,
> {
    match contents {
        Some(text) => if trim_spec(text).len() == 0 {
            Ok(None)
        } else {
            match json_document(text) {
                Ok(value) => Ok(Some(value)),
                Err(message) => Err(DebugUpdateErrorView::Parse(message)),
            }
        },
        None => Ok(None),
    }
}

/// What is to be written to a file, given what it holds and what it should hold. Nothing where
/// they agree but for white space at the end.
pub open spec fn to_write(contents: Option<Seq<char>>, text: Seq<char>) -> Option<Seq<char>> {
    match contents {
        Some(old_text) => if trim_end_spec(old_text) == text {
            None
        } else {
            Some(text + "\n"@)
        },
        None => Some(text + "\n"@),
    }
}

/// What is to be written to a file that should hold a value.
pub open spec fn json_to_write(contents: Option<Seq<char>>, value: JsonView) -> Result<
    Option<Seq<char>>,
    DebugUpdateErrorView,
> {
    match json_text(value) {
        Ok(text) => Ok(to_write(contents, text)),
        Err(message) => Err(DebugUpdateErrorView::Write(message)),
    }
}

fn read_existing(contents: Option<&str>) -> (r: Result<Option<JsonValue>, DebugUpdateError>)
    ensures
        outcome(r) == existing_json(contents.deep_view()),
{
    match contents {
        Some(text) => {
            if is_empty(trim(text).as_str()) {
                return Ok(None);
            }
            match read_json(text) {
                Ok(value) => Ok(Some(value)),
                Err(message) => Err(DebugUpdateError::Parse(message)),
            }
        },
        None => Ok(None),
    }
}

/// What is to be written to a file, given what it holds and what it should hold.
pub fn contents_to_write(contents: Option<&str>, text: &str) -> (r: Option<String>)
    ensures
        r.deep_view() == to_write(contents.deep_view(), text@),
{
    if let Some(held) = contents {
        if same(trim_end(held).as_str(), text) {
            return None;
        }
    }
    let mut r: String = text.to_owned();
    r.append("\n");
    Some(r)
}

/// Whether a file that holds just what was written is read back as the value, so that nothing is
/// to be written for the value a second time.
pub open spec fn settled(written: Seq<char>, value: JsonView) -> bool {
    existing_json(Some(written)) == Ok::<_, DebugUpdateErrorView>(Some(value)) && json_to_write(
        Some(written),
        value,
    ) == Ok::<Option<Seq<char>>, DebugUpdateErrorView>(None)
}

proof fn lemma_settled(text: Seq<char>, value: JsonView)
    requires
        json_text(value) == Ok::<_, Seq<char>>(text),
        json_document(text + "\n"@) == Ok::<_, Seq<char>>(value),
        text.len() > 0,
        !is_white(text[0]),
        !is_white(text.last()),
    ensures
        settled(text + "\n"@, value),
{
    reveal_strlit("\n");
    let written = text + "\n"@;
    assert(written.last() == '\n');
    assert(written.drop_last() =~= text);
    assert(trim_end_spec(written) == trim_end_spec(text));
    assert(trim_end_spec(text) == text);
    assert(Seq::<char>::empty() + text + "\n"@ =~= written);
    lemma_trim_around(Seq::empty(), text, "\n"@);
}

fn write_if_changed(contents: Option<&str>, value: &JsonValue) -> (r: Result<
    Option<String>,
    DebugUpdateError,
>)
    ensures
        outcome(r) == json_to_write(contents.deep_view(), value.deep_view()),
        r is Ok,
        is_plain(value.deep_view(), deepest()) ==> (r matches Ok(Some(written)) ==> settled(
            written@,
            value.deep_view(),
        )),
{
    match write_json(value) {
        Ok(text) => {
            proof {
                if is_plain(value.deep_view(), deepest()) {
                    lemma_settled(text@, value.deep_view());
                }
            }
            Ok(contents_to_write(contents, text.as_str()))
        },
        Err(message) => Err(DebugUpdateError::Write(message)),
    }
}

/// Brings the launch file of VS Code up to date. Gives what is to be written, if anything; no
/// contents stand for a file that is missing.
pub fn update_vscode_launch_sync(
    contents: Option<&str>,
    prefix: &str,
    new_entries: Vec<JsonValue>,
) -> (r: Result<Option<String>, DebugUpdateError>)
    ensures
        outcome(r) == (match existing_json(contents.deep_view()) {
            Ok(existing) => json_to_write(
                contents.deep_view(),
                vscode_updated(existing, prefix@, new_entries.deep_view()),
            ),
            Err(error) => Err(error),
        }),
        r is Ok <==> existing_json(contents.deep_view()) is Ok,
        r matches Ok(Some(written)) ==> {
            let updated = vscode_updated(
                existing_json(contents.deep_view())->Ok_0,
                prefix@,
                new_entries.deep_view(),
            );
            is_plain(updated, deepest()) ==> settled(written@, updated)
        },
{
    match read_existing(contents) {
        Ok(existing) => {
            let value = vscode_launch(existing, prefix, new_entries);
            write_if_changed(contents, &value)
        },
        Err(error) => Err(error),
    }
}

/// Brings the debug file of Zed up to date. Gives what is to be written, if anything; no contents
/// stand for a file that is missing.
pub fn update_zed_launch_sync(
    contents: Option<&str>,
    prefix: &str,
    new_entries: Vec<JsonValue>,
) -> (r: Result<Option<String>, DebugUpdateError>)
    ensures
        outcome(r) == (match existing_json(contents.deep_view()) {
            Ok(existing) => json_to_write(
                contents.deep_view(),
                zed_updated(existing, prefix@, new_entries.deep_view()),
            ),
            Err(error) => Err(error),
        }),
        r is Ok <==> existing_json(contents.deep_view()) is Ok,
        r matches Ok(Some(written)) ==> {
            let updated = zed_updated(
                existing_json(contents.deep_view())->Ok_0,
                prefix@,
                new_entries.deep_view(),
            );
            is_plain(updated, deepest()) ==> settled(written@, updated)
        },
{
    match read_existing(contents) {
        Ok(existing) => {
            let value = zed_launch(existing, prefix, new_entries);
            write_if_changed(contents, &value)
        },
        Err(error) => Err(error),
    }
}

// ---------------------------------------------------------------------------
// Laws
// ---------------------------------------------------------------------------

/// Only running units have entries, and an entry tells the port that the target was given.
pub proof fn entries_tell_ports_of_running_units(
    states: Seq<(Seq<char>, TargetStateView)>,
    targets: Seq<(Seq<char>, TargetView)>,
    i: int,
)
    requires
        0 <= i < collected(states, targets).len(),
    ensures
        exists|k: int|
            0 <= k < states.len() && entry_of_state(
                collected(states, targets)[i],
                #[trigger] states[k],
                targets,
            ),
    decreases states.len(),
{
    if states.len() > 0 {
        let front = collected(states.drop_last(), targets);
        let (name, state) = states.last();
        let here = target_entries(name, state, targets);
        let entry = collected(states, targets)[i];
        if i < front.len() {
            entries_tell_ports_of_running_units(states.drop_last(), targets, i);
            let k = choose|k: int|
                0 <= k < states.drop_last().len() && entry_of_state(
                    front[i],
                    #[trigger] states.drop_last()[k],
                    targets,
                );
            assert(entry_of_state(entry, states[k], targets));
        } else {
            assert(entry == here[i - front.len()]);
            let unit = lookup(targets, name)->0->Unit_0;
            match builtin_specs(unit.driver_type) {
                Some(specs) => {
                    lemma_builtin_entries(specs, name, unit.ports, state.ports, i - front.len());
                },
                None => {
                    lemma_template_entries(unit.ports, name, state.ports, i - front.len());
                },
            }
            assert(entry_of_state(entry, states[states.len() - 1], targets));
        }
    }
}

/// Whether an entry is one of a target that runs in the given state.
pub open spec fn entry_of_state(
    entry: DebugEntryView,
    state: (Seq<char>, TargetStateView),
    targets: Seq<(Seq<char>, TargetView)>,
) -> bool {
    &&& entry.target == state.0
    &&& state.1.pid is Some
    &&& lookup(targets, state.0) matches Some(TargetView::Unit(_))
    &&& lookup(state.1.ports, entry.port_name) == Some(entry.port)
}

proof fn lemma_builtin_entries(
    specs: Seq<DebugEntrySpecView>,
    target: Seq<char>,
    defined: Seq<(Seq<char>, PortDefinitionView)>,
    ports: Seq<(Seq<char>, u16)>,
    i: int,
)
    requires
        0 <= i < builtin_entries(specs, target, defined, ports).len(),
    ensures
        builtin_entries(specs, target, defined, ports)[i].target == target,
        lookup(ports, builtin_entries(specs, target, defined, ports)[i].port_name) == Some(
            builtin_entries(specs, target, defined, ports)[i].port,
        ),
    decreases specs.len(),
{
    if specs.len() > 0 && i < builtin_entries(specs.drop_last(), target, defined, ports).len() {
        lemma_builtin_entries(specs.drop_last(), target, defined, ports, i);
    }
}

proof fn lemma_template_entries(
    defined: Seq<(Seq<char>, PortDefinitionView)>,
    target: Seq<char>,
    ports: Seq<(Seq<char>, u16)>,
    i: int,
)
    requires
        0 <= i < template_entries(defined, target, ports).len(),
    ensures
        template_entries(defined, target, ports)[i].target == target,
        lookup(ports, template_entries(defined, target, ports)[i].port_name) == Some(
            template_entries(defined, target, ports)[i].port,
        ),
    decreases defined.len(),
{
    if defined.len() > 0 && i < template_entries(defined.drop_last(), target, ports).len() {
        lemma_template_entries(defined.drop_last(), target, ports, i);
    }
}

/// Every entry that is rendered carries the prefix, so the next update replaces it.
pub proof fn rendered_entries_carry_the_prefix(entry: DebugEntryView, prefix: Seq<char>)
    ensures
        vscode_entry(entry, prefix) matches Some(value) ==> !stays(value, "name"@, prefix),
        zed_entry(entry, prefix) matches Some(value) ==> !stays(value, "label"@, prefix),
{
    let label = label_spec(prefix, entry.target, entry.port_name);
    assert(label.take(prefix.len() as int) =~= prefix);
    reveal_strlit("name");
    reveal_strlit("label");
    reveal_strlit("port");
    reveal_strlit("address");
    reveal_strlit("host");
    reveal_strlit("tcp_connection");
    assert("name"@[0] == 'n' && "port"@[0] == 'p' && "address"@[0] == 'a' && "host"@[0] == 'h');
    assert("label"@[0] == 'l' && "tcp_connection"@[0] == 't');
    if let Some(template) = entry.vscode {
        let host = JsonView::Text(DEFAULT_HOST@);
        let members = filled_members(template, entry, prefix);
        let named = put(members, "name"@, JsonView::Text(label));
        let with_port = put(named, "port"@, JsonView::Unsigned(entry.port as u64));
        let with_address = with_default(with_port, "address"@, host);
        lemma_lookup_put(members, "name"@, JsonView::Text(label), "name"@);
        lemma_lookup_put(named, "port"@, JsonView::Unsigned(entry.port as u64), "name"@);
        lemma_lookup_put(with_port, "address"@, host, "name"@);
        lemma_lookup_put(with_address, "host"@, host, "name"@);
    }
    if let Some(template) = entry.zed {
        let members = filled_members(template, entry, prefix);
        let labelled = put(members, "label"@, JsonView::Text(label));
        lemma_lookup_put(members, "label"@, JsonView::Text(label), "label"@);
        lemma_lookup_put(
            labelled,
            "tcp_connection"@,
            connection(labelled, entry.port),
            "label"@,
        );
    }
}

proof fn lemma_staying_concat(
    a: Seq<JsonView>,
    b: Seq<JsonView>,
    field: Seq<char>,
    prefix: Seq<char>,
)
    ensures
        staying(a + b, field, prefix) == staying(a, field, prefix) + staying(b, field, prefix),
    decreases b.len(),
{
    if b.len() == 0 {
        assert(a + b =~= a);
        assert(staying(a, field, prefix) + staying(b, field, prefix) =~= staying(
            a,
            field,
            prefix,
        ));
    } else {
        assert((a + b).drop_last() =~= a + b.drop_last());
        lemma_staying_concat(a, b.drop_last(), field, prefix);
        assert(staying(a + b, field, prefix) =~= staying(a, field, prefix) + staying(
            b,
            field,
            prefix,
        ));
    }
}

proof fn lemma_staying_twice(list: Seq<JsonView>, field: Seq<char>, prefix: Seq<char>)
    ensures
        staying(staying(list, field, prefix), field, prefix) == staying(list, field, prefix),
    decreases list.len(),
{
    if list.len() > 0 {
        lemma_staying_twice(list.drop_last(), field, prefix);
        let front = staying(list.drop_last(), field, prefix);
        assert(front.push(list.last()).drop_last() =~= front);
    }
}

/// An update leaves alone what it does not own: configurations whose name does not start with the
/// prefix stay, in their order and before the new ones, and so do all other members of the file.
pub proof fn foreign_configurations_stay(
    existing: Option<JsonView>,
    prefix: Seq<char>,
    new_entries: Seq<JsonView>,
    other: Seq<char>,
)
    requires
        other != "configurations"@,
    ensures
        vscode_updated(existing, prefix, new_entries) matches JsonView::Object(members)
            && configurations(members) == staying(
            configurations(launch_members(existing)),
            "name"@,
            prefix,
        ) + new_entries && lookup(members, other) == lookup(launch_members(existing), other),
{
    let members = launch_members(existing);
    let list = staying(configurations(members), "name"@, prefix) + new_entries;
    lemma_lookup_put(members, "configurations"@, JsonView::Array(list), "configurations"@);
    lemma_lookup_put(members, "configurations"@, JsonView::Array(list), other);
}

/// What stays of a list of configurations is exactly those whose name does not start with the
/// prefix.
pub proof fn only_prefixed_configurations_leave(
    list: Seq<JsonView>,
    field: Seq<char>,
    prefix: Seq<char>,
    value: JsonView,
)
    ensures
        staying(list, field, prefix).contains(value) <==> list.contains(value) && stays(
            value,
            field,
            prefix,
        ),
    decreases list.len(),
{
    let kept = staying(list, field, prefix);
    if list.len() > 0 {
        let front = list.drop_last();
        let some = staying(front, field, prefix);
        only_prefixed_configurations_leave(front, field, prefix, value);
        if kept.contains(value) {
            let i = choose|i: int| 0 <= i < kept.len() && kept[i] == value;
            if i < some.len() {
                assert(some[i] == value);
                let k = choose|k: int| 0 <= k < front.len() && front[k] == value;
                assert(list[k] == value);
            } else {
                assert(list[list.len() - 1] == value);
            }
        }
        if list.contains(value) && stays(value, field, prefix) {
            let k = choose|k: int| 0 <= k < list.len() && list[k] == value;
            if k < front.len() {
                assert(front[k] == value);
                let i = choose|i: int| 0 <= i < some.len() && some[i] == value;
                assert(kept[i] == value);
            } else {
                assert(kept[some.len() as int] == value);
            }
        }
    }
}

proof fn lemma_put_twice<T>(s: Seq<(Seq<char>, T)>, name: Seq<char>, first: T, second: T)
    ensures
        put(put(s, name, first), name, second) == put(s, name, second),
    decreases s.len(),
{
    let once = put(s, name, first);
    if s.len() == 0 {
        assert(once.drop_last() =~= Seq::empty());
        assert(put(once, name, second) =~= put(s, name, second));
    } else if s.last().0 == name {
        assert(once.drop_last() =~= s.drop_last());
    } else if crate::text::precedes_spec(s.last().0, name) {
        assert(once.drop_last() =~= s);
    } else {
        lemma_put_twice(s.drop_last(), name, first, second);
        assert(once.drop_last() =~= put(s.drop_last(), name, first));
    }
}

proof fn lemma_rendered_leave(entries: Seq<DebugEntryView>, prefix: Seq<char>, zed: bool)
    ensures
        staying(
            rendered(entries, prefix, zed),
            if zed {
                "label"@
            } else {
                "name"@
            },
            prefix,
        ) == Seq::<JsonView>::empty(),
    decreases entries.len(),
{
    if entries.len() > 0 {
        let front = rendered(entries.drop_last(), prefix, zed);
        lemma_rendered_leave(entries.drop_last(), prefix, zed);
        rendered_entries_carry_the_prefix(entries.last(), prefix);
        let all = rendered(entries, prefix, zed);
        if all.len() > front.len() {
            assert(all.drop_last() =~= front);
        }
    }
}

/// Updating the launch file of VS Code with the same entries once more changes nothing.
pub proof fn updating_vscode_again_changes_nothing(
    existing: Option<JsonView>,
    prefix: Seq<char>,
    entries: Seq<DebugEntryView>,
)
    ensures
        ({
            let new_entries = rendered(entries, prefix, false);
            let updated = vscode_updated(existing, prefix, new_entries);
            vscode_updated(Some(updated), prefix, new_entries) == updated
        }),
{
    let new_entries = rendered(entries, prefix, false);
    let members = launch_members(existing);
    let kept = staying(configurations(members), "name"@, prefix);
    let value = JsonView::Array(kept + new_entries);
    lemma_lookup_put(members, "configurations"@, value, "configurations"@);
    lemma_staying_concat(kept, new_entries, "name"@, prefix);
    lemma_staying_twice(configurations(members), "name"@, prefix);
    lemma_rendered_leave(entries, prefix, false);
    assert(staying(kept + new_entries, "name"@, prefix) =~= kept);
    lemma_put_twice(members, "configurations"@, value, value);
}

/// Updating the debug file of Zed with the same entries once more changes nothing.
pub proof fn updating_zed_again_changes_nothing(
    existing: Option<JsonView>,
    prefix: Seq<char>,
    entries: Seq<DebugEntryView>,
)
    ensures
        ({
            let new_entries = rendered(entries, prefix, true);
            let updated = zed_updated(existing, prefix, new_entries);
            zed_updated(Some(updated), prefix, new_entries) == updated
        }),
{
    let new_entries = rendered(entries, prefix, true);
    let kept = staying(zed_entries(existing), "label"@, prefix);
    lemma_staying_concat(kept, new_entries, "label"@, prefix);
    lemma_staying_twice(zed_entries(existing), "label"@, prefix);
    lemma_rendered_leave(entries, prefix, true);
    assert(staying(kept + new_entries, "label"@, prefix) =~= kept);
}

} // verus!
