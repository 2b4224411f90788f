//! What holds of the debugger configurations of editors.

use vstd::prelude::*;

use crate::config::model::{PortDefinitionView, TargetView, UnitTargetView};
use crate::config::value::{ConfigDataView, ConfigValueView};
use crate::debug_update::{
    builtin_entries, builtin_specs, collected, config_json, configurations, connection, existing_json, filled,
    filled_members, filled_text, label_spec, launch_members, members_of, port_templates, rendered, target_entries,
    template_entries, to_write, unit_entries, vscode_entry, zed_entry, zed_updated, DebugEntryView,
    DebugUpdateErrorView, PlaceholderContextView, DEFAULT_HOST,
};
use crate::json::{with_default, JsonView};
use crate::names::{lemma_lookup_put, lookup, put};
use crate::numbers::{decimal_spec, is_digit, lemma_decimal_digits};
use crate::parts::{pattern_is_replaced, replace_spec, text_without_the_pattern_stays};
use crate::state::TargetStateView;
use crate::text::{trim_end_spec, trim_spec};

verus! {

// ---------------------------------------------------------------------------
// Templates
// ---------------------------------------------------------------------------

/// A value of the configuration is written to the files of editors as what it is.
pub proof fn values_stay_what_they_are(value: ConfigValueView)
    ensures
        value.data matches ConfigDataView::Text(text) ==> config_json(value) == JsonView::Text(
            text,
        ),
        value.data matches ConfigDataView::Datetime(text) ==> config_json(value)
            == JsonView::Text(text),
        value.data matches ConfigDataView::Boolean(flag) ==> config_json(value) == JsonView::Bool(
            flag,
        ),
        value.data matches ConfigDataView::Integer(number) ==> config_json(value) == (if number
            < 0 {
            JsonView::Signed(number)
        } else {
            JsonView::Unsigned(number as u64)
        }),
        value.data matches ConfigDataView::Array(items) ==> (config_json(value) matches
            JsonView::Array(list) && list.len() == items.len() && forall|i: int|
            0 <= i < items.len() ==> #[trigger] list[i] == config_json(items[i])),
        value.data matches ConfigDataView::Table(entries) ==> config_json(value)
            == JsonView::Object(members_of(entries)),
{
}

/// Each entry of a table is a member under its name.
pub proof fn entries_are_members(entries: Seq<(Seq<char>, ConfigValueView)>, i: int)
    requires
        0 <= i < entries.len(),
        forall|j: int| i < j < entries.len() ==> (#[trigger] entries[j]).0 != entries[i].0,
    ensures
        lookup(members_of(entries), entries[i].0) == Some(config_json(entries[i].1)),
    decreases entries.len(),
{
    let front = entries.drop_last();
    let last = entries[entries.len() - 1];
    lemma_lookup_put(members_of(front), last.0, config_json(last.1), entries[i].0);
    if i < front.len() {
        assert(front[i] == entries[i]);
        assert forall|j: int| i < j < front.len() implies (#[trigger] front[j]).0 != front[i].0 by {
            assert(front[j] == entries[j]);
        }
        entries_are_members(front, i);
    }
}

/// The templates of a port are the tables under its debugger, one for each editor.
pub proof fn templates_are_as_written(
    definition: PortDefinitionView,
    table: Seq<(Seq<char>, ConfigValueView)>,
    debugger: ConfigValueView,
)
    requires
        lookup(definition.properties, "debugger"@) == Some(debugger),
        debugger.data == ConfigDataView::Table(table),
    ensures
        port_templates(definition) is None <==> lookup(table, "vscode"@) is None && lookup(
            table,
            "zed"@,
        ) is None,
        lookup(table, "vscode"@) matches Some(value) ==> port_templates(definition)->0.vscode
            == Some(config_json(value)),
        lookup(table, "zed"@) matches Some(value) ==> port_templates(definition)->0.zed == Some(
            config_json(value),
        ),
        lookup(table, "vscode"@) is None && port_templates(definition) is Some ==> port_templates(
            definition,
        )->0.vscode is None,
        lookup(table, "zed"@) is None && port_templates(definition) is Some ==> port_templates(
            definition,
        )->0.zed is None,
{
}

/// A port without a table under its debugger has no templates.
pub proof fn port_without_debugger_has_no_templates(definition: PortDefinitionView)
    requires
        lookup(definition.properties, "debugger"@) matches Some(value) ==> !(value.data is Table),
    ensures
        port_templates(definition) is None,
{
}

// ---------------------------------------------------------------------------
// Entries
// ---------------------------------------------------------------------------

/// The drivers whose units can be debugged on a port named for it.
pub open spec fn has_debug_port(driver_type: Seq<char>) -> bool {
    driver_type == "java-spring-boot"@ || driver_type == "bun"@
}

/// The member of a template that is an object.
pub open spec fn told(template: Option<JsonView>, name: Seq<char>) -> Option<JsonView> {
    match template {
        Some(JsonView::Object(members)) => lookup(members, name),
        _ => None,
    }
}

/// A unit that runs on such a driver, and has its debug port, has an entry for this port, for both
/// editors: they attach to it, with a debugger for the language.
pub proof fn debug_port_has_an_entry(
    name: Seq<char>,
    unit: UnitTargetView,
    ports: Seq<(Seq<char>, u16)>,
)
    requires
        has_debug_port(unit.driver_type),
        lookup(unit.ports, "debug"@) is Some,
        lookup(ports, "debug"@) is Some,
    ensures
        unit_entries(name, unit, ports).len() == 1,
        ({
            let entry = unit_entries(name, unit, ports)[0];
            let java = unit.driver_type == "java-spring-boot"@;
            &&& entry.target == name
            &&& entry.port_name == "debug"@
            &&& Some(entry.port) == lookup(ports, "debug"@)
            &&& told(entry.vscode, "request"@) == Some(JsonView::Text("attach"@))
            &&& told(entry.vscode, "port"@) == Some(JsonView::Text("{{PORT}}"@))
            &&& told(entry.vscode, "type"@) == Some(
                JsonView::Text(
                    if java {
                        "java"@
                    } else {
                        "pwa-node"@
                    },
                ),
            )
            &&& told(entry.zed, "request"@) == Some(JsonView::Text("attach"@))
            &&& told(entry.zed, "adapter"@) == Some(
                JsonView::Text(
                    if java {
                        "Java"@
                    } else {
                        "JavaScript"@
                    },
                ),
            )
            &&& told(told(entry.zed, "tcp_connection"@), "port"@) == Some(
                JsonView::Text("{{PORT}}"@),
            )
            &&& told(told(entry.zed, "tcp_connection"@), "host"@) == Some(
                JsonView::Text("{{HOST}}"@),
            )
        }),
{
    reveal_with_fuel(builtin_entries, 2);
    reveal_with_fuel(lookup, 7);
    reveal_strlit("request");
    reveal_strlit("type");
    reveal_strlit("port");
    reveal_strlit("remoteRoot");
    reveal_strlit("localRoot");
    reveal_strlit("address");
    reveal_strlit("hostName");
    reveal_strlit("host");
    reveal_strlit("adapter");
    reveal_strlit("tcp_connection");
    reveal_strlit("bun");
    reveal_strlit("java-spring-boot");
    assert("request"@[2] == 'q' && "remoteRoot"@[2] == 'm');
    assert("request"@.len() == 7 && "type"@.len() == 4 && "port"@.len() == 4);
    assert("type"@[0] == 't' && "port"@[0] == 'p' && "host"@[0] == 'h');
    assert("address"@.len() == 7 && "address"@[0] == 'a' && "request"@[0] == 'r');
    assert("adapter"@.len() == 7 && "adapter"@[0] == 'a');
    let specs = builtin_specs(unit.driver_type)->0;
    assert(specs.drop_last() =~= Seq::empty());
    let entry = unit_entries(name, unit, ports)[0];
    assert("bun"@.len() == 3 && "java-spring-boot"@.len() == 16);
    if unit.driver_type == "java-spring-boot"@ {
        let members = entry.vscode->0->Object_0;
        lemma_last_member(members, 3);
        lemma_last_member(members.drop_last(), 2);
        lemma_last_member(members.drop_last().drop_last(), 1);
    } else {
        let members = entry.vscode->0->Object_0;
        lemma_last_member(members, 5);
        lemma_last_member(members.drop_last(), 4);
        lemma_last_member(members.drop_last().drop_last(), 3);
        lemma_last_member(members.drop_last().drop_last().drop_last(), 2);
    }
    let other = entry.zed->0->Object_0;
    lemma_last_member(other, 2);
    lemma_last_member(other.drop_last(), 1);
    lemma_last_member(other.drop_last().drop_last(), 0);
    let tcp = other[2].1->Object_0;
    lemma_last_member(tcp, 1);
    lemma_last_member(tcp.drop_last(), 0);
}

proof fn lemma_last_member(members: Seq<(Seq<char>, JsonView)>, i: int)
    requires
        members.len() == i + 1,
        i >= 0,
    ensures
        lookup(members, members[i].0) == Some(members[i].1),
        forall|name: Seq<char>|
            name != members[i].0 ==> #[trigger] lookup(members, name) == lookup(
                members.drop_last(),
                name,
            ),
{
}

/// A unit without such a port has no entries: it neither has the port nor runs on such a driver
/// nor on the shell.
pub proof fn other_units_have_no_entries(
    name: Seq<char>,
    unit: UnitTargetView,
    ports: Seq<(Seq<char>, u16)>,
)
    ensures
        !has_debug_port(unit.driver_type) && unit.driver_type != "bash"@ ==> unit_entries(
            name,
            unit,
            ports,
        ).len() == 0,
        has_debug_port(unit.driver_type) && (lookup(unit.ports, "debug"@) is None || lookup(
            ports,
            "debug"@,
        ) is None) ==> unit_entries(name, unit, ports).len() == 0,
{
    reveal_with_fuel(builtin_entries, 2);
    if has_debug_port(unit.driver_type) {
        let specs = builtin_specs(unit.driver_type)->0;
        assert(specs.drop_last() =~= Seq::empty());
    }
}

/// A unit that runs on the shell has an entry for each port with templates.
pub proof fn port_with_templates_has_an_entry(
    name: Seq<char>,
    unit: UnitTargetView,
    ports: Seq<(Seq<char>, u16)>,
    i: int,
)
    requires
        unit.driver_type == "bash"@,
        0 <= i < unit.ports.len(),
        port_templates(unit.ports[i].1) is Some,
        lookup(ports, unit.ports[i].0) is Some,
    ensures
        unit_entries(name, unit, ports).contains(
            DebugEntryView {
                target: name,
                port_name: unit.ports[i].0,
                port: lookup(ports, unit.ports[i].0)->0,
                vscode: port_templates(unit.ports[i].1)->0.vscode,
                zed: port_templates(unit.ports[i].1)->0.zed,
            },
        ),
{
    reveal_strlit("bash");
    reveal_strlit("bun");
    reveal_strlit("java-spring-boot");
    assert("bash"@.len() == 4);
    lemma_template_has_entry(unit.ports, name, ports, i);
}

proof fn lemma_template_has_entry(
    defined: Seq<(Seq<char>, PortDefinitionView)>,
    target: Seq<char>,
    ports: Seq<(Seq<char>, u16)>,
    i: int,
)
    requires
        0 <= i < defined.len(),
        port_templates(defined[i].1) is Some,
        lookup(ports, defined[i].0) is Some,
    ensures
        template_entries(defined, target, ports).contains(
            DebugEntryView {
                target,
                port_name: defined[i].0,
                port: lookup(ports, defined[i].0)->0,
                vscode: port_templates(defined[i].1)->0.vscode,
                zed: port_templates(defined[i].1)->0.zed,
            },
        ),
    decreases defined.len(),
{
    let front = defined.drop_last();
    let before = template_entries(front, target, ports);
    let after = template_entries(defined, target, ports);
    if i < front.len() {
        assert(front[i] == defined[i]);
        lemma_template_has_entry(front, target, ports, i);
        let wanted = DebugEntryView {
            target,
            port_name: defined[i].0,
            port: lookup(ports, defined[i].0)->0,
            vscode: port_templates(defined[i].1)->0.vscode,
            zed: port_templates(defined[i].1)->0.zed,
        };
        let k = choose|k: int| 0 <= k < before.len() && before[k] == wanted;
        assert(after[k] == wanted);
    } else {
        assert(after[before.len() as int].port_name == defined[i].0);
    }
}

/// The entries of all units that run are collected.
pub proof fn running_units_are_collected(
    states: Seq<(Seq<char>, TargetStateView)>,
    targets: Seq<(Seq<char>, TargetView)>,
    i: int,
    unit: UnitTargetView,
    entry: DebugEntryView,
)
    requires
        0 <= i < states.len(),
        states[i].1.pid is Some,
        lookup(targets, states[i].0) == Some(TargetView::Unit(unit)),
        unit_entries(states[i].0, unit, states[i].1.ports).contains(entry),
    ensures
        collected(states, targets).contains(entry),
    decreases states.len(),
{
    let front = states.drop_last();
    let before = collected(front, targets);
    let here = target_entries(states.last().0, states.last().1, targets);
    if i < front.len() {
        assert(front[i] == states[i]);
        running_units_are_collected(front, targets, i, unit, entry);
        let k = choose|k: int| 0 <= k < before.len() && before[k] == entry;
        assert((before + here)[k] == entry);
    } else {
        let k = choose|k: int| 0 <= k < here.len() && here[k] == entry;
        assert((before + here)[before.len() + k] == entry);
    }
}

// ---------------------------------------------------------------------------
// Placeholders
// ---------------------------------------------------------------------------

/// Whether a text holds no opening brace.
pub open spec fn braceless(text: Seq<char>) -> bool {
    forall|i: int| 0 <= i < text.len() ==> #[trigger] text[i] != '{'
}

/// Two braces with a word behind them.
spec fn marked(p: Seq<char>) -> bool {
    p.len() > 2 && p[0] == '{' && p[1] == '{' && forall|i: int|
        2 <= i < p.len() ==> #[trigger] p[i] != '{'
}

proof fn lemma_braceless_stays(text: Seq<char>, p: Seq<char>, by: Seq<char>)
    requires
        braceless(text),
        marked(p),
    ensures
        replace_spec(text, p, by) == text,
{
    assert forall|i: int| 0 <= i < text.len() implies !p.is_prefix_of(
        #[trigger] text.skip(i),
    ) by {
        if p.is_prefix_of(text.skip(i)) {
            assert(text.skip(i).take(p.len() as int)[0] == p[0]);
            assert(text[i] == '{');
        }
    }
    text_without_the_pattern_stays(text, p, by);
}

proof fn lemma_other_stays(
    a: Seq<char>,
    word: Seq<char>,
    b: Seq<char>,
    p: Seq<char>,
    by: Seq<char>,
    k: int,
)
    requires
        braceless(a),
        braceless(b),
        marked(word),
        marked(p),
        0 <= k < word.len(),
        k < p.len(),
        word[k] != p[k],
    ensures
        replace_spec(a + word + b, p, by) == a + word + b,
{
    let s = a + word + b;
    assert forall|i: int| 0 <= i < s.len() implies !p.is_prefix_of(#[trigger] s.skip(i)) by {
        if p.is_prefix_of(s.skip(i)) {
            let front = s.skip(i).take(p.len() as int);
            assert(front[0] == p[0] && front[1] == p[1] && front[k] == p[k]);
            assert(s[i] == '{' && s[i + 1] == '{');
            if i < a.len() {
                assert(s[i] == a[i]);
            } else if i == a.len() {
                assert(s[i + k] == word[k]);
            } else if i + 1 < a.len() + word.len() {
                assert(s[i + 1] == word[i + 1 - a.len()]);
            } else {
                assert(s[i + 1] == b[i + 1 - a.len() - word.len()]);
            }
        }
    }
    text_without_the_pattern_stays(s, p, by);
}

proof fn lemma_filled_here(a: Seq<char>, p: Seq<char>, b: Seq<char>, by: Seq<char>)
    requires
        braceless(a),
        braceless(b),
        braceless(by),
        marked(p),
    ensures
        replace_spec(a + p + b, p, by) == a + by + b,
        braceless(a + by + b),
{
    if a.contains(p[0]) {
        let k = choose|k: int| 0 <= k < a.len() && a[k] == p[0];
        assert(a[k] != '{');
    }
    pattern_is_replaced(a, p, b, by);
    lemma_braceless_stays(b, p, by);
}

/// The placeholders of a template are filled in: the target, its port, the name of the port, the
/// prefix and the host. A text without placeholders stays as it is.
pub proof fn placeholders_are_filled(
    a: Seq<char>,
    b: Seq<char>,
    context: PlaceholderContextView,
)
    requires
        braceless(a),
        braceless(b),
        braceless(context.target),
        braceless(context.port_name),
        braceless(context.prefix),
        braceless(context.host),
    ensures
        filled_text(a, context) == a,
        filled_text(a + "{{TARGET}}"@ + b, context) == a + context.target + b,
        filled_text(a + "{{PORT}}"@ + b, context) == a + decimal_spec(context.port as nat) + b,
        filled_text(a + "{{PORT_NAME}}"@ + b, context) == a + context.port_name + b,
        filled_text(a + "{{PREFIX}}"@ + b, context) == a + context.prefix + b,
        filled_text(a + "{{HOST}}"@ + b, context) == a + context.host + b,
{
    reveal_strlit("{{TARGET}}");
    reveal_strlit("{{PORT}}");
    reveal_strlit("{{PORT_NAME}}");
    reveal_strlit("{{PREFIX}}");
    reveal_strlit("{{HOST}}");
    let t = "{{TARGET}}"@;
    let p = "{{PORT}}"@;
    let n = "{{PORT_NAME}}"@;
    let x = "{{PREFIX}}"@;
    let h = "{{HOST}}"@;
    let number = decimal_spec(context.port as nat);
    lemma_decimal_digits(context.port as nat);
    assert(braceless(number)) by {
        assert forall|i: int| 0 <= i < number.len() implies #[trigger] number[i] != '{' by {
            assert(is_digit(number[i]));
        }
    }
    assert(marked(t) && marked(p) && marked(n) && marked(x) && marked(h));
    assert(t[2] == 'T' && p[2] == 'P' && n[2] == 'P' && x[2] == 'P' && h[2] == 'H');
    assert(p[3] == 'O' && n[3] == 'O' && x[3] == 'R' && p[6] == '}' && n[6] == '_');
    // Without placeholders.
    lemma_braceless_stays(a, t, context.target);
    lemma_braceless_stays(a, p, number);
    lemma_braceless_stays(a, n, context.port_name);
    lemma_braceless_stays(a, x, context.prefix);
    lemma_braceless_stays(a, h, context.host);
    // The target.
    lemma_filled_here(a, t, b, context.target);
    let with_target = a + context.target + b;
    lemma_braceless_stays(with_target, p, number);
    lemma_braceless_stays(with_target, n, context.port_name);
    lemma_braceless_stays(with_target, x, context.prefix);
    lemma_braceless_stays(with_target, h, context.host);
    // The port.
    lemma_other_stays(a, p, b, t, context.target, 2);
    lemma_filled_here(a, p, b, number);
    let with_port = a + number + b;
    lemma_braceless_stays(with_port, n, context.port_name);
    lemma_braceless_stays(with_port, x, context.prefix);
    lemma_braceless_stays(with_port, h, context.host);
    // The name of the port.
    lemma_other_stays(a, n, b, t, context.target, 2);
    lemma_other_stays(a, n, b, p, number, 6);
    lemma_filled_here(a, n, b, context.port_name);
    let with_name = a + context.port_name + b;
    lemma_braceless_stays(with_name, x, context.prefix);
    lemma_braceless_stays(with_name, h, context.host);
    // The prefix.
    lemma_other_stays(a, x, b, t, context.target, 2);
    lemma_other_stays(a, x, b, p, number, 3);
    lemma_other_stays(a, x, b, n, context.port_name, 3);
    lemma_filled_here(a, x, b, context.prefix);
    lemma_braceless_stays(a + context.prefix + b, h, context.host);
    // The host.
    lemma_other_stays(a, h, b, t, context.target, 2);
    lemma_other_stays(a, h, b, p, number, 2);
    lemma_other_stays(a, h, b, n, context.port_name, 2);
    lemma_other_stays(a, h, b, x, context.prefix, 2);
    lemma_filled_here(a, h, b, context.host);
}

/// Filling in placeholders changes the texts of a template and nothing else: lists keep their
/// length, members their names, and other values stay.
pub proof fn filling_changes_texts_only(value: JsonView, context: PlaceholderContextView)
    ensures
        match value {
            JsonView::Text(text) => filled(value, context) == JsonView::Text(
                filled_text(text, context),
            ),
            JsonView::Array(items) => (filled(value, context) matches JsonView::Array(list)
                && list.len() == items.len() && forall|i: int|
                0 <= i < items.len() ==> #[trigger] list[i] == filled(items[i], context)),
            JsonView::Object(members) => (filled(value, context) matches JsonView::Object(list)
                && list.len() == members.len() && forall|i: int|
                0 <= i < members.len() ==> #[trigger] list[i] == (
                    members[i].0,
                    filled(members[i].1, context),
                )),
            other => filled(value, context) == other,
        },
{
}

// ---------------------------------------------------------------------------
// Rendering
// ---------------------------------------------------------------------------

/// A configuration is known by its target and port, and debuggers connect to the port of the
/// target on this machine; what the template tells of other things stays.
pub proof fn configuration_connects_to_the_port(
    entry: DebugEntryView,
    prefix: Seq<char>,
    template: JsonView,
    other: Seq<char>,
)
    requires
        entry.vscode == Some(template),
        other != "name"@ && other != "port"@ && other != "address"@ && other != "host"@,
    ensures
        ({
            let value = vscode_entry(entry, prefix);
            let members = filled_members(template, entry, prefix);
            let here = JsonView::Text("127.0.0.1"@);
            &&& told(value, "name"@) == Some(
                JsonView::Text(prefix + " "@ + entry.target + " ("@ + entry.port_name + ")"@),
            )
            &&& told(value, "port"@) == Some(JsonView::Unsigned(entry.port as u64))
            &&& lookup(members, "address"@) is None ==> told(value, "address"@) == Some(here)
            &&& lookup(members, "address"@) is Some ==> told(value, "address"@) == lookup(
                members,
                "address"@,
            )
            &&& lookup(members, "host"@) is None ==> told(value, "host"@) == Some(here)
            &&& lookup(members, "host"@) is Some ==> told(value, "host"@) == lookup(
                members,
                "host"@,
            )
            &&& told(value, other) == lookup(members, other)
        }),
{
    reveal_strlit("name");
    reveal_strlit("port");
    reveal_strlit("address");
    reveal_strlit("host");
    assert("name"@[0] == 'n' && "port"@[0] == 'p' && "address"@[0] == 'a' && "host"@[0] == 'h');
    let label = JsonView::Text(label_spec(prefix, entry.target, entry.port_name));
    let number = JsonView::Unsigned(entry.port as u64);
    let host = JsonView::Text(DEFAULT_HOST@);
    let members = filled_members(template, entry, prefix);
    let named = put(members, "name"@, label);
    let with_port = put(named, "port"@, number);
    let with_address = with_default(with_port, "address"@, host);
    lemma_steps(members, "name"@, label, other);
    lemma_steps(named, "port"@, number, other);
    lemma_steps(with_port, "address"@, host, other);
    lemma_steps(with_address, "host"@, host, other);
}

proof fn lemma_steps(
    members: Seq<(Seq<char>, JsonView)>,
    name: Seq<char>,
    value: JsonView,
    other: Seq<char>,
)
    ensures
        lookup(put(members, name, value), name) == Some(value),
        name != other ==> lookup(put(members, name, value), other) == lookup(members, other),
        name != "name"@ ==> lookup(put(members, name, value), "name"@) == lookup(members, "name"@),
        name != "port"@ ==> lookup(put(members, name, value), "port"@) == lookup(members, "port"@),
        name != "address"@ ==> lookup(put(members, name, value), "address"@) == lookup(
            members,
            "address"@,
        ),
        name != "host"@ ==> lookup(put(members, name, value), "host"@) == lookup(members, "host"@),
{
    lemma_lookup_put(members, name, value, name);
    lemma_lookup_put(members, name, value, other);
    lemma_lookup_put(members, name, value, "name"@);
    lemma_lookup_put(members, name, value, "port"@);
    lemma_lookup_put(members, name, value, "address"@);
    lemma_lookup_put(members, name, value, "host"@);
}

/// The same holds of the other editor, which keeps the host and the port with the connection.
pub proof fn connection_is_to_the_port(
    entry: DebugEntryView,
    prefix: Seq<char>,
    template: JsonView,
    other: Seq<char>,
)
    requires
        entry.zed == Some(template),
        other != "label"@ && other != "tcp_connection"@,
    ensures
        ({
            let value = zed_entry(entry, prefix);
            let members = filled_members(template, entry, prefix);
            &&& told(value, "label"@) == Some(
                JsonView::Text(prefix + " "@ + entry.target + " ("@ + entry.port_name + ")"@),
            )
            &&& told(told(value, "tcp_connection"@), "port"@) == Some(
                JsonView::Unsigned(entry.port as u64),
            )
            &&& told(told(value, "tcp_connection"@), "host"@) == (match told(
                lookup(members, "tcp_connection"@),
                "host"@,
            ) {
                Some(host) => Some(host),
                None => Some(JsonView::Text("127.0.0.1"@)),
            })
            &&& told(value, other) == lookup(members, other)
        }),
{
    reveal_strlit("label");
    reveal_strlit("tcp_connection");
    reveal_strlit("host");
    reveal_strlit("port");
    assert("label"@[0] == 'l' && "tcp_connection"@[0] == 't');
    assert("port"@[0] == 'p' && "host"@[0] == 'h');
    let label = JsonView::Text(label_spec(prefix, entry.target, entry.port_name));
    let members = filled_members(template, entry, prefix);
    let labelled = put(members, "label"@, label);
    let tcp = connection(labelled, entry.port);
    lemma_lookup_put(members, "label"@, label, "label"@);
    lemma_lookup_put(members, "label"@, label, "tcp_connection"@);
    lemma_lookup_put(members, "label"@, label, other);
    lemma_lookup_put(labelled, "tcp_connection"@, tcp, "label"@);
    lemma_lookup_put(labelled, "tcp_connection"@, tcp, "tcp_connection"@);
    lemma_lookup_put(labelled, "tcp_connection"@, tcp, other);
    let told_before = match lookup(labelled, "tcp_connection"@) {
        Some(JsonView::Object(list)) => list,
        _ => Seq::empty(),
    };
    let host = JsonView::Text(DEFAULT_HOST@);
    let number = JsonView::Unsigned(entry.port as u64);
    let hosted = with_default(told_before, "host"@, host);
    lemma_lookup_put(told_before, "host"@, host, "host"@);
    lemma_lookup_put(hosted, "port"@, number, "port"@);
    lemma_lookup_put(hosted, "port"@, number, "host"@);
    assert(lookup(Seq::<(Seq<char>, JsonView)>::empty(), "host"@) is None);
}

/// Each entry with a template for the editor is rendered, in the order of the entries.
pub proof fn each_entry_is_rendered(
    entries: Seq<DebugEntryView>,
    entry: DebugEntryView,
    prefix: Seq<char>,
)
    ensures
        rendered(Seq::empty(), prefix, true).len() == 0,
        rendered(Seq::empty(), prefix, false).len() == 0,
        entry.vscode is Some ==> rendered(entries.push(entry), prefix, false) == rendered(
            entries,
            prefix,
            false,
        ).push(vscode_entry(entry, prefix)->0),
        entry.vscode is None ==> rendered(entries.push(entry), prefix, false) == rendered(
            entries,
            prefix,
            false,
        ),
        entry.zed is Some ==> rendered(entries.push(entry), prefix, true) == rendered(
            entries,
            prefix,
            true,
        ).push(zed_entry(entry, prefix)->0),
        entry.zed is None ==> rendered(entries.push(entry), prefix, true) == rendered(
            entries,
            prefix,
            true,
        ),
{
    assert(entries.push(entry).drop_last() =~= entries);
}

// ---------------------------------------------------------------------------
// Files
// ---------------------------------------------------------------------------

/// New entries stand at the end of the list of the editor.
pub proof fn new_entries_stand_at_the_end(
    existing: Option<JsonView>,
    prefix: Seq<char>,
    new_entries: Seq<JsonView>,
)
    ensures
        zed_updated(existing, prefix, new_entries) matches JsonView::Array(list)
            && new_entries.is_suffix_of(list),
        !(existing matches Some(JsonView::Array(_))) ==> zed_updated(existing, prefix, new_entries)
            == JsonView::Array(new_entries),
{
    let list = zed_updated(existing, prefix, new_entries)->Array_0;
    assert(list.subrange(list.len() - new_entries.len(), list.len() as int) =~= new_entries);
    if !(existing matches Some(JsonView::Array(_))) {
        assert(list =~= new_entries);
    }
}

/// A file that is not there or holds nothing but white space is one without configurations.
pub proof fn empty_file_holds_nothing(text: Seq<char>)
    ensures
        existing_json(None) == Ok::<Option<JsonView>, DebugUpdateErrorView>(None),
        trim_spec(text).len() == 0 ==> existing_json(Some(text)) == Ok::<
            Option<JsonView>,
            DebugUpdateErrorView,
        >(None),
{
}

/// A file is written only where its text changes, and then ends with a line end.
pub proof fn file_is_written_where_it_changes(contents: Seq<char>, text: Seq<char>)
    ensures
        to_write(None, text) == Some(text + seq!['\n']),
        to_write(Some(contents), text) is None <==> trim_end_spec(contents) == text,
        trim_end_spec(contents) != text ==> to_write(Some(contents), text) == Some(
            text + seq!['\n'],
        ),
{
    reveal_strlit("\n");
    assert("\n"@ =~= seq!['\n']);
}

/// A file that is not there begins with its version, and one that holds something else than an
/// object begins anew.
pub proof fn new_file_has_a_version(value: JsonView)
    ensures
        lookup(launch_members(None), "version"@) == Some(JsonView::Text("0.2.0"@)),
        value matches JsonView::Object(members) ==> launch_members(Some(value)) == members,
        !(value is Object) ==> launch_members(Some(value)).len() == 0,
        configurations(launch_members(None)).len() == 0,
{
    reveal_strlit("version");
    reveal_strlit("configurations");
    assert("version"@.len() == 7 && "configurations"@.len() == 14);
    reveal_with_fuel(lookup, 2);
    let members = launch_members(None);
    assert(members.last() == ("version"@, JsonView::Text("0.2.0"@)));
    assert(members.drop_last().len() == 0);
}

} // verus!
