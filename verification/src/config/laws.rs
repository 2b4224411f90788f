//! What holds of every configuration that is accepted.

use vstd::prelude::*;

use crate::config::loader::{
    config_spec, port_definition, port_definitions, port_selection, target_spec, targets_spec,
};
use crate::config::model::{PortDefinitionView, PortSelection, TargetView};
use crate::config::raw::{RawConfigView, RawPortConfigView, RawTargetView};
use crate::config::value::ConfigValueView;
use crate::names::{lemma_lookup_put, lemma_lookup_without, lemma_ordered_put, lookup, ordered};

verus! {

/// A port is accepted only where exactly one of `auto`, `auto_range` and `fixed` chooses it, and
/// the bounds of a range are the right way round.
pub proof fn port_is_chosen_one_way(
    target: Seq<char>,
    port: Seq<char>,
    auto: Option<bool>,
    auto_range: Option<ConfigValueView>,
    fixed: Option<ConfigValueView>,
)
    ensures
        port_selection(target, port, auto, auto_range, fixed) matches Ok(selection) ==> {
            &&& selection is Auto <==> auto == Some(true)
            &&& selection is AutoRange <==> auto_range is Some
            &&& selection is Fixed <==> fixed is Some
            &&& selection matches PortSelection::AutoRange { start, end } ==> start <= end
        },
{
}

/// Whether a port definition has a range whose bounds are the right way round, if it has one.
pub open spec fn sound_port(definition: PortDefinitionView) -> bool {
    definition.selection matches PortSelection::AutoRange { start, end } ==> start <= end
}

proof fn lemma_ports_sound(target: Seq<char>, raw: Seq<(Seq<char>, RawPortConfigView)>)
    requires
        port_definitions(target, raw) is Ok,
    ensures
        ordered(port_definitions(target, raw)->Ok_0),
        forall|name: Seq<char>|
            (#[trigger] lookup(port_definitions(target, raw)->Ok_0, name)) matches Some(port)
                ==> sound_port(port),
    decreases raw.len(),
{
    let all = port_definitions(target, raw)->Ok_0;
    if raw.len() > 0 {
        let rest = raw.drop_last();
        lemma_ports_sound(target, rest);
        let done = port_definitions(target, rest)->Ok_0;
        let last = port_definition(target, raw.last().0, raw.last().1)->Ok_0;
        lemma_ordered_put(done, raw.last().0, last);
        port_is_chosen_one_way(
            target,
            raw.last().0,
            raw.last().1.auto,
            raw.last().1.auto_range,
            raw.last().1.fixed,
        );
        assert forall|name: Seq<char>| (#[trigger] lookup(all, name)) is Some implies sound_port(
            lookup(all, name)->0,
        ) by {
            lemma_lookup_put(done, raw.last().0, last, name);
            assert(lookup(done, name) matches Some(port) ==> sound_port(port));
        }
    }
}

/// What holds of a target that stands under `name` in an accepted configuration: it bears that
/// name, a composite has members, the ports of a unit are in name order and their ranges the
/// right way round, and the properties of a unit do not hold the watch setting.
pub open spec fn sound_target(name: Seq<char>, target: TargetView) -> bool {
    match target {
        TargetView::Composite(composite) => composite.name == name && composite.members.len() > 0,
        TargetView::Unit(unit) => {
            &&& unit.name == name
            &&& ordered(unit.ports)
            &&& forall|port: Seq<char>|
                (#[trigger] lookup(unit.ports, port)) matches Some(definition) ==> sound_port(
                    definition,
                )
            &&& lookup(unit.properties, "refresh_watch_type"@) is None
        },
    }
}

proof fn lemma_target_sound(base: Seq<char>, base_is_dir: bool, name: Seq<char>, raw: RawTargetView)
    requires
        target_spec(base, base_is_dir, name, raw) is Ok,
    ensures
        sound_target(name, target_spec(base, base_is_dir, name, raw)->Ok_0),
{
    let target = target_spec(base, base_is_dir, name, raw)->Ok_0;
    if target is Unit {
        lemma_ports_sound(name, raw.port);
        lemma_lookup_without(raw.extra, "refresh_watch_type"@, "refresh_watch_type"@);
    }
}

pub(crate) proof fn lemma_targets_sound(
    base: Seq<char>,
    base_is_dir: bool,
    raw: Seq<(Seq<char>, RawTargetView)>,
)
    requires
        targets_spec(base, base_is_dir, raw) is Ok,
    ensures
        ordered(targets_spec(base, base_is_dir, raw)->Ok_0),
        forall|name: Seq<char>|
            (#[trigger] lookup(targets_spec(base, base_is_dir, raw)->Ok_0, name)) == (match lookup(
                raw,
                name,
            ) {
                Some(target) => Some(target_spec(base, base_is_dir, name, target)->Ok_0),
                None => None,
            }),
        forall|name: Seq<char>|
            (#[trigger] lookup(targets_spec(base, base_is_dir, raw)->Ok_0, name)) matches Some(
                target,
            ) ==> sound_target(name, target),
    decreases raw.len(),
{
    let all = targets_spec(base, base_is_dir, raw)->Ok_0;
    if raw.len() > 0 {
        let rest = raw.drop_last();
        lemma_targets_sound(base, base_is_dir, rest);
        let done = targets_spec(base, base_is_dir, rest)->Ok_0;
        let name = raw.last().0;
        let last = target_spec(base, base_is_dir, name, raw.last().1)->Ok_0;
        lemma_ordered_put(done, name, last);
        lemma_target_sound(base, base_is_dir, name, raw.last().1);
        assert forall|other: Seq<char>| (#[trigger] lookup(all, other)) == (match lookup(
            raw,
            other,
        ) {
            Some(target) => Some(target_spec(base, base_is_dir, other, target)->Ok_0),
            None => None,
        }) && (lookup(all, other) matches Some(target) ==> sound_target(other, target)) by {
            lemma_lookup_put(done, name, last, other);
            assert(lookup(done, other) == (match lookup(rest, other) {
                Some(target) => Some(target_spec(base, base_is_dir, other, target)->Ok_0),
                None => None,
            }));
        }
    }
}

/// Every accepted configuration lists its targets in name order and holds exactly the targets
/// that are written, each under its own name; composites have members, port ranges are the right
/// way round, and at least one second of stability and one kept run are promised.
pub proof fn accepted_configuration_is_sound(
    base: Seq<char>,
    base_is_dir: bool,
    raw: RawConfigView,
)
    ensures
        config_spec(base, base_is_dir, raw) matches Ok(config) ==> {
            &&& ordered(config.targets)
            &&& forall|name: Seq<char>|
                (#[trigger] lookup(config.targets, name)) is Some <==> lookup(raw.targets, name) is Some
            &&& forall|name: Seq<char>|
                (#[trigger] lookup(config.targets, name)) matches Some(target) ==> sound_target(
                    name,
                    target,
                )
            &&& config.watch.stability >= 1
            &&& config.run_history.keep_runs >= 1
        },
{
    if config_spec(base, base_is_dir, raw) is Ok {
        lemma_targets_sound(base, base_is_dir, raw.targets);
    }
}

/// A configuration is refused as a whole where one of its targets is wrong.
pub proof fn one_wrong_target_refuses_the_configuration(
    base: Seq<char>,
    base_is_dir: bool,
    raw: RawConfigView,
    i: int,
)
    requires
        0 <= i < raw.targets.len(),
        target_spec(base, base_is_dir, raw.targets[i].0, raw.targets[i].1) is Err,
    ensures
        config_spec(base, base_is_dir, raw) is Err,
{
    lemma_wrong_target(base, base_is_dir, raw.targets, i);
}

proof fn lemma_wrong_target(
    base: Seq<char>,
    base_is_dir: bool,
    raw: Seq<(Seq<char>, RawTargetView)>,
    i: int,
)
    requires
        0 <= i < raw.len(),
        target_spec(base, base_is_dir, raw[i].0, raw[i].1) is Err,
    ensures
        targets_spec(base, base_is_dir, raw) is Err,
    decreases raw.len(),
{
    if i < raw.len() - 1 {
        assert(raw.drop_last()[i] == raw[i]);
        lemma_wrong_target(base, base_is_dir, raw.drop_last(), i);
    }
}

} // verus!
