//! From the names that are asked for to the units that run.

use vstd::prelude::*;

use crate::config::model::{Config, ConfigView, Target, TargetView, UnitTarget, UnitTargetView};
use crate::names::{lookup, NameSet};
use crate::views::{outcome, Duplicate};

verus! {

/// Why a selection of targets cannot be resolved.
#[derive(Debug, PartialEq, Eq)]
pub enum ResolveError {
    /// A composite stands for itself, directly or through others.
    Cycle(String),
    NotFound(String),
}

/// What a [`ResolveError`] stands for.
pub enum ResolveErrorView {
    Cycle(Seq<char>),
    NotFound(Seq<char>),
}

impl DeepView for ResolveError {
    type V = ResolveErrorView;

    open spec fn deep_view(&self) -> ResolveErrorView {
        match self {
            ResolveError::Cycle(name) => ResolveErrorView::Cycle(name@),
            ResolveError::NotFound(name) => ResolveErrorView::NotFound(name@),
        }
    }
}

/// What is shown of the error.
pub open spec fn resolve_message(error: ResolveErrorView) -> Seq<char> {
    match error {
        ResolveErrorView::Cycle(name) => "cycle detected while expanding composite target "@ + name,
        ResolveErrorView::NotFound(name) => "target "@ + name + " not found in configuration"@,
    }
}

impl ResolveError {
    /// What is shown of the error.
    pub fn message(&self) -> (r: String)
        ensures
            r@ == resolve_message(self.deep_view()),
    {
        match self {
            ResolveError::Cycle(name) => {
                let mut r: String = "cycle detected while expanding composite target ".to_owned();
                r.append(name.as_str());
                r
            },
            ResolveError::NotFound(name) => {
                let mut r: String = "target ".to_owned();
                r.append(name.as_str());
                r.append(" not found in configuration");
                r
            },
        }
    }
}

/// The number of targets that are not being expanded.
pub open spec fn unvisited(
    targets: Seq<(Seq<char>, TargetView)>,
    visiting: Set<Seq<char>>,
) -> nat
    decreases targets.len(),
{
    if targets.len() == 0 {
        0
    } else {
        unvisited(targets.drop_last(), visiting) + (if visiting.contains(targets.last().0) {
            0nat
        } else {
            1nat
        })
    }
}

/// Expanding a target leaves fewer targets that are not being expanded.
pub proof fn lemma_unvisited(
    targets: Seq<(Seq<char>, TargetView)>,
    visiting: Set<Seq<char>>,
    name: Seq<char>,
)
    ensures
        unvisited(targets, visiting.insert(name)) <= unvisited(targets, visiting),
        lookup(targets, name) is Some && !visiting.contains(name) ==> unvisited(
            targets,
            visiting.insert(name),
        ) < unvisited(targets, visiting),
    decreases targets.len(),
{
    if targets.len() > 0 {
        lemma_unvisited(targets.drop_last(), visiting, name);
    }
}

/// The units that a target stands for. A unit stands for itself, a composite for what its members
/// stand for, in their order. `visiting` holds the composites that are being expanded.
pub open spec fn expand(
    targets: Seq<(Seq<char>, TargetView)>,
    name: Seq<char>,
    visiting: Set<Seq<char>>,
) -> Result<Seq<UnitTargetView>, ResolveErrorView>
    decreases unvisited(targets, visiting), 0nat, 0nat,
{
    if visiting.contains(name) {
        Err(ResolveErrorView::Cycle(name))
    } else {
        match lookup(targets, name) {
            None => Err(ResolveErrorView::NotFound(name)),
            Some(TargetView::Unit(unit)) => Ok(seq![unit]),
            Some(TargetView::Composite(composite)) => {
                proof {
                    lemma_unvisited(targets, visiting, name);
                }
                expand_all(targets, composite.members, visiting.insert(name))
            },
        }
    }
}

/// The units that a list of targets stands for, in their order; the first name that cannot be
/// resolved decides the error.
pub open spec fn expand_all(
    targets: Seq<(Seq<char>, TargetView)>,
    names: Seq<Seq<char>>,
    visiting: Set<Seq<char>>,
) -> Result<Seq<UnitTargetView>, ResolveErrorView>
    decreases unvisited(targets, visiting), 1nat, names.len(),
{
    if names.len() == 0 {
        Ok(Seq::empty())
    } else {
        match expand_all(targets, names.drop_last(), visiting) {
            Err(error) => Err(error),
            Ok(units) => match expand(targets, names.last(), visiting) {
                Err(error) => Err(error),
                Ok(more) => Ok(units + more),
            },
        }
    }
}

proof fn lemma_expand_all_error(
    targets: Seq<(Seq<char>, TargetView)>,
    names: Seq<Seq<char>>,
    visiting: Set<Seq<char>>,
    i: int,
)
    requires
        0 <= i <= names.len(),
        expand_all(targets, names.take(i), visiting) is Err,
    ensures
        expand_all(targets, names, visiting) == expand_all(targets, names.take(i), visiting),
    decreases names.len() - i,
{
    if i < names.len() {
        assert(names.take(i + 1).drop_last() =~= names.take(i));
        lemma_expand_all_error(targets, names, visiting, i + 1);
    } else {
        assert(names.take(i) =~= names);
    }
}

fn expand_target(
    config: &Config,
    name: &str,
    resolved: &mut Vec<UnitTarget>,
    visiting: &mut NameSet,
) -> (r: Result<(), ResolveError>)
    ensures
        match r {
            Ok(()) => expand(config.targets.deep_view(), name@, old(visiting)@) is Ok
                && final(resolved).deep_view() == old(resolved).deep_view() + expand(
                config.targets.deep_view(),
                name@,
                old(visiting)@,
            )->Ok_0 && final(visiting)@ == old(visiting)@,
            Err(error) => expand(config.targets.deep_view(), name@, old(visiting)@) == Err::<
                Seq<UnitTargetView>,
                ResolveErrorView,
            >(error.deep_view()),
        },
    decreases unvisited(config.targets.deep_view(), old(visiting)@),
{
    let ghost targets = config.targets.deep_view();
    let ghost seen = visiting@;
    if !visiting.insert(name.to_owned()) {
        return Err(ResolveError::Cycle(name.to_owned()));
    }
    let target = match config.targets.get(name) {
        Some(target) => target,
        None => return Err(ResolveError::NotFound(name.to_owned())),
    };
    match target {
        Target::Composite(composite) => {
            let members: &Vec<String> = &composite.members;
            let ghost names = members.deep_view();
            let ghost inner = visiting@;
            let ghost before = resolved.deep_view();
            let mut i: usize = 0;
            proof {
                lemma_unvisited(targets, seen, name@);
                assert(names.take(0) =~= Seq::empty());
                assert(before + Seq::<UnitTargetView>::empty() =~= before);
            }
            while i < members.len()
                invariant
                    i <= members@.len(),
                    names == members.deep_view(),
                    targets == config.targets.deep_view(),
                    visiting@ == inner,
                    inner == seen.insert(name@),
                    !seen.contains(name@),
                    seen == old(visiting)@,
                    unvisited(targets, inner) < unvisited(targets, seen),
                    expand_all(targets, names.take(i as int), inner) is Ok,
                    resolved.deep_view() == before + expand_all(
                        targets,
                        names.take(i as int),
                        inner,
                    )->Ok_0,
                    expand(targets, name@, seen) == expand_all(targets, names, inner),
                decreases members@.len() - i,
            {
                let ghost now = resolved.deep_view();
                assert(names.take(i + 1).drop_last() =~= names.take(i as int));
                match expand_target(config, members[i].as_str(), resolved, visiting) {
                    Ok(()) => {
                        proof {
                            let done = expand_all(targets, names.take(i as int), inner)->Ok_0;
                            let more = expand(targets, names[i as int], inner)->Ok_0;
                            assert(before + (done + more) =~= (before + done) + more);
                        }
                    },
                    Err(error) => {
                        proof {
                            lemma_expand_all_error(targets, names, inner, i + 1);
                        }
                        return Err(error);
                    },
                }
                i = i + 1;
            }
            assert(names.take(i as int) =~= names);
        },
        Target::Unit(unit) => {
            let ghost before = resolved.deep_view();
            resolved.push(unit.duplicate());
            assert(resolved.deep_view() =~= before + seq![unit.deep_view()]);
        },
    }
    let _ = visiting.remove(name);
    assert(visiting@ =~= seen);
    Ok(())
}

/// The units that the named targets stand for.
pub open spec fn resolved(config: ConfigView, names: Seq<Seq<char>>) -> Result<
    Seq<UnitTargetView>,
    ResolveErrorView,
> {
    expand_all(config.targets, names, Set::empty())
}

/// The units that the named targets stand for, in the order of the names and of the members of
/// composites.
pub fn resolve_units(config: &Config, targets: &Vec<String>) -> (r: Result<
    Vec<UnitTarget>,
    ResolveError,
>)
    ensures
        outcome(r) == resolved(config.deep_view(), targets.deep_view()),
{
    let mut units: Vec<UnitTarget> = Vec::new();
    let mut visiting = NameSet::new();
    let ghost names = targets.deep_view();
    let ghost list = config.targets.deep_view();
    let mut i: usize = 0;
    assert(names.take(0) =~= Seq::empty());
    assert(units.deep_view() =~= Seq::empty());
    while i < targets.len()
        invariant
            i <= targets@.len(),
            names == targets.deep_view(),
            list == config.targets.deep_view(),
            visiting@ == Set::<Seq<char>>::empty(),
            expand_all(list, names.take(i as int), Set::empty()) == Ok::<_, ResolveErrorView>(
                units.deep_view(),
            ),
        decreases targets@.len() - i,
    {
        assert(names.take(i + 1).drop_last() =~= names.take(i as int));
        match expand_target(config, targets[i].as_str(), &mut units, &mut visiting) {
            Ok(()) => {},
            Err(error) => {
                proof {
                    lemma_expand_all_error(list, names, Set::empty(), i + 1);
                }
                return Err(error);
            },
        }
        i = i + 1;
    }
    assert(names.take(i as int) =~= names);
    Ok(units)
}

// ---------------------------------------------------------------------------
// Laws
// ---------------------------------------------------------------------------

proof fn lemma_expand_units(
    targets: Seq<(Seq<char>, TargetView)>,
    name: Seq<char>,
    visiting: Set<Seq<char>>,
    unit: UnitTargetView,
)
    requires
        expand(targets, name, visiting) is Ok,
        expand(targets, name, visiting)->Ok_0.contains(unit),
    ensures
        exists|under: Seq<char>| #[trigger]
            lookup(targets, under) == Some(TargetView::Unit(unit)),
    decreases unvisited(targets, visiting), 0nat, 0nat,
{
    match lookup(targets, name) {
        Some(TargetView::Unit(found)) => {
            let k = choose|k: int| 0 <= k < seq![found].len() && seq![found][k] == unit;
            assert(seq![found][k] == found);
            assert(lookup(targets, name) == Some(TargetView::Unit(unit)));
        },
        Some(TargetView::Composite(composite)) => {
            lemma_unvisited(targets, visiting, name);
            lemma_expand_all_units(targets, composite.members, visiting.insert(name), unit);
        },
        None => {},
    }
}

proof fn lemma_expand_all_units(
    targets: Seq<(Seq<char>, TargetView)>,
    names: Seq<Seq<char>>,
    visiting: Set<Seq<char>>,
    unit: UnitTargetView,
)
    requires
        expand_all(targets, names, visiting) is Ok,
        expand_all(targets, names, visiting)->Ok_0.contains(unit),
    ensures
        exists|under: Seq<char>| #[trigger]
            lookup(targets, under) == Some(TargetView::Unit(unit)),
    decreases unvisited(targets, visiting), 1nat, names.len(),
{
    if names.len() > 0 {
        let units = expand_all(targets, names.drop_last(), visiting)->Ok_0;
        let more = expand(targets, names.last(), visiting)->Ok_0;
        let all = units + more;
        let k = choose|k: int| 0 <= k < all.len() && all[k] == unit;
        if k < units.len() {
            assert(units[k] == unit);
            lemma_expand_all_units(targets, names.drop_last(), visiting, unit);
        } else {
            assert(more[k - units.len()] == unit);
            lemma_expand_units(targets, names.last(), visiting, unit);
        }
    }
}

/// Every unit that a selection resolves to is a unit target of the configuration.
pub proof fn resolved_units_are_configured(
    config: ConfigView,
    names: Seq<Seq<char>>,
    unit: UnitTargetView,
)
    requires
        resolved(config, names) is Ok,
        resolved(config, names)->Ok_0.contains(unit),
    ensures
        exists|under: Seq<char>| #[trigger]
            lookup(config.targets, under) == Some(TargetView::Unit(unit)),
{
    lemma_expand_all_units(config.targets, names, Set::empty(), unit);
}

/// A unit that is asked for by name resolves to itself alone.
pub proof fn unit_resolves_to_itself(config: ConfigView, name: Seq<char>, unit: UnitTargetView)
    requires
        lookup(config.targets, name) == Some(TargetView::Unit(unit)),
    ensures
        resolved(config, seq![name]) == Ok::<_, ResolveErrorView>(seq![unit]),
{
    assert(seq![name].drop_last() =~= Seq::empty());
    assert(expand_all(config.targets, Seq::empty(), Set::empty()) == Ok::<_, ResolveErrorView>(
        Seq::<UnitTargetView>::empty(),
    ));
    assert(expand(config.targets, name, Set::empty()) == Ok::<_, ResolveErrorView>(seq![unit]));
    assert(Seq::<UnitTargetView>::empty() + seq![unit] =~= seq![unit]);
}

/// A selection that asks for a target that is not configured is refused.
pub proof fn unknown_target_is_refused(config: ConfigView, names: Seq<Seq<char>>, i: int)
    requires
        0 <= i < names.len(),
        lookup(config.targets, names[i]) is None,
    ensures
        resolved(config, names) is Err,
    decreases names.len(),
{
    if i < names.len() - 1 {
        assert(names.drop_last()[i] == names[i]);
        unknown_target_is_refused(config, names.drop_last(), i);
    } else {
        assert(expand(config.targets, names.last(), Set::empty()) is Err);
    }
}

proof fn lemma_expand_monotone(
    targets: Seq<(Seq<char>, TargetView)>,
    name: Seq<char>,
    few: Set<Seq<char>>,
    many: Set<Seq<char>>,
)
    requires
        few.subset_of(many),
        expand(targets, name, many) is Ok,
    ensures
        expand(targets, name, few) == expand(targets, name, many),
    decreases unvisited(targets, many), 0nat, 0nat,
{
    if let Some(TargetView::Composite(composite)) = lookup(targets, name) {
        lemma_unvisited(targets, many, name);
        lemma_expand_all_monotone(targets, composite.members, few.insert(name), many.insert(name));
    }
}

proof fn lemma_expand_all_monotone(
    targets: Seq<(Seq<char>, TargetView)>,
    names: Seq<Seq<char>>,
    few: Set<Seq<char>>,
    many: Set<Seq<char>>,
)
    requires
        few.subset_of(many),
        expand_all(targets, names, many) is Ok,
    ensures
        expand_all(targets, names, few) == expand_all(targets, names, many),
    decreases unvisited(targets, many), 1nat, names.len(),
{
    if names.len() > 0 {
        lemma_expand_all_monotone(targets, names.drop_last(), few, many);
        lemma_expand_monotone(targets, names.last(), few, many);
    }
}

/// Asking for a composite is asking for its members.
pub proof fn composite_stands_for_its_members(
    config: ConfigView,
    name: Seq<char>,
    members: Seq<Seq<char>>,
)
    requires
        lookup(config.targets, name) matches Some(TargetView::Composite(composite))
            && composite.members == members,
        resolved(config, seq![name]) is Ok,
    ensures
        resolved(config, seq![name]) == resolved(config, members),
{
    let targets = config.targets;
    let none = Set::<Seq<char>>::empty();
    assert(seq![name].drop_last() =~= Seq::empty());
    assert(expand_all(targets, Seq::empty(), none) == Ok::<_, ResolveErrorView>(
        Seq::<UnitTargetView>::empty(),
    ));
    let inside = expand_all(targets, members, none.insert(name));
    assert(expand(targets, name, none) == inside);
    assert(Seq::<UnitTargetView>::empty() + inside->Ok_0 =~= inside->Ok_0);
    lemma_expand_all_monotone(targets, members, none, none.insert(name));
}

/// A composite that is a member of itself is refused.
pub proof fn composite_of_itself_is_refused(
    config: ConfigView,
    name: Seq<char>,
    members: Seq<Seq<char>>,
)
    requires
        lookup(config.targets, name) matches Some(TargetView::Composite(composite))
            && composite.members == members,
        members.contains(name),
    ensures
        resolved(config, seq![name]) is Err,
{
    let targets = config.targets;
    let none = Set::<Seq<char>>::empty();
    let i = choose|i: int| 0 <= i < members.len() && members[i] == name;
    lemma_visited_member(targets, members, none.insert(name), i);
    assert(expand(targets, name, none) is Err);
    assert(seq![name].last() == name);
}

proof fn lemma_visited_member(
    targets: Seq<(Seq<char>, TargetView)>,
    names: Seq<Seq<char>>,
    visiting: Set<Seq<char>>,
    i: int,
)
    requires
        0 <= i < names.len(),
        visiting.contains(names[i]),
    ensures
        expand_all(targets, names, visiting) is Err,
    decreases names.len(),
{
    if i < names.len() - 1 {
        assert(names.drop_last()[i] == names[i]);
        lemma_visited_member(targets, names.drop_last(), visiting, i);
    } else {
        assert(expand(targets, names.last(), visiting) is Err);
    }
}

/// A selection is resolved name by name: what two selections stand for, one behind the other, is
/// what they stand for together.
pub proof fn selections_are_resolved_in_order(
    config: ConfigView,
    first: Seq<Seq<char>>,
    second: Seq<Seq<char>>,
)
    requires
        resolved(config, first) is Ok,
        resolved(config, second) is Ok,
    ensures
        resolved(config, first + second) == Ok::<Seq<UnitTargetView>, ResolveErrorView>(
            resolved(config, first)->Ok_0 + resolved(config, second)->Ok_0,
        ),
    decreases second.len(),
{
    let none = Set::<Seq<char>>::empty();
    if second.len() == 0 {
        assert(first + second =~= first);
        assert(resolved(config, first)->Ok_0 + Seq::<UnitTargetView>::empty() =~= resolved(
            config,
            first,
        )->Ok_0);
    } else {
        let front = second.drop_last();
        assert(resolved(config, front) is Ok);
        selections_are_resolved_in_order(config, first, front);
        assert((first + second).drop_last() =~= first + front);
        assert((first + second).last() == second.last());
        let a = resolved(config, first)->Ok_0;
        let b = resolved(config, front)->Ok_0;
        let c = expand(config.targets, second.last(), none)->Ok_0;
        assert(a + (b + c) =~= (a + b) + c);
    }
}

/// What a refusal says names the target that could not be resolved.
pub proof fn refusal_names_the_target(config: ConfigView, name: Seq<char>)
    requires
        lookup(config.targets, name) is None,
    ensures
        resolved(config, seq![name]) == Err::<Seq<UnitTargetView>, ResolveErrorView>(
            ResolveErrorView::NotFound(name),
        ),
        resolve_message(ResolveErrorView::NotFound(name)) == "target "@ + name
            + " not found in configuration"@,
{
    let none = Set::<Seq<char>>::empty();
    assert(seq![name].drop_last() =~= Seq::empty());
    assert(expand_all(config.targets, Seq::empty(), none) is Ok);
    assert(expand(config.targets, name, none) is Err);
}

} // verus!
