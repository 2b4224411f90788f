//! The environment that a target starts with.

use vstd::prelude::*;

use crate::config::model::{
    EnvReference, EnvReferenceView, EnvValue, EnvValueView, ReferenceResource,
    ReferenceResourceView, UnitTarget, UnitTargetView,
};
use crate::names::{
    lemma_lookup_found, lemma_lookup_put, lookup, put, NameMap,
};
use crate::numbers::{decimal, decimal_round_trip, decimal_spec, parse_spec};
use crate::parts::{
    lemma_position, lemma_position_is, position, split_once, split_once_spec,
};
use crate::pattern::{
    captures, group_of, group_text, last_end, match_end, match_in, match_start,
    matches_replaced_by_themselves_change_nothing, regex_captures, replaced, replaced_front,
    text_without_match_is_unchanged, well_placed,
};
use crate::state::{RuntimeState, RuntimeStateView};
use crate::text::{
    chars_of, occurs_at, occurs_in, string_of, strip_prefix, strip_prefix_spec,
    to_ascii_uppercase, uppercase,
};
use crate::views::{outcome, Duplicate};

verus! {

/// The ports that were handed out, by target and by name.
pub type Assignments = NameMap<NameMap<u16>>;

// ---------------------------------------------------------------------------
// References
// ---------------------------------------------------------------------------

/// The port of a target: one that was just handed out, else one that the target has.
pub open spec fn port_of(
    assignments: Seq<(Seq<char>, Seq<(Seq<char>, u16)>)>,
    state: RuntimeStateView,
    target: Seq<char>,
    name: Seq<char>,
) -> Option<u16> {
    let assigned = match lookup(assignments, target) {
        Some(ports) => lookup(ports, name),
        None => None,
    };
    let held = match lookup(state.targets, target) {
        Some(entry) => lookup(entry.ports, name),
        None => None,
    };
    if assigned is Some {
        assigned
    } else {
        held
    }
}

fn find_port(
    assignments: &Assignments,
    state: &RuntimeState,
    target: &str,
    name: &str,
) -> (r: Option<u16>)
    ensures
        r == port_of(assignments.deep_view(), state.deep_view(), target@, name@),
{
    if let Some(ports) = assignments.get(target) {
        if let Some(port) = ports.get(name) {
            return Some(*port);
        }
    }
    if let Some(entry) = state.targets.get(target) {
        if let Some(port) = entry.ports.get(name) {
            return Some(*port);
        }
    }
    None
}

/// The number that a reference stands for, or what is shown where there is none.
pub open spec fn reference_value(
    reference: EnvReferenceView,
    assignments: Seq<(Seq<char>, Seq<(Seq<char>, u16)>)>,
    state: RuntimeStateView,
) -> Result<Seq<char>, Seq<char>> {
    match reference.resource {
        ReferenceResourceView::Port { name } => match port_of(
            assignments,
            state,
            reference.target,
            name,
        ) {
            Some(port) => Ok(decimal_spec(port as nat)),
            None => Err(
                "reference to "@ + reference.target + ":"@ + name + " could not be resolved"@,
            ),
        },
    }
}

/// The number that the reference stands for, or what is shown where there is none.
pub fn resolve_reference(
    reference: &EnvReference,
    assignments: &Assignments,
    state: &RuntimeState,
) -> (r: Result<String, String>)
    ensures
        outcome(r) == reference_value(
            reference.deep_view(),
            assignments.deep_view(),
            state.deep_view(),
        ),
{
    match &reference.resource {
        ReferenceResource::Port { name } => match find_port(
            assignments,
            state,
            reference.target.as_str(),
            name.as_str(),
        ) {
            Some(port) => Ok(decimal(port as u64)),
            None => {
                let mut error: String = "reference to ".to_owned();
                error.append(reference.target.as_str());
                error.append(":");
                error.append(name.as_str());
                error.append(" could not be resolved");
                Err(error)
            },
        },
    }
}

// ---------------------------------------------------------------------------
// Placeholders
// ---------------------------------------------------------------------------

/// What a placeholder stands for: `target:port.name` is a port of the target; anything else, and a
/// port that is not known, is nothing.
pub open spec fn placeholder_value(
    content: Seq<char>,
    assignments: Seq<(Seq<char>, Seq<(Seq<char>, u16)>)>,
    state: RuntimeStateView,
) -> Option<Seq<char>> {
    match split_once_spec(content, ':') {
        None => None,
        Some((target, rest)) => match strip_prefix_spec(rest, "port."@) {
            None => None,
            Some(name) => match port_of(assignments, state, target, name) {
                Some(port) => Some(decimal_spec(port as nat)),
                None => None,
            },
        },
    }
}

/// What the placeholder stands for.
pub fn resolve_port_placeholder(
    content: &str,
    assignments: &Assignments,
    state: &RuntimeState,
) -> (r: Option<String>)
    ensures
        r.deep_view() == placeholder_value(content@, assignments.deep_view(), state.deep_view()),
{
    match split_once(content, ':') {
        None => None,
        Some((target, rest)) => match strip_prefix(rest.as_str(), "port.") {
            None => None,
            Some(name) => match find_port(assignments, state, target.as_str(), name.as_str()) {
                Some(port) => Some(decimal(port as u64)),
                None => None,
            },
        },
    }
}

/// The pattern of a placeholder: a name in braces, with or without a dollar sign before them.
pub open spec fn placeholder_pattern() -> Seq<char> {
    "\\$\\{([A-Za-z0-9_.:-]+)\\}|\\{([A-Za-z0-9_.:-]+)\\}"@
}

/// What is put in the place of a match: what the placeholder stands for, or the match itself.
pub open spec fn substitute(
    text: Seq<char>,
    groups: Seq<Option<(usize, usize)>>,
    assignments: Seq<(Seq<char>, Seq<(Seq<char>, u16)>)>,
    state: RuntimeStateView,
) -> Seq<char> {
    let first = group_text(text, groups, 1);
    let content = if first is Some {
        first
    } else {
        group_text(text, groups, 2)
    };
    let value = match content {
        Some(inner) => placeholder_value(inner, assignments, state),
        None => None,
    };
    match value {
        Some(port) => port,
        None => text.subrange(match_start(groups), match_end(groups)),
    }
}

/// A text with what each matched placeholder stands for in its place.
pub open spec fn interpolated_matches(
    text: Seq<char>,
    found: Seq<Seq<Option<(usize, usize)>>>,
    assignments: Seq<(Seq<char>, Seq<(Seq<char>, u16)>)>,
    state: RuntimeStateView,
) -> Seq<char> {
    replaced(
        text,
        found,
        |groups: Seq<Option<(usize, usize)>>| substitute(text, groups, assignments, state),
    )
}

fn substitution(
    text: &Vec<char>,
    groups: &Vec<Option<(usize, usize)>>,
    assignments: &Assignments,
    state: &RuntimeState,
) -> (r: String)
    requires
        match_in(groups.deep_view(), text@.len()),
    ensures
        r@ == substitute(text@, groups.deep_view(), assignments.deep_view(), state.deep_view()),
{
    let content: Option<String> = match group_of(text, groups, 1) {
        Some(inner) => Some(inner),
        None => group_of(text, groups, 2),
    };
    let value: Option<String> = match content {
        Some(inner) => resolve_port_placeholder(inner.as_str(), assignments, state),
        None => None,
    };
    match value {
        Some(port) => port,
        None => {
            assert(groups.deep_view()[0] == groups@[0].deep_view());
            match groups[0] {
                Some((start, end)) => string_of(text, start, end),
                None => String::new(),
            }
        },
    }
}

/// The text with what each matched placeholder stands for in its place.
pub fn interpolate_matches(
    input: &str,
    found: &Vec<Vec<Option<(usize, usize)>>>,
    assignments: &Assignments,
    state: &RuntimeState,
) -> (r: String)
    requires
        well_placed(found.deep_view(), input@.len()),
    ensures
        r@ == interpolated_matches(
            input@,
            found.deep_view(),
            assignments.deep_view(),
            state.deep_view(),
        ),
{
    let text: Vec<char> = chars_of(input);
    let ghost a = assignments.deep_view();
    let ghost s = state.deep_view();
    let ghost list = found.deep_view();
    let ghost f = |groups: Seq<Option<(usize, usize)>>| substitute(text@, groups, a, s);
    let mut r: String = String::new();
    let mut last: usize = 0;
    let mut i: usize = 0;
    assert(list.take(0) =~= Seq::empty());
    assert(r@ =~= Seq::empty());
    while i < found.len()
        invariant
            i <= found@.len(),
            text@ == input@,
            list == found.deep_view(),
            a == assignments.deep_view(),
            s == state.deep_view(),
            f == (|groups: Seq<Option<(usize, usize)>>| substitute(text@, groups, a, s)),
            well_placed(list, text@.len()),
            last == last_end(list.take(i as int)),
            last <= text@.len(),
            r@ == replaced_front(text@, list.take(i as int), f),
        decreases found@.len() - i,
    {
        let groups: &Vec<Option<(usize, usize)>> = &found[i];
        assert(groups.deep_view() == list[i as int]);
        assert(match_in(list[i as int], text@.len()));
        assert(list.take(i + 1).drop_last() =~= list.take(i as int));
        assert(list.take(i + 1).last() == list[i as int]);
        assert(i > 0 ==> list.take(i as int).last() == list[i - 1]);
        assert(i > 0 ==> match_end(list[i - 1]) <= match_start(list[i as int]));
        assert(groups.deep_view()[0] == groups@[0].deep_view());
        if let Some((start, end)) = groups[0] {
            r.append(string_of(&text, last, start).as_str());
            r.append(substitution(&text, groups, assignments, state).as_str());
            last = end;
        }
        i = i + 1;
    }
    assert(list.take(i as int) =~= list);
    assert(text@.skip(last as int) =~= text@.subrange(last as int, text@.len() as int));
    r.append(string_of(&text, last, text.len()).as_str());
    r
}

/// A text with what its placeholders stand for in their place.
pub open spec fn interpolated(
    text: Seq<char>,
    assignments: Seq<(Seq<char>, Seq<(Seq<char>, u16)>)>,
    state: RuntimeStateView,
) -> Seq<char> {
    match regex_captures(placeholder_pattern(), text) {
        Some(found) => interpolated_matches(text, found, assignments, state),
        None => text,
    }
}

/// The text with what its placeholders stand for in their place. A placeholder that stands for
/// nothing stays as it is.
pub fn interpolate_placeholders(
    input: &str,
    assignments: &Assignments,
    state: &RuntimeState,
) -> (r: String)
    ensures
        r@ == interpolated(input@, assignments.deep_view(), state.deep_view()),
{
    match captures("\\$\\{([A-Za-z0-9_.:-]+)\\}|\\{([A-Za-z0-9_.:-]+)\\}", input) {
        Some(found) => interpolate_matches(input, &found, assignments, state),
        None => input.to_owned(),
    }
}

// ---------------------------------------------------------------------------
// The environment
// ---------------------------------------------------------------------------

/// The value of a variable before placeholders are filled in.
pub open spec fn variable(
    value: EnvValueView,
    assignments: Seq<(Seq<char>, Seq<(Seq<char>, u16)>)>,
    state: RuntimeStateView,
) -> Result<Seq<char>, Seq<char>> {
    match value {
        EnvValueView::Literal(text) => Ok(text),
        EnvValueView::Reference(reference) => reference_value(reference, assignments, state),
    }
}

/// Variables from a file, with the variables of the target over them; the first reference that
/// cannot be resolved decides the error.
pub open spec fn with_variables(
    base: Seq<(Seq<char>, Seq<char>)>,
    values: Seq<(Seq<char>, EnvValueView)>,
    assignments: Seq<(Seq<char>, Seq<(Seq<char>, u16)>)>,
    state: RuntimeStateView,
) -> Result<Seq<(Seq<char>, Seq<char>)>, Seq<char>>
    decreases values.len(),
{
    if values.len() == 0 {
        Ok(base)
    } else {
        match with_variables(base, values.drop_last(), assignments, state) {
            Err(error) => Err(error),
            Ok(env) => match variable(values.last().1, assignments, state) {
                Err(error) => Err(error),
                Ok(text) => Ok(put(env, values.last().0, text)),
            },
        }
    }
}

proof fn lemma_with_variables_error(
    base: Seq<(Seq<char>, Seq<char>)>,
    values: Seq<(Seq<char>, EnvValueView)>,
    assignments: Seq<(Seq<char>, Seq<(Seq<char>, u16)>)>,
    state: RuntimeStateView,
    i: int,
)
    requires
        0 <= i <= values.len(),
        with_variables(base, values.take(i), assignments, state) is Err,
    ensures
        with_variables(base, values, assignments, state) == with_variables(
            base,
            values.take(i),
            assignments,
            state,
        ),
    decreases values.len() - i,
{
    if i < values.len() {
        assert(values.take(i + 1).drop_last() =~= values.take(i));
        lemma_with_variables_error(base, values, assignments, state, i + 1);
    } else {
        assert(values.take(i) =~= values);
    }
}

/// Variables with the ports of the target over them, each under two names.
pub open spec fn with_ports(
    base: Seq<(Seq<char>, Seq<char>)>,
    ports: Seq<(Seq<char>, u16)>,
) -> Seq<(Seq<char>, Seq<char>)>
    decreases ports.len(),
{
    if ports.len() == 0 {
        base
    } else {
        let upper = uppercase(ports.last().0);
        let number = decimal_spec(ports.last().1 as nat);
        put(
            put(with_ports(base, ports.drop_last()), "RUFA_PORT_"@ + upper, number),
            "PORT_"@ + upper,
            number,
        )
    }
}

/// Variables with the name and the generation of the target over them.
pub open spec fn with_identity(
    base: Seq<(Seq<char>, Seq<char>)>,
    name: Seq<char>,
    generation: u64,
) -> Seq<(Seq<char>, Seq<char>)> {
    put(put(base, "RUFA_TARGET"@, name), "RUFA_GENERATION"@, decimal_spec(generation as nat))
}

/// The variables with their placeholders filled in.
pub open spec fn filled_in(
    env: Seq<(Seq<char>, Seq<char>)>,
    assignments: Seq<(Seq<char>, Seq<(Seq<char>, u16)>)>,
    state: RuntimeStateView,
) -> Seq<(Seq<char>, Seq<char>)>
    decreases env.len(),
{
    if env.len() == 0 {
        Seq::empty()
    } else {
        put(
            filled_in(env.drop_last(), assignments, state),
            env.last().0,
            interpolated(env.last().1, assignments, state),
        )
    }
}

/// The environment of a target before placeholders are filled in.
pub open spec fn plain_environment(
    unit: UnitTargetView,
    generation: u64,
    file: Seq<(Seq<char>, Seq<char>)>,
    ports: Seq<(Seq<char>, u16)>,
    assignments: Seq<(Seq<char>, Seq<(Seq<char>, u16)>)>,
    state: RuntimeStateView,
) -> Result<Seq<(Seq<char>, Seq<char>)>, Seq<char>> {
    match with_variables(file, unit.env, assignments, state) {
        Err(error) => Err(error),
        Ok(env) => Ok(with_identity(with_ports(env, ports), unit.name, generation)),
    }
}

/// The environment of a target.
pub open spec fn environment(
    unit: UnitTargetView,
    generation: u64,
    file: Seq<(Seq<char>, Seq<char>)>,
    ports: Seq<(Seq<char>, u16)>,
    assignments: Seq<(Seq<char>, Seq<(Seq<char>, u16)>)>,
    state: RuntimeStateView,
) -> Result<Seq<(Seq<char>, Seq<char>)>, Seq<char>> {
    match plain_environment(unit, generation, file, ports, assignments, state) {
        Err(error) => Err(error),
        Ok(env) => Ok(filled_in(env, assignments, state)),
    }
}

fn add_variables(
    base: &NameMap<String>,
    values: &NameMap<EnvValue>,
    assignments: &Assignments,
    state: &RuntimeState,
) -> (r: Result<NameMap<String>, String>)
    ensures
        outcome(r) == with_variables(
            base.deep_view(),
            values.deep_view(),
            assignments.deep_view(),
            state.deep_view(),
        ),
{
    let ghost list = values.deep_view();
    let ghost a = assignments.deep_view();
    let ghost s = state.deep_view();
    let mut env: NameMap<String> = base.duplicate();
    let mut i: usize = 0;
    assert(list.take(0) =~= Seq::empty());
    while i < values.len()
        invariant
            i <= list.len(),
            list == values.deep_view(),
            a == assignments.deep_view(),
            s == state.deep_view(),
            with_variables(base.deep_view(), list.take(i as int), a, s) == Ok::<_, Seq<char>>(
                env.deep_view(),
            ),
        decreases list.len() - i,
    {
        assert(list.take(i + 1).drop_last() =~= list.take(i as int));
        let rendered: Result<String, String> = match values.value_at(i) {
            EnvValue::Literal(text) => Ok(text.clone()),
            EnvValue::Reference(reference) => resolve_reference(reference, assignments, state),
        };
        assert(outcome(rendered) == variable(list[i as int].1, a, s));
        match rendered {
            Ok(text) => {
                let _ = env.insert(values.name_at(i).clone(), text);
            },
            Err(error) => {
                proof {
                    lemma_with_variables_error(base.deep_view(), list, a, s, i + 1);
                }
                return Err(error);
            },
        }
        i = i + 1;
    }
    assert(list.take(i as int) =~= list);
    Ok(env)
}

fn prefixed(prefix: &str, name: &str) -> (r: String)
    ensures
        r@ == prefix@ + name@,
{
    let mut r: String = prefix.to_owned();
    r.append(name);
    r
}

fn add_ports(env: &mut NameMap<String>, ports: &NameMap<u16>)
    ensures
        final(env).deep_view() == with_ports(old(env).deep_view(), ports.deep_view()),
{
    let ghost base = env.deep_view();
    let ghost list = ports.deep_view();
    let mut i: usize = 0;
    assert(list.take(0) =~= Seq::empty());
    while i < ports.len()
        invariant
            i <= list.len(),
            list == ports.deep_view(),
            env.deep_view() == with_ports(base, list.take(i as int)),
        decreases list.len() - i,
    {
        assert(list.take(i + 1).drop_last() =~= list.take(i as int));
        let upper: String = to_ascii_uppercase(ports.name_at(i).as_str());
        let port: u16 = *ports.value_at(i);
        let _ = env.insert(prefixed("RUFA_PORT_", upper.as_str()), decimal(port as u64));
        let _ = env.insert(prefixed("PORT_", upper.as_str()), decimal(port as u64));
        i = i + 1;
    }
    assert(list.take(i as int) =~= list);
}

fn fill_in(env: &NameMap<String>, assignments: &Assignments, state: &RuntimeState) -> (r: NameMap<
    String,
>)
    ensures
        r.deep_view() == filled_in(env.deep_view(), assignments.deep_view(), state.deep_view()),
{
    let ghost list = env.deep_view();
    let mut r: NameMap<String> = NameMap::new();
    let mut i: usize = 0;
    assert(list.take(0) =~= Seq::empty());
    while i < env.len()
        invariant
            i <= list.len(),
            list == env.deep_view(),
            r.deep_view() == filled_in(
                list.take(i as int),
                assignments.deep_view(),
                state.deep_view(),
            ),
        decreases list.len() - i,
    {
        assert(list.take(i + 1).drop_last() =~= list.take(i as int));
        let value: String = interpolate_placeholders(env.value_at(i).as_str(), assignments, state);
        let _ = r.insert(env.name_at(i).clone(), value);
        i = i + 1;
    }
    assert(list.take(i as int) =~= list);
    r
}

/// The environment that the target starts with: the variables of the environment files, over them
/// its own, over them its ports, its name and its generation, all with their placeholders filled
/// in.
pub fn build_environment(
    unit: &UnitTarget,
    generation: u64,
    env_file_vars: &NameMap<String>,
    my_ports: &NameMap<u16>,
    assignments: &Assignments,
    state: &RuntimeState,
) -> (r: Result<NameMap<String>, String>)
    ensures
        outcome(r) == environment(
            unit.deep_view(),
            generation,
            env_file_vars.deep_view(),
            my_ports.deep_view(),
            assignments.deep_view(),
            state.deep_view(),
        ),
{
    let mut env: NameMap<String> = match add_variables(
        env_file_vars,
        &unit.env,
        assignments,
        state,
    ) {
        Ok(env) => env,
        Err(error) => return Err(error),
    };
    add_ports(&mut env, my_ports);
    let _ = env.insert("RUFA_TARGET".to_owned(), unit.name.clone());
    let _ = env.insert("RUFA_GENERATION".to_owned(), decimal(generation));
    Ok(fill_in(&env, assignments, state))
}

// ---------------------------------------------------------------------------
// Laws
// ---------------------------------------------------------------------------

proof fn lemma_filled_in(
    env: Seq<(Seq<char>, Seq<char>)>,
    assignments: Seq<(Seq<char>, Seq<(Seq<char>, u16)>)>,
    state: RuntimeStateView,
    name: Seq<char>,
)
    ensures
        lookup(filled_in(env, assignments, state), name) == (match lookup(env, name) {
            Some(value) => Some(interpolated(value, assignments, state)),
            None => None,
        }),
    decreases env.len(),
{
    if env.len() > 0 {
        lemma_filled_in(env.drop_last(), assignments, state, name);
        lemma_lookup_put(
            filled_in(env.drop_last(), assignments, state),
            env.last().0,
            interpolated(env.last().1, assignments, state),
            name,
        );
    }
}

/// Every target sees its own name and generation, whatever files and its own variables say.
pub proof fn identity_is_always_set(
    unit: UnitTargetView,
    generation: u64,
    file: Seq<(Seq<char>, Seq<char>)>,
    ports: Seq<(Seq<char>, u16)>,
    assignments: Seq<(Seq<char>, Seq<(Seq<char>, u16)>)>,
    state: RuntimeStateView,
)
    requires
        environment(unit, generation, file, ports, assignments, state) is Ok,
    ensures
        ({
            let env = environment(unit, generation, file, ports, assignments, state)->Ok_0;
            &&& lookup(env, "RUFA_TARGET"@) == Some(interpolated(unit.name, assignments, state))
            &&& lookup(env, "RUFA_GENERATION"@) == Some(
                interpolated(decimal_spec(generation as nat), assignments, state),
            )
        }),
{
    let base = with_ports(with_variables(file, unit.env, assignments, state)->Ok_0, ports);
    let plain = with_identity(base, unit.name, generation);
    let named = put(base, "RUFA_TARGET"@, unit.name);
    let number = decimal_spec(generation as nat);
    reveal_strlit("RUFA_TARGET");
    reveal_strlit("RUFA_GENERATION");
    assert("RUFA_TARGET"@.len() != "RUFA_GENERATION"@.len());
    lemma_lookup_put(base, "RUFA_TARGET"@, unit.name, "RUFA_TARGET"@);
    lemma_lookup_put(named, "RUFA_GENERATION"@, number, "RUFA_TARGET"@);
    lemma_lookup_put(named, "RUFA_GENERATION"@, number, "RUFA_GENERATION"@);
    lemma_filled_in(plain, assignments, state, "RUFA_TARGET"@);
    lemma_filled_in(plain, assignments, state, "RUFA_GENERATION"@);
}

proof fn lemma_with_variables(
    base: Seq<(Seq<char>, Seq<char>)>,
    values: Seq<(Seq<char>, EnvValueView)>,
    assignments: Seq<(Seq<char>, Seq<(Seq<char>, u16)>)>,
    state: RuntimeStateView,
    name: Seq<char>,
)
    requires
        with_variables(base, values, assignments, state) is Ok,
    ensures
        lookup(with_variables(base, values, assignments, state)->Ok_0, name) == (match lookup(
            values,
            name,
        ) {
            Some(value) => Some(variable(value, assignments, state)->Ok_0),
            None => lookup(base, name),
        }),
    decreases values.len(),
{
    if values.len() > 0 {
        lemma_with_variables(base, values.drop_last(), assignments, state, name);
        lemma_lookup_put(
            with_variables(base, values.drop_last(), assignments, state)->Ok_0,
            values.last().0,
            variable(values.last().1, assignments, state)->Ok_0,
            name,
        );
    }
}

/// A variable of the target itself wins over the same variable of an environment file, and
/// variables of a file that the target does not set are kept. Ports and identity aside.
pub proof fn own_variables_win_over_files(
    file: Seq<(Seq<char>, Seq<char>)>,
    values: Seq<(Seq<char>, EnvValueView)>,
    assignments: Seq<(Seq<char>, Seq<(Seq<char>, u16)>)>,
    state: RuntimeStateView,
    name: Seq<char>,
)
    requires
        with_variables(file, values, assignments, state) is Ok,
    ensures
        ({
            let env = with_variables(file, values, assignments, state)->Ok_0;
            &&& lookup(values, name) is None ==> lookup(env, name) == lookup(file, name)
            &&& lookup(values, name) matches Some(value) ==> lookup(env, name) == Some(
                variable(value, assignments, state)->Ok_0,
            )
        }),
{
    lemma_with_variables(file, values, assignments, state, name);
}

/// Each port of the target is told to it as `PORT_` and as `RUFA_PORT_` with the name of the port
/// in capitals, unless a later port has the same name in capitals.
pub proof fn ports_are_told(
    base: Seq<(Seq<char>, Seq<char>)>,
    ports: Seq<(Seq<char>, u16)>,
    i: int,
)
    requires
        0 <= i < ports.len(),
        forall|j: int|
            i < j < ports.len() ==> uppercase((#[trigger] ports[j]).0) != uppercase(ports[i].0),
    ensures
        lookup(with_ports(base, ports), "PORT_"@ + uppercase(ports[i].0)) == Some(
            decimal_spec(ports[i].1 as nat),
        ),
        lookup(with_ports(base, ports), "RUFA_PORT_"@ + uppercase(ports[i].0)) == Some(
            decimal_spec(ports[i].1 as nat),
        ),
    decreases ports.len(),
{
    let last = ports.len() - 1;
    let rest = ports.drop_last();
    let upper = uppercase(ports[last].0);
    let mine = uppercase(ports[i].0);
    let number = decimal_spec(ports[last].1 as nat);
    let before = with_ports(base, rest);
    let long = "RUFA_PORT_"@ + upper;
    let short = "PORT_"@ + upper;
    let middle = put(before, long, number);
    let my_long = "RUFA_PORT_"@ + mine;
    let my_short = "PORT_"@ + mine;
    reveal_strlit("RUFA_PORT_");
    reveal_strlit("PORT_");
    assert(my_short[0] == 'P' && short[0] == 'P' && long[0] == 'R' && my_long[0] == 'R');
    lemma_lookup_put(before, long, number, my_long);
    lemma_lookup_put(before, long, number, my_short);
    lemma_lookup_put(middle, short, number, my_long);
    lemma_lookup_put(middle, short, number, my_short);
    if i < last {
        assert(rest[i] == ports[i]);
        assert forall|j: int| i < j < rest.len() implies uppercase((#[trigger] rest[j]).0)
            != uppercase(rest[i].0) by {
            assert(rest[j] == ports[j]);
        }
        ports_are_told(base, rest, i);
        assert(uppercase(ports[last].0) != mine);
        assert(my_short.skip(5) =~= mine && short.skip(5) =~= upper);
        assert(my_long.skip(10) =~= mine && long.skip(10) =~= upper);
    }
}

/// Placeholders that stand for nothing are left as they are.
pub proof fn unknown_placeholders_stay(
    text: Seq<char>,
    found: Seq<Seq<Option<(usize, usize)>>>,
    assignments: Seq<(Seq<char>, Seq<(Seq<char>, u16)>)>,
    state: RuntimeStateView,
)
    requires
        well_placed(found, text.len()),
        forall|i: int|
            0 <= i < found.len() ==> substitute(text, #[trigger] found[i], assignments, state)
                == text.subrange(match_start(found[i]), match_end(found[i])),
    ensures
        interpolated_matches(text, found, assignments, state) == text,
{
    matches_replaced_by_themselves_change_nothing(
        text,
        found,
        |groups: Seq<Option<(usize, usize)>>| substitute(text, groups, assignments, state),
    );
}

/// A port that was just handed out wins over one that the target had before.
pub proof fn assigned_port_wins(
    assignments: Seq<(Seq<char>, Seq<(Seq<char>, u16)>)>,
    state: RuntimeStateView,
    target: Seq<char>,
    name: Seq<char>,
    ports: Seq<(Seq<char>, u16)>,
    port: u16,
)
    requires
        lookup(assignments, target) == Some(ports),
        lookup(ports, name) == Some(port),
    ensures
        port_of(assignments, state, target, name) == Some(port),
{
}

/// A port that the target holds from its last run is used where none was handed out, and no port
/// is known otherwise.
pub proof fn held_port_is_used_otherwise(
    assignments: Seq<(Seq<char>, Seq<(Seq<char>, u16)>)>,
    state: RuntimeStateView,
    target: Seq<char>,
    name: Seq<char>,
)
    requires
        lookup(assignments, target) matches Some(ports) ==> lookup(ports, name) is None,
    ensures
        lookup(state.targets, target) matches Some(entry) ==> port_of(
            assignments,
            state,
            target,
            name,
        ) == lookup(entry.ports, name),
        lookup(state.targets, target) is None ==> port_of(assignments, state, target, name) is None,
{
}

/// A reference stands for the digits of the port that it names, and cannot be resolved where
/// there is no such port.
pub proof fn reference_is_the_port_in_digits(
    target: Seq<char>,
    name: Seq<char>,
    assignments: Seq<(Seq<char>, Seq<(Seq<char>, u16)>)>,
    state: RuntimeStateView,
)
    ensures
        ({
            let reference = EnvReferenceView {
                target,
                resource: ReferenceResourceView::Port { name },
            };
            let value = variable(EnvValueView::Reference(reference), assignments, state);
            match port_of(assignments, state, target, name) {
                Some(port) => value is Ok && parse_spec(value->Ok_0, u16::MAX as nat) == Some(
                    port as nat,
                ) && value->Ok_0 == decimal_spec(port as nat),
                None => value is Err,
            }
        }),
{
    if let Some(port) = port_of(assignments, state, target, name) {
        decimal_round_trip(port as nat, u16::MAX as nat);
    }
}

/// A literal value is taken as it is.
pub proof fn literal_is_taken_as_it_is(
    text: Seq<char>,
    assignments: Seq<(Seq<char>, Seq<(Seq<char>, u16)>)>,
    state: RuntimeStateView,
)
    ensures
        variable(EnvValueView::Literal(text), assignments, state) == Ok::<Seq<char>, Seq<char>>(text),
{
}

/// A placeholder that names a target, a colon and `port.` with the name of a port stands for the
/// digits of that port, and for nothing where there is no such port.
pub proof fn placeholder_is_the_port_in_digits(
    target: Seq<char>,
    name: Seq<char>,
    assignments: Seq<(Seq<char>, Seq<(Seq<char>, u16)>)>,
    state: RuntimeStateView,
)
    requires
        !target.contains(':'),
    ensures
        placeholder_value(target + seq![':'] + "port."@ + name, assignments, state) == (
        match port_of(assignments, state, target, name) {
            Some(port) => Some(decimal_spec(port as nat)),
            None => None,
        }),
{
    reveal_strlit("port.");
    let content = target + seq![':'] + "port."@ + name;
    let n = target.len() as int;
    assert forall|k: int| 0 <= k < n implies content[k] != ':' by {
        assert(content[k] == target[k]);
        assert(target.contains(target[k]));
    }
    assert(content[n] == ':');
    lemma_position_is(content, ':', n);
    assert(content.take(n) =~= target);
    let rest = content.skip(n + 1);
    assert(rest =~= "port."@ + name);
    assert(rest.take(5) =~= "port."@);
    assert(rest.skip(5) =~= name);
}

/// A text in braces that does not name a port of a target stands for nothing.
pub proof fn other_placeholders_stand_for_nothing(
    content: Seq<char>,
    assignments: Seq<(Seq<char>, Seq<(Seq<char>, u16)>)>,
    state: RuntimeStateView,
)
    requires
        !occurs_in(content, ":port."@),
    ensures
        placeholder_value(content, assignments, state) is None,
{
    reveal_strlit("port.");
    reveal_strlit(":port.");
    lemma_position(content, ':');
    let p = position(content, ':') as int;
    if p < content.len() {
        let rest = content.skip(p + 1);
        if "port."@.is_prefix_of(rest) {
            assert(rest.take(5) =~= "port."@);
            assert(":port."@ =~= seq![':'] + "port."@);
            assert(content.subrange(p, p + 6) =~= seq![':'] + rest.take(5));
            assert(occurs_at(content, ":port."@, p));
        }
    }
}

/// What a placeholder in a match stands for is put in the place of the match: of a match of one
/// kind of braces or the other.
pub proof fn match_is_replaced_by_its_port(
    text: Seq<char>,
    groups: Seq<Option<(usize, usize)>>,
    start: usize,
    end: usize,
    assignments: Seq<(Seq<char>, Seq<(Seq<char>, u16)>)>,
    state: RuntimeStateView,
)
    requires
        groups.len() == 3,
        groups[1] == Some((start, end)) || groups[1] is None && groups[2] == Some((start, end)),
        placeholder_value(text.subrange(start as int, end as int), assignments, state) is Some,
    ensures
        Some(substitute(text, groups, assignments, state)) == placeholder_value(
            text.subrange(start as int, end as int),
            assignments,
            state,
        ),
{
}

/// Filling in one placeholder more changes the text only where that placeholder stands: what was
/// filled in before stays, and so does what stands behind it.
pub proof fn each_placeholder_is_filled_in(
    text: Seq<char>,
    found: Seq<Seq<Option<(usize, usize)>>>,
    assignments: Seq<(Seq<char>, Seq<(Seq<char>, u16)>)>,
    state: RuntimeStateView,
)
    requires
        found.len() > 0,
        well_placed(found, text.len()),
    ensures
        ({
            let before = interpolated_matches(text, found.drop_last(), assignments, state);
            let start = match_start(found.last());
            let end = match_end(found.last());
            let kept = before.len() - (text.len() - start);
            &&& 0 <= kept <= before.len()
            &&& before.skip(kept) == text.skip(start)
            &&& interpolated_matches(text, found, assignments, state) == before.take(kept)
                + substitute(text, found.last(), assignments, state) + text.skip(end)
        }),
{
    let replacement = |groups: Seq<Option<(usize, usize)>>|
        substitute(text, groups, assignments, state);
    let front = found.drop_last();
    let last = found[found.len() - 1];
    assert(match_in(last, text.len()));
    let start = match_start(last);
    if front.len() > 0 {
        assert(front[front.len() - 1] == found[found.len() - 2]);
        assert(match_end(found[found.len() - 2]) <= match_start(last));
        assert(match_in(found[found.len() - 2], text.len()));
    }
    let done = replaced_front(text, front, replacement);
    let at = last_end(front);
    let before = interpolated_matches(text, front, assignments, state);
    assert(before == done + text.skip(at));
    let kept = before.len() - (text.len() - start);
    assert(before.take(kept) =~= done + text.subrange(at, start));
    assert(before.skip(kept) =~= text.skip(start));
    assert(interpolated_matches(text, found, assignments, state) =~= before.take(kept)
        + substitute(text, found.last(), assignments, state) + text.skip(match_end(last)));
}

/// A text without placeholders is taken as it is.
pub proof fn text_without_placeholders_is_taken_as_it_is(
    text: Seq<char>,
    assignments: Seq<(Seq<char>, Seq<(Seq<char>, u16)>)>,
    state: RuntimeStateView,
)
    requires
        regex_captures(placeholder_pattern(), text) matches Some(found) ==> found.len() == 0,
    ensures
        interpolated(text, assignments, state) == text,
{
    if let Some(found) = regex_captures(placeholder_pattern(), text) {
        text_without_match_is_unchanged(
            text,
            found,
            |groups: Seq<Option<(usize, usize)>>| substitute(text, groups, assignments, state),
        );
    }
}

/// The environment of a target holds each of its ports as `PORT_` and as `RUFA_PORT_` with the
/// name of the port in capitals, whatever files and its own variables say.
pub proof fn environment_holds_the_ports(
    unit: UnitTargetView,
    generation: u64,
    file: Seq<(Seq<char>, Seq<char>)>,
    ports: Seq<(Seq<char>, u16)>,
    assignments: Seq<(Seq<char>, Seq<(Seq<char>, u16)>)>,
    state: RuntimeStateView,
    i: int,
)
    requires
        environment(unit, generation, file, ports, assignments, state) is Ok,
        0 <= i < ports.len(),
        forall|j: int|
            i < j < ports.len() ==> uppercase((#[trigger] ports[j]).0) != uppercase(ports[i].0),
    ensures
        ({
            let env = environment(unit, generation, file, ports, assignments, state)->Ok_0;
            let number = interpolated(decimal_spec(ports[i].1 as nat), assignments, state);
            &&& lookup(env, "PORT_"@ + uppercase(ports[i].0)) == Some(number)
            &&& lookup(env, "RUFA_PORT_"@ + uppercase(ports[i].0)) == Some(number)
        }),
{
    let own = with_variables(file, unit.env, assignments, state)->Ok_0;
    let base = with_ports(own, ports);
    ports_are_told(own, ports, i);
    reveal_strlit("PORT_");
    reveal_strlit("RUFA_PORT_");
    let short = "PORT_"@ + uppercase(ports[i].0);
    let long = "RUFA_PORT_"@ + uppercase(ports[i].0);
    lemma_identity_elsewhere(base, unit.name, generation, short);
    lemma_identity_elsewhere(base, unit.name, generation, long);
    assert(short[0] == 'P');
    assert(long[5] == 'P');
    let plain = with_identity(base, unit.name, generation);
    lemma_filled_in(plain, assignments, state, short);
    lemma_filled_in(plain, assignments, state, long);
}

proof fn lemma_identity_elsewhere(
    base: Seq<(Seq<char>, Seq<char>)>,
    name: Seq<char>,
    generation: u64,
    key: Seq<char>,
)
    ensures
        key.len() > 0 && key[0] != 'R' || key.len() > 5 && key[5] != 'T' && key[5] != 'G' ==> lookup(
            with_identity(base, name, generation),
            key,
        ) == lookup(base, key),
{
    reveal_strlit("RUFA_TARGET");
    reveal_strlit("RUFA_GENERATION");
    let number = decimal_spec(generation as nat);
    lemma_lookup_put(base, "RUFA_TARGET"@, name, key);
    lemma_lookup_put(put(base, "RUFA_TARGET"@, name), "RUFA_GENERATION"@, number, key);
}

proof fn lemma_ports_elsewhere(
    base: Seq<(Seq<char>, Seq<char>)>,
    ports: Seq<(Seq<char>, u16)>,
    key: Seq<char>,
)
    requires
        !"PORT_"@.is_prefix_of(key),
        !"RUFA_PORT_"@.is_prefix_of(key),
    ensures
        lookup(with_ports(base, ports), key) == lookup(base, key),
    decreases ports.len(),
{
    if ports.len() > 0 {
        let upper = uppercase(ports.last().0);
        let number = decimal_spec(ports.last().1 as nat);
        let before = with_ports(base, ports.drop_last());
        let long = "RUFA_PORT_"@ + upper;
        let short = "PORT_"@ + upper;
        lemma_ports_elsewhere(base, ports.drop_last(), key);
        assert(long.take("RUFA_PORT_"@.len() as int) =~= "RUFA_PORT_"@);
        assert(short.take("PORT_"@.len() as int) =~= "PORT_"@);
        lemma_lookup_put(before, long, number, key);
        lemma_lookup_put(put(before, long, number), short, number, key);
    }
}

/// In the environment of a target a variable that the target sets has the value that it is given,
/// one that only a file sets has the value from the file, and nothing else is set: ports and
/// identity aside, whose names begin with `PORT_` or `RUFA_`.
pub proof fn environment_holds_the_variables(
    unit: UnitTargetView,
    generation: u64,
    file: Seq<(Seq<char>, Seq<char>)>,
    ports: Seq<(Seq<char>, u16)>,
    assignments: Seq<(Seq<char>, Seq<(Seq<char>, u16)>)>,
    state: RuntimeStateView,
    key: Seq<char>,
)
    requires
        environment(unit, generation, file, ports, assignments, state) is Ok,
        !"PORT_"@.is_prefix_of(key),
        !"RUFA_"@.is_prefix_of(key),
    ensures
        ({
            let env = environment(unit, generation, file, ports, assignments, state)->Ok_0;
            &&& lookup(unit.env, key) matches Some(EnvValueView::Literal(text)) ==> lookup(env, key)
                == Some(interpolated(text, assignments, state))
            &&& lookup(unit.env, key) matches Some(EnvValueView::Reference(reference)) ==> (match
            reference.resource {
                ReferenceResourceView::Port { name } => port_of(
                    assignments,
                    state,
                    reference.target,
                    name,
                ) matches Some(port) && lookup(env, key) == Some(
                    interpolated(decimal_spec(port as nat), assignments, state),
                ),
            })
            &&& lookup(unit.env, key) is None ==> (match lookup(file, key) {
                Some(text) => lookup(env, key) == Some(interpolated(text, assignments, state)),
                None => lookup(env, key) is None,
            })
        }),
{
    reveal_strlit("RUFA_");
    reveal_strlit("RUFA_PORT_");
    reveal_strlit("RUFA_TARGET");
    reveal_strlit("RUFA_GENERATION");
    assert("RUFA_PORT_"@.take(5) =~= "RUFA_"@);
    assert("RUFA_TARGET"@.take(5) =~= "RUFA_"@);
    assert("RUFA_GENERATION"@.take(5) =~= "RUFA_"@);
    if "RUFA_PORT_"@.is_prefix_of(key) {
        assert(key.take(10).take(5) =~= key.take(5));
    }
    let own = with_variables(file, unit.env, assignments, state)->Ok_0;
    let base = with_ports(own, ports);
    let number = decimal_spec(generation as nat);
    lemma_with_variables(file, unit.env, assignments, state, key);
    lemma_ports_elsewhere(own, ports, key);
    lemma_lookup_put(base, "RUFA_TARGET"@, unit.name, key);
    lemma_lookup_put(put(base, "RUFA_TARGET"@, unit.name), "RUFA_GENERATION"@, number, key);
    lemma_filled_in(with_identity(base, unit.name, generation), assignments, state, key);
    if let Some(value) = lookup(unit.env, key) {
        lemma_lookup_found(unit.env, key);
        let i = choose|i: int| 0 <= i < unit.env.len() && unit.env[i] == (key, value);
        lemma_variables_resolve(file, unit.env, assignments, state, i);
    }
}

proof fn lemma_variables_resolve(
    base: Seq<(Seq<char>, Seq<char>)>,
    values: Seq<(Seq<char>, EnvValueView)>,
    assignments: Seq<(Seq<char>, Seq<(Seq<char>, u16)>)>,
    state: RuntimeStateView,
    i: int,
)
    requires
        with_variables(base, values, assignments, state) is Ok,
        0 <= i < values.len(),
    ensures
        variable(values[i].1, assignments, state) is Ok,
    decreases values.len(),
{
    if i < values.len() - 1 {
        assert(values.drop_last()[i] == values[i]);
        lemma_variables_resolve(base, values.drop_last(), assignments, state, i);
    }
}

/// Whether a value needs no port, or one that is known.
pub open spec fn resolvable(
    value: EnvValueView,
    assignments: Seq<(Seq<char>, Seq<(Seq<char>, u16)>)>,
    state: RuntimeStateView,
) -> bool {
    match value {
        EnvValueView::Literal(_) => true,
        EnvValueView::Reference(reference) => match reference.resource {
            ReferenceResourceView::Port { name } => port_of(
                assignments,
                state,
                reference.target,
                name,
            ) is Some,
        },
    }
}

/// A target has an environment exactly where every reference among its variables names a port
/// that is known.
pub proof fn environment_needs_known_references(
    unit: UnitTargetView,
    generation: u64,
    file: Seq<(Seq<char>, Seq<char>)>,
    ports: Seq<(Seq<char>, u16)>,
    assignments: Seq<(Seq<char>, Seq<(Seq<char>, u16)>)>,
    state: RuntimeStateView,
)
    ensures
        environment(unit, generation, file, ports, assignments, state) is Ok <==> forall|i: int|
            0 <= i < unit.env.len() ==> resolvable(
                (#[trigger] unit.env[i]).1,
                assignments,
                state,
            ),
{
    lemma_with_variables_ok(file, unit.env, assignments, state);
}

proof fn lemma_with_variables_ok(
    base: Seq<(Seq<char>, Seq<char>)>,
    values: Seq<(Seq<char>, EnvValueView)>,
    assignments: Seq<(Seq<char>, Seq<(Seq<char>, u16)>)>,
    state: RuntimeStateView,
)
    ensures
        with_variables(base, values, assignments, state) is Ok <==> forall|i: int|
            0 <= i < values.len() ==> resolvable((#[trigger] values[i]).1, assignments, state),
    decreases values.len(),
{
    if values.len() > 0 {
        let front = values.drop_last();
        lemma_with_variables_ok(base, front, assignments, state);
        if with_variables(base, values, assignments, state) is Ok {
            assert forall|i: int| 0 <= i < values.len() implies resolvable(
                (#[trigger] values[i]).1,
                assignments,
                state,
            ) by {
                if i < front.len() {
                    assert(front[i] == values[i]);
                }
            }
        }
        if forall|i: int|
            0 <= i < values.len() ==> resolvable((#[trigger] values[i]).1, assignments, state) {
            assert forall|i: int| 0 <= i < front.len() implies resolvable(
                (#[trigger] front[i]).1,
                assignments,
                state,
            ) by {
                assert(front[i] == values[i]);
            }
            assert(resolvable(values[values.len() - 1].1, assignments, state));
        }
    }
}

} // verus!
