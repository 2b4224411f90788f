//! Changes of files, and the services that they concern.

use vstd::prelude::*;

use crate::config::model::{ConfigView, UnitTargetView};
use crate::names::{
    lemma_lookup_at, lemma_lookup_found, listing, lists, lookup, ordered, NameMap, NameSet,
};
use crate::paths::{
    below, components, components_spec, entry_name, file_name, file_name_spec, join_spec,
    lemma_entry, log_file_path_spec, named_parts, parent, parent_of_an_entry_is_its_directory,
    parent_spec, plainly_ended, starts_with,
};
use crate::runner::requests::{services_are_watched, well_named};
use crate::runner::resolve::resolved;
use crate::runner::supervisor::{watch_spec_of, WatchRootsView, WatchSpec, WatchSpecView};
use crate::text::{
    ends_with, lowercase, same, starts_with as text_starts_with, to_ascii_lowercase,
};

verus! {

/// What happened to files.
#[derive(Debug, Clone, Copy, PartialEq, Eq, Structural)]
pub enum ChangeKind {
    Any,
    Access,
    Create,
    Modify,
    Remove,
    Other,
}

/// Something that happened to files.
#[derive(Debug, PartialEq, Eq)]
pub struct Change {
    pub kind: ChangeKind,
    pub paths: Vec<String>,
}

/// What a [`Change`] stands for.
pub struct ChangeView {
    pub kind: ChangeKind,
    pub paths: Seq<Seq<char>>,
}

impl DeepView for Change {
    type V = ChangeView;

    open spec fn deep_view(&self) -> ChangeView {
        ChangeView { kind: self.kind, paths: self.paths.deep_view() }
    }
}

/// Whether a component of a path, in lower case, is a directory whose changes do not count.
pub open spec fn ignored_component(name: Seq<char>) -> bool {
    lowercase(name) == ".git"@ || lowercase(name) == "target"@ || lowercase(name) == ".rufa"@
}

/// Whether changes of a file of this name do not count: logs, and what editors leave behind.
pub open spec fn ignored_name(name: Seq<char>) -> bool {
    let lower = lowercase(name);
    ||| lower == "rufa.log"@
    ||| "rufa.log."@.is_prefix_of(lower)
    ||| "~"@.is_suffix_of(lower)
    ||| ".swp"@.is_suffix_of(lower)
    ||| ".tmp"@.is_suffix_of(lower)
}

/// Whether changes of a path do not count.
pub open spec fn ignored(path: Seq<char>) -> bool {
    ||| exists|i: int|
        0 <= i < components_spec(path).len() && ignored_component(
            #[trigger] components_spec(path)[i],
        )
    ||| file_name_spec(path) matches Some(name) && ignored_name(name)
}

/// Whether changes of `path` do not count.
pub fn should_ignore_path(path: &str) -> (r: bool)
    ensures
        r == ignored(path@),
{
    let list: Vec<String> = components(path);
    let ghost all = list.deep_view();
    let mut i: usize = 0;
    while i < list.len()
        invariant
            i <= list@.len(),
            all == list.deep_view(),
            all == components_spec(path@),
            forall|k: int| 0 <= k < i ==> !ignored_component(#[trigger] all[k]),
        decreases list@.len() - i,
    {
        let lower: String = to_ascii_lowercase(list[i].as_str());
        assert(list@[i as int]@ == all[i as int]);
        if same(lower.as_str(), ".git") || same(lower.as_str(), "target") || same(
            lower.as_str(),
            ".rufa",
        ) {
            assert(ignored_component(all[i as int]));
            return true;
        }
        i = i + 1;
    }
    match file_name(path) {
        Some(name) => {
            let lower: String = to_ascii_lowercase(name.as_str());
            same(lower.as_str(), "rufa.log") || text_starts_with(lower.as_str(), "rufa.log.")
                || ends_with(lower.as_str(), "~") || ends_with(lower.as_str(), ".swp")
                || ends_with(lower.as_str(), ".tmp")
        },
        None => false,
    }
}

/// Whether a change of this kind counts.
pub open spec fn counts(kind: ChangeKind) -> bool {
    kind is Modify || kind is Create || kind is Remove || kind is Any
}

/// Whether a path lies below one of the directories and counts.
pub open spec fn path_hits(path: Seq<char>, dirs: Seq<Seq<char>>) -> bool {
    !ignored(path) && exists|d: int| 0 <= d < dirs.len() && below(path, #[trigger] dirs[d])
}

/// Whether a change concerns a service with the given directories. One that tells no path concerns
/// every service.
pub open spec fn concerns(change: ChangeView, dirs: Seq<Seq<char>>) -> bool {
    counts(change.kind) && (change.paths.len() == 0 || exists|p: int|
        0 <= p < change.paths.len() && path_hits(#[trigger] change.paths[p], dirs))
}

/// The services that a change concerns, in name order.
pub open spec fn concerned(
    change: ChangeView,
    services: Seq<(Seq<char>, Seq<Seq<char>>)>,
) -> Seq<Seq<char>>
    decreases services.len(),
{
    if services.len() == 0 {
        Seq::empty()
    } else {
        let front = concerned(change, services.drop_last());
        if concerns(change, services.last().1) {
            front.push(services.last().0)
        } else {
            front
        }
    }
}

fn lies_below_any(path: &str, dirs: &Vec<String>) -> (r: bool)
    ensures
        r == exists|d: int| 0 <= d < dirs@.len() && below(path@, #[trigger] dirs.deep_view()[d]),
{
    let ghost all = dirs.deep_view();
    let mut i: usize = 0;
    while i < dirs.len()
        invariant
            i <= dirs@.len(),
            all == dirs.deep_view(),
            forall|k: int| 0 <= k < i ==> !below(path@, #[trigger] all[k]),
        decreases dirs@.len() - i,
    {
        assert(dirs@[i as int]@ == all[i as int]);
        if starts_with(path, dirs[i].as_str()) {
            return true;
        }
        i = i + 1;
    }
    false
}

fn change_concerns(change: &Change, dirs: &Vec<String>) -> (r: bool)
    ensures
        r == concerns(change.deep_view(), dirs.deep_view()),
{
    if !(change.kind == ChangeKind::Modify || change.kind == ChangeKind::Create || change.kind
        == ChangeKind::Remove || change.kind == ChangeKind::Any) {
        return false;
    }
    if change.paths.len() == 0 {
        return true;
    }
    let ghost all = change.paths.deep_view();
    let mut i: usize = 0;
    while i < change.paths.len()
        invariant
            i <= change.paths@.len(),
            all == change.paths.deep_view(),
            counts(change.kind),
            forall|k: int| 0 <= k < i ==> !path_hits(#[trigger] all[k], dirs.deep_view()),
        decreases change.paths@.len() - i,
    {
        assert(change.paths@[i as int]@ == all[i as int]);
        if !should_ignore_path(change.paths[i].as_str()) && lies_below_any(
            change.paths[i].as_str(),
            dirs,
        ) {
            assert(path_hits(all[i as int], dirs.deep_view()));
            return true;
        }
        i = i + 1;
    }
    false
}

/// The services that the change concerns, in name order.
pub fn matched_targets(change: &Change, services: &NameMap<Vec<String>>) -> (r: Vec<String>)
    ensures
        r.deep_view() == concerned(change.deep_view(), services.deep_view()),
{
    let ghost list = services.deep_view();
    let mut r: Vec<String> = Vec::new();
    let mut i: usize = 0;
    assert(list.take(0) =~= Seq::empty());
    assert(r.deep_view() =~= Seq::empty());
    while i < services.len()
        invariant
            i <= list.len(),
            list == services.deep_view(),
            r.deep_view() == concerned(change.deep_view(), list.take(i as int)),
        decreases list.len() - i,
    {
        assert(list.take(i + 1).drop_last() =~= list.take(i as int));
        let ghost before = r.deep_view();
        if change_concerns(change, services.value_at(i)) {
            r.push(services.name_at(i).clone());
            assert(r.deep_view() =~= before.push(list[i as int].0));
        }
        i = i + 1;
    }
    assert(list.take(i as int) =~= list);
    r
}

// ---------------------------------------------------------------------------
// Gathering changes
// ---------------------------------------------------------------------------

/// What is to be done after a change.
#[derive(Debug, Clone, Copy, PartialEq, Eq, Structural)]
pub enum WatchStep {
    /// The change concerns no service.
    Ignored,
    /// The change waits with earlier ones.
    Coalesced,
    /// A timer is to be started, for the seconds for which changes are gathered.
    StartTimer { seconds: u64 },
}

/// Watching in progress: changes are gathered for a while before services restart.
#[derive(Debug)]
pub struct WatchSession {
    pub services: NameMap<Vec<String>>,
    /// Seconds for which changes are gathered.
    pub stability: u64,
    pub pending_targets: NameSet,
    /// Whether a timer runs.
    pub pending: bool,
}

/// What a [`WatchSession`] stands for.
pub struct WatchSessionView {
    pub services: Seq<(Seq<char>, Seq<Seq<char>>)>,
    pub stability: u64,
    pub pending_targets: Set<Seq<char>>,
    pub pending: bool,
}

impl DeepView for WatchSession {
    type V = WatchSessionView;

    open spec fn deep_view(&self) -> WatchSessionView {
        WatchSessionView {
            services: self.services.deep_view(),
            stability: self.stability,
            pending_targets: self.pending_targets@,
            pending: self.pending,
        }
    }
}

/// What is to be done after a change.
pub open spec fn step_spec(session: WatchSessionView, change: ChangeView) -> WatchStep {
    if concerned(change, session.services).len() == 0 {
        WatchStep::Ignored
    } else if session.pending {
        WatchStep::Coalesced
    } else {
        WatchStep::StartTimer { seconds: session.stability }
    }
}

/// A session whose waiting targets were taken.
pub open spec fn after_taking(session: WatchSessionView) -> WatchSessionView {
    WatchSessionView { pending_targets: Set::empty(), ..session }
}

/// A session whose timer ran out.
pub open spec fn after_settling(session: WatchSessionView) -> WatchSessionView {
    WatchSessionView { pending: false, ..session }
}

/// The session that watches what is to be watched, where there is something.
pub open spec fn session_for(spec: WatchSpecView) -> Option<WatchSessionView> {
    if spec.services.len() > 0 {
        Some(
            WatchSessionView {
                services: spec.services,
                stability: spec.stability,
                pending_targets: Set::empty(),
                pending: false,
            },
        )
    } else {
        None
    }
}

/// The directory that a configuration file stands in.
pub open spec fn root_of(config_path: Seq<char>) -> Seq<char> {
    match parent_spec(config_path) {
        Some(dir) => dir,
        None => "."@,
    }
}

/// The session after a change.
pub open spec fn after_step(session: WatchSessionView, change: ChangeView) -> WatchSessionView {
    let matched = concerned(change, session.services);
    if matched.len() == 0 {
        session
    } else {
        WatchSessionView {
            pending_targets: session.pending_targets.union(matched.to_set()),
            pending: true,
            ..session
        }
    }
}

impl WatchSession {
    /// Takes note of a change.
    pub fn on_change(&mut self, change: &Change) -> (r: WatchStep)
        ensures
            r == step_spec(old(self).deep_view(), change.deep_view()),
            final(self).deep_view() == after_step(old(self).deep_view(), change.deep_view()),
    {
        let matched: Vec<String> = matched_targets(change, &self.services);
        if matched.len() == 0 {
            return WatchStep::Ignored;
        }
        let ghost list = matched.deep_view();
        let mut i: usize = 0;
        assert(self.pending_targets@.union(list.take(0).to_set()) =~= self.pending_targets@);
        while i < matched.len()
            invariant
                i <= matched@.len(),
                list == matched.deep_view(),
                self.services == old(self).services,
                self.stability == old(self).stability,
                self.pending == old(self).pending,
                self.pending_targets@ == old(self).pending_targets@.union(
                    list.take(i as int).to_set(),
                ),
            decreases matched@.len() - i,
        {
            assert(matched@[i as int]@ == list[i as int]);
            proof {
                let before = list.take(i as int);
                let after = list.take(i + 1);
                assert(after.to_set() =~= before.to_set().insert(list[i as int])) by {
                    assert forall|name: Seq<char>| after.to_set().contains(name) <==> (
                    before.to_set().contains(name) || name == list[i as int]) by {
                        if after.contains(name) {
                            let k = choose|k: int| 0 <= k < after.len() && after[k] == name;
                            if k < i {
                                assert(before[k] == name);
                            }
                        }
                        if before.contains(name) {
                            let k = choose|k: int| 0 <= k < before.len() && before[k] == name;
                            assert(after[k] == name);
                        }
                        assert(after[i as int] == list[i as int]);
                    }
                }
            }
            let _ = self.pending_targets.insert(matched[i].clone());
            assert(self.pending_targets@ =~= old(self).pending_targets@.union(
                list.take(i + 1).to_set(),
            ));
            i = i + 1;
        }
        assert(list.take(i as int) =~= list);
        if self.pending {
            return WatchStep::Coalesced;
        }
        self.pending = true;
        WatchStep::StartTimer { seconds: self.stability }
    }

    /// Takes the services that are waiting, in name order, when the timer has run out.
    pub fn take_pending(&mut self) -> (r: Vec<String>)
        ensures
            r.deep_view() == listing(old(self).deep_view().pending_targets),
            lists(r.deep_view(), old(self).deep_view().pending_targets),
            final(self).deep_view() == after_taking(old(self).deep_view()),
    {
        let r: Vec<String> = self.pending_targets.to_vec();
        self.pending_targets = NameSet::new();
        r
    }

    /// Notes that the services that were taken have been dealt with: the next change starts a
    /// timer again.
    pub fn settle(&mut self)
        ensures
            final(self).deep_view() == after_settling(old(self).deep_view()),
    {
        self.pending = false;
    }
}

/// Watching, where it is on.
#[derive(Debug)]
pub struct WatchManager {
    pub session: Option<WatchSession>,
}

impl DeepView for WatchManager {
    type V = Option<WatchSessionView>;

    open spec fn deep_view(&self) -> Option<WatchSessionView> {
        self.session.deep_view()
    }
}

impl WatchManager {
    /// Watching is off.
    pub fn new() -> (r: Self)
        ensures
            r.deep_view() == None::<WatchSessionView>,
    {
        WatchManager { session: None }
    }

    /// Turns watching on for the services, in place of what was watched before. Where there is no
    /// service it is turned off. Tells whether it is on.
    pub fn enable_watch(&mut self, spec: WatchSpec) -> (r: bool)
        ensures
            r == (spec.deep_view().services.len() > 0),
            final(self).deep_view() == session_for(spec.deep_view()),
    {
        if spec.services.len() == 0 {
            let _ = self.disable();
            return false;
        }
        self.session = Some(
            WatchSession {
                services: spec.services,
                stability: spec.stability,
                pending_targets: NameSet::new(),
                pending: false,
            },
        );
        true
    }

    /// Turns watching off, and tells whether it was on.
    pub fn disable(&mut self) -> (r: bool)
        ensures
            r == (old(self).deep_view() is Some),
            final(self).deep_view() == None::<WatchSessionView>,
    {
        let r: bool = self.session.is_some();
        self.session = None;
        r
    }
}

/// The directory that is watched: the one that holds the configuration.
pub fn watch_root(config_path: &str) -> (r: String)
    ensures
        r@ == root_of(config_path@),
{
    match parent(config_path) {
        Some(dir) => dir,
        None => ".".to_owned(),
    }
}

// ---------------------------------------------------------------------------
// Laws
// ---------------------------------------------------------------------------

/// A change concerns exactly the services below one of whose directories one of its paths lies
/// and counts, or all where it tells no path; kinds of changes that do not count concern none.
pub proof fn change_concerns_only_its_services(
    change: ChangeView,
    services: Seq<(Seq<char>, Seq<Seq<char>>)>,
    name: Seq<char>,
)
    ensures
        concerned(change, services).contains(name) <==> exists|i: int|
            0 <= i < services.len() && services[i].0 == name && concerns(
                change,
                (#[trigger] services[i]).1,
            ),
    decreases services.len(),
{
    let all = concerned(change, services);
    if services.len() > 0 {
        let front = services.drop_last();
        let some = concerned(change, front);
        change_concerns_only_its_services(change, front, name);
        if all.contains(name) {
            let k = choose|k: int| 0 <= k < all.len() && all[k] == name;
            if k < some.len() {
                assert(some[k] == name);
                let i = choose|i: int|
                    0 <= i < front.len() && front[i].0 == name && concerns(
                        change,
                        (#[trigger] front[i]).1,
                    );
                assert(services[i] == front[i]);
            } else {
                assert(services[services.len() - 1].0 == name);
            }
        }
        if exists|i: int|
            0 <= i < services.len() && services[i].0 == name && concerns(
                change,
                (#[trigger] services[i]).1,
            ) {
            let i = choose|i: int|
                0 <= i < services.len() && services[i].0 == name && concerns(
                    change,
                    (#[trigger] services[i]).1,
                );
            if i < front.len() {
                assert(front[i] == services[i]);
                let k = choose|k: int| 0 <= k < some.len() && some[k] == name;
                assert(all[k] == name);
            } else {
                assert(all[some.len() as int] == name);
            }
        }
    }
}

/// Changes are gathered: a change that concerns a service leaves it waiting, keeps those that
/// waited, and no second timer starts before the first has been dealt with.
pub proof fn changes_are_gathered(
    session: WatchSessionView,
    first: ChangeView,
    second: ChangeView,
)
    requires
        step_spec(session, first) is StartTimer,
    ensures
        !(step_spec(after_step(session, first), second) is StartTimer),
        session.pending_targets.subset_of(after_step(session, first).pending_targets),
        forall|i: int|
            0 <= i < concerned(second, session.services).len() ==> after_step(
                after_step(session, first),
                second,
            ).pending_targets.contains(#[trigger] concerned(second, session.services)[i]),
{
    let matched = concerned(second, session.services);
    assert forall|i: int| 0 <= i < matched.len() implies after_step(
        after_step(session, first),
        second,
    ).pending_targets.contains(#[trigger] matched[i]) by {
        assert(matched.to_set().contains(matched[i]));
    }
}

/// What is written to a log never counts as a change.
pub proof fn own_logs_are_ignored(target: Seq<char>, generation: nat)
    ensures
        ignored(log_file_path_spec(target, generation)),
{
    reveal_strlit(".rufa");
    reveal_strlit("logs");
    crate::paths::log_file_name_has_no_separator(target, generation);
    let name = crate::paths::log_file_name_spec(target, generation);
    let path = log_file_path_spec(target, generation);
    assert(path =~= ".rufa"@ + seq!['/'] + "logs"@ + seq!['/'] + name);
    assert(path[5] == '/');
    crate::parts::lemma_position_is(path, '/', 5);
    let parts = crate::parts::split_spec(path, '/');
    assert(path.take(5) =~= ".rufa"@);
    assert(parts[0] == ".rufa"@);
    assert(lowercase(".rufa"@) =~= ".rufa"@);
    lemma_named_parts_keep(parts, 0);
    let k = choose|k: int| 0 <= k < named_parts(parts).len() && named_parts(parts)[k] == ".rufa"@;
    let head = components_spec(path).len() - named_parts(parts).len();
    assert(components_spec(path)[head + k] == ".rufa"@);
    assert(ignored_component(components_spec(path)[head + k]));
}

proof fn lemma_named_parts_keep(parts: Seq<Seq<char>>, i: int)
    requires
        0 <= i < parts.len(),
        parts[i].len() > 1,
    ensures
        named_parts(parts).contains(parts[i]),
    decreases parts.len(),
{
    if i < parts.len() - 1 {
        lemma_named_parts_keep(parts.drop_last(), i);
        let front = named_parts(parts.drop_last());
        let k = choose|k: int| 0 <= k < front.len() && front[k] == parts[i];
        assert(named_parts(parts)[k] == parts[i]);
    } else {
        let all = named_parts(parts);
        assert(all[all.len() - 1] == parts[i]);
    }
}

/// Whether a change of files is one after which services restart: something was made, changed or
/// removed, or nobody knows what happened.
pub open spec fn changes_files(kind: ChangeKind) -> bool {
    match kind {
        ChangeKind::Any | ChangeKind::Create | ChangeKind::Modify | ChangeKind::Remove => true,
        ChangeKind::Access | ChangeKind::Other => false,
    }
}

/// A service that names no watch path is concerned by every change of a path that counts and lies
/// below the directory of the configuration, and by no other change that tells a path.
pub proof fn service_without_paths_watches_the_workspace(
    config: ConfigView,
    targets: Seq<Seq<char>>,
    roots: WatchRootsView,
    unit: UnitTargetView,
    change: ChangeView,
)
    requires
        well_named(config),
        resolved(config, targets) is Ok,
        resolved(config, targets)->Ok_0.contains(unit),
        unit.behavior is Service,
        unit.watch_paths.len() == 0,
    ensures
        watch_spec_of(config, targets, roots) matches Ok(spec) && (concerned(
            change,
            spec.services,
        ).contains(unit.name) <==> changes_files(change.kind) && (change.paths.len() == 0
            || exists|p: int|
            0 <= p < change.paths.len() && !ignored(#[trigger] change.paths[p]) && below(
                change.paths[p],
                roots.base,
            ))),
{
    services_are_watched(config, targets, roots, unit);
    let services = watch_spec_of(config, targets, roots)->Ok_0.services;
    let dirs = lookup(services, unit.name)->0;
    lemma_service_concerned(change, services, unit.name);
    assert forall|p: int| 0 <= p < change.paths.len() implies (path_hits(
        #[trigger] change.paths[p],
        dirs,
    ) <==> !ignored(change.paths[p]) && below(change.paths[p], roots.base)) by {
        assert(dirs[0] == roots.base);
    }
}

/// A service that names watch paths is concerned by exactly the changes of a path that counts and
/// lies below one of them, seen from the directory of the configuration, and by those that tell no
/// path.
pub proof fn service_with_paths_watches_only_these(
    config: ConfigView,
    targets: Seq<Seq<char>>,
    roots: WatchRootsView,
    unit: UnitTargetView,
    change: ChangeView,
)
    requires
        well_named(config),
        resolved(config, targets) is Ok,
        resolved(config, targets)->Ok_0.contains(unit),
        unit.behavior is Service,
        unit.watch_paths.len() > 0,
        roots.canonical.len() == 0,
    ensures
        watch_spec_of(config, targets, roots) matches Ok(spec) && (concerned(
            change,
            spec.services,
        ).contains(unit.name) <==> changes_files(change.kind) && (change.paths.len() == 0
            || exists|p: int, d: int|
            0 <= p < change.paths.len() && 0 <= d < unit.watch_paths.len() && !ignored(
                #[trigger] change.paths[p],
            ) && below(
                change.paths[p],
                join_spec(roots.base, #[trigger] unit.watch_paths[d]),
            ))),
{
    services_are_watched(config, targets, roots, unit);
    let services = watch_spec_of(config, targets, roots)->Ok_0.services;
    let dirs = lookup(services, unit.name)->0;
    lemma_service_concerned(change, services, unit.name);
    assert forall|d: int| 0 <= d < unit.watch_paths.len() implies (#[trigger] dirs[d])
        == join_spec(roots.base, unit.watch_paths[d]) by {
    }
    if concerns(change, dirs) && change.paths.len() > 0 {
        let p = choose|p: int|
            0 <= p < change.paths.len() && path_hits(#[trigger] change.paths[p], dirs);
        let d = choose|d: int| 0 <= d < dirs.len() && below(change.paths[p], #[trigger] dirs[d]);
        assert(!ignored(change.paths[p]) && below(
            change.paths[p],
            join_spec(roots.base, unit.watch_paths[d]),
        ));
    }
    if exists|p: int, d: int|
        0 <= p < change.paths.len() && 0 <= d < unit.watch_paths.len() && !ignored(
            #[trigger] change.paths[p],
        ) && below(change.paths[p], join_spec(roots.base, #[trigger] unit.watch_paths[d])) {
        let (p, d) = choose|p: int, d: int|
            0 <= p < change.paths.len() && 0 <= d < unit.watch_paths.len() && !ignored(
                #[trigger] change.paths[p],
            ) && below(change.paths[p], join_spec(roots.base, #[trigger] unit.watch_paths[d]));
        assert(below(change.paths[p], dirs[d]));
        assert(path_hits(change.paths[p], dirs));
    }
}

/// A job is concerned by no change.
pub proof fn jobs_are_not_watched(
    config: ConfigView,
    targets: Seq<Seq<char>>,
    roots: WatchRootsView,
    unit: UnitTargetView,
    change: ChangeView,
)
    requires
        well_named(config),
        resolved(config, targets) is Ok,
        resolved(config, targets)->Ok_0.contains(unit),
        unit.behavior is Job,
    ensures
        watch_spec_of(config, targets, roots) matches Ok(spec) && !concerned(
            change,
            spec.services,
        ).contains(unit.name),
{
    services_are_watched(config, targets, roots, unit);
    let services = watch_spec_of(config, targets, roots)->Ok_0.services;
    change_concerns_only_its_services(change, services, unit.name);
    lemma_lookup_found(services, unit.name);
}

proof fn lemma_service_concerned(
    change: ChangeView,
    services: Seq<(Seq<char>, Seq<Seq<char>>)>,
    name: Seq<char>,
)
    requires
        ordered(services),
        lookup(services, name) is Some,
    ensures
        concerned(change, services).contains(name) <==> concerns(change, lookup(services, name)->0),
{
    change_concerns_only_its_services(change, services, name);
    lemma_lookup_found(services, name);
    let dirs = lookup(services, name)->0;
    let k = choose|k: int| 0 <= k < services.len() && services[k] == (name, dirs);
    assert(services[k].0 == name);
    if exists|i: int|
        0 <= i < services.len() && services[i].0 == name && concerns(
            change,
            (#[trigger] services[i]).1,
        ) {
        let i = choose|i: int|
            0 <= i < services.len() && services[i].0 == name && concerns(
                change,
                (#[trigger] services[i]).1,
            );
        lemma_lookup_at(services, i);
    }
}

/// Whether a name is that of a directory of tools, whose changes do not count.
pub open spec fn tool_directory(name: Seq<char>) -> bool {
    lowercase(name) == ".git"@ || lowercase(name) == "target"@ || lowercase(name) == ".rufa"@
}

/// What lies below a directory of tools never counts, wherever the directory lies.
pub proof fn tool_directories_do_not_count(base: Seq<char>, dir: Seq<char>, path: Seq<char>)
    requires
        base.len() > 0,
        entry_name(dir),
        tool_directory(dir),
        below(path, join_spec(base, dir)),
    ensures
        ignored(path),
{
    let n = components_spec(base).len() as int;
    let whole = components_spec(path);
    lemma_entry(base, dir);
    let front = components_spec(join_spec(base, dir));
    assert(whole.take(front.len() as int)[n] == dir);
    assert(ignored_component(components_spec(path)[n]));
}

/// A path counts where none of its components is a directory of tools and its last one is not
/// that of a log or of something that editors leave behind.
pub proof fn other_paths_count(path: Seq<char>)
    requires
        forall|i: int|
            0 <= i < components_spec(path).len() ==> !tool_directory(
                #[trigger] components_spec(path)[i],
            ),
        file_name_spec(path) matches Some(name) ==> {
            let lower = lowercase(name);
            &&& !("rufa.log"@.is_prefix_of(lower))
            &&& !("~"@.is_suffix_of(lower))
            &&& !(".swp"@.is_suffix_of(lower))
            &&& !(".tmp"@.is_suffix_of(lower))
        },
    ensures
        !ignored(path),
{
    reveal_strlit("rufa.log");
    reveal_strlit("rufa.log.");
    if let Some(name) = file_name_spec(path) {
        let lower = lowercase(name);
        assert(lower.take(lower.len() as int) =~= lower);
        if "rufa.log."@.is_prefix_of(lower) {
            assert(lower.take(9).take(8) =~= lower.take(8));
            assert("rufa.log."@.take(8) =~= "rufa.log"@);
        }
    }
}

/// Logs and what editors leave behind do not count, in whatever directory they lie.
pub proof fn leftovers_do_not_count(dir: Seq<char>, name: Seq<char>)
    requires
        plainly_ended(dir),
        entry_name(name),
        ({
            let lower = lowercase(name);
            ||| lower == "rufa.log"@
            ||| "rufa.log."@.is_prefix_of(lower)
            ||| "~"@.is_suffix_of(lower)
            ||| ".swp"@.is_suffix_of(lower)
            ||| ".tmp"@.is_suffix_of(lower)
        }),
    ensures
        ignored(join_spec(dir, name)),
{
    parent_of_an_entry_is_its_directory(dir, name);
}

/// After a change exactly those services wait that waited before or that the change concerns, and
/// a timer for the whole time is started exactly where the change concerns a service and no timer
/// runs; a change that concerns none leaves everything as it is.
pub proof fn concerned_services_wait(
    session: WatchSessionView,
    change: ChangeView,
    name: Seq<char>,
)
    ensures
        after_step(session, change).pending_targets.contains(name)
            <==> session.pending_targets.contains(name) || concerned(
            change,
            session.services,
        ).contains(name),
        step_spec(session, change) == (if concerned(change, session.services).len() == 0 {
            WatchStep::Ignored
        } else if session.pending {
            WatchStep::Coalesced
        } else {
            WatchStep::StartTimer { seconds: session.stability }
        }),
        after_step(session, change).pending == (session.pending || concerned(
            change,
            session.services,
        ).len() > 0),
        after_step(session, change).services == session.services,
        after_step(session, change).stability == session.stability,
{
    let matched = concerned(change, session.services);
    assert(matched.to_set().contains(name) <==> matched.contains(name));
}

/// Watching begins with nothing waiting, on the services and with the time that are given, and
/// where there is no service nothing is watched.
pub proof fn watching_begins_with_nothing_waiting(spec: WatchSpecView)
    ensures
        session_for(spec) is None <==> spec.services.len() == 0,
        session_for(spec) matches Some(session) ==> {
            &&& session.services == spec.services
            &&& session.stability == spec.stability
            &&& forall|name: Seq<char>| !session.pending_targets.contains(name)
            &&& !session.pending
        },
{
}

/// Waiting targets are taken once, and the next change that concerns a service starts the timer
/// again after it ran out.
pub proof fn waiting_targets_are_taken_once(session: WatchSessionView, change: ChangeView)
    ensures
        forall|name: Seq<char>| !after_taking(session).pending_targets.contains(name),
        after_taking(session).services == session.services,
        after_taking(session).pending == session.pending,
        after_settling(session).pending_targets == session.pending_targets,
        after_settling(session).services == session.services,
        concerned(change, session.services).len() > 0 ==> step_spec(
            after_settling(session),
            change,
        ) == (WatchStep::StartTimer { seconds: session.stability }),
        concerned(change, session.services).len() > 0 ==> step_spec(
            after_step(session, change),
            change,
        ) == WatchStep::Coalesced,
{
}

/// What is watched by default is the directory of the configuration file.
pub proof fn directory_of_the_configuration_is_watched(config_path: Seq<char>)
    ensures
        parent_spec(config_path) matches Some(dir) ==> root_of(config_path) == dir,
        parent_spec(config_path) is None ==> root_of(config_path) == "."@,
{
}

} // verus!
