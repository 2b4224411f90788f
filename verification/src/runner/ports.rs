//! Handing out ports.

use std::collections::HashSet;

use vstd::prelude::*;

use crate::config::model::{
    permits_spec, PortDefinitionView, PortSelection, UnitTarget, UnitTargetView,
};
use crate::names::{lookup, put, NameMap};
use crate::numbers::{decimal, decimal_spec};
use crate::runner::environment::Assignments;
use crate::state::{RuntimeState, RuntimeStateView};
use crate::views::Duplicate;

verus! {

broadcast use vstd::std_specs::hash::group_hash_axioms;

/// Why a port is not handed out.
#[derive(Debug, Clone, Copy, PartialEq, Eq, Structural)]
pub enum PortError {
    AlreadyReserved(u16),
    /// The port cannot be bound.
    Refused(u16),
    /// No port at all can be bound.
    NoneLeft,
    RangeExhausted { start: u16, end: u16 },
}

/// What is shown of the error.
pub open spec fn port_message(error: PortError) -> Seq<char> {
    match error {
        PortError::AlreadyReserved(port) => "port "@ + decimal_spec(port as nat)
            + " is already reserved"@,
        PortError::Refused(port) => "binding to specific port "@ + decimal_spec(port as nat),
        PortError::NoneLeft => "binding to ephemeral port for allocation"@,
        PortError::RangeExhausted { start, end } => "no free ports in range "@ + decimal_spec(
            start as nat,
        ) + "-"@ + decimal_spec(end as nat),
    }
}

impl PortError {
    /// What is shown of the error.
    pub fn message(&self) -> (r: String)
        ensures
            r@ == port_message(*self),
    {
        match self {
            PortError::AlreadyReserved(port) => {
                let mut r: String = "port ".to_owned();
                r.append(decimal(*port as u64).as_str());
                r.append(" is already reserved");
                r
            },
            PortError::Refused(port) => {
                let mut r: String = "binding to specific port ".to_owned();
                r.append(decimal(*port as u64).as_str());
                r
            },
            PortError::NoneLeft => "binding to ephemeral port for allocation".to_owned(),
            PortError::RangeExhausted { start, end } => {
                let mut r: String = "no free ports in range ".to_owned();
                r.append(decimal(*start as u64).as_str());
                r.append("-");
                r.append(decimal(*end as u64).as_str());
                r
            },
        }
    }
}

// ---------------------------------------------------------------------------
// Reserved ports
// ---------------------------------------------------------------------------

/// The ports that are handed out.
#[derive(Debug)]
pub struct PortAllocator {
    reserved: HashSet<u16>,
}

impl View for PortAllocator {
    type V = Set<u16>;

    closed spec fn view(&self) -> Set<u16> {
        self.reserved@
    }
}

/// The lowest port from `from` to `end` that is not reserved.
pub open spec fn lowest_unreserved(reserved: Set<u16>, from: int, end: u16) -> Option<u16>
    decreases end + 1 - from,
{
    if from < 0 || from > end {
        None
    } else if reserved.contains(from as u16) {
        lowest_unreserved(reserved, from + 1, end)
    } else {
        Some(from as u16)
    }
}

/// Whether one port can be handed out, given whether it could be bound.
pub open spec fn specific(reserved: Set<u16>, port: u16, bound: bool) -> Result<(), PortError> {
    if reserved.contains(port) {
        Err(PortError::AlreadyReserved(port))
    } else if !bound {
        Err(PortError::Refused(port))
    } else {
        Ok(())
    }
}

/// The ports without those in a list.
pub open spec fn released(reserved: Set<u16>, ports: Seq<(Seq<char>, u16)>) -> Set<u16>
    decreases ports.len(),
{
    if ports.len() == 0 {
        reserved
    } else {
        released(reserved, ports.drop_last()).remove(ports.last().1)
    }
}

impl PortAllocator {
    /// An allocator that has handed out no port.
    pub fn new() -> (r: Self)
        ensures
            r@ == Set::<u16>::empty(),
    {
        PortAllocator { reserved: HashSet::new() }
    }

    /// Whether `port` is handed out.
    pub fn is_reserved(&self, port: u16) -> (r: bool)
        ensures
            r == self@.contains(port),
    {
        self.reserved.contains(&port)
    }

    /// Hands out `port`, given whether it could be bound.
    pub fn reserve_specific(&mut self, port: u16, bound: bool) -> (r: Result<(), PortError>)
        ensures
            r == specific(old(self)@, port, bound),
            final(self)@ == (if r is Ok {
                old(self)@.insert(port)
            } else {
                old(self)@
            }),
    {
        if self.is_reserved(port) {
            return Err(PortError::AlreadyReserved(port));
        }
        if !bound {
            return Err(PortError::Refused(port));
        }
        let _ = self.reserved.insert(port);
        Ok(())
    }

    fn keep(&mut self, port: u16)
        ensures
            final(self)@ == old(self)@.insert(port),
    {
        let _ = self.reserved.insert(port);
    }

    fn lowest(&self, from: u32, end: u16) -> (r: Option<u16>)
        ensures
            r == lowest_unreserved(self@, from as int, end),
    {
        let mut port: u32 = from;
        while port <= end as u32
            invariant
                lowest_unreserved(self@, from as int, end) == lowest_unreserved(
                    self@,
                    port as int,
                    end,
                ),
                port <= end as int + 1 || port == from,
            decreases end + 1 - port,
        {
            if !self.is_reserved(port as u16) {
                return Some(port as u16);
            }
            port = port + 1;
        }
        None
    }

    /// Takes back the ports of a target.
    pub fn release_ports(&mut self, ports: &NameMap<u16>)
        ensures
            final(self)@ == released(old(self)@, ports.deep_view()),
    {
        let ghost list = ports.deep_view();
        let mut i: usize = 0;
        assert(list.take(0) =~= Seq::empty());
        while i < ports.len()
            invariant
                i <= list.len(),
                list == ports.deep_view(),
                self@ == released(old(self)@, list.take(i as int)),
            decreases list.len() - i,
        {
            assert(list.take(i + 1).drop_last() =~= list.take(i as int));
            let _ = self.reserved.remove(ports.value_at(i));
            i = i + 1;
        }
        assert(list.take(i as int) =~= list);
    }
}

// ---------------------------------------------------------------------------
// Searching for a port
// ---------------------------------------------------------------------------

/// How far a search has come.
#[derive(Debug, Clone, Copy, PartialEq, Eq, Structural)]
pub enum SearchStage {
    Start,
    /// The port of the last run is being bound.
    Previous(u16),
    Trying(u16),
    /// Any port is being bound.
    TryingAny,
    Over,
}

/// A search for one port: first the port of the last run, where the selection still allows it,
/// then whatever the selection says.
#[derive(Debug, Clone, Copy, PartialEq, Eq, Structural)]
pub struct PortSearch {
    pub selection: PortSelection,
    pub previous: Option<u16>,
    pub stage: SearchStage,
}

/// What came of an attempt to bind a port.
#[derive(Debug, Clone, Copy, PartialEq, Eq, Structural)]
pub enum BindAnswer {
    /// Nothing was bound yet.
    Begin,
    /// The port that was bound.
    Bound(u16),
    Refused,
}

/// What to do next in a search.
#[derive(Debug, Clone, Copy, PartialEq, Eq, Structural)]
pub enum PortStep {
    Bind(u16),
    BindAny,
    Assigned(u16),
    Failed(PortError),
    /// The search had already ended.
    Ended,
}

/// How a selection begins.
pub open spec fn first_try(reserved: Set<u16>, selection: PortSelection) -> PortStep {
    match selection {
        PortSelection::Auto => PortStep::BindAny,
        PortSelection::AutoRange { start, end } => match lowest_unreserved(
            reserved,
            start as int,
            end,
        ) {
            Some(port) => PortStep::Bind(port),
            None => PortStep::Failed(PortError::RangeExhausted { start, end }),
        },
        PortSelection::Fixed(port) => if reserved.contains(port) {
            PortStep::Failed(PortError::AlreadyReserved(port))
        } else {
            PortStep::Bind(port)
        },
    }
}

/// How a selection goes on after a port could not be bound.
pub open spec fn next_try(reserved: Set<u16>, selection: PortSelection, tried: u16) -> PortStep {
    match selection {
        PortSelection::Auto => PortStep::Failed(PortError::NoneLeft),
        PortSelection::AutoRange { start, end } => match lowest_unreserved(
            reserved,
            tried + 1,
            end,
        ) {
            Some(port) => PortStep::Bind(port),
            None => PortStep::Failed(PortError::RangeExhausted { start, end }),
        },
        PortSelection::Fixed(port) => PortStep::Failed(PortError::Refused(port)),
    }
}

/// The stage that a step leads to.
pub open spec fn stage_after(step: PortStep) -> SearchStage {
    match step {
        PortStep::Bind(port) => SearchStage::Trying(port),
        PortStep::BindAny => SearchStage::TryingAny,
        _ => SearchStage::Over,
    }
}

/// The next step of a search.
pub open spec fn search_step(
    reserved: Set<u16>,
    search: PortSearch,
    answer: BindAnswer,
) -> PortStep {
    match search.stage {
        SearchStage::Start => match search.previous {
            Some(port) => if reserved.contains(port) {
                first_try(reserved, search.selection)
            } else {
                PortStep::Bind(port)
            },
            None => first_try(reserved, search.selection),
        },
        SearchStage::Previous(port) => if answer is Bound {
            PortStep::Assigned(port)
        } else {
            first_try(reserved, search.selection)
        },
        SearchStage::Trying(port) => if answer is Bound {
            PortStep::Assigned(port)
        } else {
            next_try(reserved, search.selection, port)
        },
        SearchStage::TryingAny => match answer {
            BindAnswer::Bound(port) => PortStep::Assigned(port),
            _ => PortStep::Failed(PortError::NoneLeft),
        },
        SearchStage::Over => PortStep::Ended,
    }
}

/// The stage that a search is in after its next step.
pub open spec fn search_stage(
    reserved: Set<u16>,
    search: PortSearch,
    answer: BindAnswer,
) -> SearchStage {
    let tries_previous = search.stage == SearchStage::Start && search.previous is Some
        && !reserved.contains(search.previous->0);
    if tries_previous {
        SearchStage::Previous(search.previous->0)
    } else {
        stage_after(search_step(reserved, search, answer))
    }
}

/// The ports that are handed out after a step.
pub open spec fn reserved_after(reserved: Set<u16>, step: PortStep) -> Set<u16> {
    match step {
        PortStep::Assigned(port) => reserved.insert(port),
        _ => reserved,
    }
}

impl PortSearch {
    /// A search that begins.
    pub fn new(selection: PortSelection, previous: Option<u16>) -> (r: Self)
        ensures
            r == (PortSearch { selection, previous, stage: SearchStage::Start }),
    {
        PortSearch { selection, previous, stage: SearchStage::Start }
    }

    /// The next step of the search, given what came of the last one. A port that is assigned is
    /// handed out by `allocator`.
    pub fn advance(&mut self, allocator: &mut PortAllocator, answer: BindAnswer) -> (step: PortStep)
        ensures
            step == search_step(old(allocator)@, *old(self), answer),
            *final(self) == (PortSearch {
                stage: search_stage(old(allocator)@, *old(self), answer),
                ..*old(self)
            }),
            final(allocator)@ == reserved_after(old(allocator)@, step),
    {
        let mut step: PortStep = PortStep::Ended;
        match self.stage {
            SearchStage::Start => {
                if let Some(port) = self.previous {
                    if !allocator.is_reserved(port) {
                        self.stage = SearchStage::Previous(port);
                        return PortStep::Bind(port);
                    }
                }
                step = begin_selection(allocator, self.selection);
            },
            SearchStage::Previous(port) => {
                step = match answer {
                    BindAnswer::Bound(_) => PortStep::Assigned(port),
                    _ => begin_selection(allocator, self.selection),
                };
            },
            SearchStage::Trying(port) => {
                step = match answer {
                    BindAnswer::Bound(_) => PortStep::Assigned(port),
                    _ => continue_selection(allocator, self.selection, port),
                };
            },
            SearchStage::TryingAny => {
                step = match answer {
                    BindAnswer::Bound(port) => PortStep::Assigned(port),
                    _ => PortStep::Failed(PortError::NoneLeft),
                };
            },
            SearchStage::Over => {},
        }
        self.stage = match step {
            PortStep::Bind(port) => SearchStage::Trying(port),
            PortStep::BindAny => SearchStage::TryingAny,
            _ => SearchStage::Over,
        };
        if let PortStep::Assigned(port) = step {
            allocator.keep(port);
        }
        step
    }
}

fn begin_selection(allocator: &PortAllocator, selection: PortSelection) -> (step: PortStep)
    ensures
        step == first_try(allocator@, selection),
{
    match selection {
        PortSelection::Auto => PortStep::BindAny,
        PortSelection::AutoRange { start, end } => match allocator.lowest(start as u32, end) {
            Some(port) => PortStep::Bind(port),
            None => PortStep::Failed(PortError::RangeExhausted { start, end }),
        },
        PortSelection::Fixed(port) => {
            if allocator.is_reserved(port) {
                PortStep::Failed(PortError::AlreadyReserved(port))
            } else {
                PortStep::Bind(port)
            }
        },
    }
}

fn continue_selection(allocator: &PortAllocator, selection: PortSelection, tried: u16) -> (step:
    PortStep)
    ensures
        step == next_try(allocator@, selection, tried),
{
    match selection {
        PortSelection::Auto => PortStep::Failed(PortError::NoneLeft),
        PortSelection::AutoRange { start, end } => match allocator.lowest(tried as u32 + 1, end) {
            Some(port) => PortStep::Bind(port),
            None => PortStep::Failed(PortError::RangeExhausted { start, end }),
        },
        PortSelection::Fixed(port) => PortStep::Failed(PortError::Refused(port)),
    }
}

// ---------------------------------------------------------------------------
// The ports of a start
// ---------------------------------------------------------------------------

/// A port that a target asks for.
#[derive(Debug, PartialEq, Eq)]
pub struct PortRequest {
    pub target: String,
    pub name: String,
    pub selection: PortSelection,
    /// The port of the last run, where the selection still allows it.
    pub previous: Option<u16>,
}

/// What a [`PortRequest`] stands for.
pub struct PortRequestView {
    pub target: Seq<char>,
    pub name: Seq<char>,
    pub selection: PortSelection,
    pub previous: Option<u16>,
}

impl DeepView for PortRequest {
    type V = PortRequestView;

    open spec fn deep_view(&self) -> PortRequestView {
        PortRequestView {
            target: self.target@,
            name: self.name@,
            selection: self.selection,
            previous: self.previous,
        }
    }
}

impl Duplicate for PortRequest {
    fn duplicate(&self) -> (copy: Self) {
        PortRequest {
            target: self.target.clone(),
            name: self.name.clone(),
            selection: self.selection,
            previous: self.previous,
        }
    }
}

/// The port of the last run of a target, where a selection still allows it.
pub open spec fn previous_port(
    state: RuntimeStateView,
    target: Seq<char>,
    name: Seq<char>,
    selection: PortSelection,
) -> Option<u16> {
    match lookup(state.targets, target) {
        None => None,
        Some(entry) => match lookup(entry.ports, name) {
            None => None,
            Some(port) => if permits_spec(selection, port) {
                Some(port)
            } else {
                None
            },
        },
    }
}

/// The ports that one unit asks for, in name order.
pub open spec fn unit_requests(
    target: Seq<char>,
    ports: Seq<(Seq<char>, PortDefinitionView)>,
    state: RuntimeStateView,
) -> Seq<PortRequestView> {
    Seq::new(
        ports.len(),
        |i: int|
            PortRequestView {
                target,
                name: ports[i].0,
                selection: ports[i].1.selection,
                previous: previous_port(state, target, ports[i].0, ports[i].1.selection),
            },
    )
}

/// The ports that units ask for, unit by unit.
pub open spec fn requests(units: Seq<UnitTargetView>, state: RuntimeStateView) -> Seq<
    PortRequestView,
>
    decreases units.len(),
{
    if units.len() == 0 {
        Seq::empty()
    } else {
        requests(units.drop_last(), state) + unit_requests(
            units.last().name,
            units.last().ports,
            state,
        )
    }
}

/// The ports that the units ask for, unit by unit and in name order.
pub fn port_requests(units: &Vec<UnitTarget>, state: &RuntimeState) -> (r: Vec<PortRequest>)
    ensures
        r.deep_view() == requests(units.deep_view(), state.deep_view()),
{
    let ghost list = units.deep_view();
    let mut r: Vec<PortRequest> = Vec::new();
    let mut i: usize = 0;
    assert(list.take(0) =~= Seq::empty());
    assert(r.deep_view() =~= Seq::empty());
    while i < units.len()
        invariant
            i <= units@.len(),
            list == units.deep_view(),
            r.deep_view() == requests(list.take(i as int), state.deep_view()),
        decreases units@.len() - i,
    {
        assert(list.take(i + 1).drop_last() =~= list.take(i as int));
        let unit: &UnitTarget = &units[i];
        let ghost before = r.deep_view();
        let ghost ports = unit.ports.deep_view();
        let ghost wanted = unit_requests(unit.name@, ports, state.deep_view());
        let mut k: usize = 0;
        assert(before + wanted.take(0) =~= before);
        while k < unit.ports.len()
            invariant
                k <= ports.len(),
                ports == unit.ports.deep_view(),
                wanted == unit_requests(unit.name@, ports, state.deep_view()),
                r.deep_view() == before + wanted.take(k as int),
            decreases ports.len() - k,
        {
            let name: &String = unit.ports.name_at(k);
            let selection: PortSelection = unit.ports.value_at(k).selection;
            let mut previous: Option<u16> = None;
            if let Some(entry) = state.targets.get(unit.name.as_str()) {
                if let Some(port) = entry.ports.get(name.as_str()) {
                    if selection.permits(*port) {
                        previous = Some(*port);
                    }
                }
            }
            let request = PortRequest {
                target: unit.name.clone(),
                name: name.clone(),
                selection,
                previous,
            };
            let ghost now = r.deep_view();
            assert(request.deep_view() == wanted[k as int]);
            r.push(request);
            assert(r.deep_view() =~= now.push(wanted[k as int]));
            assert(wanted.take(k + 1) =~= wanted.take(k as int).push(wanted[k as int]));
            assert(r.deep_view() =~= before + wanted.take(k + 1));
            k = k + 1;
        }
        assert(wanted.take(k as int) =~= wanted);
        i = i + 1;
    }
    assert(list.take(i as int) =~= list);
    r
}

/// No ports for each unit.
pub open spec fn unassigned(units: Seq<UnitTargetView>) -> Seq<(Seq<char>, Seq<(Seq<char>, u16)>)>
    decreases units.len(),
{
    if units.len() == 0 {
        Seq::empty()
    } else {
        put(unassigned(units.drop_last()), units.last().name, Seq::empty())
    }
}

/// No ports for each unit.
pub fn empty_assignments(units: &Vec<UnitTarget>) -> (r: Assignments)
    ensures
        r.deep_view() == unassigned(units.deep_view()),
{
    let ghost list = units.deep_view();
    let mut r: Assignments = NameMap::new();
    let mut i: usize = 0;
    assert(list.take(0) =~= Seq::empty());
    while i < units.len()
        invariant
            i <= units@.len(),
            list == units.deep_view(),
            r.deep_view() == unassigned(list.take(i as int)),
        decreases units@.len() - i,
    {
        assert(list.take(i + 1).drop_last() =~= list.take(i as int));
        let _ = r.insert(units[i].name.clone(), NameMap::new());
        i = i + 1;
    }
    assert(list.take(i as int) =~= list);
    r
}

/// The ports of a target in a list of assignments.
pub open spec fn ports_of(
    assignments: Seq<(Seq<char>, Seq<(Seq<char>, u16)>)>,
    target: Seq<char>,
) -> Seq<(Seq<char>, u16)> {
    match lookup(assignments, target) {
        Some(ports) => ports,
        None => Seq::empty(),
    }
}

/// The assignments with one more port.
pub open spec fn assigned(
    assignments: Seq<(Seq<char>, Seq<(Seq<char>, u16)>)>,
    target: Seq<char>,
    name: Seq<char>,
    port: u16,
) -> Seq<(Seq<char>, Seq<(Seq<char>, u16)>)> {
    put(assignments, target, put(ports_of(assignments, target), name, port))
}

/// Notes the port that was found for a request.
pub fn assign(assignments: &mut Assignments, request: &PortRequest, port: u16)
    ensures
        final(assignments).deep_view() == assigned(
            old(assignments).deep_view(),
            request.deep_view().target,
            request.deep_view().name,
            port,
        ),
{
    let mut ports: NameMap<u16> = match assignments.get(request.target.as_str()) {
        Some(ports) => ports.duplicate(),
        None => NameMap::new(),
    };
    let _ = ports.insert(request.name.clone(), port);
    let _ = assignments.insert(request.target.clone(), ports);
}

/// The different ports of a target, in name order.
pub open spec fn distinct(ports: Seq<(Seq<char>, u16)>) -> Seq<u16>
    decreases ports.len(),
{
    if ports.len() == 0 {
        Seq::empty()
    } else {
        let before = distinct(ports.drop_last());
        if before.contains(ports.last().1) {
            before
        } else {
            before.push(ports.last().1)
        }
    }
}

/// The different ports of the target, each of which is held by one placeholder listener.
pub fn distinct_ports(ports: &NameMap<u16>) -> (r: Vec<u16>)
    ensures
        r@ == distinct(ports.deep_view()),
{
    let ghost list = ports.deep_view();
    let mut r: Vec<u16> = Vec::new();
    let mut i: usize = 0;
    assert(list.take(0) =~= Seq::empty());
    while i < ports.len()
        invariant
            i <= list.len(),
            list == ports.deep_view(),
            r@ == distinct(list.take(i as int)),
        decreases list.len() - i,
    {
        assert(list.take(i + 1).drop_last() =~= list.take(i as int));
        let port: u16 = *ports.value_at(i);
        let mut known: bool = false;
        let mut k: usize = 0;
        while k < r.len()
            invariant
                k <= r@.len(),
                known == exists|j: int| 0 <= j < k && r@[j] == port,
            decreases r@.len() - k,
        {
            if r[k] == port {
                known = true;
            }
            k = k + 1;
        }
        assert(known == r@.contains(port));
        if !known {
            r.push(port);
        }
        i = i + 1;
    }
    assert(list.take(i as int) =~= list);
    r
}

// ---------------------------------------------------------------------------
// Laws
// ---------------------------------------------------------------------------

/// Whether a search only looks at ports that its selection allows.
pub open spec fn sound_search(search: PortSearch) -> bool {
    &&& search.previous matches Some(port) ==> permits_spec(search.selection, port)
    &&& search.stage matches SearchStage::Previous(port) ==> search.previous == Some(port)
    &&& search.stage matches SearchStage::Trying(port) ==> permits_spec(search.selection, port)
    &&& search.stage == SearchStage::TryingAny ==> search.selection == PortSelection::Auto
}

proof fn lemma_lowest(reserved: Set<u16>, from: int, end: u16)
    requires
        0 <= from,
    ensures
        lowest_unreserved(reserved, from, end) matches Some(port) ==> {
            &&& from <= port <= end
            &&& !reserved.contains(port)
            &&& forall|p: u16| from <= p < port ==> #[trigger] reserved.contains(p)
        },
        lowest_unreserved(reserved, from, end) is None ==> forall|p: u16|
            from <= p <= end ==> #[trigger] reserved.contains(p),
    decreases end + 1 - from,
{
    if from <= end && reserved.contains(from as u16) {
        lemma_lowest(reserved, from + 1, end);
    }
}

/// A search never hands out a port that its selection does not allow, and what it hands out is
/// reserved from then on.
pub proof fn assigned_port_is_permitted(reserved: Set<u16>, search: PortSearch, answer: BindAnswer)
    requires
        sound_search(search),
    ensures
        sound_search(
            PortSearch { stage: search_stage(reserved, search, answer), ..search },
        ),
        search_step(reserved, search, answer) matches PortStep::Assigned(port) ==> permits_spec(
            search.selection,
            port,
        ) && reserved_after(reserved, search_step(reserved, search, answer)).contains(port),
        search_step(reserved, search, answer) matches PortStep::Bind(port) ==> permits_spec(
            search.selection,
            port,
        ) && !reserved.contains(port),
{
    if let PortSelection::AutoRange { start, end } = search.selection {
        lemma_lowest(reserved, start as int, end);
        if let SearchStage::Trying(tried) = search.stage {
            lemma_lowest(reserved, tried + 1, end);
        }
    }
}

/// The step at which a search in a range ends, where exactly the ports in `free` can be bound.
pub open spec fn range_outcome(
    reserved: Set<u16>,
    start: u16,
    end: u16,
    free: Set<u16>,
    step: PortStep,
) -> PortStep
    decreases
            (match step {
                PortStep::Bind(port) => 65536 - port,
                _ => 0int,
            }),
{
    match step {
        PortStep::Bind(port) => if free.contains(port) {
            PortStep::Assigned(port)
        } else {
            let next = next_try(reserved, PortSelection::AutoRange { start, end }, port);
            proof {
                lemma_next_is_higher(reserved, start, end, port);
            }
            range_outcome(reserved, start, end, free, next)
        },
        _ => step,
    }
}

/// A search in a range only goes up.
pub proof fn lemma_next_is_higher(reserved: Set<u16>, start: u16, end: u16, tried: u16)
    ensures
        next_try(reserved, PortSelection::AutoRange { start, end }, tried) matches PortStep::Bind(
            port,
        ) ==> tried < port <= end && !reserved.contains(port),
{
    lemma_lowest(reserved, tried + 1, end);
}

/// A search in a range ends with the lowest port of the range that is neither reserved nor taken
/// by someone else, and fails only where there is none.
pub proof fn range_search_takes_the_lowest_free_port(
    reserved: Set<u16>,
    start: u16,
    end: u16,
    free: Set<u16>,
)
    ensures
        ({
            let selection = PortSelection::AutoRange { start, end };
            let last = range_outcome(
                reserved,
                start,
                end,
                free,
                first_try(reserved, selection),
            );
            &&& last matches PortStep::Assigned(port) ==> {
                &&& start <= port <= end
                &&& free.contains(port) && !reserved.contains(port)
                &&& forall|p: u16|
                    start <= p < port ==> #[trigger] reserved.contains(p) || !free.contains(p)
            }
            &&& last !is Assigned ==> {
                &&& last == PortStep::Failed(PortError::RangeExhausted { start, end })
                &&& forall|p: u16|
                    start <= p <= end ==> #[trigger] reserved.contains(p) || !free.contains(p)
            }
        }),
{
    let selection = PortSelection::AutoRange { start, end };
    lemma_lowest(reserved, start as int, end);
    let step = first_try(reserved, selection);
    if let PortStep::Bind(port) = step {
        lemma_range_outcome(reserved, start, end, free, port);
    }
}

proof fn lemma_range_outcome(
    reserved: Set<u16>,
    start: u16,
    end: u16,
    free: Set<u16>,
    first: u16,
)
    requires
        start <= first <= end,
        !reserved.contains(first),
    ensures
        ({
            let last = range_outcome(reserved, start, end, free, PortStep::Bind(first));
            &&& last matches PortStep::Assigned(port) ==> {
                &&& first <= port <= end
                &&& free.contains(port) && !reserved.contains(port)
                &&& forall|p: u16|
                    first <= p < port ==> #[trigger] reserved.contains(p) || !free.contains(p)
            }
            &&& last !is Assigned ==> {
                &&& last == PortStep::Failed(PortError::RangeExhausted { start, end })
                &&& forall|p: u16|
                    first <= p <= end ==> #[trigger] reserved.contains(p) || !free.contains(p)
            }
        }),
    decreases end - first,
{
    if !free.contains(first) {
        lemma_lowest(reserved, first + 1, end);
        let next = next_try(reserved, PortSelection::AutoRange { start, end }, first);
        if let PortStep::Bind(port) = next {
            lemma_range_outcome(reserved, start, end, free, port);
        } else {
            assert(range_outcome(reserved, start, end, free, next) == next);
        }
    }
}

/// A port that was handed out and taken back can be handed out again.
pub proof fn released_ports_are_free(reserved: Set<u16>, ports: Seq<(Seq<char>, u16)>, i: int)
    requires
        0 <= i < ports.len(),
    ensures
        !released(reserved, ports).contains(ports[i].1),
    decreases ports.len(),
{
    if i < ports.len() - 1 {
        assert(ports.drop_last()[i] == ports[i]);
        released_ports_are_free(reserved, ports.drop_last(), i);
    }
}

} // verus!
