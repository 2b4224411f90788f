//! The log that holds the lines of all targets: `TARGET | GENERATION | STREAM | message`.

use vstd::prelude::*;

use crate::cli::log_io::last_of;
use crate::names::{lemma_lookup_put, lookup, name_set, put, NameMap, NameSet};
use crate::cli::log_laws::{lemma_trim_around, lemma_trim_last};
use crate::numbers::{
    decimal_round_trip, decimal_spec, is_digit, lemma_decimal_digits, parse, parse_spec,
};
use crate::parts::{
    lemma_position_is, lines, lines_spec, split, split_spec, splitn, splitn_spec,
};
use crate::pattern::{
    captures, group_of, group_text, last_end, match_end, match_in, match_start, regex_captures,
    replaced, replaced_front, well_placed,
};
use crate::text::{
    chars_of, eq_ignore_ascii_case, lowercase, same, string_of, to_ascii_uppercase, trim, trim_spec,
    uppercase,
};
use crate::views::{outcome, Duplicate};

verus! {

/// What a line says of its run.
#[derive(Debug, PartialEq, Eq)]
pub struct ParsedLogLine {
    pub generation: Option<u64>,
    /// The target in upper case.
    pub target_upper: String,
}

/// What a [`ParsedLogLine`] stands for.
pub struct ParsedLogLineView {
    pub generation: Option<u64>,
    pub target_upper: Seq<char>,
}

impl DeepView for ParsedLogLine {
    type V = ParsedLogLineView;

    open spec fn deep_view(&self) -> ParsedLogLineView {
        ParsedLogLineView {
            generation: self.generation.deep_view(),
            target_upper: self.target_upper.deep_view(),
        }
    }
}

impl Duplicate for ParsedLogLine {
    fn duplicate(&self) -> (copy: Self) {
        ParsedLogLine {
            generation: self.generation.duplicate(),
            target_upper: self.target_upper.duplicate(),
        }
    }
}

/// A number of 64 bits, where a text is one.
pub open spec fn number_in(text: Seq<char>) -> Option<u64> {
    match parse_spec(trim_spec(text), u64::MAX as nat) {
        Some(n) => Some(n as u64),
        None => None,
    }
}

/// What a line says of its run: the target stands before the first `|`, the generation behind it.
pub open spec fn parsed(line: Seq<char>) -> ParsedLogLineView {
    let parts = split_spec(line, '|');
    ParsedLogLineView {
        generation: if parts.len() > 1 {
            number_in(parts[1])
        } else {
            None
        },
        target_upper: uppercase(trim_spec(parts[0])),
    }
}

/// What the line says of its run.
pub fn parse_log_line(line: &str) -> (r: ParsedLogLine)
    ensures
        r.deep_view() == parsed(line@),
{
    let parts: Vec<String> = split(line, '|');
    let ghost list = parts.deep_view();
    assert(list.len() > 0);
    assert(parts@[0]@ == list[0]);
    let target_upper: String = to_ascii_uppercase(trim(parts[0].as_str()).as_str());
    let mut generation: Option<u64> = None;
    if parts.len() > 1 {
        assert(parts@[1]@ == list[1]);
        generation = parse(trim(parts[1].as_str()).as_str(), u64::MAX);
    }
    ParsedLogLine { generation, target_upper }
}

// ---------------------------------------------------------------------------
// Choosing lines
// ---------------------------------------------------------------------------

/// Which lines are shown.
#[derive(Debug)]
pub struct LogFilters {
    /// The targets in upper case; all where there is none.
    pub targets: NameSet,
    pub generation: Option<u64>,
    pub allow_all_generations: bool,
    /// The latest generation of each target.
    pub latest: NameMap<u64>,
}

/// What [`LogFilters`] stand for.
pub struct LogFiltersView {
    pub targets: Set<Seq<char>>,
    pub generation: Option<u64>,
    pub allow_all_generations: bool,
    pub latest: Seq<(Seq<char>, u64)>,
}

impl DeepView for LogFilters {
    type V = LogFiltersView;

    open spec fn deep_view(&self) -> LogFiltersView {
        LogFiltersView {
            targets: self.targets@,
            generation: self.generation,
            allow_all_generations: self.allow_all_generations,
            latest: self.latest.deep_view(),
        }
    }
}

/// Names in upper case.
pub open spec fn all_upper(names: Seq<Seq<char>>) -> Seq<Seq<char>> {
    names.map_values(|name: Seq<char>| uppercase(name))
}

/// Generations of targets with one more: the higher one counts.
pub open spec fn with_generation(
    latest: Seq<(Seq<char>, u64)>,
    line: ParsedLogLineView,
) -> Seq<(Seq<char>, u64)> {
    match line.generation {
        Some(generation) => match lookup(latest, line.target_upper) {
            Some(current) => if generation > current {
                put(latest, line.target_upper, generation)
            } else {
                latest
            },
            None => put(latest, line.target_upper, generation),
        },
        None => latest,
    }
}

/// The latest generation of each target among some lines.
pub open spec fn latest_in(list: Seq<Seq<char>>) -> Seq<(Seq<char>, u64)>
    decreases list.len(),
{
    if list.len() == 0 {
        Seq::empty()
    } else {
        with_generation(latest_in(list.drop_last()), parsed(list.last()))
    }
}

fn note_generation(latest: &mut NameMap<u64>, line: &ParsedLogLine)
    ensures
        final(latest).deep_view() == with_generation(old(latest).deep_view(), line.deep_view()),
{
    if let Some(generation) = line.generation {
        let higher: bool = match latest.get(line.target_upper.as_str()) {
            Some(current) => generation > *current,
            None => true,
        };
        if higher {
            let _ = latest.insert(line.target_upper.clone(), generation);
        }
    }
}

/// The latest generation of each target in a log.
pub fn compute_latest_generations(contents: &str) -> (r: NameMap<u64>)
    ensures
        r.deep_view() == latest_in(lines_spec(contents@)),
{
    let text: Vec<String> = lines(contents);
    let ghost list = text.deep_view();
    let mut r: NameMap<u64> = NameMap::new();
    let mut i: usize = 0;
    assert(list.take(0) =~= Seq::empty());
    while i < text.len()
        invariant
            i <= text@.len(),
            list == text.deep_view(),
            r.deep_view() == latest_in(list.take(i as int)),
        decreases text@.len() - i,
    {
        assert(list.take(i + 1).drop_last() =~= list.take(i as int));
        assert(text@[i as int]@ == list[i as int]);
        let line: ParsedLogLine = parse_log_line(text[i].as_str());
        note_generation(&mut r, &line);
        i = i + 1;
    }
    assert(list.take(i as int) =~= list);
    r
}

/// Whether a line is of a generation that is shown.
pub open spec fn generation_passes(filters: LogFiltersView, line: ParsedLogLineView) -> bool {
    match filters.generation {
        Some(generation) => line.generation == Some(generation),
        None => filters.allow_all_generations || (line.generation is Some && lookup(
            filters.latest,
            line.target_upper,
        ) == line.generation),
    }
}

/// Whether a line is shown.
pub open spec fn passes(filters: LogFiltersView, line: ParsedLogLineView) -> bool {
    generation_passes(filters, line) && (filters.targets =~= Set::<Seq<char>>::empty()
        || filters.targets.contains(line.target_upper))
}

/// The filters after a line was read: where only the latest generation is shown, a later one
/// takes its place.
pub open spec fn after_line(filters: LogFiltersView, line: ParsedLogLineView) -> LogFiltersView {
    if filters.allow_all_generations || filters.generation is Some {
        filters
    } else {
        LogFiltersView { latest: with_generation(filters.latest, line), ..filters }
    }
}

impl LogFilters {
    /// Filters for the named targets, in upper or lower case, or all where none is named. One
    /// generation cannot be asked for together with all.
    pub fn new(
        targets: &Vec<String>,
        generation: Option<u64>,
        all_generations: bool,
        latest: NameMap<u64>,
    ) -> (r: Result<Self, String>)
        ensures
            outcome(r) == filters_of(
                targets.deep_view(),
                generation,
                all_generations,
                latest.deep_view(),
            ),
    {
        if generation.is_some() && all_generations {
            return Err("cannot combine --generation with --all".to_owned());
        }
        let mut upper: Vec<String> = Vec::new();
        let mut i: usize = 0;
        while i < targets.len()
            invariant
                i <= targets@.len(),
                upper@.len() == i,
                forall|k: int|
                    0 <= k < i ==> (#[trigger] upper@[k])@ == all_upper(targets.deep_view())[k],
            decreases targets@.len() - i,
        {
            assert(targets@[i as int]@ == targets.deep_view()[i as int]);
            upper.push(to_ascii_uppercase(targets[i].as_str()));
            i = i + 1;
        }
        assert(upper.deep_view() =~= all_upper(targets.deep_view()));
        Ok(
            LogFilters {
                targets: name_set(&upper),
                generation,
                allow_all_generations: all_generations,
                latest,
            },
        )
    }

    /// Whether the line is shown.
    pub fn matches(&self, line: &ParsedLogLine) -> (r: bool)
        ensures
            r == passes(self.deep_view(), line.deep_view()),
    {
        let of_generation: bool = match self.generation {
            Some(generation) => match line.generation {
                Some(own) => own == generation,
                None => false,
            },
            None => self.allow_all_generations || match line.generation {
                Some(own) => match self.latest.get(line.target_upper.as_str()) {
                    Some(current) => own == *current,
                    None => false,
                },
                None => false,
            },
        };
        of_generation && (self.targets.is_empty() || self.targets.contains(
            line.target_upper.as_str(),
        ))
    }

    /// Takes note of the generation of a line that was read.
    pub fn update_latest(&mut self, line: &ParsedLogLine)
        ensures
            final(self).deep_view() == after_line(old(self).deep_view(), line.deep_view()),
    {
        if self.allow_all_generations || self.generation.is_some() {
            return;
        }
        note_generation(&mut self.latest, line);
    }

    /// Whether lines are shown that say nothing of their run.
    pub fn allow_unparsed(&self) -> (r: bool)
        ensures
            r == lets_unparsed_through(self.deep_view()),
    {
        self.targets.is_empty() && (self.allow_all_generations || self.generation.is_none())
    }
}

/// The lines that are shown, in order.
pub open spec fn filtered(list: Seq<Seq<char>>, filters: LogFiltersView) -> Seq<Seq<char>>
    decreases list.len(),
{
    if list.len() == 0 {
        Seq::empty()
    } else if passes(filters, parsed(list.last())) {
        filtered(list.drop_last(), filters).push(list.last())
    } else {
        filtered(list.drop_last(), filters)
    }
}

/// The lines of a log that are shown, in order.
pub fn filtered_lines(contents: &str, filters: &LogFilters) -> (r: Vec<String>)
    ensures
        r.deep_view() == filtered(lines_spec(contents@), filters.deep_view()),
{
    let text: Vec<String> = lines(contents);
    let ghost list = text.deep_view();
    let mut r: Vec<String> = Vec::new();
    let mut i: usize = 0;
    assert(list.take(0) =~= Seq::empty());
    assert(r.deep_view() =~= Seq::empty());
    while i < text.len()
        invariant
            i <= text@.len(),
            list == text.deep_view(),
            r.deep_view() == filtered(list.take(i as int), filters.deep_view()),
        decreases text@.len() - i,
    {
        assert(list.take(i + 1).drop_last() =~= list.take(i as int));
        assert(text@[i as int]@ == list[i as int]);
        let ghost before = r.deep_view();
        let line: ParsedLogLine = parse_log_line(text[i].as_str());
        if filters.matches(&line) {
            r.push(text[i].clone());
            assert(r.deep_view() =~= before.push(list[i as int]));
        }
        i = i + 1;
    }
    assert(list.take(i as int) =~= list);
    r
}

/// The last lines of a list, at most `count` of them.
fn last_lines(list: &Vec<String>, count: usize) -> (r: Vec<String>)
    ensures
        r.deep_view() == last_of(list.deep_view(), count as nat),
{
    let ghost all = list.deep_view();
    let start: usize = if list.len() <= count {
        0
    } else {
        list.len() - count
    };
    let mut r: Vec<String> = Vec::new();
    let mut i: usize = start;
    assert(r.deep_view() =~= all.subrange(start as int, start as int));
    while i < list.len()
        invariant
            start <= i <= list@.len(),
            all == list.deep_view(),
            r.deep_view() == all.subrange(start as int, i as int),
        decreases list@.len() - i,
    {
        let ghost before = r.deep_view();
        assert(list@[i as int]@ == all[i as int]);
        r.push(list[i].clone());
        assert(r.deep_view() =~= before.push(all[i as int]));
        assert(r.deep_view() =~= all.subrange(start as int, i + 1));
        i = i + 1;
    }
    assert(all.subrange(start as int, i as int) =~= last_of(all, count as nat));
    r
}

/// What is to be shown: of the targets that are named, in any case, or of all; an error where one
/// generation and all generations are asked for.
pub open spec fn filters_of(
    targets: Seq<Seq<char>>,
    generation: Option<u64>,
    all_generations: bool,
    latest: Seq<(Seq<char>, u64)>,
) -> Result<LogFiltersView, Seq<char>> {
    if generation is Some && all_generations {
        Err("cannot combine --generation with --all"@)
    } else {
        Ok(
            LogFiltersView {
                targets: all_upper(targets).to_set(),
                generation,
                allow_all_generations: all_generations,
                latest,
            },
        )
    }
}

/// Whether lines that tell no run are shown.
pub open spec fn lets_unparsed_through(filters: LogFiltersView) -> bool {
    filters.targets =~= Set::<Seq<char>>::empty() && (filters.allow_all_generations
        || filters.generation is None)
}

/// The lines that pass, or the last of them, in colors.
pub open spec fn snapshot_of(
    list: Seq<Seq<char>>,
    filters: LogFiltersView,
    tail: Option<usize>,
) -> Seq<Seq<char>> {
    all_colored(
        match tail {
            Some(count) => last_of(filtered(list, filters), count as nat),
            None => filtered(list, filters),
        },
    )
}

/// Where a file is read on that is `length` bytes long now, or gone.
pub open spec fn next_offset(offset: u64, length: Option<u64>) -> u64 {
    match length {
        Some(length) => if length < offset {
            0
        } else {
            offset
        },
        None => 0,
    }
}

/// Whether a line is of a target, and of a generation where one is asked for.
pub open spec fn line_of_target(
    line: Seq<char>,
    target: Seq<char>,
    generation: Option<u64>,
) -> bool {
    let columns = splitn_spec(line, 4, '|');
    &&& columns.len() >= 4
    &&& lowercase(trim_spec(columns[0])) == lowercase(target)
    &&& generation is Some ==> number_in(columns[1]) == generation
}

/// The lines of a target, and of a generation where one is asked for, in order.
pub open spec fn lines_of_target(
    list: Seq<Seq<char>>,
    target: Seq<char>,
    generation: Option<u64>,
) -> Seq<Seq<char>>
    decreases list.len(),
{
    if list.len() == 0 {
        Seq::empty()
    } else if line_of_target(list.last(), target, generation) {
        lines_of_target(list.drop_last(), target, generation).push(list.last())
    } else {
        lines_of_target(list.drop_last(), target, generation)
    }
}

fn is_line_of_target(line: &str, target: &str, generation: Option<u64>) -> (r: bool)
    ensures
        r == line_of_target(line@, target@, generation),
{
    let columns: Vec<String> = splitn(line, 4, '|');
    let ghost list = columns.deep_view();
    if columns.len() < 4 {
        return false;
    }
    assert(columns@[0]@ == list[0]);
    assert(columns@[1]@ == list[1]);
    if !eq_ignore_ascii_case(trim(columns[0].as_str()).as_str(), target) {
        return false;
    }
    match generation {
        Some(wanted) => match parse(trim(columns[1].as_str()).as_str(), u64::MAX) {
            Some(own) => own == wanted,
            None => false,
        },
        None => true,
    }
}

/// The last lines of a target in a log, at most `limit` of them.
pub fn tail_logs_for_target(
    target: &str,
    generation: Option<u64>,
    limit: usize,
    contents: &str,
) -> (r: Vec<String>)
    ensures
        r.deep_view() == last_of(
            lines_of_target(lines_spec(contents@), target@, generation),
            limit as nat,
        ),
{
    let text: Vec<String> = lines(contents);
    let ghost list = text.deep_view();
    let mut found: Vec<String> = Vec::new();
    let mut i: usize = 0;
    assert(list.take(0) =~= Seq::empty());
    assert(found.deep_view() =~= Seq::empty());
    while i < text.len()
        invariant
            i <= text@.len(),
            list == text.deep_view(),
            found.deep_view() == lines_of_target(list.take(i as int), target@, generation),
        decreases text@.len() - i,
    {
        assert(list.take(i + 1).drop_last() =~= list.take(i as int));
        assert(text@[i as int]@ == list[i as int]);
        let ghost before = found.deep_view();
        if is_line_of_target(text[i].as_str(), target, generation) {
            found.push(text[i].clone());
            assert(found.deep_view() =~= before.push(list[i as int]));
        }
        i = i + 1;
    }
    assert(list.take(i as int) =~= list);
    last_lines(&found, limit)
}

// ---------------------------------------------------------------------------
// Colours
// ---------------------------------------------------------------------------

/// What the names of log levels are found with.
pub open spec fn level_pattern() -> Seq<char> {
    "(?P<prefix>[ \\t\\(\\[])(?P<level>ERROR|WARN|INFO)(?P<suffix>[ \\t\\)\\]])"@
}

/// The name of a log level in its colour; other texts stay as they are.
pub open spec fn level_text(level: Seq<char>) -> Seq<char> {
    if level == "ERROR"@ {
        "\u{001b}[31mERROR\u{001b}[0m"@
    } else if level == "WARN"@ {
        "\u{001b}[33mWARN\u{001b}[0m"@
    } else if level == "INFO"@ {
        "\u{001b}[32mINFO\u{001b}[0m"@
    } else {
        level
    }
}

/// The text of a group, or nothing.
pub open spec fn group_or_nothing(
    text: Seq<char>,
    groups: Seq<Option<(usize, usize)>>,
    group: int,
) -> Seq<char> {
    match group_text(text, groups, group) {
        Some(part) => part,
        None => Seq::empty(),
    }
}

/// What a match becomes: the level in its colour between what surrounds it.
pub open spec fn level_match(text: Seq<char>, groups: Seq<Option<(usize, usize)>>) -> Seq<char> {
    group_or_nothing(text, groups, 1) + level_text(group_or_nothing(text, groups, 2))
        + group_or_nothing(text, groups, 3)
}

/// A text with the levels in colour, given where they stand.
pub open spec fn with_levels(
    text: Seq<char>,
    found: Seq<Seq<Option<(usize, usize)>>>,
) -> Seq<char> {
    replaced(text, found, |groups: Seq<Option<(usize, usize)>>| level_match(text, groups))
}

/// A text with the levels in colour.
pub open spec fn level_colored(text: Seq<char>) -> Seq<char> {
    match regex_captures(level_pattern(), text) {
        Some(found) => with_levels(text, found),
        None => text,
    }
}

fn color_level(level: &str) -> (r: String)
    ensures
        r@ == level_text(level@),
{
    if same(level, "ERROR") {
        "\u{001b}[31mERROR\u{001b}[0m".to_owned()
    } else if same(level, "WARN") {
        "\u{001b}[33mWARN\u{001b}[0m".to_owned()
    } else if same(level, "INFO") {
        "\u{001b}[32mINFO\u{001b}[0m".to_owned()
    } else {
        level.to_owned()
    }
}

fn group_or_empty(text: &Vec<char>, groups: &Vec<Option<(usize, usize)>>, group: usize) -> (r:
    String)
    requires
        match_in(groups.deep_view(), text@.len()),
    ensures
        r@ == group_or_nothing(text@, groups.deep_view(), group as int),
{
    match group_of(text, groups, group) {
        Some(part) => part,
        None => {
            let r: String = String::new();
            assert(r@ =~= Seq::empty());
            r
        },
    }
}

/// The text with the levels in colour, given where they stand.
pub fn color_levels(segment: &str, found: &Vec<Vec<Option<(usize, usize)>>>) -> (r: String)
    requires
        well_placed(found.deep_view(), segment@.len()),
    ensures
        r@ == with_levels(segment@, found.deep_view()),
{
    let text: Vec<char> = chars_of(segment);
    let ghost list = found.deep_view();
    let ghost f = |groups: Seq<Option<(usize, usize)>>| level_match(text@, groups);
    let mut r: String = String::new();
    let mut last: usize = 0;
    let mut i: usize = 0;
    assert(list.take(0) =~= Seq::empty());
    assert(r@ =~= Seq::empty());
    while i < found.len()
        invariant
            i <= found@.len(),
            text@ == segment@,
            list == found.deep_view(),
            f == (|groups: Seq<Option<(usize, usize)>>| level_match(text@, groups)),
            well_placed(list, text@.len()),
            last == last_end(list.take(i as int)),
            last <= text@.len(),
            r@ == replaced_front(text@, list.take(i as int), f),
        decreases found@.len() - i,
    {
        let groups: &Vec<Option<(usize, usize)>> = &found[i];
        assert(groups.deep_view() == list[i as int]);
        assert(match_in(list[i as int], text@.len()));
        assert(list.take(i + 1).drop_last() =~= list.take(i as int));
        assert(list.take(i + 1).last() == list[i as int]);
        assert(i > 0 ==> list.take(i as int).last() == list[i - 1]);
        assert(i > 0 ==> match_end(list[i - 1]) <= match_start(list[i as int]));
        assert(groups.deep_view()[0] == groups@[0].deep_view());
        if let Some((start, end)) = groups[0] {
            r.append(string_of(&text, last, start).as_str());
            let mut shown: String = group_or_empty(&text, groups, 1);
            shown.append(color_level(group_or_empty(&text, groups, 2).as_str()).as_str());
            shown.append(group_or_empty(&text, groups, 3).as_str());
            r.append(shown.as_str());
            last = end;
        }
        i = i + 1;
    }
    assert(list.take(i as int) =~= list);
    assert(text@.skip(last as int) =~= text@.subrange(last as int, text@.len() as int));
    r.append(string_of(&text, last, text.len()).as_str());
    r
}

/// The text with the levels in colour.
pub fn apply_level_color(segment: &str) -> (r: String)
    ensures
        r@ == level_colored(segment@),
{
    match captures(
        "(?P<prefix>[ \\t\\(\\[])(?P<level>ERROR|WARN|INFO)(?P<suffix>[ \\t\\)\\]])",
        segment,
    ) {
        Some(found) => color_levels(segment, &found),
        None => segment.to_owned(),
    }
}

/// A text in grey.
pub open spec fn grey(text: Seq<char>) -> Seq<char> {
    "\u{001b}[38;5;244m"@ + text + "\u{001b}[0m"@
}

/// A text with its levels in colour, given what that gives; in grey where there are none.
pub open spec fn message_colored(text: Seq<char>, with_levels: Seq<char>) -> Seq<char> {
    if with_levels == text {
        grey(text)
    } else {
        with_levels
    }
}

/// A line in colour: the columns before the message in grey, and levels in their own colour.
pub open spec fn line_colored(line: Seq<char>) -> Seq<char> {
    let parts = splitn_spec(line, 4, '|');
    if parts.len() == 4 {
        grey(parts[0]) + "|"@ + grey(parts[1]) + "|"@ + grey(parts[2]) + "|"@ + message_colored(
            parts[3],
            level_colored(parts[3]),
        )
    } else {
        message_colored(line, level_colored(line))
    }
}

fn to_grey(text: &str) -> (r: String)
    ensures
        r@ == grey(text@),
{
    let mut r: String = "\u{001b}[38;5;244m".to_owned();
    r.append(text);
    r.append("\u{001b}[0m");
    r
}

fn color_message(text: &str) -> (r: String)
    ensures
        r@ == message_colored(text@, level_colored(text@)),
{
    let colored: String = apply_level_color(text);
    if same(colored.as_str(), text) {
        to_grey(text)
    } else {
        colored
    }
}

/// The line in colour.
pub fn colorize_log_line(line: &str) -> (r: String)
    ensures
        r@ == line_colored(line@),
{
    let parts: Vec<String> = splitn(line, 4, '|');
    let ghost list = parts.deep_view();
    if parts.len() == 4 {
        assert(parts@[0]@ == list[0] && parts@[1]@ == list[1] && parts@[2]@ == list[2]
            && parts@[3]@ == list[3]);
        let mut r: String = to_grey(parts[0].as_str());
        r.append("|");
        r.append(to_grey(parts[1].as_str()).as_str());
        r.append("|");
        r.append(to_grey(parts[2].as_str()).as_str());
        r.append("|");
        r.append(color_message(parts[3].as_str()).as_str());
        r
    } else {
        color_message(line)
    }
}

/// Lines in colour.
pub open spec fn all_colored(list: Seq<Seq<char>>) -> Seq<Seq<char>> {
    list.map_values(|line: Seq<char>| line_colored(line))
}

fn color_lines(list: &Vec<String>) -> (r: Vec<String>)
    ensures
        r.deep_view() == all_colored(list.deep_view()),
{
    let mut r: Vec<String> = Vec::new();
    let mut i: usize = 0;
    while i < list.len()
        invariant
            i <= list@.len(),
            r@.len() == i,
            forall|k: int|
                0 <= k < i ==> (#[trigger] r@[k])@ == all_colored(list.deep_view())[k],
        decreases list@.len() - i,
    {
        assert(list@[i as int]@ == list.deep_view()[i as int]);
        r.push(colorize_log_line(list[i].as_str()));
        i = i + 1;
    }
    assert(r.deep_view() =~= all_colored(list.deep_view()));
    r
}

// ---------------------------------------------------------------------------
// Showing a log
// ---------------------------------------------------------------------------

/// What is shown of a log: the lines that the filters let through, the last ones only where a
/// number is asked for.
pub fn log_snapshot(contents: &str, filters: &LogFilters, tail: Option<usize>) -> (r: Vec<String>)
    ensures
        r.deep_view() == snapshot_of(lines_spec(contents@), filters.deep_view(), tail),
{
    let chosen: Vec<String> = filtered_lines(contents, filters);
    match tail {
        Some(count) => color_lines(&last_lines(&chosen, count)),
        None => color_lines(&chosen),
    }
}

/// Where to read on in a log of the given length: at the start where the log was replaced by a
/// shorter one or is missing.
pub fn follow_offset(offset: u64, length: Option<u64>) -> (r: u64)
    ensures
        r == next_offset(offset, length),
{
    match length {
        Some(length) => if length < offset {
            0
        } else {
            offset
        },
        None => 0,
    }
}

/// The filters after some lines were read.
pub open spec fn after_lines(filters: LogFiltersView, list: Seq<Seq<char>>) -> LogFiltersView
    decreases list.len(),
{
    if list.len() == 0 {
        filters
    } else {
        after_line(after_lines(filters, list.drop_last()), parsed(list.last()))
    }
}

/// The lines that are shown while a log is followed: each is looked at with the filters as they
/// are after it.
pub open spec fn followed(filters: LogFiltersView, list: Seq<Seq<char>>) -> Seq<Seq<char>>
    decreases list.len(),
{
    if list.len() == 0 {
        Seq::empty()
    } else if passes(after_lines(filters, list), parsed(list.last())) {
        followed(filters, list.drop_last()).push(line_colored(list.last()))
    } else {
        followed(filters, list.drop_last())
    }
}

impl LogFilters {
    /// Takes in what was added to a log, and gives what is shown of it.
    pub fn follow(&mut self, text: &str) -> (r: Vec<String>)
        ensures
            r.deep_view() == followed(old(self).deep_view(), lines_spec(text@)),
            final(self).deep_view() == after_lines(old(self).deep_view(), lines_spec(text@)),
    {
        let added: Vec<String> = lines(text);
        let ghost list = added.deep_view();
        let ghost first = self.deep_view();
        let mut r: Vec<String> = Vec::new();
        let mut i: usize = 0;
        assert(list.take(0) =~= Seq::empty());
        assert(r.deep_view() =~= Seq::empty());
        while i < added.len()
            invariant
                i <= added@.len(),
                list == added.deep_view(),
                self.deep_view() == after_lines(first, list.take(i as int)),
                r.deep_view() == followed(first, list.take(i as int)),
            decreases added@.len() - i,
        {
            assert(list.take(i + 1).drop_last() =~= list.take(i as int));
            assert(added@[i as int]@ == list[i as int]);
            let ghost before = r.deep_view();
            let line: ParsedLogLine = parse_log_line(added[i].as_str());
            self.update_latest(&line);
            if self.matches(&line) {
                r.push(colorize_log_line(added[i].as_str()));
                assert(r.deep_view() =~= before.push(line_colored(list[i as int])));
            }
            i = i + 1;
        }
        assert(list.take(i as int) =~= list);
        r
    }
}

// ---------------------------------------------------------------------------
// Laws
// ---------------------------------------------------------------------------

/// A line that a target writes tells the target, in upper case, and its generation.
pub proof fn line_tells_its_run(
    target: Seq<char>,
    generation: u64,
    rest: Seq<char>,
)
    requires
        !target.contains('|'),
    ensures
        parsed(target + " | "@ + decimal_spec(generation as nat) + " | "@ + rest) == (
        ParsedLogLineView {
            generation: Some(generation),
            target_upper: uppercase(trim_spec(target)),
        }),
{
    reveal_strlit(" | ");
    let number = decimal_spec(generation as nat);
    let line = target + " | "@ + number + " | "@ + rest;
    let a = target.len() as int;
    lemma_decimal_digits(generation as nat);
    assert forall|k: int| 0 <= k < a + 1 implies line[k] != '|' by {
        if k < a {
            assert(target.contains(target[k]));
        } else {
            assert(line[k] == " | "@[0]);
        }
    }
    assert(line[a + 1] == " | "@[1]);
    lemma_position_is(line, '|', a + 1);
    let first = line.take(a + 1);
    let behind = line.skip(a + 2);
    assert(first =~= target.push(' '));
    lemma_trim_last(first);
    assert(first.drop_last() =~= target);
    let b = number.len() as int;
    assert(behind =~= seq![' '] + number + " | "@ + rest);
    assert forall|k: int| 0 <= k < b + 2 implies behind[k] != '|' by {
        if 1 <= k <= b {
            assert(behind[k] == number[k - 1]);
            assert(is_digit(number[k - 1]));
        } else if k == b + 1 {
            assert(behind[k] == " | "@[0]);
        }
    }
    assert(behind[b + 2] == " | "@[1]);
    lemma_position_is(behind, '|', b + 2);
    let second = behind.take(b + 2);
    assert(second =~= seq![' '] + number + seq![' ']);
    assert(is_digit(number[0]));
    assert(is_digit(number[b - 1]));
    lemma_trim_around(seq![' '], number, seq![' ']);
    decimal_round_trip(generation as nat, u64::MAX as nat);
    let parts = split_spec(line, '|');
    assert(parts[0] == first);
    assert(split_spec(behind, '|')[0] == second);
    assert(parts[1] == second);
}

/// The latest generation of a target is the highest that one of its lines tells.
pub proof fn latest_generation_is_the_highest(list: Seq<Seq<char>>, i: int)
    requires
        0 <= i < list.len(),
    ensures
        parsed(list[i]).generation matches Some(generation) ==> lookup(
            latest_in(list),
            parsed(list[i]).target_upper,
        ) is Some && lookup(latest_in(list), parsed(list[i]).target_upper)->0 >= generation,
    decreases list.len(),
{
    let front = list.drop_last();
    let last = parsed(list.last());
    let line = parsed(list[i]);
    if last.generation is Some {
        lemma_lookup_put(latest_in(front), last.target_upper, last.generation->0, line.target_upper);
    }
    if i < front.len() {
        assert(front[i] == list[i]);
        latest_generation_is_the_highest(front, i);
    }
}

/// The latest generation of a target is one that a line of the target tells.
pub proof fn latest_generation_was_told(list: Seq<Seq<char>>, target: Seq<char>)
    requires
        lookup(latest_in(list), target) is Some,
    ensures
        exists|i: int|
            0 <= i < list.len() && parsed(#[trigger] list[i]).target_upper == target && parsed(
                list[i],
            ).generation == lookup(latest_in(list), target),
    decreases list.len(),
{
    if list.len() > 0 {
        let front = list.drop_last();
        let last = parsed(list.last());
        if last.generation is Some {
            lemma_lookup_put(latest_in(front), last.target_upper, last.generation->0, target);
        }
        if lookup(latest_in(list), target) == lookup(latest_in(front), target) {
            latest_generation_was_told(front, target);
            let i = choose|i: int|
                0 <= i < front.len() && parsed(#[trigger] front[i]).target_upper == target
                    && parsed(front[i]).generation == lookup(latest_in(front), target);
            assert(list[i] == front[i]);
        } else {
            assert(parsed(list[list.len() - 1]).target_upper == target);
        }
    }
}

/// Filtering shows exactly the lines that pass.
pub proof fn filtering_shows_what_passes(
    list: Seq<Seq<char>>,
    filters: LogFiltersView,
    line: Seq<char>,
)
    ensures
        filtered(list, filters).contains(line) <==> list.contains(line) && passes(
            filters,
            parsed(line),
        ),
    decreases list.len(),
{
    let shown = filtered(list, filters);
    if list.len() > 0 {
        let front = list.drop_last();
        let some = filtered(front, filters);
        filtering_shows_what_passes(front, filters, line);
        if shown.contains(line) {
            let i = choose|i: int| 0 <= i < shown.len() && shown[i] == line;
            if i < some.len() {
                assert(some[i] == line);
                let k = choose|k: int| 0 <= k < front.len() && front[k] == line;
                assert(list[k] == line);
            } else {
                assert(list[list.len() - 1] == line);
            }
        }
        if list.contains(line) && passes(filters, parsed(line)) {
            let k = choose|k: int| 0 <= k < list.len() && list[k] == line;
            if k < front.len() {
                assert(front[k] == line);
                let i = choose|i: int| 0 <= i < some.len() && some[i] == line;
                assert(shown[i] == line);
            } else {
                assert(shown[some.len() as int] == line);
            }
        }
    }
}

/// Without a choice of generations only lines of the latest generation of a target pass.
pub proof fn only_the_latest_generation_passes(
    list: Seq<Seq<char>>,
    targets: Set<Seq<char>>,
    line: Seq<char>,
)
    requires
        list.contains(line),
        passes(
            LogFiltersView {
                targets,
                generation: None,
                allow_all_generations: false,
                latest: latest_in(list),
            },
            parsed(line),
        ),
    ensures
        forall|i: int|
            0 <= i < list.len() && parsed(#[trigger] list[i]).target_upper == parsed(
                line,
            ).target_upper && parsed(list[i]).generation is Some ==> parsed(list[i]).generation->0
                <= parsed(line).generation->0,
{
    assert forall|i: int|
        0 <= i < list.len() && parsed(#[trigger] list[i]).target_upper == parsed(line).target_upper
            && parsed(list[i]).generation is Some implies parsed(list[i]).generation->0 <= parsed(
        line,
    ).generation->0 by {
        latest_generation_is_the_highest(list, i);
    }
}

} // verus!
