//! What holds of the lines that are shown of logs.

use vstd::prelude::*;

use crate::cli::combined::{
    after_lines, all_colored, all_upper, filtered, filters_of, followed, grey, level_colored,
    level_match, level_text, lets_unparsed_through, line_colored, line_of_target, lines_of_target,
    message_colored, next_offset, parsed, passes, snapshot_of, with_levels, LogFiltersView,
    ParsedLogLineView,
};
use crate::cli::log_io::{
    asked_generations, asked_targets, colored, columns_of, cut, emptied, entries_of, entry_of,
    entry_text, follows, generation_in_name, generations_in, last_of, line_entry, merged,
    refreshed, shown_waiting, sources_for, sources_of, taken_up, tail_text, timestamp_part,
    waiting, LogEntryView, LogFollowerStateView, LogSourceView,
};
use crate::cli::log_laws::{
    generations_are_listed_in_order, lemma_trim_around, lemma_trim_last, merging_keeps_every_entry,
    pool,
};
use crate::names::{lemma_finite_set_is_listed, lemma_lookup_put, lists, lookup};
use crate::numbers::{decimal_round_trip, decimal_spec, is_digit, lemma_decimal_digits};
use crate::parts::{
    lemma_position_is, lines_spec, pad_end_spec, pad_start_spec, repeat_spec, splitn_spec,
};
use crate::pattern::{replaced, replaced_front};
use crate::text::{lowercase, occurs_in, trim_spec, uppercase};
use crate::time::{rfc3339_millis_text, Instant};

verus! {

// ---------------------------------------------------------------------------
// Entries
// ---------------------------------------------------------------------------

/// So many spaces as are left of `width`.
pub open spec fn spaces_up_to(width: int, text: Seq<char>) -> Seq<char> {
    Seq::new((if text.len() < width { width - text.len() } else { 0 }) as nat, |i: int| ' ')
}

proof fn lemma_repeat(n: nat)
    ensures
        repeat_spec(' ', n) == Seq::new(n, |i: int| ' '),
{
    assert(repeat_spec(' ', n) =~= Seq::new(n, |i: int| ' '));
}

/// An entry is shown with its time, its target, its generation, its stream and its message, each
/// in a column of its own; the names stand to the left and the number to the right.
pub proof fn entry_is_shown_in_columns(entry: LogEntryView)
    ensures
        ({
            let time = rfc3339_millis_text(entry.timestamp.secs, entry.timestamp.nanos);
            let number = decimal_spec(entry.generation as nat);
            entry_text(entry) == time + " | "@ + (entry.target + spaces_up_to(18, entry.target))
                + " | "@ + (spaces_up_to(5, number) + number) + " | "@ + (entry.stream
                + spaces_up_to(7, entry.stream)) + " | "@ + entry.message
        }),
{
    let number = decimal_spec(entry.generation as nat);
    lemma_repeat((18 - entry.target.len()) as nat);
    lemma_repeat((5 - number.len()) as nat);
    lemma_repeat((7 - entry.stream.len()) as nat);
    assert(pad_end_spec(entry.target, 18) =~= entry.target + spaces_up_to(18, entry.target));
    assert(pad_start_spec(number, 5) =~= spaces_up_to(5, number) + number);
    assert(pad_end_spec(entry.stream, 7) =~= entry.stream + spaces_up_to(7, entry.stream));
}

/// A line tells an entry where it has a time and a stream behind it; the message is all that stands
/// behind the second bar, and may hold further bars.
pub proof fn line_tells_its_entry(
    source: LogSourceView,
    front: Seq<char>,
    stream: Seq<char>,
    message: Seq<char>,
    time: Instant,
)
    requires
        !front.contains('|'),
        !stream.contains('|'),
    ensures
        entry_of(source, front + seq!['|'] + stream + seq!['|'] + message, Some(time)) == Some(
            LogEntryView {
                timestamp: time,
                target: source.target,
                generation: source.generation,
                stream: trim_spec(stream),
                message: trim_spec(message),
            },
        ),
        entry_of(source, front + seq!['|'] + stream, Some(time)) == Some(
            LogEntryView {
                timestamp: time,
                target: source.target,
                generation: source.generation,
                stream: trim_spec(stream),
                message: Seq::empty(),
            },
        ),
        entry_of(source, front, Some(time)) is None,
        entry_of(source, front + seq!['|'] + stream, None) is None,
        timestamp_part(front + seq!['|'] + stream) == trim_spec(front),
{
    let whole = front + seq!['|'] + stream + seq!['|'] + message;
    let short = front + seq!['|'] + stream;
    let a = front.len() as int;
    let b = stream.len() as int;
    assert forall|k: int| 0 <= k < a implies front[k] != '|' by {
        assert(front.contains(front[k]));
    }
    assert forall|k: int| 0 <= k < b implies stream[k] != '|' by {
        assert(stream.contains(stream[k]));
    }
    lemma_position_is(whole, '|', a);
    lemma_position_is(short, '|', a);
    lemma_position_is(front, '|', a);
    assert(whole.take(a) =~= front);
    assert(short.take(a) =~= front);
    let rest = whole.skip(a + 1);
    assert(rest =~= stream + seq!['|'] + message);
    assert(short.skip(a + 1) =~= stream);
    lemma_position_is(rest, '|', b);
    lemma_position_is(stream, '|', b);
    assert(rest.take(b) =~= stream);
    assert(rest.skip(b + 1) =~= message);
    reveal_with_fuel(splitn_spec, 4);
    assert(splitn_spec(whole, 3, '|') =~= seq![front, stream, message]);
    assert(splitn_spec(short, 3, '|') =~= seq![front, stream]);
    assert(splitn_spec(front, 3, '|') =~= seq![front]);
}

/// The entries of a log are those of its lines that tell an entry, and no others.
pub proof fn log_holds_the_entries_of_its_lines(
    source: LogSourceView,
    list: Seq<Seq<char>>,
    entry: LogEntryView,
)
    ensures
        entries_of(source, list).contains(entry) <==> exists|i: int|
            0 <= i < list.len() && line_entry(source, #[trigger] list[i]) == Some(entry),
        entries_of(source, list).len() <= list.len(),
        (forall|i: int| 0 <= i < list.len() ==> line_entry(source, #[trigger] list[i]) is Some)
            ==> entries_of(source, list).len() == list.len() && forall|i: int|
            0 <= i < list.len() ==> Some(#[trigger] entries_of(source, list)[i]) == line_entry(
                source,
                list[i],
            ),
    decreases list.len(),
{
    if list.len() > 0 {
        let front = list.drop_last();
        let before = entries_of(source, front);
        let after = entries_of(source, list);
        log_holds_the_entries_of_its_lines(source, front, entry);
        assert forall|i: int| 0 <= i < front.len() implies front[i] == list[i] by {}
        if after.contains(entry) {
            let k = choose|k: int| 0 <= k < after.len() && after[k] == entry;
            if k < before.len() {
                assert(before[k] == entry);
                let i = choose|i: int|
                    0 <= i < front.len() && line_entry(source, #[trigger] front[i]) == Some(entry);
                assert(line_entry(source, list[i]) == Some(entry));
            } else {
                assert(line_entry(source, list[list.len() - 1]) == Some(entry));
            }
        }
        if exists|i: int|
            0 <= i < list.len() && line_entry(source, #[trigger] list[i]) == Some(entry) {
            let i = choose|i: int|
                0 <= i < list.len() && line_entry(source, #[trigger] list[i]) == Some(entry);
            if i < front.len() {
                assert(line_entry(source, front[i]) == Some(entry));
                let k = choose|k: int| 0 <= k < before.len() && before[k] == entry;
                assert(after[k] == entry);
            } else {
                assert(after[before.len() as int] == entry);
            }
        }
        if forall|i: int| 0 <= i < list.len() ==> line_entry(source, #[trigger] list[i]) is Some {
            assert forall|i: int| 0 <= i < front.len() implies line_entry(
                source,
                #[trigger] front[i],
            ) is Some by {
                assert(line_entry(source, list[i]) is Some);
            }
            assert(line_entry(source, list[list.len() - 1]) is Some);
            assert forall|i: int| 0 <= i < list.len() implies Some(#[trigger] after[i])
                == line_entry(source, list[i]) by {
                if i < front.len() {
                    assert(after[i] == before[i]);
                    assert(front[i] == list[i]);
                }
            }
        }
    }
}

/// The end of a log is shown with its last entries, the latest last, each on a line; lines are cut
/// only where there is a width to keep to.
pub proof fn end_of_a_log_is_shown(
    entries: Seq<LogEntryView>,
    limit: nat,
    max_width: Option<usize>,
    i: int,
)
    requires
        0 <= i < tail_text(entries, limit, max_width).len(),
    ensures
        tail_text(entries, limit, max_width).len() == (if entries.len() < limit {
            entries.len()
        } else {
            limit
        }),
        ({
            let count = tail_text(entries, limit, max_width).len();
            let text = entry_text(entries[entries.len() - count + i]);
            &&& tail_text(entries, limit, max_width)[i].is_prefix_of(text)
            &&& max_width is None ==> tail_text(entries, limit, max_width)[i] == text
        }),
{
    let count = tail_text(entries, limit, max_width).len();
    let text = entry_text(entries[entries.len() - count + i]);
    assert(last_of(entries, limit)[i] == entries[entries.len() - count + i]);
    let shown = tail_text(entries, limit, max_width)[i];
    if let Some(width) = max_width {
        lemma_fitting_at_most(columns_of(text), width as int);
    }
    assert(text.take(shown.len() as int) =~= shown);
}

proof fn lemma_fitting_at_most(widths: Seq<usize>, limit: int)
    ensures
        crate::cli::log_io::fitting(widths, limit) <= widths.len(),
    decreases widths.len(),
{
    if widths.len() > 0 && widths[0] <= limit {
        lemma_fitting_at_most(widths.drop_first(), limit - widths[0]);
    }
}

/// Lines are colored on terminals only: red where they tell an error, green where they come from
/// the standard output; nothing of the line is lost.
pub proof fn colors_keep_the_line(line: Seq<char>)
    ensures
        colored(line, false) == line,
        occurs_in(line, "| STDERR |"@) || occurs_in(lowercase(line), "error"@) ==> colored(
            line,
            true,
        ) == "\u{001b}[31m"@ + line + "\u{001b}[0m"@,
        !occurs_in(line, "| STDERR |"@) && !occurs_in(lowercase(line), "error"@) && occurs_in(
            line,
            "| STDOUT |"@,
        ) ==> colored(line, true) == "\u{001b}[32m"@ + line + "\u{001b}[0m"@,
        !occurs_in(line, "| STDERR |"@) && !occurs_in(lowercase(line), "error"@) && !occurs_in(
            line,
            "| STDOUT |"@,
        ) ==> colored(line, true) == line,
{
}

// ---------------------------------------------------------------------------
// What is asked for
// ---------------------------------------------------------------------------

/// The logs of the targets that are named are asked for, each once and in name order, or those of
/// all targets with a generation where none is named.
pub proof fn named_targets_are_asked_for(
    targets: Seq<Seq<char>>,
    generations: Seq<(Seq<char>, u64)>,
)
    ensures
        targets.len() > 0 ==> lists(asked_targets(targets, generations), targets.to_set()),
        targets.len() == 0 ==> asked_targets(targets, generations).len() == generations.len()
            && forall|i: int|
            0 <= i < generations.len() ==> #[trigger] asked_targets(targets, generations)[i]
                == generations[i].0,
{
    if targets.len() > 0 {
        targets.lemma_cardinality_of_set();
        lemma_finite_set_is_listed(targets.to_set());
    }
}

/// With all generations those that have a log are shown; the generation that is asked for is shown
/// otherwise; without either that of the present run, or the latest with a log where nothing is
/// known of a run.
pub proof fn generations_are_as_asked_for(
    target: Seq<char>,
    explicit_generation: Option<u64>,
    every: bool,
    generations: Seq<(Seq<char>, u64)>,
    names: Seq<Seq<char>>,
    i: int,
    n: u64,
)
    requires
        0 <= i < names.len() ==> generation_in_name(target, names[i]) == Some(n),
    ensures
        ({
            let asked = asked_generations(
                target,
                explicit_generation,
                every,
                generations,
                names,
            );
            &&& every && 0 <= i < names.len() ==> asked.contains(n)
            &&& !every && explicit_generation is Some ==> asked == seq![explicit_generation->0]
            &&& !every && explicit_generation is None && (lookup(generations, target) matches Some(
                generation,
            ) && generation > 0) ==> asked == seq![lookup(generations, target)->0]
            &&& !every && explicit_generation is None && lookup(generations, target) == Some(0u64)
                ==> asked.len() == 0
            &&& !every && explicit_generation is None && lookup(generations, target) is None && 0
                <= i < names.len() ==> asked.len() == 1 && asked[0] >= n
            &&& every && names.len() == 0 && (lookup(generations, target) matches Some(generation)
                && generation > 0) ==> asked == seq![lookup(generations, target)->0]
        }),
{
    generations_are_listed_in_order(target, names);
    let found = generations_in(target, names);
    if 0 <= i < names.len() {
        assert(names.contains(names[i]));
        assert(found.contains(n));
        let k = choose|k: int| 0 <= k < found.len() && found[k] == n;
        assert(found[k] <= found[found.len() - 1]);
    }
}

/// A log is shown exactly where its target and its generation are asked for.
pub proof fn asked_logs_are_the_sources(
    targets: Seq<Seq<char>>,
    explicit_generation: Option<u64>,
    every: bool,
    generations: Seq<(Seq<char>, u64)>,
    names: Seq<Seq<char>>,
    source: LogSourceView,
)
    ensures
        sources_of(targets, explicit_generation, every, generations, names).contains(source) <==> (
        targets.contains(source.target) && asked_generations(
            source.target,
            explicit_generation,
            every,
            generations,
            names,
        ).contains(source.generation)),
    decreases targets.len(),
{
    if targets.len() > 0 {
        let front = targets.drop_last();
        let last = targets.last();
        let before = sources_of(front, explicit_generation, every, generations, names);
        let asked = asked_generations(last, explicit_generation, every, generations, names);
        let added = sources_for(last, asked);
        asked_logs_are_the_sources(front, explicit_generation, every, generations, names, source);
        assert(targets =~= front.push(last));
        assert(targets.contains(source.target) <==> front.contains(source.target) || last
            == source.target) by {
            if targets.contains(source.target) {
                let k = choose|k: int| 0 <= k < targets.len() && targets[k] == source.target;
                if k < front.len() {
                    assert(front[k] == source.target);
                }
            }
            if front.contains(source.target) {
                let k = choose|k: int| 0 <= k < front.len() && front[k] == source.target;
                assert(targets[k] == source.target);
            }
            assert(targets[targets.len() - 1] == last);
        }
        assert((before + added).contains(source) <==> before.contains(source) || added.contains(
            source,
        )) by {
            if before.contains(source) {
                let k = choose|k: int| 0 <= k < before.len() && before[k] == source;
                assert((before + added)[k] == source);
            }
            if added.contains(source) {
                let k = choose|k: int| 0 <= k < added.len() && added[k] == source;
                assert((before + added)[before.len() + k] == source);
            }
        }
        assert(added.contains(source) <==> last == source.target && asked.contains(
            source.generation,
        )) by {
            if added.contains(source) {
                let k = choose|k: int| 0 <= k < added.len() && added[k] == source;
                assert(asked[k] == source.generation);
            }
            if last == source.target && asked.contains(source.generation) {
                let k = choose|k: int| 0 <= k < asked.len() && asked[k] == source.generation;
                assert(added[k] == source);
            }
        }
    }
}

// ---------------------------------------------------------------------------
// Following
// ---------------------------------------------------------------------------

/// What is read behind the offset of a follower waits behind what waits already, and is not read
/// again.
pub proof fn what_is_read_waits(
    state: LogFollowerStateView,
    text: Seq<char>,
    bytes_read: u64,
    i: int,
)
    requires
        bytes_read > 0,
        state.offset + bytes_read <= u64::MAX,
        0 <= i < lines_spec(text).len(),
    ensures
        refreshed(state, text, bytes_read).source == state.source,
        refreshed(state, text, bytes_read).offset == state.offset + bytes_read,
        state.buffer.is_prefix_of(refreshed(state, text, bytes_read).buffer),
        line_entry(state.source, lines_spec(text)[i]) is Some ==> refreshed(
            state,
            text,
            bytes_read,
        ).buffer.contains(line_entry(state.source, lines_spec(text)[i])->0),
        refreshed(state, text, 0) == state,
{
    let more = entries_of(state.source, lines_spec(text));
    let all = refreshed(state, text, bytes_read).buffer;
    assert(all.take(state.buffer.len() as int) =~= state.buffer);
    if line_entry(state.source, lines_spec(text)[i]) is Some {
        let entry = line_entry(state.source, lines_spec(text)[i])->0;
        log_holds_the_entries_of_its_lines(state.source, lines_spec(text), entry);
        let k = choose|k: int| 0 <= k < more.len() && more[k] == entry;
        assert(all[state.buffer.len() + k] == entry);
    }
}

/// Every waiting entry is shown, one line for each, and nothing waits then; where the followers
/// stand does not change.
pub proof fn waiting_entries_are_shown(
    states: Seq<LogFollowerStateView>,
    i: int,
    k: int,
    terminal: bool,
)
    requires
        0 <= i < states.len(),
        0 <= k < states[i].buffer.len(),
    ensures
        shown_waiting(states, terminal).contains(
            colored(entry_text(states[i].buffer[k]), terminal),
        ),
        shown_waiting(states, terminal).len() == pool(waiting(states)).len(),
        emptied(states).len() == states.len(),
        emptied(states)[i].source == states[i].source,
        emptied(states)[i].offset == states[i].offset,
        emptied(states)[i].buffer.len() == 0,
{
    let sets = waiting(states);
    let entry = states[i].buffer[k];
    merging_keeps_every_entry(sets);
    assert(sets[i][k] == entry);
    lemma_pool_contains(sets, i, k);
    let all = merged(sets);
    all.to_multiset_ensures();
    assert(all.to_multiset().contains(entry));
    assert(all.contains(entry));
    let j = choose|j: int| 0 <= j < all.len() && all[j] == entry;
    assert(shown_waiting(states, terminal)[j] == colored(entry_text(entry), terminal));
}

proof fn lemma_pool_contains(sets: Seq<Seq<LogEntryView>>, i: int, k: int)
    requires
        0 <= i < sets.len(),
        0 <= k < sets[i].len(),
    ensures
        pool(sets).count(sets[i][k]) > 0,
    decreases sets.len(),
{
    let entry = sets[i][k];
    if i < sets.len() - 1 {
        assert(sets.drop_last()[i] == sets[i]);
        lemma_pool_contains(sets.drop_last(), i, k);
    } else {
        let last = sets.last();
        last.to_multiset_ensures();
        assert(last[k] == entry);
        assert(last.contains(entry));
        assert(last.to_multiset().contains(entry));
    }
}

/// Followers stay as they are when logs are taken up, and each log that is there has one then; a
/// new one begins at the end of the log at first, and at its beginning later on.
pub proof fn present_logs_are_followed(
    states: Seq<LogFollowerStateView>,
    present: Seq<(LogSourceView, u64)>,
    begun: bool,
    i: int,
)
    ensures
        states.is_prefix_of(taken_up(states, present, begun)),
        0 <= i < present.len() ==> follows(taken_up(states, present, begun), present[i].0),
        forall|j: int|
            states.len() <= j < taken_up(states, present, begun).len() ==> {
                let state = #[trigger] taken_up(states, present, begun)[j];
                &&& state.buffer.len() == 0
                &&& begun ==> state.offset == 0
                &&& !begun ==> present.contains((state.source, state.offset))
                &&& !follows(states, state.source)
            },
    decreases present.len(),
{
    let after = taken_up(states, present, begun);
    if present.len() > 0 {
        let front = present.drop_last();
        let before = taken_up(states, front, begun);
        let (source, length) = present.last();
        present_logs_are_followed(states, front, begun, i);
        assert(after.take(states.len() as int) =~= states) by {
            assert(before.take(states.len() as int) =~= states);
            assert forall|j: int| 0 <= j < states.len() implies after[j] == states[j] by {
                assert(before.take(states.len() as int)[j] == before[j]);
            }
        }
        if 0 <= i < front.len() {
            assert(front[i] == present[i]);
            let j = choose|j: int|
                0 <= j < before.len() && (#[trigger] before[j]).source == present[i].0;
            assert(after[j].source == present[i].0);
        } else if i == front.len() {
            if follows(before, source) {
                assert(follows(after, source));
            } else {
                assert(after[before.len() as int].source == source);
            }
        }
        assert forall|j: int| states.len() <= j < after.len() implies ({
            let state = #[trigger] after[j];
            &&& state.buffer.len() == 0
            &&& begun ==> state.offset == 0
            &&& !begun ==> present.contains((state.source, state.offset))
            &&& !follows(states, state.source)
        }) by {
            let state = after[j];
            if j < before.len() {
                assert(before[j] == state);
                if !begun {
                    let k = choose|k: int|
                        0 <= k < front.len() && front[k] == (state.source, state.offset);
                    assert(present[k] == (state.source, state.offset));
                }
            } else {
                assert(present[present.len() - 1] == (source, length));
                if follows(states, source) {
                    let k = choose|k: int|
                        0 <= k < states.len() && (#[trigger] states[k]).source == source;
                    assert(before.take(states.len() as int)[k] == before[k]);
                    assert(before[k].source == source);
                }
            }
        }
    } else {
        assert(after.take(states.len() as int) =~= states);
    }
}

// ---------------------------------------------------------------------------
// The lines of all targets
// ---------------------------------------------------------------------------

/// The targets that are named are shown, in whichever case they are written, and one generation and
/// all generations cannot be asked for together.
pub proof fn filters_are_as_asked_for(
    targets: Seq<Seq<char>>,
    generation: Option<u64>,
    all_generations: bool,
    latest: Seq<(Seq<char>, u64)>,
    i: int,
)
    ensures
        filters_of(targets, generation, all_generations, latest) is Err <==> generation is Some
            && all_generations,
        filters_of(targets, generation, all_generations, latest) matches Ok(filters) ==> {
            &&& filters.generation == generation
            &&& filters.allow_all_generations == all_generations
            &&& filters.latest == latest
            &&& 0 <= i < targets.len() ==> filters.targets.contains(uppercase(targets[i]))
            &&& forall|name: Seq<char>| #[trigger]
                filters.targets.contains(name) ==> exists|k: int|
                    0 <= k < targets.len() && uppercase(#[trigger] targets[k]) == name
            &&& lets_unparsed_through(filters) <==> targets.len() == 0 && generation is None
        },
{
    if !(generation is Some && all_generations) {
        let filters = filters_of(targets, generation, all_generations, latest)->Ok_0;
        let upper = all_upper(targets);
        if 0 <= i < targets.len() {
            assert(upper[i] == uppercase(targets[i]));
            assert(upper.contains(upper[i]));
        }
        assert forall|name: Seq<char>| #[trigger] filters.targets.contains(name) implies exists|
            k: int,
        |
            0 <= k < targets.len() && uppercase(#[trigger] targets[k]) == name by {
            let k = choose|k: int| 0 <= k < upper.len() && upper[k] == name;
            assert(uppercase(targets[k]) == name);
        }
        if targets.len() > 0 {
            assert(upper.contains(upper[0]));
            assert(filters.targets.contains(upper[0]));
        } else {
            assert(filters.targets =~= Set::<Seq<char>>::empty());
        }
    }
}

/// A line passes where its target is shown, or all targets are, and its generation is the one that
/// is asked for, any where all are, and the latest of the target otherwise.
pub proof fn line_passes_where_it_is_asked_for(filters: LogFiltersView, line: ParsedLogLineView)
    requires
        filters.generation is None || !filters.allow_all_generations,
    ensures
        passes(filters, line) ==> (filters.targets.is_empty() || filters.targets.contains(
            line.target_upper,
        )),
        (filters.targets.is_empty() || filters.targets.contains(line.target_upper)) ==> {
            &&& filters.allow_all_generations ==> passes(filters, line)
            &&& filters.generation is Some ==> (passes(filters, line) <==> line.generation
                == filters.generation)
            &&& !filters.allow_all_generations && filters.generation is None ==> (passes(
                filters,
                line,
            ) <==> line.generation is Some && lookup(filters.latest, line.target_upper)
                == line.generation)
        },
{
    assert(filters.targets.is_empty() <==> filters.targets =~= Set::<Seq<char>>::empty());
}

/// Lines are shown in their order: those of two parts of a log one behind the other.
pub proof fn filtering_keeps_the_order(
    a: Seq<Seq<char>>,
    b: Seq<Seq<char>>,
    filters: LogFiltersView,
)
    ensures
        filtered(a + b, filters) == filtered(a, filters) + filtered(b, filters),
        filtered(a, filters).len() <= a.len(),
    decreases a.len() + b.len(),
{
    if b.len() > 0 {
        filtering_keeps_the_order(a, b.drop_last(), filters);
        assert((a + b).drop_last() =~= a + b.drop_last());
        assert(filtered(a + b, filters) =~= filtered(a, filters) + filtered(b, filters));
    } else {
        assert(a + b =~= a);
        assert(filtered(a, filters) + filtered(b, filters) =~= filtered(a, filters));
        if a.len() > 0 {
            filtering_keeps_the_order(a.drop_last(), b, filters);
        }
    }
}

/// A snapshot shows all lines that pass, or the last of them, each in colors.
pub proof fn snapshot_shows_what_passes(
    list: Seq<Seq<char>>,
    filters: LogFiltersView,
    tail: Option<usize>,
    i: int,
)
    requires
        0 <= i < snapshot_of(list, filters, tail).len(),
    ensures
        ({
            let all = filtered(list, filters);
            let count = snapshot_of(list, filters, tail).len();
            &&& tail is None ==> count == all.len()
            &&& tail matches Some(most) ==> count == (if all.len() < most {
                all.len()
            } else {
                most as nat
            })
            &&& snapshot_of(list, filters, tail)[i] == line_colored(all[all.len() - count + i])
        }),
{
    let all = filtered(list, filters);
    let count = snapshot_of(list, filters, tail).len();
    let most = match tail {
        Some(n) => last_of(all, n as nat),
        None => all,
    };
    assert(most[i] == all[all.len() - count + i]);
}

/// A file is read on where it was left, and from its beginning where it became shorter or is gone.
pub proof fn file_is_read_on(offset: u64, length: u64)
    ensures
        offset <= length ==> next_offset(offset, Some(length)) == offset,
        length < offset ==> next_offset(offset, Some(length)) == 0,
        next_offset(offset, None) == 0,
{
}

/// The lines of a target are those that tell it, in any case, and the generation that is asked
/// for.
pub proof fn lines_of_a_target_tell_it(
    target: Seq<char>,
    generation: u64,
    stream: Seq<char>,
    message: Seq<char>,
)
    requires
        target.len() > 0,
        !target.contains('|'),
        trim_spec(target) == target,
        !stream.contains('|'),
    ensures
        ({
            let line = target + " | "@ + decimal_spec(generation as nat) + " | "@ + stream + " | "@
                + message;
            &&& forall|other: Seq<char>|
                lowercase(other) == lowercase(target) ==> line_of_target(line, other, None)
                    && line_of_target(line, other, Some(generation))
            &&& forall|other: Seq<char>, asked: Option<u64>|
                line_of_target(line, other, asked) ==> lowercase(other) == lowercase(target) && (
                asked is None || asked == Some(generation))
        }),
{
    reveal_strlit(" | ");
    let number = decimal_spec(generation as nat);
    let line = target + " | "@ + number + " | "@ + stream + " | "@ + message;
    lemma_decimal_digits(generation as nat);
    let a = target.len() as int;
    assert forall|k: int| 0 <= k < a + 1 implies line[k] != '|' by {
        if k < a {
            assert(line[k] == target[k]);
            assert(target.contains(target[k]));
        } else {
            assert(line[k] == " | "@[0]);
        }
    }
    assert(line[a + 1] == " | "@[1]);
    lemma_position_is(line, '|', a + 1);
    let first = line.take(a + 1);
    assert(first =~= target.push(' '));
    lemma_trim_last(first);
    assert(first.drop_last() =~= target);
    let rest = line.skip(a + 2);
    assert(rest =~= seq![' '] + number + " | "@ + stream + " | "@ + message);
    let b = number.len() as int;
    assert forall|k: int| 0 <= k < b + 2 implies rest[k] != '|' by {
        if 1 <= k <= b {
            assert(rest[k] == number[k - 1]);
            assert(is_digit(number[k - 1]));
        } else if k == b + 1 {
            assert(rest[k] == " | "@[0]);
        }
    }
    assert(rest[b + 2] == " | "@[1]);
    lemma_position_is(rest, '|', b + 2);
    let second = rest.take(b + 2);
    assert(second =~= seq![' '] + number + seq![' ']);
    assert(is_digit(number[0]));
    assert(is_digit(number[b - 1]));
    lemma_trim_around(seq![' '], number, seq![' ']);
    decimal_round_trip(generation as nat, u64::MAX as nat);
    let more = rest.skip(b + 3);
    assert(more =~= seq![' '] + stream + " | "@ + message);
    let c = stream.len() as int;
    assert forall|k: int| 0 <= k < c + 2 implies more[k] != '|' by {
        if 1 <= k <= c {
            assert(more[k] == stream[k - 1]);
            assert(stream.contains(stream[k - 1]));
        } else if k == c + 1 {
            assert(more[k] == " | "@[0]);
        }
    }
    assert(more[c + 2] == " | "@[1]);
    lemma_position_is(more, '|', c + 2);
    reveal_with_fuel(splitn_spec, 5);
    let columns = splitn_spec(line, 4, '|');
    assert(columns.len() == 4);
    assert(columns[0] == first);
    assert(columns[1] == second);
}

/// The lines of a target are those of the log that are lines of it, in their order.
pub proof fn lines_of_a_target_keep_their_order(
    a: Seq<Seq<char>>,
    line: Seq<char>,
    target: Seq<char>,
    generation: Option<u64>,
)
    ensures
        line_of_target(line, target, generation) ==> lines_of_target(
            a.push(line),
            target,
            generation,
        ) == lines_of_target(a, target, generation).push(line),
        !line_of_target(line, target, generation) ==> lines_of_target(
            a.push(line),
            target,
            generation,
        ) == lines_of_target(a, target, generation),
        lines_of_target(Seq::empty(), target, generation).len() == 0,
{
    assert(a.push(line).drop_last() =~= a);
}

/// A line that is followed counts for the lines behind it: it makes a higher generation of its
/// target the latest, where neither all generations nor one are asked for.
pub proof fn followed_line_is_shown_in_its_turn(
    filters: LogFiltersView,
    list: Seq<Seq<char>>,
    line: Seq<char>,
)
    requires
        !filters.allow_all_generations,
        filters.generation is None,
        filters.targets.is_empty(),
        parsed(line).generation is Some,
        lookup(after_lines(filters, list).latest, parsed(line).target_upper) matches Some(latest)
            ==> latest <= parsed(line).generation->0,
    ensures
        followed(filters, list.push(line)) == followed(filters, list).push(line_colored(line)),
        lookup(after_lines(filters, list.push(line)).latest, parsed(line).target_upper) == parsed(
            line,
        ).generation,
{
    lemma_after_lines(filters, list);
    let all = list.push(line);
    assert(all.drop_last() =~= list);
    let before = after_lines(filters, list);
    let after = after_lines(filters, all);
    lemma_lookup_put(
        before.latest,
        parsed(line).target_upper,
        parsed(line).generation->0,
        parsed(line).target_upper,
    );
    lemma_after_lines(filters, all);
    assert(after.targets =~= Set::<Seq<char>>::empty());
    assert(passes(after, parsed(line)));
}

/// A line of a generation before the latest of its target is not shown, and changes nothing.
pub proof fn older_line_is_not_followed(
    filters: LogFiltersView,
    list: Seq<Seq<char>>,
    line: Seq<char>,
)
    requires
        !filters.allow_all_generations,
        filters.generation is None,
        parsed(line).generation is Some,
        lookup(after_lines(filters, list).latest, parsed(line).target_upper) matches Some(latest)
            && latest > parsed(line).generation->0,
    ensures
        followed(filters, list.push(line)) == followed(filters, list),
        after_lines(filters, list.push(line)) == after_lines(filters, list),
{
    lemma_after_lines(filters, list);
    assert(list.push(line).drop_last() =~= list);
}

/// Where all generations of all targets are asked for, every line is shown.
pub proof fn every_line_is_followed(filters: LogFiltersView, list: Seq<Seq<char>>)
    requires
        filters.allow_all_generations,
        filters.generation is None,
        filters.targets.is_empty(),
    ensures
        followed(filters, list) == all_colored(list),
    decreases list.len(),
{
    if list.len() > 0 {
        every_line_is_followed(filters, list.drop_last());
        lemma_after_lines(filters, list);
        assert(filters.targets =~= Set::<Seq<char>>::empty());
    }
    assert(followed(filters, list) =~= all_colored(list));
}

proof fn lemma_after_lines(filters: LogFiltersView, list: Seq<Seq<char>>)
    ensures
        after_lines(filters, list).targets == filters.targets,
        after_lines(filters, list).generation == filters.generation,
        after_lines(filters, list).allow_all_generations == filters.allow_all_generations,
    decreases list.len(),
{
    if list.len() > 0 {
        lemma_after_lines(filters, list.drop_last());
    }
}

// ---------------------------------------------------------------------------
// Colors
// ---------------------------------------------------------------------------

/// A text in grey is the text between the two codes of the terminal, and a message without levels
/// is grey as a whole.
pub proof fn grey_text_stands_between_codes(text: Seq<char>, other: Seq<char>)
    ensures
        grey(text) == "\u{001b}[38;5;244m"@ + text + "\u{001b}[0m"@,
        message_colored(text, text) == grey(text),
        other != text ==> message_colored(text, other) == other,
{
}

/// The levels have colors of their own: errors red, warnings yellow, notes green; other words none.
pub proof fn levels_have_their_colors(level: Seq<char>)
    ensures
        ({
            let code = if level == "ERROR"@ {
                "\u{001b}[31m"@
            } else if level == "WARN"@ {
                "\u{001b}[33m"@
            } else {
                "\u{001b}[32m"@
            };
            level_text(level) == (if level == "ERROR"@ || level == "WARN"@ || level == "INFO"@ {
                code + level + "\u{001b}[0m"@
            } else {
                level
            })
        }),
{
    reveal_strlit("ERROR");
    reveal_strlit("WARN");
    reveal_strlit("INFO");
    reveal_strlit("\u{001b}[31m");
    reveal_strlit("\u{001b}[33m");
    reveal_strlit("\u{001b}[32m");
    reveal_strlit("\u{001b}[0m");
    reveal_strlit("\u{001b}[31mERROR\u{001b}[0m");
    reveal_strlit("\u{001b}[33mWARN\u{001b}[0m");
    reveal_strlit("\u{001b}[32mINFO\u{001b}[0m");
    assert("\u{001b}[31m"@ + "ERROR"@ + "\u{001b}[0m"@ =~= "\u{001b}[31mERROR\u{001b}[0m"@);
    assert("\u{001b}[33m"@ + "WARN"@ + "\u{001b}[0m"@ =~= "\u{001b}[33mWARN\u{001b}[0m"@);
    assert("\u{001b}[32m"@ + "INFO"@ + "\u{001b}[0m"@ =~= "\u{001b}[32mINFO\u{001b}[0m"@);
}

/// A level that is found in a message is written in its color, between what stands before and
/// behind it; all else of the message stays.
pub proof fn found_level_is_colored(
    a: Seq<char>,
    before: char,
    level: Seq<char>,
    behind: char,
    b: Seq<char>,
)
    requires
        a.len() + level.len() + b.len() + 2 <= usize::MAX,
    ensures
        ({
            let text = a + seq![before] + level + seq![behind] + b;
            let p = a.len();
            let q = p + 1 + level.len();
            let groups = seq![
                Some((p as usize, (q + 1) as usize)),
                Some((p as usize, (p + 1) as usize)),
                Some(((p + 1) as usize, q as usize)),
                Some((q as usize, (q + 1) as usize)),
            ];
            with_levels(text, seq![groups]) == a + seq![before] + level_text(level) + seq![behind]
                + b
        }),
{
    let text = a + seq![before] + level + seq![behind] + b;
    let p = a.len() as int;
    let q = p + 1 + level.len();
    let groups = seq![
        Some((p as usize, (q + 1) as usize)),
        Some((p as usize, (p + 1) as usize)),
        Some(((p + 1) as usize, q as usize)),
        Some((q as usize, (q + 1) as usize)),
    ];
    let found = seq![groups];
    let by = |found: Seq<Option<(usize, usize)>>| level_match(text, found);
    reveal_with_fuel(replaced_front, 2);
    assert(found.drop_last() =~= Seq::empty());
    assert(text.subrange(0, p) =~= a);
    assert(text.subrange(p, p + 1) =~= seq![before]);
    assert(text.subrange(p + 1, q) =~= level);
    assert(text.subrange(q, q + 1) =~= seq![behind]);
    assert(text.skip(q + 1) =~= b);
    assert(level_match(text, groups) == seq![before] + level_text(level) + seq![behind]);
    assert(replaced_front(text, found, by) =~= a + (seq![before] + level_text(level)
        + seq![behind]));
    assert(with_levels(text, found) == replaced(text, found, by));
    assert(a + (seq![before] + level_text(level) + seq![behind]) + b =~= a + seq![before]
        + level_text(level) + seq![behind] + b);
}

/// The columns of a line are grey, each as it is and in its place; a message without levels is grey
/// too.
pub proof fn columns_are_grey(a: Seq<char>, b: Seq<char>, c: Seq<char>, message: Seq<char>)
    requires
        !a.contains('|'),
        !b.contains('|'),
        !c.contains('|'),
    ensures
        line_colored(a + seq!['|'] + b + seq!['|'] + c + seq!['|'] + message) == grey(a) + seq!['|']
            + grey(b) + seq!['|'] + grey(c) + seq!['|'] + (if level_colored(message) == message {
            grey(message)
        } else {
            level_colored(message)
        }),
        level_colored(a) == a ==> line_colored(a) == grey(a),
{
    reveal_strlit("|");
    assert("|"@ =~= seq!['|']);
    let line = a + seq!['|'] + b + seq!['|'] + c + seq!['|'] + message;
    assert forall|k: int| 0 <= k < a.len() implies a[k] != '|' by {
        assert(a.contains(a[k]));
    }
    assert forall|k: int| 0 <= k < b.len() implies b[k] != '|' by {
        assert(b.contains(b[k]));
    }
    assert forall|k: int| 0 <= k < c.len() implies c[k] != '|' by {
        assert(c.contains(c[k]));
    }
    lemma_position_is(line, '|', a.len() as int);
    assert(line.take(a.len() as int) =~= a);
    let rest = line.skip(a.len() as int + 1);
    assert(rest =~= b + seq!['|'] + c + seq!['|'] + message);
    lemma_position_is(rest, '|', b.len() as int);
    assert(rest.take(b.len() as int) =~= b);
    let more = rest.skip(b.len() as int + 1);
    assert(more =~= c + seq!['|'] + message);
    lemma_position_is(more, '|', c.len() as int);
    assert(more.take(c.len() as int) =~= c);
    assert(more.skip(c.len() as int + 1) =~= message);
    lemma_position_is(a, '|', a.len() as int);
    reveal_with_fuel(splitn_spec, 5);
    assert(splitn_spec(line, 4, '|') =~= seq![a, b, c, message]);
    assert(splitn_spec(a, 4, '|') =~= seq![a]);
}

} // verus!
