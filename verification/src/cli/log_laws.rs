//! What holds of logs whatever they hold.

use vstd::multiset::Multiset;
use vstd::prelude::*;

use crate::cli::log_io::{
    cut, earliest, entries_of, fitting, generation_in_name, generations_in, growing, last_of,
    lemma_earliest, lemma_total_step, line_entry, merged, timestamp_part, total, with_number,
    LogEntryView, LogSourceView,
};
use crate::logging::{event_text, line_spec, stream_label, LogEventView, LogStream};
use crate::numbers::{decimal_round_trip, decimal_spec};
use crate::parts::{
    lemma_lines_concat, lemma_position_is, lines_spec, pad_end_spec, repeat_spec, splitn_spec,
    without_return,
};
use crate::paths::{log_file_name_spec, sanitize_spec};
use crate::text::{is_white, trim_end_spec, trim_spec, trim_start_spec};
use crate::time::{before, parsed_instant, rfc3339_instant, Instant};

verus! {

// ---------------------------------------------------------------------------
// Merging
// ---------------------------------------------------------------------------

/// All entries of all sources.
pub open spec fn pool(sets: Seq<Seq<LogEntryView>>) -> Multiset<LogEntryView>
    decreases sets.len(),
{
    if sets.len() == 0 {
        Multiset::empty()
    } else {
        pool(sets.drop_last()).add(sets.last().to_multiset())
    }
}

proof fn lemma_first_apart(list: Seq<LogEntryView>)
    requires
        list.len() > 0,
    ensures
        list.to_multiset() == list.drop_first().to_multiset().insert(list[0]),
{
    list.to_multiset_ensures();
    assert(list.remove(0) =~= list.drop_first());
    assert(list.contains(list[0]));
    assert(list.to_multiset().count(list[0]) > 0);
    assert(list.to_multiset() =~= list.to_multiset().remove(list[0]).insert(list[0]));
}

proof fn lemma_pool_step(sets: Seq<Seq<LogEntryView>>, i: int)
    requires
        0 <= i < sets.len(),
        sets[i].len() > 0,
    ensures
        pool(sets) == pool(sets.update(i, sets[i].drop_first())).insert(sets[i][0]),
    decreases sets.len(),
{
    let next = sets.update(i, sets[i].drop_first());
    if i == sets.len() - 1 {
        assert(next.drop_last() =~= sets.drop_last());
        lemma_first_apart(sets[i]);
        assert(pool(sets) =~= pool(next).insert(sets[i][0]));
    } else {
        lemma_pool_step(sets.drop_last(), i);
        assert(next.drop_last() =~= sets.drop_last().update(i, sets.drop_last()[i].drop_first()));
        assert(pool(sets) =~= pool(next).insert(sets[i][0]));
    }
}

proof fn lemma_pool_empty(sets: Seq<Seq<LogEntryView>>)
    requires
        forall|k: int| 0 <= k < sets.len() ==> sets[k].len() == 0,
    ensures
        pool(sets) == Multiset::<LogEntryView>::empty(),
    decreases sets.len(),
{
    if sets.len() > 0 {
        lemma_pool_empty(sets.drop_last());
        sets.last().to_multiset_ensures();
        assert(sets.last().to_multiset().len() == 0);
        assert(pool(sets) =~= Multiset::<LogEntryView>::empty());
    }
}

/// Merging loses no entry and makes none up.
pub proof fn merging_keeps_every_entry(sets: Seq<Seq<LogEntryView>>)
    ensures
        merged(sets).to_multiset() == pool(sets),
    decreases total(sets),
{
    lemma_earliest(sets);
    match earliest(sets) {
        Some(i) => {
            let next = sets.update(i, sets[i].drop_first());
            lemma_total_step(sets, i);
            lemma_pool_step(sets, i);
            merging_keeps_every_entry(next);
            lemma_first_apart(merged(sets));
            assert(merged(sets).drop_first() =~= merged(next));
        },
        None => {
            lemma_pool_empty(sets);
            merged(sets).to_multiset_ensures();
            assert(merged(sets).to_multiset() =~= Multiset::<LogEntryView>::empty());
        },
    }
}

/// Whether the entries of `part` stand in `whole`, in the same order.
pub open spec fn embeds(part: Seq<LogEntryView>, whole: Seq<LogEntryView>) -> bool
    decreases whole.len(),
{
    if part.len() == 0 {
        true
    } else if whole.len() == 0 {
        false
    } else {
        (part[0] == whole[0] && embeds(part.drop_first(), whole.drop_first())) || embeds(
            part,
            whole.drop_first(),
        )
    }
}

/// Merging keeps the order of the entries of each source.
pub proof fn merging_keeps_the_order_of_a_source(sets: Seq<Seq<LogEntryView>>, k: int)
    requires
        0 <= k < sets.len(),
    ensures
        embeds(sets[k], merged(sets)),
    decreases total(sets),
{
    lemma_earliest(sets);
    if sets[k].len() > 0 {
        let i = earliest(sets)->0;
        let next = sets.update(i, sets[i].drop_first());
        lemma_total_step(sets, i);
        merging_keeps_the_order_of_a_source(next, k);
        assert(merged(sets).drop_first() =~= merged(next));
    }
}

/// Whether no entry of a list lies before the one that it follows.
pub open spec fn in_time_order(list: Seq<LogEntryView>) -> bool {
    forall|a: int, b: int|
        0 <= a <= b < list.len() ==> !before(
            (#[trigger] list[b]).timestamp,
            (#[trigger] list[a]).timestamp,
        )
}

/// Whether no entry of the sources lies before a time.
spec fn none_before(sets: Seq<Seq<LogEntryView>>, time: Instant) -> bool {
    forall|k: int, a: int|
        0 <= k < sets.len() && 0 <= a < sets[k].len() ==> !before(
            (#[trigger] sets[k][a]).timestamp,
            time,
        )
}

proof fn lemma_merged_not_before(sets: Seq<Seq<LogEntryView>>, time: Instant)
    requires
        none_before(sets, time),
    ensures
        forall|a: int|
            0 <= a < merged(sets).len() ==> !before(
                (#[trigger] merged(sets)[a]).timestamp,
                time,
            ),
    decreases total(sets),
{
    lemma_earliest(sets);
    if let Some(i) = earliest(sets) {
        let next = sets.update(i, sets[i].drop_first());
        lemma_total_step(sets, i);
        assert forall|k: int, a: int| 0 <= k < next.len() && 0 <= a < next[k].len() implies !before(
            (#[trigger] next[k][a]).timestamp,
            time,
        ) by {
            if k == i {
                assert(next[k][a] == sets[k][a + 1]);
            } else {
                assert(next[k][a] == sets[k][a]);
            }
        }
        lemma_merged_not_before(next, time);
        assert forall|a: int| 0 <= a < merged(sets).len() implies !before(
            (#[trigger] merged(sets)[a]).timestamp,
            time,
        ) by {
            if a == 0 {
                assert(merged(sets)[0] == sets[i][0]);
            } else {
                assert(merged(sets)[a] == merged(next)[a - 1]);
            }
        }
    }
}

/// Where each source is in time order, so is what they are merged to.
pub proof fn merging_keeps_time_order(sets: Seq<Seq<LogEntryView>>)
    requires
        forall|k: int| 0 <= k < sets.len() ==> in_time_order(#[trigger] sets[k]),
    ensures
        in_time_order(merged(sets)),
    decreases total(sets),
{
    lemma_earliest(sets);
    if let Some(i) = earliest(sets) {
        let next = sets.update(i, sets[i].drop_first());
        lemma_total_step(sets, i);
        assert forall|k: int| 0 <= k < next.len() implies in_time_order(#[trigger] next[k]) by {
            assert(in_time_order(sets[k]));
            if k == i {
                assert forall|a: int, b: int| 0 <= a <= b < next[k].len() implies !before(
                    (#[trigger] next[k][b]).timestamp,
                    (#[trigger] next[k][a]).timestamp,
                ) by {
                    assert(next[k][a] == sets[k][a + 1]);
                    assert(next[k][b] == sets[k][b + 1]);
                }
            }
        }
        merging_keeps_time_order(next);
        let time = sets[i][0].timestamp;
        assert forall|k: int, a: int| 0 <= k < sets.len() && 0 <= a < sets[k].len() implies !before(
            (#[trigger] sets[k][a]).timestamp,
            time,
        ) by {
            assert(in_time_order(sets[k]));
            assert(!before(sets[k][0].timestamp, time));
            assert(!before(sets[k][a].timestamp, sets[k][0].timestamp));
        }
        lemma_merged_not_before(sets, time);
        assert forall|a: int, b: int| 0 <= a <= b < merged(sets).len() implies !before(
            (#[trigger] merged(sets)[b]).timestamp,
            (#[trigger] merged(sets)[a]).timestamp,
        ) by {
            if a == 0 {
                assert(merged(sets)[0] == sets[i][0]);
            } else {
                assert(merged(sets)[a] == merged(next)[a - 1]);
                assert(merged(sets)[b] == merged(next)[b - 1]);
            }
        }
    }
}

// ---------------------------------------------------------------------------
// Choosing and cutting
// ---------------------------------------------------------------------------

/// What is shown of the end of a list is its end: as many entries as are asked for, or all.
pub proof fn last_entries_are_the_end(list: Seq<LogEntryView>, count: nat)
    ensures
        last_of(list, count).is_suffix_of(list),
        last_of(list, count).len() == (if count < list.len() {
            count
        } else {
            list.len()
        }),
{
    assert(last_of(list, count) =~= list.subrange(
        list.len() - last_of(list, count).len(),
        list.len() as int,
    ));
}

/// The columns of some characters side by side.
pub open spec fn columns_sum(widths: Seq<usize>) -> int
    decreases widths.len(),
{
    if widths.len() == 0 {
        0
    } else {
        widths[0] + columns_sum(widths.drop_first())
    }
}

proof fn lemma_fitting(widths: Seq<usize>, limit: int)
    requires
        limit >= 0,
    ensures
        fitting(widths, limit) <= widths.len(),
        columns_sum(widths.take(fitting(widths, limit) as int)) <= limit,
        fitting(widths, limit) < widths.len() ==> columns_sum(
            widths.take(fitting(widths, limit) as int + 1),
        ) > limit,
    decreases widths.len(),
{
    let n = fitting(widths, limit) as int;
    if widths.len() > 0 {
        if widths[0] <= limit {
            lemma_fitting(widths.drop_first(), limit - widths[0]);
            assert(widths.take(n).drop_first() =~= widths.drop_first().take(n - 1));
            if n < widths.len() {
                assert(widths.take(n + 1).drop_first() =~= widths.drop_first().take(n));
            }
        } else {
            assert(columns_sum(widths.take(0)) == 0);
            assert(widths.take(1).drop_first() =~= Seq::empty());
            assert(columns_sum(widths.take(1).drop_first()) == 0);
        }
    }
}

/// A line that is too wide is cut to its longest beginning whose characters fit side by side.
pub proof fn cut_line_fits(line: Seq<char>, limit: usize, width: usize, widths: Seq<usize>)
    requires
        width > limit,
        limit > 0,
        widths.len() == line.len(),
    ensures
        cut(line, Some(limit), width, widths).is_prefix_of(line),
        columns_sum(widths.take(cut(line, Some(limit), width, widths).len() as int)) <= limit,
        cut(line, Some(limit), width, widths) != line ==> columns_sum(
            widths.take(cut(line, Some(limit), width, widths).len() as int + 1),
        ) > limit,
{
    lemma_fitting(widths, limit as int);
    let n = fitting(widths, limit as int) as int;
    if n == line.len() {
        assert(line.take(n) =~= line);
    }
}

// ---------------------------------------------------------------------------
// Generations
// ---------------------------------------------------------------------------

/// The generation of a log is read from the name that the log was given.
pub proof fn generation_is_read_from_log_name(target: Seq<char>, generation: u64)
    ensures
        generation_in_name(target, log_file_name_spec(target, generation as nat)) == Some(
            generation,
        ),
{
    reveal_strlit(".");
    reveal_strlit(".log");
    let name = log_file_name_spec(target, generation as nat);
    let prefix = sanitize_spec(target) + "."@;
    let number = decimal_spec(generation as nat);
    assert(name.take(prefix.len() as int) =~= prefix);
    assert(".log"@ =~= seq!['.', 'l', 'o', 'g']);
    assert(name.subrange(name.len() - 4, name.len() as int) =~= ".log"@);
    assert(name.subrange(prefix.len() as int, name.len() - 4) =~= number);
    decimal_round_trip(generation as nat, u64::MAX as nat);
}

proof fn lemma_with_number(list: Seq<u64>, n: u64)
    requires
        growing(list),
    ensures
        growing(with_number(list, n)),
        forall|m: u64|
            #[trigger] with_number(list, n).contains(m) <==> list.contains(m) || m == n,
    decreases list.len(),
{
    let more = with_number(list, n);
    if list.len() == 0 || list.last() < n {
        assert forall|i: int, k: int| 0 <= i < k < more.len() implies more[i] < more[k] by {
            if k == list.len() {
                assert(list[i] <= list.last());
            }
        }
        assert forall|m: u64| more.contains(m) <==> list.contains(m) || m == n by {
            if list.contains(m) {
                let i = choose|i: int| 0 <= i < list.len() && list[i] == m;
                assert(more[i] == m);
            }
            assert(more[list.len() as int] == n);
        }
    } else if list.last() > n {
        let front = list.drop_last();
        lemma_with_number(front, n);
        let rest = with_number(front, n);
        assert(more == rest.push(list.last()));
        assert forall|i: int, k: int| 0 <= i < k < more.len() implies more[i] < more[k] by {
            if k == rest.len() {
                assert(rest.contains(rest[i]));
                if front.contains(rest[i]) {
                    let j = choose|j: int| 0 <= j < front.len() && front[j] == rest[i];
                    assert(list[j] < list[list.len() - 1]);
                }
            }
        }
        assert forall|m: u64| more.contains(m) <==> list.contains(m) || m == n by {
            if more.contains(m) {
                let i = choose|i: int| 0 <= i < more.len() && more[i] == m;
                if i < rest.len() {
                    assert(rest.contains(rest[i]));
                    if front.contains(m) {
                        let j = choose|j: int| 0 <= j < front.len() && front[j] == m;
                        assert(list[j] == m);
                    }
                } else {
                    assert(list[list.len() - 1] == m);
                }
            }
            if list.contains(m) {
                let i = choose|i: int| 0 <= i < list.len() && list[i] == m;
                if i < front.len() {
                    assert(front[i] == m);
                    assert(rest.contains(m));
                    let j = choose|j: int| 0 <= j < rest.len() && rest[j] == m;
                    assert(more[j] == m);
                } else {
                    assert(more[rest.len() as int] == m);
                }
            }
            if m == n {
                assert(rest.contains(n));
                let j = choose|j: int| 0 <= j < rest.len() && rest[j] == n;
                assert(more[j] == n);
            }
        }
    } else {
        assert(list[list.len() - 1] == n);
    }
}

/// The generations of a target are listed from the lowest and each once, and are those that the
/// names of the files tell.
pub proof fn generations_are_listed_in_order(target: Seq<char>, names: Seq<Seq<char>>)
    ensures
        growing(generations_in(target, names)),
        forall|n: u64|
            #[trigger] generations_in(target, names).contains(n) <==> exists|i: int|
                0 <= i < names.len() && #[trigger] generation_in_name(target, names[i]) == Some(n),
    decreases names.len(),
{
    if names.len() > 0 {
        let front = names.drop_last();
        generations_are_listed_in_order(target, front);
        let found = generation_in_name(target, names.last());
        let some = generations_in(target, front);
        if found is Some {
            lemma_with_number(some, found->0);
        }
        assert forall|n: u64|
            #[trigger] generations_in(target, names).contains(n) <==> exists|i: int|
                0 <= i < names.len() && #[trigger] generation_in_name(target, names[i]) == Some(
                    n,
                ) by {
            assert(some.contains(n) <==> exists|i: int|
                0 <= i < front.len() && #[trigger] generation_in_name(target, front[i]) == Some(n));
            assert(generations_in(target, names).contains(n) <==> some.contains(n) || found == Some(
                n,
            ));
            if generations_in(target, names).contains(n) {
                if generations_in(target, front).contains(n) {
                    let i = choose|i: int|
                        0 <= i < front.len() && #[trigger] generation_in_name(target, front[i])
                            == Some(n);
                    assert(generation_in_name(target, names[i]) == Some(n));
                } else {
                    assert(generation_in_name(target, names[names.len() - 1]) == Some(n));
                }
            }
            if exists|i: int|
                0 <= i < names.len() && #[trigger] generation_in_name(target, names[i]) == Some(n) {
                let i = choose|i: int|
                    0 <= i < names.len() && #[trigger] generation_in_name(target, names[i]) == Some(
                        n,
                    );
                if i < front.len() {
                    assert(generation_in_name(target, front[i]) == Some(n));
                }
            }
        }
    }
}

// ---------------------------------------------------------------------------
// Writing and reading
// ---------------------------------------------------------------------------

proof fn lemma_trim_start_white(s: Seq<char>, n: int)
    requires
        0 <= n <= s.len(),
        forall|i: int| 0 <= i < n ==> is_white(#[trigger] s[i]),
    ensures
        trim_start_spec(s) == trim_start_spec(s.skip(n)),
    decreases n,
{
    if n == 0 {
        assert(s.skip(0) =~= s);
    } else {
        lemma_trim_start_white(s.drop_first(), n - 1);
        assert(s.drop_first().skip(n - 1) =~= s.skip(n));
    }
}

proof fn lemma_trim_end_white(s: Seq<char>, n: int)
    requires
        0 <= n <= s.len(),
        forall|i: int| n <= i < s.len() ==> is_white(#[trigger] s[i]),
    ensures
        trim_end_spec(s) == trim_end_spec(s.take(n)),
    decreases s.len() - n,
{
    if n == s.len() {
        assert(s.take(n) =~= s);
    } else {
        lemma_trim_end_white(s.drop_last(), n);
        assert(s.drop_last().take(n) =~= s.take(n));
    }
}

/// White space around a text that neither starts nor ends with white space is trimmed away.
pub proof fn lemma_trim_around(a: Seq<char>, s: Seq<char>, b: Seq<char>)
    requires
        forall|i: int| 0 <= i < a.len() ==> is_white(#[trigger] a[i]),
        forall|i: int| 0 <= i < b.len() ==> is_white(#[trigger] b[i]),
        s.len() > 0,
        !is_white(s[0]),
        !is_white(s.last()),
    ensures
        trim_spec(a + s + b) == s,
{
    let whole = a + s + b;
    let n = a.len() as int;
    lemma_trim_start_white(whole, n);
    let rest = whole.skip(n);
    assert(rest =~= s + b);
    assert(rest[0] == s[0]);
    assert forall|i: int| s.len() <= i < rest.len() implies is_white(#[trigger] rest[i]) by {
        assert(rest[i] == b[i - s.len()]);
    }
    lemma_trim_end_white(rest, s.len() as int);
    assert(rest.take(s.len() as int) =~= s);
}

/// White space at the end of a text is trimmed away with the rest.
pub proof fn lemma_trim_last(s: Seq<char>)
    requires
        s.len() > 0,
        is_white(s.last()),
    ensures
        trim_spec(s.drop_last()) == trim_spec(s),
    decreases s.len(),
{
    if is_white(s[0]) {
        if s.len() > 1 {
            lemma_trim_last(s.drop_first());
            assert(s.drop_first().drop_last() =~= s.drop_last().drop_first());
        } else {
            assert(s.drop_first() =~= s.drop_last());
        }
    }
}

proof fn lemma_label(stream: LogStream)
    ensures
        0 < stream_label(stream).len() <= 7,
        !is_white(stream_label(stream)[0]),
        !is_white(stream_label(stream).last()),
        forall|i: int|
            0 <= i < stream_label(stream).len() ==> (#[trigger] stream_label(stream)[i]) != '|',
{
    reveal_strlit("STARTED");
    reveal_strlit("STDOUT");
    reveal_strlit("STDERR");
    reveal_strlit("STDLOG");
    reveal_strlit("STDIN");
    reveal_strlit("EXITED");
}

/// What the line of an event holds, without its line feed: three parts between bars.
proof fn lemma_line_parts(event: LogEventView, timestamp: Seq<char>)
    requires
        !timestamp.contains('|'),
    ensures
        splitn_spec(line_spec(event, timestamp).drop_last(), 3, '|') == seq![
            timestamp + " "@,
            " "@ + pad_end_spec(stream_label(event.stream), 7) + " "@,
            " "@ + event_text(event),
        ],
{
    reveal_strlit(" | ");
    reveal_strlit(" ");
    reveal_strlit("\n");
    reveal_with_fuel(splitn_spec, 4);
    lemma_label(event.stream);
    let label = pad_end_spec(stream_label(event.stream), 7);
    let text = event_text(event);
    let line = line_spec(event, timestamp).drop_last();
    let a = timestamp.len() as int;
    assert(line =~= timestamp + " | "@ + label + " | "@ + text);
    assert forall|k: int| 0 <= k < a + 1 implies line[k] != '|' by {
        if k < a {
            assert(line[k] == timestamp[k]);
            assert(timestamp.contains(timestamp[k]));
        } else {
            assert(line[k] == " | "@[0]);
        }
    }
    assert(line[a + 1] == " | "@[1]);
    lemma_position_is(line, '|', a + 1);
    assert(line.take(a + 1) =~= timestamp + " "@);
    let rest = line.skip(a + 2);
    let b = label.len() as int;
    assert(rest =~= " "@ + label + " | "@ + text);
    assert forall|k: int| 0 <= k < b + 2 implies rest[k] != '|' by {
        if k == 0 {
            assert(rest[k] == " "@[0]);
        } else if k <= b {
            assert(rest[k] == label[k - 1]);
            if k - 1 < stream_label(event.stream).len() {
                assert(label[k - 1] == stream_label(event.stream)[k - 1]);
            } else {
                assert(label[k - 1] == ' ');
            }
        } else {
            assert(rest[k] == " | "@[0]);
        }
    }
    assert(rest[b + 2] == " | "@[1]);
    lemma_position_is(rest, '|', b + 2);
    assert(rest.take(b + 2) =~= " "@ + label + " "@);
    assert(rest.skip(b + 3) =~= " "@ + text);
    assert(splitn_spec(rest.skip(b + 3), 1, '|') =~= seq![" "@ + text]);
    assert(splitn_spec(rest, 2, '|') =~= seq![" "@ + label + " "@, " "@ + text]);
    assert(splitn_spec(line, 3, '|') =~= seq![
        timestamp + " "@,
        " "@ + label + " "@,
        " "@ + text,
    ]);
}

/// What is written for an event is read back as one entry with the same time, stream and message,
/// the message trimmed and on one line. The time is a text on one line, without bars and without
/// white space at its ends.
pub proof fn written_event_is_read_back(
    source: LogSourceView,
    event: LogEventView,
    timestamp: Seq<char>,
)
    requires
        !timestamp.contains('|'),
        !timestamp.contains('\n'),
        trim_spec(timestamp) == timestamp,
        parsed_instant(rfc3339_instant(timestamp)) is Some,
    ensures
        entries_of(source, lines_spec(line_spec(event, timestamp))) == seq![
            LogEntryView {
                timestamp: parsed_instant(rfc3339_instant(timestamp))->0,
                target: source.target,
                generation: source.generation,
                stream: stream_label(event.stream),
                message: trim_spec(event_text(event)),
            },
        ],
{
    let whole = line_spec(event, timestamp);
    let line = whole.drop_last();
    let label = stream_label(event.stream);
    let text = event_text(event);
    reveal_strlit("\n");
    reveal_strlit(" ");
    reveal_strlit(" | ");
    lemma_label(event.stream);
    lemma_line_parts(event, timestamp);
    crate::logging::event_is_one_line(event, timestamp);
    assert forall|k: int| 0 <= k < line.len() implies whole[k] != '\n' by {
        assert(line[k] == whole[k]);
        assert(line.contains(line[k]));
    }
    lemma_position_is(whole, '\n', line.len() as int);
    assert(whole.take(line.len() as int) =~= line);
    assert(whole.skip(line.len() as int + 1) =~= Seq::empty());
    assert(lines_spec(Seq::<char>::empty()) =~= Seq::empty());
    assert(without_return(line) == line) by {
        let front = timestamp + " | "@ + pad_end_spec(label, 7) + " | "@;
        assert(line =~= front + text);
        if text.len() > 0 {
            assert(line.last() == text.last());
            assert(text.last() != '\r');
        } else {
            assert(line.last() == " | "@[2]);
        }
    }
    assert(lines_spec(whole) =~= seq![line]);
    let parts = splitn_spec(line, 3, '|');
    lemma_trim_last(parts[0]);
    assert(parts[0].drop_last() =~= timestamp);
    assert(timestamp_part(line) == timestamp);
    let padding = repeat_spec(' ', (7 - label.len()) as nat) + " "@;
    assert(parts[1] =~= " "@ + label + padding);
    lemma_trim_around(" "@, label, padding);
    lemma_trim_start_white(parts[2], 1);
    assert(parts[2].skip(1) =~= text);
    assert(seq![line].drop_last() =~= Seq::empty());
    assert(entries_of(source, Seq::empty()) =~= Seq::empty());
    let entry = LogEntryView {
        timestamp: parsed_instant(rfc3339_instant(timestamp))->0,
        target: source.target,
        generation: source.generation,
        stream: label,
        message: trim_spec(text),
    };
    assert(line_entry(source, line) == Some(entry));
    assert(entries_of(source, seq![line]) =~= seq![entry]);
}

proof fn lemma_entries_concat(source: LogSourceView, a: Seq<Seq<char>>, b: Seq<Seq<char>>)
    ensures
        entries_of(source, a + b) == entries_of(source, a) + entries_of(source, b),
    decreases b.len(),
{
    if b.len() == 0 {
        assert(a + b =~= a);
        assert(entries_of(source, a) + entries_of(source, b) =~= entries_of(source, a));
    } else {
        assert((a + b).drop_last() =~= a + b.drop_last());
        lemma_entries_concat(source, a, b.drop_last());
        assert(entries_of(source, a + b) =~= entries_of(source, a) + entries_of(source, b));
    }
}

/// Reading a log piece by piece gives what reading it at once gives, where each piece ends with
/// the end of a line.
pub proof fn reading_in_pieces_misses_nothing(source: LogSourceView, a: Seq<char>, b: Seq<char>)
    requires
        a.len() > 0 ==> a.last() == '\n',
    ensures
        entries_of(source, lines_spec(a + b)) == entries_of(source, lines_spec(a)) + entries_of(
            source,
            lines_spec(b),
        ),
{
    lemma_lines_concat(a, b);
    lemma_entries_concat(source, lines_spec(a), lines_spec(b));
}

/// Of entries of the same time that of the source that comes first is shown first.
pub proof fn first_source_leads_at_equal_times(sets: Seq<Seq<LogEntryView>>, i: int)
    requires
        0 <= i < sets.len(),
        sets[i].len() > 0,
        forall|j: int|
            0 <= j < i && (#[trigger] sets[j]).len() > 0 ==> before(
                sets[i][0].timestamp,
                sets[j][0].timestamp,
            ),
        forall|j: int|
            i < j < sets.len() && (#[trigger] sets[j]).len() > 0 ==> !before(
                sets[j][0].timestamp,
                sets[i][0].timestamp,
            ),
    ensures
        merged(sets).len() > 0,
        merged(sets)[0] == sets[i][0],
{
    lemma_earliest_is(sets, i);
}

proof fn lemma_earliest_is(sets: Seq<Seq<LogEntryView>>, i: int)
    requires
        0 <= i < sets.len(),
        sets[i].len() > 0,
        forall|j: int|
            0 <= j < i && (#[trigger] sets[j]).len() > 0 ==> before(
                sets[i][0].timestamp,
                sets[j][0].timestamp,
            ),
        forall|j: int|
            i < j < sets.len() && (#[trigger] sets[j]).len() > 0 ==> !before(
                sets[j][0].timestamp,
                sets[i][0].timestamp,
            ),
    ensures
        earliest(sets) == Some(i),
    decreases sets.len(),
{
    let front = sets.drop_last();
    assert forall|j: int| 0 <= j < front.len() implies #[trigger] front[j] == sets[j] by {}
    if i < front.len() {
        assert(front[i] == sets[i]);
        lemma_earliest_is(front, i);
        assert(sets[sets.len() - 1] == sets.last());
    } else {
        lemma_earliest(front);
        if let Some(k) = earliest(front) {
            assert(front[k] == sets[k]);
        }
    }
}

} // verus!
