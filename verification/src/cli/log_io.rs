//! Reading the logs of targets back: entries, their order, and how they are shown.

use vstd::prelude::*;

use crate::names::{listing, lookup, sorted_unique, NameMap};
use crate::numbers::{decimal, decimal_spec, parse, parse_spec};
use crate::parts::{
    lines, lines_spec, pad_end, pad_end_spec, pad_start, pad_start_spec, splitn, splitn_spec,
};
use crate::paths::{log_file_path, log_file_path_spec, sanitize_spec, sanitize_target_name};
use crate::text::{
    chars_of, contains, ends_with, lowercase, occurs_in, same, starts_with, string_of,
    to_ascii_lowercase, trim, trim_spec,
};
use crate::time::{before, parsed_instant, rfc3339_instant, rfc3339_millis_text, Instant, Timestamp};
use crate::views::Duplicate;

verus! {

/// One log file: that of a generation of a target.
#[derive(Debug, PartialEq, Eq)]
pub struct LogSource {
    pub target: String,
    pub generation: u64,
}

/// What a [`LogSource`] stands for.
pub struct LogSourceView {
    pub target: Seq<char>,
    pub generation: u64,
}

impl DeepView for LogSource {
    type V = LogSourceView;

    open spec fn deep_view(&self) -> LogSourceView {
        LogSourceView {
            target: self.target.deep_view(),
            generation: self.generation,
        }
    }
}

impl Duplicate for LogSource {
    fn duplicate(&self) -> (copy: Self) {
        LogSource {
            target: self.target.duplicate(),
            generation: self.generation,
        }
    }
}

/// One line of a log.
#[derive(Debug, PartialEq, Eq)]
pub struct LogEntry {
    pub timestamp: Timestamp,
    pub target: String,
    pub generation: u64,
    pub stream: String,
    pub message: String,
}

/// What a [`LogEntry`] stands for.
pub struct LogEntryView {
    pub timestamp: Instant,
    pub target: Seq<char>,
    pub generation: u64,
    pub stream: Seq<char>,
    pub message: Seq<char>,
}

impl DeepView for LogEntry {
    type V = LogEntryView;

    open spec fn deep_view(&self) -> LogEntryView {
        LogEntryView {
            timestamp: self.timestamp.deep_view(),
            target: self.target.deep_view(),
            generation: self.generation,
            stream: self.stream.deep_view(),
            message: self.message.deep_view(),
        }
    }
}

impl Duplicate for LogEntry {
    fn duplicate(&self) -> (copy: Self) {
        LogEntry {
            timestamp: self.timestamp.duplicate(),
            target: self.target.duplicate(),
            generation: self.generation,
            stream: self.stream.duplicate(),
            message: self.message.duplicate(),
        }
    }
}

impl LogSource {
    /// The log of a generation of a target.
    pub fn new(target: &str, generation: u64) -> (r: Self)
        ensures
            r.deep_view() == (LogSourceView { target: target@, generation }),
    {
        LogSource { target: target.to_owned(), generation }
    }

    /// Where the log is kept.
    pub fn path(&self) -> (r: String)
        ensures
            r@ == log_file_path_spec(self.deep_view().target, self.deep_view().generation as nat),
    {
        log_file_path(self.target.as_str(), self.generation)
    }
}

// ---------------------------------------------------------------------------
// Entries
// ---------------------------------------------------------------------------

/// Where a line tells its time: before the first `|`.
pub open spec fn timestamp_part(line: Seq<char>) -> Seq<char> {
    trim_spec(splitn_spec(line, 3, '|')[0])
}

/// The entry that a line of a log holds, given the time that stands in it. It holds none where it
/// has no `|` or no time.
pub open spec fn entry_of(
    source: LogSourceView,
    line: Seq<char>,
    time: Option<Instant>,
) -> Option<LogEntryView> {
    let parts = splitn_spec(line, 3, '|');
    if parts.len() < 2 || time is None {
        None
    } else {
        Some(
            LogEntryView {
                timestamp: time->0,
                target: source.target,
                generation: source.generation,
                stream: trim_spec(parts[1]),
                message: if parts.len() > 2 {
                    trim_spec(parts[2])
                } else {
                    Seq::empty()
                },
            },
        )
    }
}

/// The entry that a line of a log holds.
pub open spec fn line_entry(source: LogSourceView, line: Seq<char>) -> Option<LogEntryView> {
    entry_of(source, line, parsed_instant(rfc3339_instant(timestamp_part(line))))
}

/// The entry that `line` holds, given the time that stands in it.
pub fn entry_with_time(source: &LogSource, line: &str, time: Option<Timestamp>) -> (r: Option<
    LogEntry,
>)
    ensures
        r.deep_view() == entry_of(source.deep_view(), line@, time.deep_view()),
{
    let parts: Vec<String> = splitn(line, 3, '|');
    let ghost list = parts.deep_view();
    if parts.len() < 2 {
        return None;
    }
    match time {
        Some(timestamp) => {
            let stream: String = trim(parts[1].as_str());
            let message: String = if parts.len() > 2 {
                assert(parts[2]@ == list[2]);
                trim(parts[2].as_str())
            } else {
                String::new()
            };
            assert(parts[1]@ == list[1]);
            assert(message@ =~= entry_of(
                source.deep_view(),
                line@,
                time.deep_view(),
            )->0.message);
            Some(
                LogEntry {
                    timestamp,
                    target: source.target.clone(),
                    generation: source.generation,
                    stream,
                    message,
                },
            )
        },
        None => None,
    }
}

/// The entry that `line` of the log holds.
pub fn parse_log_line(source: &LogSource, line: &str) -> (r: Option<LogEntry>)
    ensures
        r.deep_view() == line_entry(source.deep_view(), line@),
{
    let parts: Vec<String> = splitn(line, 3, '|');
    let ghost list = parts.deep_view();
    if parts.len() == 0 {
        return None;
    }
    assert(parts[0]@ == list[0]);
    let time: Option<Timestamp> = Timestamp::parse(trim(parts[0].as_str()).as_str());
    entry_with_time(source, line, time)
}

/// The entries that some lines hold, in order; lines that hold none are passed over.
pub open spec fn entries_of(source: LogSourceView, list: Seq<Seq<char>>) -> Seq<LogEntryView>
    decreases list.len(),
{
    if list.len() == 0 {
        Seq::empty()
    } else {
        match line_entry(source, list.last()) {
            Some(entry) => entries_of(source, list.drop_last()).push(entry),
            None => entries_of(source, list.drop_last()),
        }
    }
}

/// The entries of a log with the given contents.
pub fn read_entries(source: &LogSource, contents: &str) -> (r: Vec<LogEntry>)
    ensures
        r.deep_view() == entries_of(source.deep_view(), lines_spec(contents@)),
{
    let text: Vec<String> = lines(contents);
    let ghost list = text.deep_view();
    let mut r: Vec<LogEntry> = Vec::new();
    let mut i: usize = 0;
    assert(list.take(0) =~= Seq::empty());
    assert(r.deep_view() =~= Seq::empty());
    while i < text.len()
        invariant
            i <= text@.len(),
            list == text.deep_view(),
            r.deep_view() == entries_of(source.deep_view(), list.take(i as int)),
        decreases text@.len() - i,
    {
        assert(list.take(i + 1).drop_last() =~= list.take(i as int));
        assert(text[i as int]@ == list[i as int]);
        let ghost before = r.deep_view();
        if let Some(entry) = parse_log_line(source, text[i].as_str()) {
            r.push(entry);
            assert(r.deep_view() =~= before.push(entry.deep_view()));
        }
        i = i + 1;
    }
    assert(list.take(i as int) =~= list);
    r
}

/// How an entry is shown.
pub open spec fn entry_text(entry: LogEntryView) -> Seq<char> {
    rfc3339_millis_text(entry.timestamp.secs, entry.timestamp.nanos) + " | "@ + pad_end_spec(
        entry.target,
        18,
    ) + " | "@ + pad_start_spec(decimal_spec(entry.generation as nat), 5) + " | "@ + pad_end_spec(
        entry.stream,
        7,
    ) + " | "@ + entry.message
}

/// The entry as it is shown.
pub fn format_entry(entry: &LogEntry) -> (r: String)
    ensures
        r@ == entry_text(entry.deep_view()),
{
    let mut r: String = entry.timestamp.rfc3339_millis();
    r.append(" | ");
    r.append(pad_end(entry.target.as_str(), 18).as_str());
    r.append(" | ");
    r.append(pad_start(decimal(entry.generation).as_str(), 5).as_str());
    r.append(" | ");
    r.append(pad_end(entry.stream.as_str(), 7).as_str());
    r.append(" | ");
    r.append(entry.message.as_str());
    r
}

// ---------------------------------------------------------------------------
// Merging
// ---------------------------------------------------------------------------

/// The source whose first entry is the earliest; of equally early ones the first.
pub open spec fn earliest(sets: Seq<Seq<LogEntryView>>) -> Option<int>
    decreases sets.len(),
{
    if sets.len() == 0 {
        None
    } else {
        let found = earliest(sets.drop_last());
        let last = sets.last();
        if last.len() == 0 {
            found
        } else if found is Some && !before(last[0].timestamp, sets[found->0][0].timestamp) {
            found
        } else {
            Some(sets.len() - 1)
        }
    }
}

/// What `earliest` says of the source that it finds.
pub proof fn lemma_earliest(sets: Seq<Seq<LogEntryView>>)
    ensures
        earliest(sets) is None <==> forall|k: int| 0 <= k < sets.len() ==> sets[k].len() == 0,
        earliest(sets) matches Some(i) ==> 0 <= i < sets.len() && sets[i].len() > 0 && forall|k: int|
            0 <= k < sets.len() && sets[k].len() > 0 ==> !before(
                (#[trigger] sets[k])[0].timestamp,
                sets[i][0].timestamp,
            ),
    decreases sets.len(),
{
    if sets.len() > 0 {
        let front = sets.drop_last();
        lemma_earliest(front);
        assert(forall|k: int| 0 <= k < front.len() ==> front[k] == sets[k]);
        if earliest(sets) is None {
            assert forall|k: int| 0 <= k < sets.len() implies sets[k].len() == 0 by {
                if k < front.len() {
                    assert(front[k].len() == 0);
                }
            }
        } else {
            let i = earliest(sets)->0;
            assert forall|k: int| 0 <= k < sets.len() && sets[k].len() > 0 implies !before(
                (#[trigger] sets[k])[0].timestamp,
                sets[i][0].timestamp,
            ) by {
                if k < front.len() {
                    assert(front[k] == sets[k]);
                }
            }
        }
    }
}

/// How many entries all sources hold.
pub open spec fn total(sets: Seq<Seq<LogEntryView>>) -> nat
    decreases sets.len(),
{
    if sets.len() == 0 {
        0
    } else {
        total(sets.drop_last()) + sets.last().len()
    }
}

/// Taking the first entry of a source leaves one entry less.
pub proof fn lemma_total_step(sets: Seq<Seq<LogEntryView>>, i: int)
    requires
        0 <= i < sets.len(),
        sets[i].len() > 0,
    ensures
        total(sets.update(i, sets[i].drop_first())) + 1 == total(sets),
    decreases sets.len(),
{
    let next = sets.update(i, sets[i].drop_first());
    if i == sets.len() - 1 {
        assert(next.drop_last() =~= sets.drop_last());
    } else {
        lemma_total_step(sets.drop_last(), i);
        assert(next.drop_last() =~= sets.drop_last().update(i, sets.drop_last()[i].drop_first()));
    }
}

/// The entries of all sources: always the earliest of the first ones that are left.
pub open spec fn merged(sets: Seq<Seq<LogEntryView>>) -> Seq<LogEntryView>
    decreases total(sets),
{
    proof {
        lemma_earliest(sets);
        if earliest(sets) is Some {
            lemma_total_step(sets, earliest(sets)->0);
        }
    }
    match earliest(sets) {
        Some(i) => seq![sets[i][0]] + merged(sets.update(i, sets[i].drop_first())),
        None => Seq::empty(),
    }
}

/// What is left of the sources behind some positions.
spec fn behind(sets: Seq<Seq<LogEntryView>>, positions: Seq<usize>) -> Seq<Seq<LogEntryView>> {
    Seq::new(sets.len(), |k: int| sets[k].skip(positions[k] as int))
}

fn find_earliest(entry_sets: &Vec<Vec<LogEntry>>, positions: &Vec<usize>) -> (r: Option<usize>)
    requires
        positions@.len() == entry_sets@.len(),
        forall|k: int| 0 <= k < entry_sets@.len() ==> positions@[k] <= entry_sets@[k]@.len(),
    ensures
        (match r {
            Some(i) => Some(i as int),
            None => None,
        }) == earliest(behind(entry_sets.deep_view(), positions@)),
{
    let ghost rest = behind(entry_sets.deep_view(), positions@);
    let mut found: Option<usize> = None;
    let mut i: usize = 0;
    assert(rest.take(0) =~= Seq::empty());
    while i < entry_sets.len()
        invariant
            i <= entry_sets@.len(),
            positions@.len() == entry_sets@.len(),
            forall|k: int| 0 <= k < entry_sets@.len() ==> positions@[k] <= entry_sets@[k]@.len(),
            rest == behind(entry_sets.deep_view(), positions@),
            (match found {
                Some(k) => Some(k as int),
                None => None,
            }) == earliest(rest.take(i as int)),
        decreases entry_sets@.len() - i,
    {
        proof {
            lemma_earliest(rest.take(i as int));
            assert(rest.take(i + 1).drop_last() =~= rest.take(i as int));
            assert(rest.take(i + 1).last() == entry_sets.deep_view()[i as int].skip(
                positions@[i as int] as int,
            ));
            assert(entry_sets.deep_view()[i as int].len() == entry_sets@[i as int]@.len());
        }
        if positions[i] < entry_sets[i].len() {
            let time: &Timestamp = &entry_sets[i][positions[i]].timestamp;
            assert(rest[i as int][0].timestamp == time.deep_view());
            match found {
                Some(k) => {
                    proof {
                        assert(rest.take(i as int)[k as int] == rest[k as int]);
                        assert(rest[k as int].len() > 0);
                        assert(rest[k as int] == entry_sets.deep_view()[k as int].skip(
                            positions@[k as int] as int,
                        ));
                        assert(entry_sets.deep_view()[k as int].len() == entry_sets@[k as int]@.len());
                    }
                    let other: &Timestamp = &entry_sets[k][positions[k]].timestamp;
                    assert(rest[k as int][0].timestamp == other.deep_view());
                    if time.is_before(other) {
                        found = Some(i);
                    }
                },
                None => {
                    found = Some(i);
                },
            }
        }
        i = i + 1;
    }
    assert(rest.take(i as int) =~= rest);
    found
}

/// The entries of all sources in one list, by time. Entries of a source keep their order, and of
/// entries of the same time that of the earlier source comes first.
pub fn merge_entries(entry_sets: &Vec<Vec<LogEntry>>) -> (r: Vec<LogEntry>)
    ensures
        r.deep_view() == merged(entry_sets.deep_view()),
{
    let ghost sets = entry_sets.deep_view();
    let mut positions: Vec<usize> = Vec::new();
    let mut i: usize = 0;
    while i < entry_sets.len()
        invariant
            i <= entry_sets@.len(),
            positions@.len() == i,
            forall|k: int| 0 <= k < i ==> positions@[k] == 0,
        decreases entry_sets@.len() - i,
    {
        positions.push(0);
        i = i + 1;
    }
    let mut r: Vec<LogEntry> = Vec::new();
    assert(behind(sets, positions@) =~= sets) by {
        assert forall|k: int| 0 <= k < sets.len() implies behind(sets, positions@)[k]
            == sets[k] by {
            assert(sets[k].skip(0) =~= sets[k]);
        }
    }
    assert(r.deep_view() + merged(sets) =~= merged(sets));
    loop
        invariant
            sets == entry_sets.deep_view(),
            positions@.len() == entry_sets@.len(),
            forall|k: int| 0 <= k < entry_sets@.len() ==> positions@[k] <= entry_sets@[k]@.len(),
            r.deep_view() + merged(behind(sets, positions@)) == merged(sets),
        decreases total(behind(sets, positions@)),
    {
        let ghost rest = behind(sets, positions@);
        proof {
            lemma_earliest(rest);
        }
        match find_earliest(entry_sets, &positions) {
            Some(source) => {
                let position: usize = positions[source];
                let ghost gone = r.deep_view();
                proof {
                    assert(rest[source as int] == sets[source as int].skip(position as int));
                    assert(sets[source as int].len() == entry_sets@[source as int]@.len());
                }
                r.push(entry_sets[source][position].duplicate());
                let ghost first = rest[source as int][0];
                assert(r.deep_view() =~= gone.push(first));
                assert(position < entry_sets[source as int].len());
                positions.set(source, position + 1);
                proof {
                    let next = rest.update(source as int, rest[source as int].drop_first());
                    assert(behind(sets, positions@) =~= next) by {
                        assert(sets[source as int].skip(position + 1)
                            =~= rest[source as int].drop_first());
                    }
                    lemma_total_step(rest, source as int);
                    assert(gone + (seq![first] + merged(next)) =~= r.deep_view() + merged(next));
                }
            },
            None => {
                assert(r.deep_view() + merged(rest) =~= r.deep_view());
                return r;
            },
        }
    }
}

// ---------------------------------------------------------------------------
// Choosing and cutting
// ---------------------------------------------------------------------------

/// The last entries of a list, at most `count` of them.
pub open spec fn last_of<T>(list: Seq<T>, count: nat) -> Seq<T> {
    if list.len() <= count {
        list
    } else {
        list.skip(list.len() - count)
    }
}

/// The last entries of the list, at most `count` of them.
pub fn take_last(entries: Vec<LogEntry>, count: usize) -> (r: Vec<LogEntry>)
    ensures
        r.deep_view() == last_of(entries.deep_view(), count as nat),
{
    if entries.len() <= count {
        return entries;
    }
    let start: usize = entries.len() - count;
    let mut r: Vec<LogEntry> = Vec::new();
    let mut i: usize = start;
    let ghost list = entries.deep_view();
    assert(r.deep_view() =~= list.subrange(start as int, start as int));
    while i < entries.len()
        invariant
            start <= i <= entries@.len(),
            list == entries.deep_view(),
            r.deep_view() == list.subrange(start as int, i as int),
        decreases entries@.len() - i,
    {
        let ghost gone = r.deep_view();
        r.push(entries[i].duplicate());
        assert(r.deep_view() =~= gone.push(list[i as int]));
        assert(r.deep_view() =~= list.subrange(start as int, i + 1));
        i = i + 1;
    }
    assert(list.subrange(start as int, i as int) =~= list.skip(start as int));
    r
}

/// How wide `unicode_width::UnicodeWidthStr::width` takes a text to be.
pub uninterp spec fn text_width(text: Seq<char>) -> usize;

/// How wide `unicode_width::UnicodeWidthChar::width` takes a character to be; control characters
/// have no width.
pub uninterp spec fn char_width(c: char) -> Option<usize>;

/// Whether a character is a letter, digit, sign or space of ASCII.
pub open spec fn is_printable(c: char) -> bool {
    ' ' <= c < '\u{7f}'
}

/// The width of a text by `unicode_width::UnicodeWidthStr::width`. It depends on the text alone
/// and has the name [`text_width`]. Printable characters of ASCII take one column each.
#[verifier::external_body]
pub(crate) fn width_of_text(text: &str) -> (r: usize)
    ensures
        r == text_width(text@),
        text@.all(|c: char| is_printable(c)) ==> r == text@.len(),
{
    unicode_width::UnicodeWidthStr::width(text)
}

/// The width of a character by `unicode_width::UnicodeWidthChar::width`. It depends on the
/// character alone and has the name [`char_width`]. Control characters have none, and printable
/// characters of ASCII take one column.
#[verifier::external_body]
fn width_of_char(c: char) -> (r: Option<usize>)
    ensures
        r == char_width(c),
        r is None <==> c < ' ' || '\u{7f}' <= c < '\u{a0}',
        is_printable(c) ==> r == Some(1usize),
{
    unicode_width::UnicodeWidthChar::width(c)
}

/// How many columns a character takes: none where it has no width.
pub open spec fn columns(c: char) -> usize {
    match char_width(c) {
        Some(width) => width,
        None => 0,
    }
}

/// The columns of each character of a text.
pub open spec fn columns_of(text: Seq<char>) -> Seq<usize> {
    text.map_values(|c: char| columns(c))
}

/// How many characters of the given widths fit side by side into `limit` columns.
pub open spec fn fitting(widths: Seq<usize>, limit: int) -> nat
    decreases widths.len(),
{
    if widths.len() == 0 || widths[0] > limit {
        0
    } else {
        1 + fitting(widths.drop_first(), limit - widths[0])
    }
}

/// A line cut to at most `max_width` columns, given its own width and those of its characters.
pub open spec fn cut(
    line: Seq<char>,
    max_width: Option<usize>,
    width: usize,
    widths: Seq<usize>,
) -> Seq<char> {
    match max_width {
        None => line,
        Some(limit) => if limit == 0 {
            Seq::empty()
        } else if width <= limit {
            line
        } else {
            line.take(fitting(widths, limit as int) as int)
        },
    }
}

proof fn lemma_fitting_bound(widths: Seq<usize>, limit: int)
    ensures
        fitting(widths, limit) <= widths.len(),
    decreases widths.len(),
{
    if widths.len() > 0 && widths[0] <= limit {
        lemma_fitting_bound(widths.drop_first(), limit - widths[0]);
    }
}

/// The line cut to at most `max_width` columns, given its own width and those of its characters.
pub fn cut_line(line: &str, max_width: Option<usize>, width: usize, widths: &Vec<usize>) -> (r:
    String)
    requires
        widths@.len() == line@.len(),
    ensures
        r@ == cut(line@, max_width, width, widths@),
{
    match max_width {
        None => line.to_owned(),
        Some(limit) => {
            if limit == 0 {
                let r: String = String::new();
                assert(r@ =~= Seq::empty());
                return r;
            }
            if width <= limit {
                return line.to_owned();
            }
            let chars: Vec<char> = chars_of(line);
            let mut count: usize = 0;
            let mut left: usize = limit;
            assert(widths@.skip(0) =~= widths@);
            while count < widths.len() && widths[count] <= left
                invariant
                    count <= widths@.len(),
                    fitting(widths@, limit as int) == count + fitting(
                        widths@.skip(count as int),
                        left as int,
                    ),
                decreases widths@.len() - count,
            {
                assert(widths@.skip(count as int).drop_first() =~= widths@.skip(count + 1));
                left = left - widths[count];
                count = count + 1;
            }
            assert(chars@.subrange(0, count as int) =~= line@.take(count as int));
            string_of(&chars, 0, count)
        },
    }
}

proof fn lemma_fitting_ones(widths: Seq<usize>, limit: int)
    requires
        limit >= 0,
        forall|i: int| 0 <= i < widths.len() ==> #[trigger] widths[i] == 1,
    ensures
        fitting(widths, limit) == (if widths.len() <= limit {
            widths.len() as int
        } else {
            limit
        }),
    decreases widths.len(),
{
    if widths.len() > 0 && limit > 0 {
        lemma_fitting_ones(widths.drop_first(), limit - 1);
    }
}

/// The line cut to at most `max_width` columns. A line of printable ASCII is cut to as many
/// characters.
pub fn truncate_line(line: &str, max_width: Option<usize>) -> (r: String)
    ensures
        r@ == cut(line@, max_width, text_width(line@), columns_of(line@)),
        line@.all(|c: char| is_printable(c)) ==> r@ == (match max_width {
            Some(limit) => if line@.len() <= limit {
                line@
            } else {
                line@.take(limit as int)
            },
            None => line@,
        }),
{
    let chars: Vec<char> = chars_of(line);
    let mut widths: Vec<usize> = Vec::new();
    let mut i: usize = 0;
    while i < chars.len()
        invariant
            i <= chars@.len(),
            chars@ == line@,
            widths@ == columns_of(line@.take(i as int)),
            forall|k: int| 0 <= k < i && is_printable(line@[k]) ==> #[trigger] widths@[k] == 1,
        decreases chars@.len() - i,
    {
        widths.push(
            match width_of_char(chars[i]) {
                Some(width) => width,
                None => 0,
            },
        );
        assert(columns_of(line@.take(i + 1)) =~= columns_of(line@.take(i as int)).push(
            columns(line@[i as int]),
        ));
        i = i + 1;
    }
    assert(line@.take(i as int) =~= line@);
    let width: usize = width_of_text(line);
    proof {
        let p = |c: char| is_printable(c);
        if line@.all(p) {
            assert forall|k: int| 0 <= k < widths@.len() implies #[trigger] widths@[k] == 1 by {
                assert(p(line@[k]));
            }
            if let Some(limit) = max_width {
                lemma_fitting_ones(widths@, limit as int);
                if limit == 0 {
                    assert(line@.take(0) =~= Seq::empty());
                    if line@.len() == 0 {
                        assert(line@ =~= Seq::empty());
                    }
                }
            }
        }
    }
    cut_line(line, max_width, width, &widths)
}

/// The last entries of a log as lines, at most `limit` of them, each cut to the width.
pub open spec fn tail_text(
    entries: Seq<LogEntryView>,
    limit: nat,
    max_width: Option<usize>,
) -> Seq<Seq<char>> {
    last_of(entries, limit).map_values(
        |entry: LogEntryView|
            cut(
                entry_text(entry),
                max_width,
                text_width(entry_text(entry)),
                columns_of(entry_text(entry)),
            ),
    )
}

/// The last lines of the log of a generation of a target, given what the log holds.
pub fn tail_logs_for_target(
    target: &str,
    generation: u64,
    limit: usize,
    max_width: Option<usize>,
    contents: &str,
) -> (r: Vec<String>)
    ensures
        r.deep_view() == tail_text(
            entries_of(LogSourceView { target: target@, generation }, lines_spec(contents@)),
            limit as nat,
            max_width,
        ),
{
    let source: LogSource = LogSource::new(target, generation);
    let entries: Vec<LogEntry> = read_entries(&source, contents);
    let ghost all = entries.deep_view();
    let selected: Vec<LogEntry> = take_last(entries, limit);
    let mut r: Vec<String> = Vec::new();
    let mut i: usize = 0;
    while i < selected.len()
        invariant
            i <= selected@.len(),
            selected.deep_view() == last_of(all, limit as nat),
            r@.len() == i,
            forall|k: int|
                0 <= k < i ==> (#[trigger] r@[k])@ == tail_text(all, limit as nat, max_width)[k],
        decreases selected@.len() - i,
    {
        assert(selected@[i as int].deep_view() == selected.deep_view()[i as int]);
        let line: String = format_entry(&selected[i]);
        r.push(truncate_line(line.as_str(), max_width));
        i = i + 1;
    }
    assert(r.deep_view() =~= tail_text(all, limit as nat, max_width));
    r
}

/// A line as a terminal shows it: errors in red, other output in green.
pub open spec fn colored(line: Seq<char>, terminal: bool) -> Seq<char> {
    if !terminal {
        line
    } else if occurs_in(line, "| STDERR |"@) || occurs_in(lowercase(line), "error"@) {
        "\u{001b}[31m"@ + line + "\u{001b}[0m"@
    } else if occurs_in(line, "| STDOUT |"@) {
        "\u{001b}[32m"@ + line + "\u{001b}[0m"@
    } else {
        line
    }
}

/// The line as it is shown, in colour where it goes to a terminal.
pub fn colorize_line(line: &str, terminal: bool) -> (r: String)
    ensures
        r@ == colored(line@, terminal),
{
    if !terminal {
        return line.to_owned();
    }
    if contains(line, "| STDERR |") || contains(to_ascii_lowercase(line).as_str(), "error") {
        let mut r: String = "\u{001b}[31m".to_owned();
        r.append(line);
        r.append("\u{001b}[0m");
        r
    } else if contains(line, "| STDOUT |") {
        let mut r: String = "\u{001b}[32m".to_owned();
        r.append(line);
        r.append("\u{001b}[0m");
        r
    } else {
        line.to_owned()
    }
}

// ---------------------------------------------------------------------------
// Finding logs
// ---------------------------------------------------------------------------

/// The generation of a target that the name of a file tells: the number between the name of the
/// target and the ending. Nothing where there is no room between them, as in `web.log`.
pub open spec fn generation_in_name(target: Seq<char>, name: Seq<char>) -> Option<u64> {
    let prefix = sanitize_spec(target) + "."@;
    if prefix.is_prefix_of(name) && ".log"@.is_suffix_of(name) && prefix.len() + 4 <= name.len() {
        match parse_spec(name.subrange(prefix.len() as int, name.len() - 4), u64::MAX as nat) {
            Some(n) => Some(n as u64),
            None => None,
        }
    } else {
        None
    }
}

/// A strictly growing list with a further number at its place.
pub open spec fn with_number(list: Seq<u64>, n: u64) -> Seq<u64>
    decreases list.len(),
{
    if list.len() == 0 || list.last() < n {
        list.push(n)
    } else if list.last() == n {
        list
    } else {
        with_number(list.drop_last(), n).push(list.last())
    }
}

/// The generations of a target that the names of files tell, from the lowest.
pub open spec fn generations_in(target: Seq<char>, names: Seq<Seq<char>>) -> Seq<u64>
    decreases names.len(),
{
    if names.len() == 0 {
        Seq::empty()
    } else {
        match generation_in_name(target, names.last()) {
            Some(n) => with_number(generations_in(target, names.drop_last()), n),
            None => generations_in(target, names.drop_last()),
        }
    }
}

/// Whether numbers grow strictly.
pub open spec fn growing(list: Seq<u64>) -> bool {
    forall|i: int, k: int| 0 <= i < k < list.len() ==> list[i] < list[k]
}

/// The generation of `target` that the name of a file tells.
pub fn generation_from_file_name(target: &str, name: &str) -> (r: Option<u64>)
    ensures
        r == generation_in_name(target@, name@),
{
    let mut prefix: String = sanitize_target_name(target);
    prefix.append(".");
    if !starts_with(name, prefix.as_str()) || !ends_with(name, ".log") {
        return None;
    }
    proof {
        reveal_strlit(".log");
    }
    let chars: Vec<char> = chars_of(name);
    let start: usize = chars_of(prefix.as_str()).len();
    if start > chars.len() - 4 {
        return None;
    }
    let number: String = string_of(&chars, start, chars.len() - 4);
    parse(number.as_str(), u64::MAX)
}

fn insert_number(list: &mut Vec<u64>, n: u64)
    ensures
        final(list)@ == with_number(old(list)@, n),
{
    let ghost all = list@;
    let mut at: usize = list.len();
    assert(all.take(at as int) =~= all);
    assert(with_number(all, n) =~= with_number(all.take(at as int), n) + all.skip(at as int));
    while at > 0 && list[at - 1] > n
        invariant
            at <= list@.len(),
            list@ == all,
            with_number(all, n) == with_number(all.take(at as int), n) + all.skip(at as int),
        decreases at,
    {
        let ghost front = all.take(at as int);
        assert(front.drop_last() =~= all.take(at - 1));
        assert(with_number(front.drop_last(), n).push(front.last()) + all.skip(at as int)
            =~= with_number(front.drop_last(), n) + all.skip(at - 1));
        at = at - 1;
    }
    if at > 0 && list[at - 1] == n {
        assert(all.take(at as int) + all.skip(at as int) =~= all);
        return;
    }
    list.insert(at, n);
    assert(list@ =~= all.take(at as int).push(n) + all.skip(at as int));
}

/// The generations of `target` that the names of files tell, from the lowest and each once.
pub fn list_generations(target: &str, names: &Vec<String>) -> (r: Vec<u64>)
    ensures
        r@ == generations_in(target@, names.deep_view()),
{
    let ghost list = names.deep_view();
    let mut r: Vec<u64> = Vec::new();
    let mut i: usize = 0;
    assert(list.take(0) =~= Seq::empty());
    while i < names.len()
        invariant
            i <= names@.len(),
            list == names.deep_view(),
            r@ == generations_in(target@, list.take(i as int)),
        decreases names@.len() - i,
    {
        assert(list.take(i + 1).drop_last() =~= list.take(i as int));
        assert(names[i as int]@ == list[i as int]);
        if let Some(n) = generation_from_file_name(target, names[i].as_str()) {
            insert_number(&mut r, n);
        }
        i = i + 1;
    }
    assert(list.take(i as int) =~= list);
    r
}

/// The targets whose logs are asked for: the named ones, or all that have a generation.
pub open spec fn asked_targets(
    targets: Seq<Seq<char>>,
    generations: Seq<(Seq<char>, u64)>,
) -> Seq<Seq<char>> {
    if targets.len() == 0 {
        crate::names::names_of(generations)
    } else {
        listing(targets.to_set())
    }
}

/// The generations of one target whose logs are asked for.
pub open spec fn asked_generations(
    target: Seq<char>,
    explicit_generation: Option<u64>,
    every: bool,
    generations: Seq<(Seq<char>, u64)>,
    names: Seq<Seq<char>>,
) -> Seq<u64> {
    let found = generations_in(target, names);
    let current = match lookup(generations, target) {
        Some(generation) => if generation > 0 {
            seq![generation]
        } else {
            Seq::empty()
        },
        None => Seq::empty(),
    };
    if every {
        if found.len() == 0 {
            current
        } else {
            found
        }
    } else if explicit_generation is Some {
        seq![explicit_generation->0]
    } else if lookup(generations, target) is Some {
        current
    } else if found.len() > 0 {
        seq![found.last()]
    } else {
        Seq::empty()
    }
}

/// The logs of some generations of a target.
pub open spec fn sources_for(target: Seq<char>, generations: Seq<u64>) -> Seq<LogSourceView> {
    generations.map_values(|generation: u64| LogSourceView { target, generation })
}

/// The logs that are asked for, target by target.
pub open spec fn sources_of(
    targets: Seq<Seq<char>>,
    explicit_generation: Option<u64>,
    every: bool,
    generations: Seq<(Seq<char>, u64)>,
    names: Seq<Seq<char>>,
) -> Seq<LogSourceView>
    decreases targets.len(),
{
    if targets.len() == 0 {
        Seq::empty()
    } else {
        sources_of(targets.drop_last(), explicit_generation, every, generations, names)
            + sources_for(
            targets.last(),
            asked_generations(targets.last(), explicit_generation, every, generations, names),
        )
    }
}

fn current_generation(target: &str, generation_map: &NameMap<u64>) -> (r: Vec<u64>)
    ensures
        r@ == asked_generations(target@, None, false, generation_map.deep_view(), Seq::empty()),
{
    let mut r: Vec<u64> = Vec::new();
    if let Some(generation) = generation_map.get(target) {
        if *generation > 0 {
            r.push(*generation);
        }
    }
    assert(generations_in(target@, Seq::empty()) =~= Seq::empty());
    assert(r@ =~= asked_generations(
        target@,
        None,
        false,
        generation_map.deep_view(),
        Seq::empty(),
    ));
    r
}

fn generations_to_show(
    target: &str,
    explicit_generation: Option<u64>,
    every: bool,
    generation_map: &NameMap<u64>,
    names: &Vec<String>,
) -> (r: Vec<u64>)
    ensures
        r@ == asked_generations(
            target@,
            explicit_generation,
            every,
            generation_map.deep_view(),
            names.deep_view(),
        ),
{
    if every {
        let found: Vec<u64> = list_generations(target, names);
        if found.len() == 0 {
            assert(generations_in(target@, Seq::empty()) =~= Seq::empty());
            return current_generation(target, generation_map);
        }
        return found;
    }
    if let Some(generation) = explicit_generation {
        let mut r: Vec<u64> = Vec::new();
        r.push(generation);
        assert(r@ =~= seq![generation]);
        return r;
    }
    if generation_map.contains_key(target) {
        return current_generation(target, generation_map);
    }
    let found: Vec<u64> = list_generations(target, names);
    let mut r: Vec<u64> = Vec::new();
    if found.len() > 0 {
        r.push(found[found.len() - 1]);
        assert(r@ =~= seq![found@.last()]);
    }
    r
}

/// The logs to show. `names` are the names of the files among the logs.
pub fn build_sources(
    targets: &Vec<String>,
    explicit_generation: Option<u64>,
    every: bool,
    generation_map: &NameMap<u64>,
    names: &Vec<String>,
) -> (r: Vec<LogSource>)
    ensures
        r.deep_view() == sources_of(
            asked_targets(targets.deep_view(), generation_map.deep_view()),
            explicit_generation,
            every,
            generation_map.deep_view(),
            names.deep_view(),
        ),
{
    let asked: Vec<String> = if targets.len() == 0 {
        generation_map.keys()
    } else {
        sorted_unique(targets)
    };
    let ghost list = asked.deep_view();
    let ghost map = generation_map.deep_view();
    let ghost files = names.deep_view();
    let mut r: Vec<LogSource> = Vec::new();
    let mut i: usize = 0;
    assert(list.take(0) =~= Seq::empty());
    assert(r.deep_view() =~= Seq::empty());
    while i < asked.len()
        invariant
            i <= asked@.len(),
            list == asked.deep_view(),
            map == generation_map.deep_view(),
            files == names.deep_view(),
            r.deep_view() == sources_of(
                list.take(i as int),
                explicit_generation,
                every,
                map,
                files,
            ),
        decreases asked@.len() - i,
    {
        assert(list.take(i + 1).drop_last() =~= list.take(i as int));
        assert(asked[i as int]@ == list[i as int]);
        let generations: Vec<u64> = generations_to_show(
            asked[i].as_str(),
            explicit_generation,
            every,
            generation_map,
            names,
        );
        let ghost gone = r.deep_view();
        let ghost here = sources_for(list[i as int], generations@);
        let mut j: usize = 0;
        assert(here.take(0) =~= Seq::empty());
        assert(gone + here.take(0) =~= gone);
        while j < generations.len()
            invariant
                j <= generations@.len(),
                i < asked@.len(),
                list == asked.deep_view(),
                here == sources_for(list[i as int], generations@),
                r.deep_view() == gone + here.take(j as int),
            decreases generations@.len() - j,
        {
            let ghost so_far = r.deep_view();
            assert(asked[i as int]@ == list[i as int]);
            r.push(LogSource::new(asked[i].as_str(), generations[j]));
            assert(r.deep_view() =~= so_far.push(here[j as int]));
            assert(gone + here.take(j + 1) =~= (gone + here.take(j as int)).push(here[j as int]));
            j = j + 1;
        }
        assert(here.take(j as int) =~= here);
        i = i + 1;
    }
    assert(list.take(i as int) =~= list);
    r
}

// ---------------------------------------------------------------------------
// Following
// ---------------------------------------------------------------------------

/// How far a log was followed, and what was read of it and not shown yet.
#[derive(Debug)]
pub struct LogFollowerState {
    pub source: LogSource,
    /// How many bytes were read.
    pub offset: u64,
    pub buffer: Vec<LogEntry>,
}

/// What a [`LogFollowerState`] stands for.
pub struct LogFollowerStateView {
    pub source: LogSourceView,
    pub offset: u64,
    pub buffer: Seq<LogEntryView>,
}

impl DeepView for LogFollowerState {
    type V = LogFollowerStateView;

    open spec fn deep_view(&self) -> LogFollowerStateView {
        LogFollowerStateView {
            source: self.source.deep_view(),
            offset: self.offset,
            buffer: self.buffer.deep_view(),
        }
    }
}

impl LogFollowerState {
    /// Follows a log from an offset on: the length that it has, or zero where it is missing.
    pub fn new(source: LogSource, offset: u64) -> (r: Self)
        ensures
            r.deep_view() == (LogFollowerStateView {
                source: source.deep_view(),
                offset,
                buffer: Seq::empty(),
            }),
    {
        let buffer: Vec<LogEntry> = Vec::new();
        assert(buffer.deep_view() =~= Seq::empty());
        LogFollowerState { source, offset, buffer }
    }

    /// Takes in what was read behind the offset: a text of `bytes_read` bytes.
    pub fn refresh(&mut self, text: &str, bytes_read: u64)
        requires
            old(self).offset + bytes_read <= u64::MAX,
        ensures
            final(self).deep_view() == refreshed(old(self).deep_view(), text@, bytes_read),
    {
        if bytes_read > 0 {
            let ghost before = self.buffer.deep_view();
            let mut entries: Vec<LogEntry> = read_entries(&self.source, text);
            let ghost more = entries.deep_view();
            self.buffer.append(&mut entries);
            assert(self.buffer.deep_view() =~= before + more);
            self.offset = self.offset + bytes_read;
        }
    }
}

/// The logs that are mirrored while a supervisor runs in the foreground.
#[derive(Debug)]
pub struct LogMirror {
    /// Whether the logs that were there at first are known.
    pub begun: bool,
    pub states: Vec<LogFollowerState>,
}

/// What a [`LogMirror`] stands for.
pub struct LogMirrorView {
    pub begun: bool,
    pub states: Seq<LogFollowerStateView>,
}

impl DeepView for LogMirror {
    type V = LogMirrorView;

    open spec fn deep_view(&self) -> LogMirrorView {
        LogMirrorView { begun: self.begun, states: self.states.deep_view() }
    }
}

/// Whether a log is followed.
pub open spec fn follows(states: Seq<LogFollowerStateView>, source: LogSourceView) -> bool {
    exists|i: int| 0 <= i < states.len() && (#[trigger] states[i]).source == source
}

/// The logs that are followed once those that are there were taken up, each with its length. A log
/// that was there at first is followed from its end on, a later one from its start.
pub open spec fn taken_up(
    states: Seq<LogFollowerStateView>,
    present: Seq<(LogSourceView, u64)>,
    begun: bool,
) -> Seq<LogFollowerStateView>
    decreases present.len(),
{
    if present.len() == 0 {
        states
    } else {
        let before = taken_up(states, present.drop_last(), begun);
        let (source, length) = present.last();
        if follows(before, source) {
            before
        } else {
            before.push(
                LogFollowerStateView {
                    source,
                    offset: if begun {
                        0
                    } else {
                        length
                    },
                    buffer: Seq::empty(),
                },
            )
        }
    }
}

fn is_followed(states: &Vec<LogFollowerState>, source: &LogSource) -> (r: bool)
    ensures
        r == follows(states.deep_view(), source.deep_view()),
{
    let ghost list = states.deep_view();
    let mut i: usize = 0;
    while i < states.len()
        invariant
            i <= states@.len(),
            list == states.deep_view(),
            forall|k: int| 0 <= k < i ==> (#[trigger] list[k]).source != source.deep_view(),
        decreases states@.len() - i,
    {
        assert(list[i as int] == states@[i as int].deep_view());
        if states[i].source.generation == source.generation && same(
            states[i].source.target.as_str(),
            source.target.as_str(),
        ) {
            assert(list[i as int].source == source.deep_view());
            return true;
        }
        i = i + 1;
    }
    false
}

impl LogMirror {
    /// Nothing is mirrored yet.
    pub fn new() -> (r: Self)
        ensures
            r.deep_view() == (LogMirrorView { begun: false, states: Seq::empty() }),
    {
        let states: Vec<LogFollowerState> = Vec::new();
        assert(states.deep_view() =~= Seq::empty());
        LogMirror { begun: false, states }
    }

    /// Takes up the logs that are there, each with its length.
    pub fn take_up(&mut self, present: &Vec<(LogSource, u64)>)
        ensures
            final(self).deep_view() == (LogMirrorView {
                begun: true,
                states: taken_up(
                    old(self).deep_view().states,
                    present.deep_view(),
                    old(self).deep_view().begun,
                ),
            }),
    {
        let ghost list = present.deep_view();
        let begun: bool = self.begun;
        let mut i: usize = 0;
        assert(list.take(0) =~= Seq::empty());
        while i < present.len()
            invariant
                i <= present@.len(),
                list == present.deep_view(),
                begun == old(self).begun,
                self.states.deep_view() == taken_up(
                    old(self).states.deep_view(),
                    list.take(i as int),
                    begun,
                ),
            decreases present@.len() - i,
        {
            assert(list.take(i + 1).drop_last() =~= list.take(i as int));
            assert(list[i as int] == (present@[i as int].0.deep_view(), present@[i as int].1));
            if !is_followed(&self.states, &present[i].0) {
                let ghost before = self.states.deep_view();
                let offset: u64 = if begun {
                    0
                } else {
                    present[i].1
                };
                let state = LogFollowerState::new(present[i].0.duplicate(), offset);
                let ghost shown = state.deep_view();
                self.states.push(state);
                assert(self.states.deep_view() =~= before.push(shown));
            }
            i = i + 1;
        }
        assert(list.take(i as int) =~= list);
        self.begun = true;
    }
}

/// What is waiting in each log that is followed.
pub open spec fn waiting(states: Seq<LogFollowerStateView>) -> Seq<Seq<LogEntryView>> {
    states.map_values(|state: LogFollowerStateView| state.buffer)
}

/// A follower after `bytes_read` bytes were read behind its offset.
pub open spec fn refreshed(
    state: LogFollowerStateView,
    text: Seq<char>,
    bytes_read: u64,
) -> LogFollowerStateView {
    if bytes_read > 0 {
        LogFollowerStateView {
            source: state.source,
            offset: (state.offset + bytes_read) as u64,
            buffer: state.buffer + entries_of(state.source, lines_spec(text)),
        }
    } else {
        state
    }
}

/// The waiting entries of all followers as lines, by their times.
pub open spec fn shown_waiting(states: Seq<LogFollowerStateView>, terminal: bool) -> Seq<
    Seq<char>,
> {
    merged(waiting(states)).map_values(
        |entry: LogEntryView| colored(entry_text(entry), terminal),
    )
}

/// The logs after everything that waited was shown.
pub open spec fn emptied(states: Seq<LogFollowerStateView>) -> Seq<LogFollowerStateView> {
    states.map_values(
        |state: LogFollowerStateView| LogFollowerStateView { buffer: Seq::empty(), ..state },
    )
}

/// Shows everything that waits in the logs that are followed, by time, and empties them.
pub fn show_waiting(states: &mut Vec<LogFollowerState>, terminal: bool) -> (r: Vec<String>)
    ensures
        r.deep_view() == shown_waiting(old(states).deep_view(), terminal),
        final(states).deep_view() == emptied(old(states).deep_view()),
{
    let ghost first = states.deep_view();
    let mut sets: Vec<Vec<LogEntry>> = Vec::new();
    let mut i: usize = 0;
    while i < states.len()
        invariant
            i <= states@.len(),
            states@.len() == first.len(),
            sets@.len() == i,
            forall|k: int|
                0 <= k < i ==> (#[trigger] sets@[k]).deep_view() == first[k].buffer,
            forall|k: int|
                0 <= k < i ==> (#[trigger] states@[k]).deep_view() == emptied(first)[k],
            forall|k: int|
                i <= k < states@.len() ==> (#[trigger] states@[k]).deep_view() == first[k],
        decreases states@.len() - i,
    {
        let mut buffer: Vec<LogEntry> = Vec::new();
        assert(buffer.deep_view() =~= Seq::empty());
        assert(states@[i as int].deep_view() == first[i as int]);
        std::mem::swap(&mut buffer, &mut states[i].buffer);
        sets.push(buffer);
        i = i + 1;
    }
    assert(states.deep_view() =~= emptied(first));
    assert(sets.deep_view() =~= waiting(first));
    let entries: Vec<LogEntry> = merge_entries(&sets);
    let ghost all = entries.deep_view();
    let mut r: Vec<String> = Vec::new();
    let mut j: usize = 0;
    while j < entries.len()
        invariant
            j <= entries@.len(),
            all == entries.deep_view(),
            r@.len() == j,
            forall|k: int|
                0 <= k < j ==> (#[trigger] r@[k])@ == colored(entry_text(all[k]), terminal),
        decreases entries@.len() - j,
    {
        assert(entries@[j as int].deep_view() == all[j as int]);
        r.push(colorize_line(format_entry(&entries[j]).as_str(), terminal));
        j = j + 1;
    }
    assert(r.deep_view() =~= all.map_values(
        |entry: LogEntryView| colored(entry_text(entry), terminal),
    ));
    r
}

} // verus!
