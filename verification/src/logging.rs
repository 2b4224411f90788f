//! Log lines of targets.

use vstd::prelude::*;

use crate::cli::log_io::{entries_of, LogEntryView, LogSourceView};
use crate::cli::log_laws::written_event_is_read_back;
use crate::parts::{lines_spec, pad_end, pad_end_spec};
use crate::paths::{log_file_path, log_file_path_spec};
use crate::text::trim_spec;
use crate::time::{four_digit_year, rfc3339_millis_text, whole_millis, Instant, Timestamp};

verus! {

/// Where a log line comes from.
#[derive(Debug, Clone, Copy, PartialEq, Eq, Structural)]
pub enum LogStream {
    Started,
    Stdout,
    Stderr,
    Stdlog,
    Stdin,
    Exited,
}

/// The label of a stream.
pub open spec fn stream_label(stream: LogStream) -> Seq<char> {
    match stream {
        LogStream::Started => "STARTED"@,
        LogStream::Stdout => "STDOUT"@,
        LogStream::Stderr => "STDERR"@,
        LogStream::Stdlog => "STDLOG"@,
        LogStream::Stdin => "STDIN"@,
        LogStream::Exited => "EXITED"@,
    }
}

impl LogStream {
    /// The label of the stream.
    pub fn label(self) -> (r: &'static str)
        ensures
            r@ == stream_label(self),
    {
        match self {
            LogStream::Started => "STARTED",
            LogStream::Stdout => "STDOUT",
            LogStream::Stderr => "STDERR",
            LogStream::Stdlog => "STDLOG",
            LogStream::Stdin => "STDIN",
            LogStream::Exited => "EXITED",
        }
    }
}

/// Something that is written to the log of a target.
#[derive(Debug, PartialEq, Eq)]
pub struct LogEvent {
    pub target: String,
    pub generation: u64,
    pub stream: LogStream,
    pub message: Option<String>,
}

/// What a [`LogEvent`] stands for.
pub struct LogEventView {
    pub target: Seq<char>,
    pub generation: u64,
    pub stream: LogStream,
    pub message: Option<Seq<char>>,
}

impl DeepView for LogEvent {
    type V = LogEventView;

    open spec fn deep_view(&self) -> LogEventView {
        LogEventView {
            target: self.target@,
            generation: self.generation,
            stream: self.stream,
            message: self.message.deep_view(),
        }
    }
}

/// A message on one line: line ends become spaces.
pub open spec fn on_one_line(message: Seq<char>) -> Seq<char> {
    message.map_values(
        |c: char|
            if c == '\n' || c == '\r' {
                ' '
            } else {
                c
            },
    )
}

fn sanitize_message(message: &str) -> (r: String)
    ensures
        r@ == on_one_line(message@),
{
    let mut r: String = String::new();
    for c in it: message.chars()
        invariant
            it.seq() == message@,
            r@ == on_one_line(message@.take(it.index() as int)),
    {
        if c == '\n' || c == '\r' {
            r.push(' ');
        } else {
            r.push(c);
        }
        assert(r@ =~= on_one_line(message@.take(it.index() + 1)));
    }
    assert(message@.take(message@.len() as int) =~= message@);
    r
}

/// The message of an event, on one line.
pub open spec fn event_text(event: LogEventView) -> Seq<char> {
    match event.message {
        Some(message) => on_one_line(message),
        None => Seq::empty(),
    }
}

/// The line that an event becomes.
pub open spec fn line_spec(event: LogEventView, timestamp: Seq<char>) -> Seq<char> {
    timestamp + " | "@ + pad_end_spec(stream_label(event.stream), 7) + " | "@ + event_text(event)
        + "\n"@
}

impl LogEvent {
    /// An event without a message.
    pub fn new(target: String, generation: u64, stream: LogStream) -> (r: Self)
        ensures
            r.deep_view() == (LogEventView {
                target: target@,
                generation,
                stream,
                message: None,
            }),
    {
        LogEvent { target, generation, stream, message: None }
    }

    /// The event with a message.
    pub fn with_message(self, message: String) -> (r: Self)
        ensures
            r.deep_view() == (LogEventView {
                message: Some(message@),
                ..self.deep_view()
            }),
    {
        LogEvent {
            target: self.target,
            generation: self.generation,
            stream: self.stream,
            message: Some(message),
        }
    }

    /// The line that the event becomes, after a timestamp.
    pub fn format_line(&self, timestamp: &str) -> (r: String)
        ensures
            r@ == line_spec(self.deep_view(), timestamp@),
    {
        let mut r: String = timestamp.to_owned();
        r.append(" | ");
        r.append(pad_end(self.stream.label(), 7).as_str());
        r.append(" | ");
        match &self.message {
            Some(message) => {
                r.append(sanitize_message(message.as_str()).as_str());
            },
            None => {
                assert(r@ + Seq::<char>::empty() =~= r@);
            },
        }
        r.append("\n");
        r
    }

    /// The line that is written for the event at a point in time. The log of the generation gives
    /// the event back, to the millisecond.
    pub fn line_at(&self, time: &Timestamp) -> (r: String)
        ensures
            r@ == line_spec(
                self.deep_view(),
                rfc3339_millis_text(time.deep_view().secs, time.deep_view().nanos),
            ),
            four_digit_year(time.deep_view().secs) ==> entries_of(
                LogSourceView { target: self.target@, generation: self.generation },
                lines_spec(r@),
            ) == seq![
                LogEntryView {
                    timestamp: Instant {
                        secs: time.deep_view().secs,
                        nanos: whole_millis(time.deep_view().nanos),
                    },
                    target: self.target@,
                    generation: self.generation,
                    stream: stream_label(self.stream),
                    message: trim_spec(event_text(self.deep_view())),
                },
            ],
    {
        let timestamp: String = time.rfc3339_millis();
        proof {
            if four_digit_year(time.deep_view().secs) {
                written_event_is_read_back(
                    LogSourceView { target: self.target@, generation: self.generation },
                    self.deep_view(),
                    timestamp@,
                );
            }
        }
        self.format_line(timestamp.as_str())
    }

    /// The file that the event is written to: each generation of a target has its own.
    pub fn log_path(&self) -> (r: String)
        ensures
            r@ == log_file_path_spec(self.deep_view().target, self.deep_view().generation as nat),
    {
        log_file_path(self.target.as_str(), self.generation)
    }
}

// ---------------------------------------------------------------------------
// Laws
// ---------------------------------------------------------------------------

/// What is written for an event is one line: it ends with its only line feed, whatever the
/// message holds.
pub proof fn event_is_one_line(event: LogEventView, timestamp: Seq<char>)
    requires
        !timestamp.contains('\n'),
    ensures
        line_spec(event, timestamp).last() == '\n',
        !line_spec(event, timestamp).drop_last().contains('\n'),
{
    let line = line_spec(event, timestamp);
    let label = pad_end_spec(stream_label(event.stream), 7);
    reveal_strlit("\n");
    reveal_strlit(" | ");
    reveal_strlit("STARTED");
    reveal_strlit("STDOUT");
    reveal_strlit("STDERR");
    reveal_strlit("STDLOG");
    reveal_strlit("STDIN");
    reveal_strlit("EXITED");
    let front = line.drop_last();
    if front.contains('\n') {
        let i = choose|i: int| 0 <= i < front.len() && front[i] == '\n';
        let a = timestamp.len() as int;
        let b = label.len() as int;
        if i < a {
            assert(timestamp[i] == '\n');
        } else if i < a + 3 {
            assert(line[i] == " | "@[i - a]);
        } else if i < a + 3 + b {
            assert(line[i] == label[i - a - 3]);
        } else if i < a + 6 + b {
            assert(line[i] == " | "@[i - a - 3 - b]);
        } else {
            assert(line[i] == event_text(event)[i - a - 6 - b]);
        }
    }
}

/// A message is written as it is but for line ends, each of which becomes a space.
pub proof fn message_is_written_as_it_is(message: Seq<char>)
    ensures
        on_one_line(message).len() == message.len(),
        forall|i: int|
            0 <= i < message.len() ==> #[trigger] on_one_line(message)[i] == (if message[i] == '\n'
                || message[i] == '\r' {
                ' '
            } else {
                message[i]
            }),
        !message.contains('\n') && !message.contains('\r') ==> on_one_line(message) == message,
{
    if !message.contains('\n') && !message.contains('\r') {
        assert forall|i: int| 0 <= i < message.len() implies on_one_line(message)[i]
            == message[i] by {
            assert(message.contains(message[i]));
        }
        assert(on_one_line(message) =~= message);
    }
}

/// The streams are told by their names.
pub proof fn streams_are_told_by_their_names()
    ensures
        stream_label(LogStream::Started) == "STARTED"@,
        stream_label(LogStream::Stdout) == "STDOUT"@,
        stream_label(LogStream::Stderr) == "STDERR"@,
        stream_label(LogStream::Stdlog) == "STDLOG"@,
        stream_label(LogStream::Stdin) == "STDIN"@,
        stream_label(LogStream::Exited) == "EXITED"@,
{
}

/// The line of an event begins with the time and the name of the stream and ends with the message;
/// between them stand only bars and spaces, so that the messages of all streams begin in the same
/// column.
pub proof fn line_holds_time_stream_and_message(event: LogEventView, timestamp: Seq<char>)
    ensures
        ({
            let line = line_spec(event, timestamp);
            let text = match event.message {
                Some(message) => on_one_line(message),
                None => Seq::empty(),
            };
            &&& (timestamp + " | "@ + stream_label(event.stream)).is_prefix_of(line)
            &&& (" | "@ + text + "\n"@).is_suffix_of(line)
            &&& line.len() == timestamp.len() + 3 + 7 + 3 + text.len() + 1
        }),
{
    reveal_strlit(" | ");
    reveal_strlit("\n");
    reveal_strlit("STARTED");
    reveal_strlit("STDOUT");
    reveal_strlit("STDERR");
    reveal_strlit("STDLOG");
    reveal_strlit("STDIN");
    reveal_strlit("EXITED");
    let line = line_spec(event, timestamp);
    let front = timestamp + " | "@ + stream_label(event.stream);
    let back = " | "@ + event_text(event) + "\n"@;
    assert(pad_end_spec(stream_label(event.stream), 7).len() == 7);
    assert(line.take(front.len() as int) =~= front);
    assert(line.subrange(line.len() - back.len(), line.len() as int) =~= back);
}

} // verus!
