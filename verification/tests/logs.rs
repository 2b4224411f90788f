use rufa::cli::combined::{
    apply_level_color, color_levels, colorize_log_line, compute_latest_generations,
    filtered_lines, follow_offset, log_snapshot, parse_log_line as parse_combined_line,
    tail_logs_for_target as tail_combined, LogFilters,
};
use rufa::cli::log_io::{
    build_sources, colorize_line, cut_line, entry_with_time, format_entry,
    generation_from_file_name, list_generations, merge_entries, parse_log_line, read_entries,
    show_waiting, tail_logs_for_target, take_last, truncate_line, LogEntry, LogFollowerState,
    LogMirror, LogSource,
};
use rufa::logging::{LogEvent, LogStream};
use rufa::names::NameMap;
use rufa::paths::log_file_name;
use rufa::time::Timestamp;
use rufa::views::Duplicate;

fn strings(list: &[&str]) -> Vec<String> {
    list.iter().map(|item| item.to_string()).collect()
}

fn at(secs: i64, message: &str) -> LogEntry {
    LogEntry {
        timestamp: Timestamp::new(secs, 0).unwrap(),
        target: "t".to_string(),
        generation: 1,
        stream: "STDOUT".to_string(),
        message: message.to_string(),
    }
}

fn messages(entries: &[LogEntry]) -> Vec<&str> {
    entries.iter().map(|entry| entry.message.as_str()).collect()
}

#[test]
fn event_lines_have_their_form() {
    let event = LogEvent::new("app".to_string(), 2, LogStream::Stderr)
        .with_message("one\ntwo\rthree".to_string());
    assert_eq!(
        event.format_line("2024-01-02T03:04:05.006Z"),
        "2024-01-02T03:04:05.006Z | STDERR  | one two three\n"
    );
    let started = LogEvent::new("app".to_string(), 2, LogStream::Started);
    assert_eq!(started.format_line("now"), "now | STARTED | \n");
    assert_eq!(started.log_path(), ".rufa/logs/app.2.log");
}

#[test]
fn written_events_are_read_back() {
    let time = Timestamp::new(1_700_000_000, 123_456_789).unwrap();
    let event = LogEvent::new("app".to_string(), 3, LogStream::Stdout)
        .with_message(" a | b ".to_string());
    let line = event.line_at(&time);
    assert_eq!(line, "2023-11-14T22:13:20.123Z | STDOUT  |  a | b \n");
    let entries = read_entries(&LogSource::new("app", 3), &line);
    assert_eq!(entries.len(), 1);
    assert_eq!(entries[0].message, "a | b");
    assert_eq!(entries[0].stream, "STDOUT");
    assert_eq!(entries[0].timestamp, Timestamp::new(1_700_000_000, 123_000_000).unwrap());
    assert_eq!(
        format_entry(&entries[0]),
        "2023-11-14T22:13:20.123Z | app                |     3 | STDOUT  | a | b"
    );
}

#[test]
fn lines_without_a_time_are_passed_over() {
    let source = LogSource::new("app", 1);
    assert!(parse_log_line(&source, "yesterday | STDOUT | x").is_none());
    assert!(parse_log_line(&source, "2023-11-14T22:13:20Z").is_none());
    let entry = parse_log_line(&source, "2023-11-14T22:13:20+01:00|STDOUT").unwrap();
    assert_eq!(entry.timestamp.secs(), 1_699_996_400);
    assert_eq!(entry.message, "");
    let entry = entry_with_time(&source, "x | OUT | m", Timestamp::new(5, 0)).unwrap();
    assert_eq!(entry.stream, "OUT");
    assert!(entry_with_time(&source, "x | OUT | m", None).is_none());
}

#[test]
fn logs_are_merged_by_time() {
    let merged = merge_entries(&vec![
        vec![at(1, "a1"), at(4, "a4"), at(4, "a4b")],
        vec![],
        vec![at(2, "b2"), at(4, "b4"), at(9, "b9")],
    ]);
    assert_eq!(messages(&merged), vec!["a1", "b2", "a4", "a4b", "b4", "b9"]);
    assert!(merge_entries(&vec![]).is_empty());
}

#[test]
fn logs_out_of_order_keep_their_own_order() {
    let merged = merge_entries(&vec![vec![at(5, "a5"), at(1, "a1")], vec![at(3, "b3")]]);
    assert_eq!(messages(&merged), vec!["b3", "a5", "a1"]);
}

#[test]
fn last_entries_are_taken() {
    let list = vec![at(1, "a"), at(2, "b"), at(3, "c")];
    assert_eq!(messages(&take_last(list, 2)), vec!["b", "c"]);
    assert!(take_last(vec![at(1, "a")], 0).is_empty());
    assert_eq!(take_last(vec![at(1, "a")], 5).len(), 1);
}

#[test]
fn lines_are_cut_by_columns() {
    assert_eq!(truncate_line("abcdef", None), "abcdef");
    assert_eq!(truncate_line("abcdef", Some(0)), "");
    assert_eq!(truncate_line("abcdef", Some(4)), "abcd");
    assert_eq!(truncate_line("日本語", Some(5)), "日本");
    assert_eq!(truncate_line("日本語", Some(6)), "日本語");
    assert_eq!(truncate_line("e\u{301}xyz", Some(2)), "e\u{301}x");
    assert_eq!(cut_line("abc", Some(3), 9, &vec![2, 1, 1]), "ab");
}

#[test]
fn tail_of_a_log_is_shown() {
    let contents = "2023-11-14T22:13:20.000Z | STDOUT  | one\nnoise\n2023-11-14T22:13:21.000Z | STDERR  | two\n";
    assert_eq!(
        tail_logs_for_target("app", 1, 1, Some(24), contents),
        strings(&["2023-11-14T22:13:21.000Z"])
    );
    assert_eq!(tail_logs_for_target("app", 1, 9, None, contents).len(), 2);
    assert!(tail_logs_for_target("app", 1, 0, None, contents).is_empty());
}

#[test]
fn errors_are_red_on_a_terminal() {
    assert_eq!(colorize_line("x | STDERR | y", false), "x | STDERR | y");
    assert_eq!(
        colorize_line("x | STDERR | y", true),
        "\u{1b}[31mx | STDERR | y\u{1b}[0m"
    );
    assert_eq!(
        colorize_line("an ERROR", true),
        "\u{1b}[31man ERROR\u{1b}[0m"
    );
    assert_eq!(
        colorize_line("x | STDOUT | y", true),
        "\u{1b}[32mx | STDOUT | y\u{1b}[0m"
    );
    assert_eq!(colorize_line("plain", true), "plain");
}

#[test]
fn generations_are_found_among_files() {
    let names = strings(&["a.3.log", "a.10.log", "a.3.log", "ab.7.log", "a.x.log", "a.1.json", "a.+4.log"]);
    assert_eq!(list_generations("a", &names), vec![3, 4, 10]);
    assert_eq!(generation_from_file_name("a b", &log_file_name("a b", 12)), Some(12));
    assert_eq!(generation_from_file_name("a", "b.1.log"), None);
    assert_eq!(generation_from_file_name("a", "a.log"), None);
    assert_eq!(generation_from_file_name("a", "a..log"), None);
    let dotted = strings(&["web.5.log", "web.5.2.log"]);
    assert_eq!(list_generations("web.5", &dotted), vec![2]);
    assert_eq!(list_generations("web", &dotted), vec![5]);
}

#[test]
fn sources_follow_the_request() {
    let mut map: NameMap<u64> = NameMap::new();
    map.insert("b".to_string(), 2);
    map.insert("a".to_string(), 0);
    let names = strings(&["a.1.log", "c.4.log", "c.9.log"]);
    let all = build_sources(&vec![], None, true, &map, &names);
    assert_eq!(all, vec![LogSource::new("a", 1), LogSource::new("b", 2)]);
    let current = build_sources(&vec![], None, false, &map, &names);
    assert_eq!(current, vec![LogSource::new("b", 2)]);
    let named = build_sources(&strings(&["c", "b", "c"]), None, false, &map, &names);
    assert_eq!(named, vec![LogSource::new("b", 2), LogSource::new("c", 9)]);
    let fixed = build_sources(&strings(&["c"]), Some(5), false, &map, &names);
    assert_eq!(fixed, vec![LogSource::new("c", 5)]);
    let bare = strings(&["c.log", "c.3.log"]);
    let fixed = build_sources(&strings(&["c"]), Some(2), false, &map, &bare);
    assert_eq!(fixed, vec![LogSource::new("c", 2)]);
    let listed = build_sources(&strings(&["c"]), None, true, &map, &bare);
    assert_eq!(listed, vec![LogSource::new("c", 3)]);
}

#[test]
fn followed_logs_are_shown_by_time() {
    let mut states = vec![
        LogFollowerState::new(LogSource::new("a", 1), 10),
        LogFollowerState::new(LogSource::new("b", 1), 0),
    ];
    states[0].refresh("1970-01-01T00:00:05.000Z | STDOUT | late\n", 41);
    states[1].refresh("1970-01-01T00:00:01.000Z | STDLOG | early\n", 42);
    states[1].refresh("", 0);
    assert_eq!(states[0].offset, 51);
    let lines = show_waiting(&mut states, false);
    assert_eq!(lines.len(), 2);
    assert!(lines[0].ends_with("early"));
    assert!(lines[1].ends_with("late"));
    assert!(show_waiting(&mut states, false).is_empty());
}

#[test]
fn combined_lines_tell_their_run() {
    let line = parse_combined_line(" app |  7 | STDOUT | x");
    assert_eq!(line.target_upper, "APP");
    assert_eq!(line.generation, Some(7));
    assert_eq!(parse_combined_line("noise").generation, None);
}

#[test]
fn only_the_latest_generation_is_shown() {
    let log = "APP | 1 | STDOUT | old\nAPP | 2 | STDOUT | new\nDB | 1 | STDOUT | db\nnoise\n";
    let latest = compute_latest_generations(log);
    assert_eq!(latest.get("APP"), Some(&2));
    let filters = LogFilters::new(&vec![], None, false, latest).unwrap();
    assert_eq!(
        filtered_lines(log, &filters),
        strings(&["APP | 2 | STDOUT | new", "DB | 1 | STDOUT | db"])
    );
    let filters = LogFilters::new(&strings(&["app"]), Some(1), false, NameMap::new()).unwrap();
    assert_eq!(filtered_lines(log, &filters), strings(&["APP | 1 | STDOUT | old"]));
    let filters = LogFilters::new(&vec![], None, true, NameMap::new()).unwrap();
    assert_eq!(filtered_lines(log, &filters).len(), 4);
    assert!(filters.allow_unparsed());
    assert_eq!(log_snapshot(log, &filters, Some(1)).len(), 1);
}

#[test]
fn one_generation_cannot_be_asked_for_with_all() {
    let error = LogFilters::new(&vec![], Some(1), true, NameMap::new()).unwrap_err();
    assert_eq!(error, "cannot combine --generation with --all");
}

#[test]
fn following_takes_up_new_generations() {
    let mut filters = LogFilters::new(&vec![], None, false, NameMap::new()).unwrap();
    let shown = filters.follow("A | 1 | STDOUT | x\nA | 2 | STDOUT | y\nA | 1 | STDOUT | z\n");
    assert_eq!(shown.len(), 2);
    assert!(shown[1].contains("y"));
    assert_eq!(filters.latest.get("A"), Some(&2));
    assert_eq!(follow_offset(10, Some(9)), 0);
    assert_eq!(follow_offset(10, Some(10)), 10);
    assert_eq!(follow_offset(10, None), 0);
}

#[test]
fn tail_of_the_combined_log_is_of_one_target() {
    let log = "app | 1 | STDOUT | a\nAPP | 2 | STDOUT | b\ndb | 1 | STDOUT | c\napp | 2\n";
    assert_eq!(
        tail_combined("App", None, 5, log),
        strings(&["app | 1 | STDOUT | a", "APP | 2 | STDOUT | b"])
    );
    assert_eq!(
        tail_combined("app", Some(2), 5, log),
        strings(&["APP | 2 | STDOUT | b"])
    );
    assert_eq!(tail_combined("app", None, 1, log), strings(&["APP | 2 | STDOUT | b"]));
}

#[test]
fn levels_have_their_colours() {
    assert_eq!(
        apply_level_color("at [ERROR] and (WARN) and INFO now"),
        "at [\u{1b}[31mERROR\u{1b}[0m] and (\u{1b}[33mWARN\u{1b}[0m) and \u{1b}[32mINFO\u{1b}[0m now"
    );
    assert_eq!(apply_level_color("ERRORS"), "ERRORS");
    assert_eq!(
        color_levels("é WARN ", &vec![vec![Some((1, 7)), Some((1, 2)), Some((2, 6)), Some((6, 7))]]),
        "é \u{1b}[33mWARN\u{1b}[0m "
    );
    assert_eq!(
        colorize_log_line("A|1|OUT| x"),
        "\u{1b}[38;5;244mA\u{1b}[0m|\u{1b}[38;5;244m1\u{1b}[0m|\u{1b}[38;5;244mOUT\u{1b}[0m|\u{1b}[38;5;244m x\u{1b}[0m"
    );
    assert_eq!(
        colorize_log_line("A|1|OUT| INFO x"),
        "\u{1b}[38;5;244mA\u{1b}[0m|\u{1b}[38;5;244m1\u{1b}[0m|\u{1b}[38;5;244mOUT\u{1b}[0m| \u{1b}[32mINFO\u{1b}[0m x"
    );
    assert_eq!(colorize_log_line("x"), "\u{1b}[38;5;244mx\u{1b}[0m");
}

#[test]
fn times_are_written_and_read() {
    let time = Timestamp::parse("2024-02-29T12:00:00.5+02:00").unwrap();
    assert_eq!(time.rfc3339(), "2024-02-29T10:00:00.500+00:00");
    assert_eq!(time.rfc3339_millis(), "2024-02-29T10:00:00.500Z");
    for (secs, nanos) in [(0, 1), (-1, 999_999_999), (1_483_228_799, 1_500_000_000)] {
        let time = Timestamp::new(secs, nanos).unwrap();
        assert_eq!(Timestamp::parse(&time.rfc3339()), Some(time));
    }
    assert!(Timestamp::new(0, 1_000_000_000).is_none());
    assert!(Timestamp::parse("2023-02-29T12:00:00Z").is_none());
    assert!(Timestamp::new(i64::MAX, 0).is_none());
    let later = Timestamp::new(time.secs() + 1, 0).unwrap();
    assert!(time.is_before(&later));
    assert_eq!(later.duplicate(), later);
}

#[test]
fn mirrored_logs_start_where_they_should() {
    let mut mirror = LogMirror::new();
    mirror.take_up(&vec![(LogSource::new("a", 1), 30)]);
    mirror.take_up(&vec![(LogSource::new("a", 1), 40), (LogSource::new("a", 2), 9)]);
    let followed: Vec<(u64, u64)> = mirror
        .states
        .iter()
        .map(|state| (state.source.generation, state.offset))
        .collect();
    assert_eq!(followed, vec![(1, 30), (2, 0)]);
}
