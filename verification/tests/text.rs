use rufa::names::{sorted_unique, NameMap, NameSet};
use rufa::numbers::{decimal, parse, signed_decimal};
use rufa::parts::{
    join, lines, pad_end, pad_start, repeat, replace, split, split_once, splitn,
};
use rufa::paths::{
    components, file_name, join as join_path, log_file_name, log_file_path, parent,
    sanitize_target_name, starts_with,
};
use rufa::text::{
    contains, ends_with, eq_ignore_ascii_case, precedes, strip_prefix, strip_prefixes,
    to_ascii_lowercase, to_ascii_uppercase, trim, trim_end, trim_end_matches, trim_start_matches,
};

fn strings(list: &[&str]) -> Vec<String> {
    list.iter().map(|item| item.to_string()).collect()
}

#[test]
fn texts_behave_like_those_of_std() {
    for text in ["", " a b ", "ÄbC", "\u{3000}x\u{85}", "--x--", "a|b||c", "line\r\nnext\n\nlast\r"] {
        assert_eq!(trim(text), text.trim());
        assert_eq!(trim_end(text), text.trim_end());
        assert_eq!(to_ascii_lowercase(text), text.to_ascii_lowercase());
        assert_eq!(to_ascii_uppercase(text), text.to_ascii_uppercase());
        assert_eq!(trim_start_matches(text, '-'), text.trim_start_matches('-'));
        assert_eq!(trim_end_matches(text, '-'), text.trim_end_matches('-'));
        assert_eq!(split(text, '|'), text.split('|').collect::<Vec<_>>());
        assert_eq!(splitn(text, 2, '|'), text.splitn(2, '|').collect::<Vec<_>>());
        assert_eq!(lines(text), text.lines().collect::<Vec<_>>());
        assert_eq!(contains(text, "b"), text.contains("b"));
        assert_eq!(ends_with(text, " "), text.ends_with(' '));
        assert_eq!(replace(text, "-", "=="), text.replace('-', "=="));
        assert_eq!(
            split_once(text, '|'),
            text.split_once('|').map(|(a, b)| (a.to_string(), b.to_string()))
        );
        assert_eq!(pad_end(text, 5), format!("{text:<5}"));
        assert_eq!(pad_start(text, 5), format!("{text:>5}"));
        for other in ["", " b", "Z", "~"] {
            assert_eq!(precedes(text, other), text < other);
            assert_eq!(eq_ignore_ascii_case(text, other), text.eq_ignore_ascii_case(other));
        }
    }
    assert_eq!(strip_prefix("abc", "ab"), Some("c".to_string()));
    assert_eq!(strip_prefix("abc", "b"), None);
    assert_eq!(strip_prefixes("ababc", "ab"), "c");
    assert_eq!(join(&strings(&["a", "b"]), ", "), "a, b");
    assert_eq!(repeat('x', 3), "xxx");
}

#[test]
fn numbers_are_written_and_read() {
    for number in [0u64, 7, 10, 999, u64::MAX] {
        assert_eq!(decimal(number), number.to_string());
        assert_eq!(parse(&decimal(number), u64::MAX), Some(number));
    }
    assert_eq!(signed_decimal(i64::MIN), i64::MIN.to_string());
    assert_eq!(parse("+5", 10), Some(5));
    assert_eq!(parse("11", 10), None);
    assert_eq!(parse("18446744073709551616", u64::MAX), None);
    assert_eq!(parse("", 10), None);
    assert_eq!(parse("-1", 10), None);
}

#[test]
fn names_are_kept_in_order() {
    let mut map: NameMap<u64> = NameMap::new();
    assert_eq!(map.insert("b".to_string(), 1), None);
    assert_eq!(map.insert("a".to_string(), 2), None);
    assert_eq!(map.insert("b".to_string(), 3), Some(1));
    assert_eq!(map.keys(), strings(&["a", "b"]));
    assert_eq!(map.remove("a"), Some(2));
    assert_eq!(map.len(), 1);
    let mut set = NameSet::new();
    assert!(set.insert("x".to_string()));
    assert!(!set.insert("x".to_string()));
    assert!(set.remove("x"));
    assert!(set.is_empty());
    assert_eq!(sorted_unique(&strings(&["b", "a", "b"])), strings(&["a", "b"]));
}

#[test]
fn paths_behave_like_those_of_std() {
    for path in ["", "/", "a", "a/b", "/a/b/", "./a", "a/..", "..", "a//b/./c", "/.rufa/x.log"] {
        let known = std::path::Path::new(path);
        assert_eq!(
            parent(path),
            known.parent().map(|dir| dir.to_str().unwrap().to_string()),
            "{path}"
        );
        assert_eq!(
            file_name(path),
            known.file_name().map(|name| name.to_str().unwrap().to_string()),
            "{path}"
        );
        assert_eq!(
            components(path),
            known
                .components()
                .map(|part| part.as_os_str().to_str().unwrap())
                .collect::<Vec<_>>(),
            "{path}"
        );
        for base in ["", "/", "a", "/a", "/w/"] {
            assert_eq!(
                join_path(base, path),
                std::path::Path::new(base).join(path).to_str().unwrap(),
                "{base} {path}"
            );
            assert_eq!(starts_with(path, base), known.starts_with(base), "{base} {path}");
        }
    }
}

#[test]
fn logs_have_safe_names() {
    assert_eq!(sanitize_target_name("a/b c.d"), "a_b_c.d");
    assert_eq!(log_file_name("web", 3), "web.3.log");
    assert_eq!(log_file_path("a/b", 1), ".rufa/logs/a_b.1.log");
}
