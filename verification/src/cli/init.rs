//! The first set-up of a repository.

use vstd::prelude::*;

use crate::cli::log_laws::lemma_trim_around;
use crate::parts::{lemma_lines_concat, lemma_position_is, lines, lines_spec, without_return};
use crate::text::{
    contains, ends_with, is_empty, is_white, lowercase, occurs_at, occurs_in, same,
    to_ascii_lowercase, trim, trim_end, trim_end_spec, trim_spec,
};

verus! {

/// The configuration that is proposed.
pub const RUFA_TOML_TEMPLATE: &'static str = "# Generated by `rufa init`\n\n[log]\nfile = \"rufa.log\"\nrotation_after_seconds = 86400\nrotation_after_size_mb = 10\nkeep_history_count = 5\n\n[env]\nread_env_file = \".env\"\n\n[watch]\nstability_seconds = 2\n\n[target.sample]\nkind = \"service\"\ntype = \"bash\"\ncommand = \"echo 'replace me with your start command'\"\n";

/// What a guide is searched for to see whether it tells of rufa.
pub const GUIDE_HEADING: &'static str = "## Working with rufa";

/// What a guide is told about rufa, below the heading.
pub const GUIDE_TEXT: &'static str = "\n\n- Start the supervisor once per repo: `rufa start --watch`.\n- Launch targets as needed, for example `rufa target start sample`.\n- Check `rufa info` for port assignments and active processes.\n- Tail recent output with `rufa log --tail 20 --follow`.\n- Update `.env` and rerun `rufa target start \u{2026}` when environment changes.\n";

// ---------------------------------------------------------------------------
// Ignored files
// ---------------------------------------------------------------------------

/// Whether one of the lines of a text says just this, but for white space around it.
pub open spec fn says(text: Seq<char>, wanted: Seq<char>) -> bool {
    exists|i: int|
        0 <= i < lines_spec(text).len() && trim_spec(#[trigger] lines_spec(text)[i]) == wanted
}

/// The patterns that are to be ignored.
pub open spec fn ignore_patterns() -> Seq<Seq<char>> {
    seq![".rufa/"@, "rufa.log"@, "rufa.log.*"@]
}

/// Those of some patterns that a text does not say, in order.
pub open spec fn unsaid(text: Seq<char>, patterns: Seq<Seq<char>>) -> Seq<Seq<char>>
    decreases patterns.len(),
{
    if patterns.len() == 0 {
        Seq::empty()
    } else if says(text, patterns.last()) {
        unsaid(text, patterns.drop_last())
    } else {
        unsaid(text, patterns.drop_last()).push(patterns.last())
    }
}

/// Patterns, each on a line of its own.
pub open spec fn on_lines(patterns: Seq<Seq<char>>) -> Seq<char>
    decreases patterns.len(),
{
    if patterns.len() == 0 {
        Seq::empty()
    } else {
        on_lines(patterns.drop_last()) + patterns.last() + "\n"@
    }
}

/// What is added to the ignored files: the missing patterns, below a comment where there is none.
pub open spec fn ignore_addition(text: Seq<char>) -> Seq<char> {
    let comment = if says(text, "# rufa"@) {
        Seq::empty()
    } else {
        "# rufa\n"@
    };
    comment + on_lines(unsaid(text, ignore_patterns()))
}

/// A text that more lines can follow.
pub open spec fn line_ended(text: Seq<char>) -> Seq<char> {
    if text.len() > 0 && text.last() != '\n' {
        text.push('\n')
    } else {
        text
    }
}

/// What is to be added to the ignored files, where something is missing.
pub open spec fn addition_needed(text: Seq<char>) -> Option<Seq<char>> {
    if unsaid(text, ignore_patterns()).len() == 0 {
        None
    } else {
        Some(ignore_addition(text))
    }
}

/// A text with an addition that begins on a line of its own.
pub open spec fn with_addition(text: Seq<char>, addition: Seq<char>) -> Seq<char> {
    line_ended(text) + addition
}

/// The answer to a question that can be answered with yes or no; no answer is a no.
pub open spec fn answer_in(input: Seq<char>) -> Option<bool> {
    let answer = lowercase(trim_spec(input));
    if answer == "y"@ || answer == "yes"@ {
        Some(true)
    } else if answer == "n"@ || answer == "no"@ || answer == ""@ {
        Some(false)
    } else {
        None
    }
}

/// What is shown of the guide before it is written.
pub open spec fn previewed_guide(created: bool) -> Seq<char> {
    if created {
        "# Agent Guide\n\n"@ + guide_section()
    } else {
        guide_section()
    }
}

/// Whether one of the lines of the text says just this, but for white space around it.
pub fn has_line(text: &str, wanted: &str) -> (r: bool)
    ensures
        r == says(text@, wanted@),
{
    let all: Vec<String> = lines(text);
    let ghost list = all.deep_view();
    let mut i: usize = 0;
    while i < all.len()
        invariant
            i <= all@.len(),
            list == all.deep_view(),
            list == lines_spec(text@),
            forall|k: int| 0 <= k < i ==> trim_spec(#[trigger] list[k]) != wanted@,
        decreases all@.len() - i,
    {
        assert(all@[i as int]@ == list[i as int]);
        if same(trim(all[i].as_str()).as_str(), wanted) {
            assert(trim_spec(list[i as int]) == wanted@);
            return true;
        }
        i = i + 1;
    }
    false
}

/// The patterns that are not ignored yet.
pub fn missing_patterns(existing: &str) -> (r: Vec<String>)
    ensures
        r.deep_view() == unsaid(existing@, ignore_patterns()),
{
    let mut patterns: Vec<String> = Vec::new();
    patterns.push(".rufa/".to_owned());
    patterns.push("rufa.log".to_owned());
    patterns.push("rufa.log.*".to_owned());
    assert(patterns.deep_view() =~= ignore_patterns());
    let ghost list = patterns.deep_view();
    let mut r: Vec<String> = Vec::new();
    let mut i: usize = 0;
    assert(list.take(0) =~= Seq::empty());
    assert(r.deep_view() =~= Seq::empty());
    while i < patterns.len()
        invariant
            i <= patterns@.len(),
            list == patterns.deep_view(),
            r.deep_view() == unsaid(existing@, list.take(i as int)),
        decreases patterns@.len() - i,
    {
        assert(list.take(i + 1).drop_last() =~= list.take(i as int));
        assert(patterns@[i as int]@ == list[i as int]);
        let ghost before = r.deep_view();
        if !has_line(existing, patterns[i].as_str()) {
            r.push(patterns[i].clone());
            assert(r.deep_view() =~= before.push(list[i as int]));
        }
        i = i + 1;
    }
    assert(list.take(i as int) =~= list);
    r
}

/// What is to be added to the ignored files; nothing where they are all ignored.
pub fn gitignore_addition(existing: &str) -> (r: Option<String>)
    ensures
        r.deep_view() == addition_needed(existing@),
{
    let missing: Vec<String> = missing_patterns(existing);
    if missing.len() == 0 {
        return None;
    }
    let ghost list = missing.deep_view();
    let mut r: String = String::new();
    assert(r@ =~= Seq::empty());
    if !has_line(existing, "# rufa") {
        r.append("# rufa\n");
        assert(r@ =~= "# rufa\n"@);
    }
    let ghost comment = r@;
    let mut i: usize = 0;
    assert(list.take(0) =~= Seq::empty());
    assert(comment + on_lines(list.take(0)) =~= comment);
    while i < missing.len()
        invariant
            i <= missing@.len(),
            list == missing.deep_view(),
            r@ == comment + on_lines(list.take(i as int)),
        decreases missing@.len() - i,
    {
        assert(list.take(i + 1).drop_last() =~= list.take(i as int));
        assert(missing@[i as int]@ == list[i as int]);
        let ghost before = on_lines(list.take(i as int));
        r.append(missing[i].as_str());
        r.append("\n");
        assert(comment + before + list[i as int] + "\n"@ =~= comment + (before + list[i as int]
            + "\n"@));
        i = i + 1;
    }
    assert(list.take(i as int) =~= list);
    Some(r)
}

/// The ignored files with what is to be added.
pub fn updated_gitignore(existing: &str, addition: &str) -> (r: String)
    ensures
        r@ == with_addition(existing@, addition@),
{
    let mut r: String = existing.to_owned();
    proof {
        reveal_strlit("\n");
    }
    proof {
        if existing@.len() > 0 {
            let n = existing@.len() as int;
            let tail = existing@.subrange(n - 1, n);
            assert(tail =~= seq![existing@.last()]);
            assert("\n"@ =~= seq!['\n']);
            assert(tail == "\n"@ <==> existing@.last() == '\n') by {
                assert(tail[0] == existing@.last());
            }
        }
    }
    if !is_empty(existing) && !ends_with(existing, "\n") {
        r.push('\n');
    }
    r.append(addition);
    r
}

// ---------------------------------------------------------------------------
// The guide
// ---------------------------------------------------------------------------

/// What a guide is told about rufa.
pub open spec fn guide_section() -> Seq<char> {
    GUIDE_HEADING@ + GUIDE_TEXT@
}

/// A guide that tells of rufa, where it did not.
pub open spec fn guide_updated(existing: Option<Seq<char>>) -> Option<Seq<char>> {
    match existing {
        Some(text) => if occurs_in(text, GUIDE_HEADING@) {
            None
        } else if trim_end_spec(text).len() == 0 {
            Some(text + guide_section())
        } else {
            Some(text + "\n\n"@ + guide_section())
        },
        None => Some("# Agent Guide\n\n"@ + guide_section()),
    }
}

/// What is proposed to be added to a guide.
pub fn guide_preview(created: bool) -> (r: String)
    ensures
        r@ == previewed_guide(created),
{
    let mut section: String = GUIDE_HEADING.to_owned();
    section.append(GUIDE_TEXT);
    if created {
        let mut r: String = "# Agent Guide\n\n".to_owned();
        r.append(section.as_str());
        r
    } else {
        section
    }
}

/// The guide with what it is told about rufa; nothing where it tells of rufa already. No text
/// stands for a guide that is missing.
pub fn updated_guide(existing: Option<&str>) -> (r: Option<String>)
    ensures
        r.deep_view() == guide_updated(existing.deep_view()),
{
    match existing {
        Some(text) => {
            if contains(text, GUIDE_HEADING) {
                return None;
            }
            let mut r: String = text.to_owned();
            if !is_empty(trim_end(text).as_str()) {
                r.append("\n\n");
            }
            r.append(guide_preview(false).as_str());
            Some(r)
        },
        None => Some(guide_preview(true)),
    }
}

// ---------------------------------------------------------------------------
// Answers
// ---------------------------------------------------------------------------

/// What an answer to a question means; nothing where it is neither yes nor no.
pub fn parse_answer(input: &str) -> (r: Option<bool>)
    ensures
        r == answer_in(input@),
{
    let answer: String = to_ascii_lowercase(trim(input).as_str());
    if same(answer.as_str(), "y") || same(answer.as_str(), "yes") {
        Some(true)
    } else if same(answer.as_str(), "n") || same(answer.as_str(), "no") || same(
        answer.as_str(),
        "",
    ) {
        Some(false)
    } else {
        None
    }
}

// ---------------------------------------------------------------------------
// Laws
// ---------------------------------------------------------------------------

proof fn lemma_says_concat(a: Seq<char>, b: Seq<char>, wanted: Seq<char>)
    requires
        a.len() > 0 ==> a.last() == '\n',
    ensures
        says(a + b, wanted) <==> says(a, wanted) || says(b, wanted),
{
    lemma_lines_concat(a, b);
    let x = lines_spec(a);
    let y = lines_spec(b);
    let all = lines_spec(a + b);
    if says(a, wanted) {
        let i = choose|i: int| 0 <= i < x.len() && trim_spec(#[trigger] x[i]) == wanted;
        assert(all[i] == x[i]);
    }
    if says(b, wanted) {
        let i = choose|i: int| 0 <= i < y.len() && trim_spec(#[trigger] y[i]) == wanted;
        assert(all[x.len() + i] == y[i]);
    }
    if says(a + b, wanted) {
        let i = choose|i: int| 0 <= i < all.len() && trim_spec(#[trigger] all[i]) == wanted;
        if i < x.len() {
            assert(all[i] == x[i]);
        } else {
            assert(all[i] == y[i - x.len()]);
        }
    }
}

/// Whether a text is one line that does not start or end with white space.
spec fn plain_line(text: Seq<char>) -> bool {
    &&& text.len() > 0
    &&& !is_white(text[0])
    &&& !is_white(text.last())
    &&& !text.contains('\n')
}

proof fn lemma_one_line(text: Seq<char>)
    requires
        plain_line(text),
    ensures
        says(text + "\n"@, text),
{
    reveal_strlit("\n");
    let whole = text + "\n"@;
    assert forall|k: int| 0 <= k < text.len() implies whole[k] != '\n' by {
        assert(text.contains(text[k]));
    }
    lemma_position_is(whole, '\n', text.len() as int);
    assert(whole.take(text.len() as int) =~= text);
    assert(without_return(text) == text);
    assert(lines_spec(whole)[0] == text);
    assert(Seq::<char>::empty() + text + Seq::<char>::empty() =~= text);
    lemma_trim_around(Seq::empty(), text, Seq::empty());
}

proof fn lemma_on_lines(patterns: Seq<Seq<char>>, i: int)
    requires
        0 <= i < patterns.len(),
        forall|k: int| 0 <= k < patterns.len() ==> plain_line(#[trigger] patterns[k]),
    ensures
        says(on_lines(patterns), patterns[i]),
        on_lines(patterns).len() > 0 ==> on_lines(patterns).last() == '\n',
    decreases patterns.len(),
{
    reveal_strlit("\n");
    let front = patterns.drop_last();
    let last = patterns[patterns.len() - 1];
    assert(plain_line(last));
    assert forall|k: int| 0 <= k < front.len() implies plain_line(#[trigger] front[k]) by {
        assert(front[k] == patterns[k]);
    }
    lemma_one_line(last);
    if front.len() > 0 {
        lemma_on_lines(front, if i < front.len() { i } else { 0 });
    } else {
        assert(on_lines(front) =~= Seq::empty());
    }
    assert(on_lines(patterns) =~= on_lines(front) + (last + "\n"@));
    lemma_says_concat(on_lines(front), last + "\n"@, patterns[i]);
}

proof fn lemma_unsaid(text: Seq<char>, patterns: Seq<Seq<char>>)
    ensures
        forall|k: int|
            0 <= k < unsaid(text, patterns).len() ==> patterns.contains(
                #[trigger] unsaid(text, patterns)[k],
            ),
        forall|k: int|
            0 <= k < patterns.len() ==> says(text, #[trigger] patterns[k]) || unsaid(
                text,
                patterns,
            ).contains(patterns[k]),
        (forall|k: int| 0 <= k < patterns.len() ==> says(text, #[trigger] patterns[k]))
            ==> unsaid(text, patterns).len() == 0,
    decreases patterns.len(),
{
    if patterns.len() > 0 {
        let front = patterns.drop_last();
        let some = unsaid(text, front);
        let all = unsaid(text, patterns);
        lemma_unsaid(text, front);
        assert forall|k: int| 0 <= k < all.len() implies patterns.contains(#[trigger] all[k]) by {
            if k < some.len() {
                assert(front.contains(some[k]));
                let j = choose|j: int| 0 <= j < front.len() && front[j] == some[k];
                assert(patterns[j] == all[k]);
            } else {
                assert(patterns[patterns.len() - 1] == all[k]);
            }
        }
        assert forall|k: int| 0 <= k < patterns.len() implies says(text, #[trigger] patterns[k])
            || all.contains(patterns[k]) by {
            if k < front.len() {
                assert(front[k] == patterns[k]);
                if !says(text, front[k]) {
                    let j = choose|j: int| 0 <= j < some.len() && some[j] == front[k];
                    assert(all[j] == front[k]);
                }
            } else if !says(text, patterns[k]) {
                assert(all[some.len() as int] == patterns[k]);
            }
        }
        if forall|k: int| 0 <= k < patterns.len() ==> says(text, #[trigger] patterns[k]) {
            assert forall|k: int| 0 <= k < front.len() implies says(text, #[trigger] front[k]) by {
                assert(front[k] == patterns[k]);
            }
            assert(says(text, patterns[patterns.len() - 1]));
        }
    }
}

proof fn lemma_patterns_are_plain()
    ensures
        forall|k: int|
            0 <= k < ignore_patterns().len() ==> plain_line(#[trigger] ignore_patterns()[k]),
{
    reveal_strlit(".rufa/");
    reveal_strlit("rufa.log");
    reveal_strlit("rufa.log.*");
    assert forall|k: int| 0 <= k < ignore_patterns().len() implies plain_line(
        #[trigger] ignore_patterns()[k],
    ) by {
        let text = ignore_patterns()[k];
        assert(k == 0 || k == 1 || k == 2);
        if text.contains('\n') {
            let i = choose|i: int| 0 <= i < text.len() && text[i] == '\n';
            assert(false);
        }
    }
}

/// After the ignored files were brought up to date nothing is missing from them, and what they
/// said before is still said.
pub proof fn updated_gitignore_is_complete(text: Seq<char>, other: Seq<char>)
    ensures
        unsaid(line_ended(text) + ignore_addition(text), ignore_patterns()).len() == 0,
        says(text, other) ==> says(line_ended(text) + ignore_addition(text), other),
{
    reveal_strlit("# rufa\n");
    let start = line_ended(text);
    let patterns = ignore_patterns();
    let missing = unsaid(text, patterns);
    let comment = if says(text, "# rufa"@) {
        Seq::empty()
    } else {
        "# rufa\n"@
    };
    let updated = start + ignore_addition(text);
    lemma_patterns_are_plain();
    lemma_unsaid(text, patterns);
    lemma_says_concat(start, ignore_addition(text), other);
    if says(text, other) {
        lemma_line_ended(text, other);
    }
    assert forall|k: int| 0 <= k < patterns.len() implies says(updated, #[trigger] patterns[k]) by {
        lemma_says_concat(start, ignore_addition(text), patterns[k]);
        if says(text, patterns[k]) {
            lemma_line_ended(text, patterns[k]);
        } else {
            assert(missing.contains(patterns[k]));
            let j = choose|j: int| 0 <= j < missing.len() && missing[j] == patterns[k];
            assert forall|i: int| 0 <= i < missing.len() implies plain_line(
                #[trigger] missing[i],
            ) by {
                assert(patterns.contains(missing[i]));
            }
            lemma_on_lines(missing, j);
            lemma_says_concat(comment, on_lines(missing), patterns[k]);
        }
    }
    lemma_unsaid(updated, patterns);
}

proof fn lemma_line_ended(text: Seq<char>, wanted: Seq<char>)
    requires
        says(text, wanted),
    ensures
        says(line_ended(text), wanted),
    decreases text.len(),
{
    if text.len() > 0 && text.last() != '\n' {
        crate::parts::lemma_position(text, '\n');
        let p = crate::parts::position(text, '\n') as int;
        let more = text.push('\n');
        if p < text.len() {
            let rest = text.skip(p + 1);
            assert forall|k: int| 0 <= k < p implies more[k] != '\n' by {
                assert(text[k] != '\n');
            }
            lemma_position_is(more, '\n', p);
            assert(more.take(p) =~= text.take(p));
            assert(more.skip(p + 1) =~= rest.push('\n'));
            assert(rest.len() > 0) by {
                if rest.len() == 0 {
                    assert(p == text.len() - 1);
                }
            }
            assert(rest.last() == text.last());
            let i = choose|i: int|
                0 <= i < lines_spec(text).len() && trim_spec(#[trigger] lines_spec(text)[i])
                    == wanted;
            if i == 0 {
                assert(lines_spec(more)[0] == lines_spec(text)[0]);
            } else {
                assert(lines_spec(rest)[i - 1] == lines_spec(text)[i]);
                assert(says(rest, wanted));
                lemma_line_ended(rest, wanted);
                let after = lines_spec(rest.push('\n'));
                let j = choose|j: int| 0 <= j < after.len() && trim_spec(#[trigger] after[j]) == wanted;
                assert(lines_spec(more)[j + 1] == after[j]);
            }
        } else {
            assert forall|k: int| 0 <= k < text.len() implies more[k] != '\n' by {
                assert(text[k] != '\n');
            }
            lemma_position_is(more, '\n', text.len() as int);
            assert(more.take(text.len() as int) =~= text);
            assert(lines_spec(text) =~= seq![text]);
            assert(trim_spec(text) == wanted);
            assert(lines_spec(more)[0] == without_return(text));
            if text.last() == '\r' {
                crate::cli::log_laws::lemma_trim_last(text);
            }
            assert(trim_spec(without_return(text)) == wanted);
        }
    }
}

/// A guide that was brought up to date tells of rufa, so it is not changed a second time.
pub proof fn updated_guide_is_left_alone(existing: Option<Seq<char>>)
    ensures
        guide_updated(existing) matches Some(text) ==> guide_updated(Some(text)) is None,
{
    if let Some(text) = guide_updated(existing) {
        let section = guide_section();
        let start = text.len() - section.len();
        assert(text.skip(start) =~= section);
        assert(occurs_at(text, GUIDE_HEADING@, start)) by {
            assert(text.subrange(start, start + GUIDE_HEADING@.len()) =~= GUIDE_HEADING@) by {
                assert forall|k: int| 0 <= k < GUIDE_HEADING@.len() implies text[start + k]
                    == GUIDE_HEADING@[k] by {
                    assert(text.skip(start)[k] == section[k]);
                }
            }
        }
        assert(occurs_in(text, GUIDE_HEADING@));
    }
}

/// What stands in the guide stays, in front of what is added; what is added is what was shown.
pub proof fn guide_keeps_what_it_holds(text: Seq<char>)
    ensures
        guide_updated(None) == Some(previewed_guide(true)),
        guide_updated(Some(text)) is None <==> occurs_in(text, GUIDE_HEADING@),
        guide_updated(Some(text)) matches Some(updated) ==> text.is_prefix_of(updated)
            && previewed_guide(false).is_suffix_of(updated),
        GUIDE_HEADING@.is_prefix_of(previewed_guide(false)),
{
    if let Some(updated) = guide_updated(Some(text)) {
        let section = guide_section();
        assert(updated.take(text.len() as int) =~= text);
        assert(updated.subrange(updated.len() - section.len(), updated.len() as int) =~= section);
    }
    assert(previewed_guide(false).take(GUIDE_HEADING@.len() as int) =~= GUIDE_HEADING@);
}

/// The ignored files are changed exactly where a pattern is missing; what they hold stays, in front
/// of what is added, which begins on a line of its own.
pub proof fn ignored_files_keep_what_they_hold(text: Seq<char>, addition: Seq<char>)
    ensures
        addition_needed(text) is None <==> says(text, ".rufa/"@) && says(text, "rufa.log"@) && says(
            text,
            "rufa.log.*"@,
        ),
        text.is_prefix_of(with_addition(text, addition)),
        addition.is_suffix_of(with_addition(text, addition)),
        with_addition(text, addition).len() <= text.len() + 1 + addition.len(),
        text.len() > 0 ==> with_addition(text, addition)[with_addition(text, addition).len()
            - addition.len() - 1] == '\n',
{
    let patterns = ignore_patterns();
    lemma_unsaid(text, patterns);
    let missing = unsaid(text, patterns);
    assert(patterns[0] == ".rufa/"@ && patterns[1] == "rufa.log"@ && patterns[2] == "rufa.log.*"@);
    assert(patterns.contains(patterns[0]) && patterns.contains(patterns[1]) && patterns.contains(
        patterns[2],
    ));
    if missing.len() > 0 {
        assert(missing.contains(missing[0]));
        assert(patterns.contains(missing[0]));
    }
    let all = with_addition(text, addition);
    assert(all.take(text.len() as int) =~= text);
    assert(all.subrange(all.len() - addition.len(), all.len() as int) =~= addition);
}

/// An answer counts in whichever case and between whichever white space it stands; anything but yes
/// and no is asked for again.
pub proof fn answers_count_in_any_case(input: Seq<char>, other: Seq<char>)
    ensures
        lowercase(trim_spec(input)) == lowercase(trim_spec(other)) ==> answer_in(input)
            == answer_in(other),
        trim_spec(input).len() == 0 ==> answer_in(input) == Some(false),
        lowercase(trim_spec(input)) == "y"@ || lowercase(trim_spec(input)) == "yes"@ <==> answer_in(
            input,
        ) == Some(true),
        answer_in(input) is None <==> lowercase(trim_spec(input)) != "y"@ && lowercase(
            trim_spec(input),
        ) != "yes"@ && lowercase(trim_spec(input)) != "n"@ && lowercase(trim_spec(input)) != "no"@
            && trim_spec(input).len() > 0,
{
    reveal_strlit("");
    reveal_strlit("y");
    reveal_strlit("yes");
    if trim_spec(input).len() == 0 {
        assert(lowercase(trim_spec(input)) =~= ""@);
    } else {
        assert(lowercase(trim_spec(input)).len() > 0);
        assert(""@.len() == 0);
    }
}

} // verus!
