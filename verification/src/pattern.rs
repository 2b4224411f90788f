//! Searching text with regular expressions.

use vstd::prelude::*;

use crate::text::string_of;

verus! {

/// The matches of a pattern in a text, as the `regex` crate finds them: for each match the places
/// of its groups, the whole match first. Places count characters. Nothing where the pattern is
/// not a regular expression.
pub uninterp spec fn regex_captures(pattern: Seq<char>, text: Seq<char>) -> Option<
    Seq<Seq<Option<(usize, usize)>>>,
>;

/// Where a match begins.
pub open spec fn match_start(groups: Seq<Option<(usize, usize)>>) -> int {
    (groups[0]->0).0 as int
}

/// Where a match ends.
pub open spec fn match_end(groups: Seq<Option<(usize, usize)>>) -> int {
    (groups[0]->0).1 as int
}

/// Whether a match lies in a text of `len` characters and its groups lie in the match.
pub open spec fn match_in(groups: Seq<Option<(usize, usize)>>, len: nat) -> bool {
    &&& groups.len() > 0
    &&& groups[0] is Some
    &&& match_start(groups) <= match_end(groups) <= len
    &&& forall|g: int|
        0 <= g < groups.len() ==> ((#[trigger] groups[g]) matches Some((start, end)) ==> match_start(
            groups,
        ) <= start <= end <= match_end(groups))
}

/// Whether matches lie in a text of `len` characters, one behind the other.
pub open spec fn well_placed(found: Seq<Seq<Option<(usize, usize)>>>, len: nat) -> bool {
    &&& forall|i: int| 0 <= i < found.len() ==> match_in(#[trigger] found[i], len)
    &&& forall|i: int, j: int|
        #![trigger found[i], found[j]]
        0 <= i < j < found.len() ==> match_end(found[i]) <= match_start(found[j])
}

/// Finds every match with `regex::Regex::captures_iter`. What it finds depends on the pattern and
/// the text alone and has the name [`regex_captures`]; the places are turned from bytes into
/// characters. The matches follow each other without overlap, and the groups of a match lie
/// inside it.
#[verifier::external_body]
pub(crate) fn captures(pattern: &str, text: &str) -> (r: Option<Vec<Vec<Option<(usize, usize)>>>>)
    ensures
        r.deep_view() == regex_captures(pattern@, text@),
        r matches Some(found) ==> well_placed(found.deep_view(), text@.len()),
{
    let regex = regex::Regex::new(pattern).ok()?;
    let place = |byte: usize| text[..byte].chars().count();
    let span = |group: regex::Match| (place(group.start()), place(group.end()));
    let found = regex.captures_iter(text);
    Some(found.map(|groups| groups.iter().map(|group| group.map(span)).collect()).collect())
}

/// The text of a group of a match.
pub open spec fn group_text(
    text: Seq<char>,
    groups: Seq<Option<(usize, usize)>>,
    group: int,
) -> Option<Seq<char>> {
    if 0 <= group < groups.len() {
        match groups[group] {
            Some((start, end)) => Some(text.subrange(start as int, end as int)),
            None => None,
        }
    } else {
        None
    }
}

/// The text of a group of a match.
pub(crate) fn group_of(text: &Vec<char>, groups: &Vec<Option<(usize, usize)>>, group: usize) -> (r: Option<
    String,
>)
    requires
        match_in(groups.deep_view(), text@.len()),
    ensures
        r.deep_view() == group_text(text@, groups.deep_view(), group as int),
{
    if group < groups.len() {
        assert(groups.deep_view()[group as int] == groups@[group as int].deep_view());
        match groups[group] {
            Some((start, end)) => Some(string_of(text, start, end)),
            None => None,
        }
    } else {
        None
    }
}

/// Where the last of the matches ends; the start of the text where there is none.
pub open spec fn last_end(found: Seq<Seq<Option<(usize, usize)>>>) -> int {
    if found.len() == 0 {
        0
    } else {
        match_end(found.last())
    }
}

/// The text up to the end of the last match, with each match replaced.
pub open spec fn replaced_front(
    text: Seq<char>,
    found: Seq<Seq<Option<(usize, usize)>>>,
    replacement: spec_fn(Seq<Option<(usize, usize)>>) -> Seq<char>,
) -> Seq<char>
    decreases found.len(),
{
    if found.len() == 0 {
        Seq::empty()
    } else {
        replaced_front(text, found.drop_last(), replacement) + text.subrange(
            last_end(found.drop_last()),
            match_start(found.last()),
        ) + replacement(found.last())
    }
}

/// The text with each match replaced.
pub open spec fn replaced(
    text: Seq<char>,
    found: Seq<Seq<Option<(usize, usize)>>>,
    replacement: spec_fn(Seq<Option<(usize, usize)>>) -> Seq<char>,
) -> Seq<char> {
    replaced_front(text, found, replacement) + text.skip(last_end(found))
}

/// A text in which nothing matches stays as it is.
pub proof fn text_without_match_is_unchanged(
    text: Seq<char>,
    found: Seq<Seq<Option<(usize, usize)>>>,
    replacement: spec_fn(Seq<Option<(usize, usize)>>) -> Seq<char>,
)
    requires
        found.len() == 0,
    ensures
        replaced(text, found, replacement) == text,
{
    assert(replaced(text, found, replacement) =~= text);
}

/// A text whose matches are replaced by themselves stays as it is.
pub proof fn matches_replaced_by_themselves_change_nothing(
    text: Seq<char>,
    found: Seq<Seq<Option<(usize, usize)>>>,
    replacement: spec_fn(Seq<Option<(usize, usize)>>) -> Seq<char>,
)
    requires
        well_placed(found, text.len()),
        forall|i: int|
            0 <= i < found.len() ==> replacement(#[trigger] found[i]) == text.subrange(
                match_start(found[i]),
                match_end(found[i]),
            ),
    ensures
        replaced(text, found, replacement) == text,
{
    lemma_front_unchanged(text, found, replacement);
    if found.len() > 0 {
        assert(match_in(found[found.len() - 1], text.len()));
    }
    assert(replaced(text, found, replacement) =~= text);
}

proof fn lemma_front_unchanged(
    text: Seq<char>,
    found: Seq<Seq<Option<(usize, usize)>>>,
    replacement: spec_fn(Seq<Option<(usize, usize)>>) -> Seq<char>,
)
    requires
        well_placed(found, text.len()),
        forall|i: int|
            0 <= i < found.len() ==> replacement(#[trigger] found[i]) == text.subrange(
                match_start(found[i]),
                match_end(found[i]),
            ),
    ensures
        replaced_front(text, found, replacement) == text.take(last_end(found)),
    decreases found.len(),
{
    if found.len() > 0 {
        let rest = found.drop_last();
        assert forall|i: int| 0 <= i < rest.len() implies match_in(#[trigger] rest[i], text.len())
            && replacement(rest[i]) == text.subrange(match_start(rest[i]), match_end(rest[i])) by {
            assert(rest[i] == found[i]);
            assert(match_in(found[i], text.len()));
        }
        assert forall|i: int, j: int|
            #![trigger rest[i], rest[j]]
            0 <= i < j < rest.len() implies match_end(rest[i]) <= match_start(rest[j]) by {
            assert(rest[i] == found[i] && rest[j] == found[j]);
        }
        lemma_front_unchanged(text, rest, replacement);
        let last = found[found.len() - 1];
        assert(match_in(last, text.len()));
        assert(replacement(last) == text.subrange(match_start(last), match_end(last)));
        if rest.len() > 0 {
            assert(rest[rest.len() - 1] == found[found.len() - 2]);
            assert(match_end(found[found.len() - 2]) <= match_start(last));
            assert(match_in(found[found.len() - 2], text.len()));
        }
        assert(replaced_front(text, found, replacement) =~= text.take(last_end(found)));
    } else {
        assert(text.take(0) =~= Seq::empty());
    }
}

} // verus!
