//! Cutting strings into parts and putting parts together.

use vstd::prelude::*;

use crate::text::{chars_of, string_of};

verus! {

// ---------------------------------------------------------------------------
// Splitting at a character
// ---------------------------------------------------------------------------

/// The position of the first `c` in `s`, or the length of `s` where there is none.
pub open spec fn position(s: Seq<char>, c: char) -> nat
    decreases s.len(),
{
    if s.len() == 0 || s[0] == c {
        0
    } else {
        1 + position(s.drop_first(), c)
    }
}

/// What `position` says of the characters before it and at it.
pub proof fn lemma_position(s: Seq<char>, c: char)
    ensures
        position(s, c) <= s.len(),
        position(s, c) < s.len() ==> s[position(s, c) as int] == c,
        forall|i: int| 0 <= i < position(s, c) ==> s[i] != c,
    decreases s.len(),
{
    if s.len() > 0 && s[0] != c {
        lemma_position(s.drop_first(), c);
        assert forall|i: int| 0 <= i < position(s, c) implies s[i] != c by {
            if i > 0 {
                assert(s[i] == s.drop_first()[i - 1]);
            }
        }
    }
}

/// A position with `c` at it (or the end) and no `c` before it is `position`.
pub proof fn lemma_position_is(s: Seq<char>, c: char, i: int)
    requires
        0 <= i <= s.len(),
        i < s.len() ==> s[i] == c,
        forall|k: int| 0 <= k < i ==> s[k] != c,
    ensures
        position(s, c) == i,
{
    lemma_position(s, c);
    let p = position(s, c) as int;
    if p < i {
        assert(s[p] != c);
    } else if i < p {
        assert(s[i] == c);
    }
}

fn position_from(chars: &Vec<char>, c: char, from: usize) -> (r: usize)
    requires
        from <= chars@.len(),
    ensures
        from <= r <= chars@.len(),
        r == from + position(chars@.skip(from as int), c),
{
    let mut i: usize = from;
    while i < chars.len() && chars[i] != c
        invariant
            from <= i <= chars@.len(),
            forall|k: int| from <= k < i ==> chars@[k] != c,
        decreases chars@.len() - i,
    {
        i = i + 1;
    }
    proof {
        lemma_position_is(chars@.skip(from as int), c, i - from);
    }
    i
}

/// The parts of `s` between the occurrences of `c`.
pub open spec fn split_spec(s: Seq<char>, c: char) -> Seq<Seq<char>>
    decreases s.len(),
{
    let p = position(s, c) as int;
    if p < s.len() {
        seq![s.take(p)] + split_spec(s.skip(p + 1), c)
    } else {
        seq![s]
    }
}

/// The parts of the string between the occurrences of `c`.
pub fn split(s: &str, c: char) -> (parts: Vec<String>)
    ensures
        parts.deep_view() == split_spec(s@, c),
{
    let chars: Vec<char> = chars_of(s);
    let mut parts: Vec<String> = Vec::new();
    let mut from: usize = 0;
    assert(s@.skip(0) =~= s@);
    assert(parts.deep_view() + split_spec(s@, c) =~= split_spec(s@, c));
    loop
        invariant
            from <= chars.len(),
            chars@ == s@,
            parts.deep_view() + split_spec(s@.skip(from as int), c) == split_spec(s@, c),
        decreases chars@.len() - from,
    {
        let end: usize = position_from(&chars, c, from);
        let ghost rest = s@.skip(from as int);
        let ghost before = parts.deep_view();
        if end == chars.len() {
            assert(rest =~= s@.subrange(from as int, end as int));
            parts.push(string_of(&chars, from, end));
            assert(parts.deep_view() =~= before.push(rest));
            assert(before + seq![rest] =~= before.push(rest));
            return parts;
        }
        assert(rest.take(end - from) =~= s@.subrange(from as int, end as int));
        assert(rest.skip(end - from + 1) =~= s@.skip(end + 1));
        parts.push(string_of(&chars, from, end));
        assert(parts.deep_view() =~= before.push(rest.take(end - from)));
        assert(before + (seq![rest.take(end - from)] + split_spec(s@.skip(end + 1), c))
            =~= parts.deep_view() + split_spec(s@.skip(end + 1), c));
        from = end + 1;
    }
}

/// At most `n` parts of `s` between the occurrences of `c`; the last holds the rest.
pub open spec fn splitn_spec(s: Seq<char>, n: nat, c: char) -> Seq<Seq<char>>
    decreases n,
{
    let p = position(s, c) as int;
    if n == 0 {
        Seq::empty()
    } else if n > 1 && p < s.len() {
        seq![s.take(p)] + splitn_spec(s.skip(p + 1), (n - 1) as nat, c)
    } else {
        seq![s]
    }
}

/// At most `n` parts of the string between the occurrences of `c`; the last holds the rest.
pub fn splitn(s: &str, n: usize, c: char) -> (parts: Vec<String>)
    ensures
        parts.deep_view() == splitn_spec(s@, n as nat, c),
{
    let chars: Vec<char> = chars_of(s);
    let mut parts: Vec<String> = Vec::new();
    if n == 0 {
        assert(parts.deep_view() =~= Seq::empty());
        return parts;
    }
    let mut left: usize = n;
    let mut from: usize = 0;
    assert(s@.skip(0) =~= s@);
    assert(parts.deep_view() + splitn_spec(s@, n as nat, c) =~= splitn_spec(s@, n as nat, c));
    loop
        invariant
            from <= chars.len(),
            chars@ == s@,
            left > 0,
            parts.deep_view() + splitn_spec(s@.skip(from as int), left as nat, c) == splitn_spec(
                s@,
                n as nat,
                c,
            ),
        decreases left,
    {
        let end: usize = position_from(&chars, c, from);
        let ghost rest = s@.skip(from as int);
        let ghost before = parts.deep_view();
        if left == 1 || end == chars.len() {
            assert(rest =~= s@.subrange(from as int, s@.len() as int));
            parts.push(string_of(&chars, from, chars.len()));
            assert(parts.deep_view() =~= before.push(rest));
            assert(before + seq![rest] =~= before.push(rest));
            return parts;
        }
        assert(rest.take(end - from) =~= s@.subrange(from as int, end as int));
        assert(rest.skip(end - from + 1) =~= s@.skip(end + 1));
        parts.push(string_of(&chars, from, end));
        assert(parts.deep_view() =~= before.push(rest.take(end - from)));
        assert(before + (seq![rest.take(end - from)] + splitn_spec(
            s@.skip(end + 1),
            (left - 1) as nat,
            c,
        )) =~= parts.deep_view() + splitn_spec(s@.skip(end + 1), (left - 1) as nat, c));
        from = end + 1;
        left = left - 1;
    }
}

/// The parts before and behind the first `c`, where there is one.
pub open spec fn split_once_spec(s: Seq<char>, c: char) -> Option<(Seq<char>, Seq<char>)> {
    let p = position(s, c) as int;
    if p < s.len() {
        Some((s.take(p), s.skip(p + 1)))
    } else {
        None
    }
}

/// The parts before and behind the first `c`, where there is one.
pub fn split_once(s: &str, c: char) -> (r: Option<(String, String)>)
    ensures
        r.deep_view() == split_once_spec(s@, c),
{
    let chars: Vec<char> = chars_of(s);
    let p: usize = position_from(&chars, c, 0);
    assert(s@.skip(0) =~= s@);
    if p < chars.len() {
        assert(s@.take(p as int) =~= s@.subrange(0, p as int));
        assert(s@.skip(p + 1) =~= s@.subrange(p + 1, s@.len() as int));
        Some((string_of(&chars, 0, p), string_of(&chars, p + 1, chars.len())))
    } else {
        None
    }
}

// ---------------------------------------------------------------------------
// Lines
// ---------------------------------------------------------------------------

/// A line without the carriage return that stood before its line feed.
pub open spec fn without_return(line: Seq<char>) -> Seq<char> {
    if line.len() > 0 && line.last() == '\r' {
        line.drop_last()
    } else {
        line
    }
}

/// The lines of `s`: each ends with a line feed, which may follow a carriage return and may be
/// missing from the last line.
pub open spec fn lines_spec(s: Seq<char>) -> Seq<Seq<char>>
    decreases s.len(),
{
    let p = position(s, '\n') as int;
    if s.len() == 0 {
        Seq::empty()
    } else if p < s.len() {
        seq![without_return(s.take(p))] + lines_spec(s.skip(p + 1))
    } else {
        seq![s]
    }
}

/// The lines of the string, without their line ends.
pub fn lines(s: &str) -> (out: Vec<String>)
    ensures
        out.deep_view() == lines_spec(s@),
{
    let chars: Vec<char> = chars_of(s);
    let mut out: Vec<String> = Vec::new();
    let mut from: usize = 0;
    assert(s@.skip(0) =~= s@);
    assert(out.deep_view() + lines_spec(s@) =~= lines_spec(s@));
    while from < chars.len()
        invariant
            from <= chars.len(),
            chars@ == s@,
            out.deep_view() + lines_spec(s@.skip(from as int)) == lines_spec(s@),
        decreases chars@.len() - from,
    {
        let end: usize = position_from(&chars, '\n', from);
        let ghost rest = s@.skip(from as int);
        let ghost before = out.deep_view();
        if end == chars.len() {
            assert(rest =~= s@.subrange(from as int, end as int));
            out.push(string_of(&chars, from, end));
            assert(out.deep_view() =~= before.push(rest));
            assert(before + seq![rest] =~= before.push(rest));
            return out;
        }
        let last: usize = if from < end && chars[end - 1] == '\r' {
            end - 1
        } else {
            end
        };
        assert(rest.take(end - from) =~= s@.subrange(from as int, end as int));
        assert(without_return(rest.take(end - from)) =~= s@.subrange(from as int, last as int));
        assert(rest.skip(end - from + 1) =~= s@.skip(end + 1));
        out.push(string_of(&chars, from, last));
        assert(out.deep_view() =~= before.push(without_return(rest.take(end - from))));
        assert(before + (seq![without_return(rest.take(end - from))] + lines_spec(s@.skip(end + 1)))
            =~= out.deep_view() + lines_spec(s@.skip(end + 1)));
        from = end + 1;
    }
    assert(out.deep_view() + lines_spec(s@.skip(from as int)) =~= out.deep_view());
    out
}

/// Texts of which the first ends with a line end have the lines of the one and then the other.
pub proof fn lemma_lines_concat(a: Seq<char>, b: Seq<char>)
    requires
        a.len() > 0 ==> a.last() == '\n',
    ensures
        lines_spec(a + b) == lines_spec(a) + lines_spec(b),
    decreases a.len(),
{
    if a.len() == 0 {
        assert(a + b =~= b);
        assert(lines_spec(a) + lines_spec(b) =~= lines_spec(b));
    } else {
        lemma_position(a, '\n');
        let p = position(a, '\n') as int;
        if p == a.len() {
            assert(a[a.len() - 1] != '\n');
        }
        assert forall|k: int| 0 <= k < p implies (a + b)[k] != '\n' by {
            assert(a[k] != '\n');
        }
        lemma_position_is(a + b, '\n', p);
        assert((a + b).take(p) =~= a.take(p));
        assert((a + b).skip(p + 1) =~= a.skip(p + 1) + b);
        lemma_lines_concat(a.skip(p + 1), b);
        assert(lines_spec(a + b) =~= lines_spec(a) + lines_spec(b));
    }
}

// ---------------------------------------------------------------------------
// Joining and padding
// ---------------------------------------------------------------------------

/// The parts one behind the other, with `sep` between neighbours.
pub open spec fn join_spec(parts: Seq<Seq<char>>, sep: Seq<char>) -> Seq<char>
    decreases parts.len(),
{
    if parts.len() == 0 {
        Seq::empty()
    } else if parts.len() == 1 {
        parts[0]
    } else {
        join_spec(parts.drop_last(), sep) + sep + parts.last()
    }
}

/// The parts one behind the other, with `sep` between neighbours.
pub fn join(parts: &Vec<String>, sep: &str) -> (r: String)
    ensures
        r@ == join_spec(parts.deep_view(), sep@),
{
    let mut r: String = String::new();
    let mut i: usize = 0;
    assert(parts.deep_view().take(0) =~= Seq::empty());
    while i < parts.len()
        invariant
            i <= parts@.len(),
            r@ == join_spec(parts.deep_view().take(i as int), sep@),
        decreases parts@.len() - i,
    {
        if i > 0 {
            r.append(sep);
        }
        r.append(parts[i].as_str());
        assert(parts.deep_view().take(i + 1).drop_last() =~= parts.deep_view().take(i as int));
        assert(parts.deep_view().take(i + 1).last() == parts@[i as int]@);
        assert(i == 0 ==> r@ =~= parts@[i as int]@);
        i = i + 1;
    }
    assert(parts.deep_view().take(parts@.len() as int) =~= parts.deep_view());
    r
}

/// `n` times the character `c`.
pub open spec fn repeat_spec(c: char, n: nat) -> Seq<char> {
    Seq::new(n, |i: int| c)
}

/// `n` times the character `c`.
pub fn repeat(c: char, n: usize) -> (r: String)
    ensures
        r@ == repeat_spec(c, n as nat),
{
    let mut r: String = String::new();
    let mut i: usize = 0;
    while i < n
        invariant
            i <= n,
            r@ == repeat_spec(c, i as nat),
        decreases n - i,
    {
        r.push(c);
        i = i + 1;
        assert(r@ =~= repeat_spec(c, i as nat));
    }
    r
}

/// `s` followed by spaces up to `width` characters.
pub open spec fn pad_end_spec(s: Seq<char>, width: nat) -> Seq<char> {
    if s.len() < width {
        s + repeat_spec(' ', (width - s.len()) as nat)
    } else {
        s
    }
}

/// The string followed by spaces up to `width` characters.
pub fn pad_end(s: &str, width: usize) -> (r: String)
    ensures
        r@ == pad_end_spec(s@, width as nat),
{
    let chars: Vec<char> = chars_of(s);
    let mut r: String = s.to_owned();
    if chars.len() < width {
        r.append(repeat(' ', width - chars.len()).as_str());
    }
    r
}

/// `s` behind spaces, up to `width` characters.
pub open spec fn pad_start_spec(s: Seq<char>, width: nat) -> Seq<char> {
    if s.len() < width {
        repeat_spec(' ', (width - s.len()) as nat) + s
    } else {
        s
    }
}

/// The string behind spaces, up to `width` characters.
pub fn pad_start(s: &str, width: usize) -> (r: String)
    ensures
        r@ == pad_start_spec(s@, width as nat),
{
    let chars: Vec<char> = chars_of(s);
    if chars.len() < width {
        let mut r: String = repeat(' ', width - chars.len());
        r.append(s);
        r
    } else {
        s.to_owned()
    }
}

// ---------------------------------------------------------------------------
// Replacing
// ---------------------------------------------------------------------------

/// `s` with `by` in place of `p`, from the left, without overlaps.
pub open spec fn replace_spec(s: Seq<char>, p: Seq<char>, by: Seq<char>) -> Seq<char>
    decreases s.len(),
{
    if s.len() == 0 || p.len() == 0 {
        s
    } else if p.is_prefix_of(s) {
        by + replace_spec(s.skip(p.len() as int), p, by)
    } else {
        seq![s[0]] + replace_spec(s.drop_first(), p, by)
    }
}

fn stands_at(s: &Vec<char>, p: &Vec<char>, i: usize) -> (r: bool)
    requires
        i <= s@.len(),
    ensures
        r == p@.is_prefix_of(s@.skip(i as int)),
{
    if p.len() > s.len() - i {
        return false;
    }
    let mut j: usize = 0;
    while j < p.len()
        invariant
            i + p@.len() <= s.len(),
            j <= p@.len(),
            forall|k: int| 0 <= k < j ==> s@[i + k] == p@[k],
        decreases p@.len() - j,
    {
        if s[i + j] != p[j] {
            assert(s@.skip(i as int).subrange(0, p@.len() as int)[j as int] != p@[j as int]);
            return false;
        }
        j = j + 1;
    }
    assert(s@.skip(i as int).subrange(0, p@.len() as int) =~= p@);
    true
}

/// The string with `by` in place of each occurrence of the non-empty `p`.
pub fn replace(s: &str, p: &str, by: &str) -> (r: String)
    requires
        p@.len() > 0,
    ensures
        r@ == replace_spec(s@, p@, by@),
{
    let text: Vec<char> = chars_of(s);
    let pattern: Vec<char> = chars_of(p);
    let mut r: String = String::new();
    let mut i: usize = 0;
    assert(s@.skip(0) =~= s@);
    assert(r@ + replace_spec(s@, p@, by@) =~= replace_spec(s@, p@, by@));
    while i < text.len()
        invariant
            i <= text.len(),
            text@ == s@,
            pattern@ == p@,
            p@.len() > 0,
            r@ + replace_spec(s@.skip(i as int), p@, by@) == replace_spec(s@, p@, by@),
        decreases text@.len() - i,
    {
        let ghost rest = s@.skip(i as int);
        let ghost before = r@;
        if stands_at(&text, &pattern, i) {
            assert(i + p@.len() <= text.len());
            r.append(by);
            assert(rest.skip(p@.len() as int) =~= s@.skip(i + p@.len()));
            assert(before + (by@ + replace_spec(s@.skip(i + p@.len()), p@, by@)) =~= r@
                + replace_spec(s@.skip(i + p@.len()), p@, by@));
            i = i + pattern.len();
        } else {
            r.push(text[i]);
            assert(rest.drop_first() =~= s@.skip(i + 1));
            assert(before + (seq![rest[0]] + replace_spec(s@.skip(i + 1), p@, by@)) =~= r@
                + replace_spec(s@.skip(i + 1), p@, by@));
            i = i + 1;
        }
    }
    assert(r@ + replace_spec(s@.skip(i as int), p@, by@) =~= r@);
    r
}

// ---------------------------------------------------------------------------
// Laws
// ---------------------------------------------------------------------------

/// A text in which a pattern stands nowhere stays as it is.
pub proof fn text_without_the_pattern_stays(s: Seq<char>, p: Seq<char>, by: Seq<char>)
    requires
        forall|i: int| 0 <= i < s.len() ==> !p.is_prefix_of(#[trigger] s.skip(i)),
    ensures
        replace_spec(s, p, by) == s,
    decreases s.len(),
{
    if s.len() > 0 && p.len() > 0 {
        assert(s.skip(0) =~= s);
        let rest = s.drop_first();
        assert forall|i: int| 0 <= i < rest.len() implies !p.is_prefix_of(
            #[trigger] rest.skip(i),
        ) by {
            assert(rest.skip(i) =~= s.skip(i + 1));
        }
        text_without_the_pattern_stays(rest, p, by);
        assert(seq![s[0]] + rest =~= s);
    }
}

/// The first occurrence of a pattern is replaced, and what stands behind it is searched on.
pub proof fn pattern_is_replaced(a: Seq<char>, p: Seq<char>, b: Seq<char>, by: Seq<char>)
    requires
        p.len() > 0,
        !a.contains(p[0]),
    ensures
        replace_spec(a + p + b, p, by) == a + by + replace_spec(b, p, by),
    decreases a.len(),
{
    let s = a + p + b;
    if a.len() == 0 {
        assert(s.take(p.len() as int) =~= p);
        assert(s.skip(p.len() as int) =~= b);
        assert(by + replace_spec(b, p, by) =~= a + by + replace_spec(b, p, by));
    } else {
        if p.is_prefix_of(s) {
            assert(s.take(p.len() as int)[0] == p[0]);
            assert(a[0] == p[0]);
        }
        let rest = a.drop_first();
        if rest.contains(p[0]) {
            let k = choose|k: int| 0 <= k < rest.len() && rest[k] == p[0];
            assert(a[k + 1] == p[0]);
        }
        pattern_is_replaced(rest, p, b, by);
        assert(s.drop_first() =~= rest + p + b);
        assert(seq![s[0]] + (rest + by + replace_spec(b, p, by)) =~= a + by + replace_spec(
            b,
            p,
            by,
        ));
    }
}

/// The parts of a text are what stands between the separators: none of them holds one, and joined
/// they are the text.
pub proof fn parts_are_the_text(s: Seq<char>, c: char)
    ensures
        split_spec(s, c).len() > 0,
        joined(split_spec(s, c), c) == s,
        forall|i: int| 0 <= i < split_spec(s, c).len() ==> !(#[trigger] split_spec(s, c)[i]).contains(c),
    decreases s.len(),
{
    lemma_position(s, c);
    let p = position(s, c) as int;
    let parts = split_spec(s, c);
    if p < s.len() {
        let rest = s.skip(p + 1);
        parts_are_the_text(rest, c);
        assert(parts.drop_first() =~= split_spec(rest, c));
        assert(s.take(p) + seq![c] + rest =~= s);
        assert forall|i: int| 0 <= i < parts.len() implies !(#[trigger] parts[i]).contains(c) by {
            if i > 0 {
                assert(parts[i] == split_spec(rest, c)[i - 1]);
            }
        }
    } else {
        assert(joined(parts, c) == s);
        assert(!s.contains(c));
    }
}

/// Texts with a character between each and the next.
pub open spec fn joined(parts: Seq<Seq<char>>, c: char) -> Seq<char>
    decreases parts.len(),
{
    if parts.len() == 0 {
        Seq::empty()
    } else if parts.len() == 1 {
        parts[0]
    } else {
        parts[0] + seq![c] + joined(parts.drop_first(), c)
    }
}

/// A text that is split a number of times at most is its parts too; all but the last hold no
/// separator, and the last holds the rest.
pub proof fn first_parts_are_the_text(s: Seq<char>, n: nat, c: char)
    requires
        n > 0,
    ensures
        0 < splitn_spec(s, n, c).len() <= n,
        joined(splitn_spec(s, n, c), c) == s,
        forall|i: int|
            0 <= i < splitn_spec(s, n, c).len() - 1 ==> !(#[trigger] splitn_spec(s, n, c)[i]).contains(
                c,
            ),
        splitn_spec(s, n, c).len() < n ==> !splitn_spec(s, n, c).last().contains(c),
    decreases n,
{
    lemma_position(s, c);
    let p = position(s, c) as int;
    let parts = splitn_spec(s, n, c);
    if n > 1 && p < s.len() {
        let rest = s.skip(p + 1);
        first_parts_are_the_text(rest, (n - 1) as nat, c);
        assert(parts.drop_first() =~= splitn_spec(rest, (n - 1) as nat, c));
        assert(s.take(p) + seq![c] + rest =~= s);
        assert forall|i: int| 0 <= i < parts.len() - 1 implies !(#[trigger] parts[i]).contains(
            c,
        ) by {
            if i > 0 {
                assert(parts[i] == splitn_spec(rest, (n - 1) as nat, c)[i - 1]);
            }
        }
        assert(parts.last() == splitn_spec(rest, (n - 1) as nat, c).last());
    } else {
        assert(parts.len() == 1 && parts[0] == s);
    }
}

/// A text is split at the first separator, and not at all where there is none.
pub proof fn text_is_split_at_the_first_separator(a: Seq<char>, c: char, b: Seq<char>)
    requires
        !a.contains(c),
    ensures
        split_once_spec(a + seq![c] + b, c) == Some((a, b)),
        split_once_spec(a, c) is None,
{
    let s = a + seq![c] + b;
    assert forall|k: int| 0 <= k < a.len() implies s[k] != c by {
        assert(a.contains(a[k]));
    }
    lemma_position_is(s, c, a.len() as int);
    assert(s.take(a.len() as int) =~= a);
    assert(s.skip(a.len() as int + 1) =~= b);
    lemma_position(a, c);
}

/// Joined texts stand in their order, with the separator between each and the next.
pub proof fn joined_texts_stand_in_order(
    parts: Seq<Seq<char>>,
    part: Seq<char>,
    sep: Seq<char>,
)
    ensures
        join_spec(seq![part], sep) == part,
        parts.len() > 0 ==> join_spec(parts.push(part), sep) == join_spec(parts, sep) + sep + part,
{
    assert(parts.push(part).drop_last() =~= parts);
}

/// Each line of a text is one of its lines, without its line end.
pub proof fn lines_are_without_their_ends(line: Seq<char>, rest: Seq<char>)
    requires
        !line.contains('\n'),
        line.len() > 0 ==> line.last() != '\r',
    ensures
        lines_spec(line + seq!['\n'] + rest) == seq![line] + lines_spec(rest),
        lines_spec(line + seq!['\r'] + seq!['\n'] + rest) == seq![line] + lines_spec(rest),
        line.len() > 0 ==> lines_spec(line) == seq![line],
        lines_spec(Seq::empty()).len() == 0,
{
    let s = line + seq!['\n'] + rest;
    let t = line + seq!['\r'] + seq!['\n'] + rest;
    assert forall|k: int| 0 <= k < line.len() implies line[k] != '\n' by {
        assert(line.contains(line[k]));
    }
    lemma_position_is(s, '\n', line.len() as int);
    assert(s.take(line.len() as int) =~= line);
    assert(s.skip(line.len() as int + 1) =~= rest);
    lemma_position_is(t, '\n', line.len() as int + 1);
    assert(t.take(line.len() as int + 1) =~= line.push('\r'));
    assert(line.push('\r').drop_last() =~= line);
    assert(t.skip(line.len() as int + 2) =~= rest);
    lemma_position(line, '\n');
}

/// A text that is brought to a width keeps its characters and has spaces on the other side.
pub proof fn padding_adds_spaces(s: Seq<char>, width: nat)
    ensures
        pad_end_spec(s, width).len() == (if s.len() < width {
            width
        } else {
            s.len()
        }),
        s.is_prefix_of(pad_end_spec(s, width)),
        forall|i: int| s.len() <= i < width ==> #[trigger] pad_end_spec(s, width)[i] == ' ',
        pad_start_spec(s, width).len() == pad_end_spec(s, width).len(),
        s.is_suffix_of(pad_start_spec(s, width)),
        forall|i: int| 0 <= i < width - s.len() ==> #[trigger] pad_start_spec(s, width)[i] == ' ',
{
    let front = pad_end_spec(s, width);
    let back = pad_start_spec(s, width);
    assert(front.take(s.len() as int) =~= s);
    assert(back.subrange(back.len() - s.len(), back.len() as int) =~= s);
}

} // verus!
