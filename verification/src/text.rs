//! Text operations on `str` and `String`, stated over sequences of characters.

use vstd::prelude::*;

verus! {

/// `String::push` appends one character to the end of the string.
pub assume_specification[ String::push ](s: &mut String, ch: char)
    ensures
        final(s)@ == old(s)@.push(ch),
;

/// The characters of a string, in order.
pub fn chars_of(s: &str) -> (chars: Vec<char>)
    ensures
        chars@ == s@,
{
    let mut chars: Vec<char> = Vec::new();
    for c in it: s.chars()
        invariant
            it.seq() == s@,
            chars@ == s@.take(it.index() as int),
    {
        chars.push(c);
        assert(s@.take(it.index() + 1) =~= s@.take(it.index() as int).push(c));
    }
    assert(s@.take(s@.len() as int) =~= s@);
    chars
}

/// The string made of the characters `chars[from..to]`.
pub fn string_of(chars: &Vec<char>, from: usize, to: usize) -> (s: String)
    requires
        from <= to <= chars@.len(),
    ensures
        s@ == chars@.subrange(from as int, to as int),
{
    let mut s: String = String::new();
    let mut i: usize = from;
    while i < to
        invariant
            from <= i <= to <= chars@.len(),
            s@ == chars@.subrange(from as int, i as int),
        decreases to - i,
    {
        s.push(chars[i]);
        assert(chars@.subrange(from as int, i + 1) =~= chars@.subrange(from as int, i as int).push(
            chars@[i as int],
        ));
        i = i + 1;
    }
    s
}

/// Whether two strings hold the same characters.
pub fn same(a: &str, b: &str) -> (r: bool)
    ensures
        r == (a@ == b@),
{
    let left: String = a.to_owned();
    let right: String = b.to_owned();
    left == right
}

/// Whether the string holds no character.
pub fn is_empty(s: &str) -> (r: bool)
    ensures
        r == (s@.len() == 0),
{
    chars_of(s).len() == 0
}

// ---------------------------------------------------------------------------
// Order
// ---------------------------------------------------------------------------

/// Lexicographic order by character: `a` comes strictly before `b`.
pub open spec fn precedes_spec(a: Seq<char>, b: Seq<char>) -> bool
    decreases a.len(),
{
    if b.len() == 0 {
        false
    } else if a.len() == 0 {
        true
    } else if a[0] != b[0] {
        a[0] < b[0]
    } else {
        precedes_spec(a.drop_first(), b.drop_first())
    }
}

/// No string comes before itself.
pub proof fn lemma_precedes_irreflexive(a: Seq<char>)
    ensures
        !precedes_spec(a, a),
    decreases a.len(),
{
    if a.len() > 0 {
        lemma_precedes_irreflexive(a.drop_first());
    }
}

/// Of two different strings one comes before the other.
pub proof fn lemma_precedes_total(a: Seq<char>, b: Seq<char>)
    ensures
        a == b || precedes_spec(a, b) || precedes_spec(b, a),
    decreases a.len(),
{
    if a.len() > 0 && b.len() > 0 {
        if a[0] == b[0] {
            lemma_precedes_total(a.drop_first(), b.drop_first());
            if a.drop_first() == b.drop_first() {
                assert(a =~= seq![a[0]] + a.drop_first());
                assert(b =~= seq![b[0]] + b.drop_first());
            }
        }
    } else if a.len() == 0 && b.len() == 0 {
        assert(a =~= b);
    }
}

/// The order is transitive.
pub proof fn lemma_precedes_transitive(a: Seq<char>, b: Seq<char>, c: Seq<char>)
    requires
        precedes_spec(a, b),
        precedes_spec(b, c),
    ensures
        precedes_spec(a, c),
    decreases a.len(),
{
    if a.len() > 0 && b.len() > 0 && c.len() > 0 && a[0] == b[0] && b[0] == c[0] {
        lemma_precedes_transitive(a.drop_first(), b.drop_first(), c.drop_first());
    }
}

/// Two strings never come before each other.
pub proof fn lemma_precedes_asymmetric(a: Seq<char>, b: Seq<char>)
    requires
        precedes_spec(a, b),
    ensures
        !precedes_spec(b, a),
        a != b,
{
    lemma_precedes_irreflexive(a);
    if precedes_spec(b, a) {
        lemma_precedes_transitive(a, b, a);
    }
}

/// Whether `a` comes strictly before `b`, character by character.
pub fn precedes(a: &str, b: &str) -> (r: bool)
    ensures
        r == precedes_spec(a@, b@),
{
    let left: Vec<char> = chars_of(a);
    let right: Vec<char> = chars_of(b);
    let mut i: usize = 0;
    assert(a@.skip(0) =~= a@);
    assert(b@.skip(0) =~= b@);
    while i < left.len() && i < right.len()
        invariant
            i <= left@.len(),
            i <= right@.len(),
            left@ == a@,
            right@ == b@,
            precedes_spec(a@, b@) == precedes_spec(a@.skip(i as int), b@.skip(i as int)),
        decreases left@.len() - i,
    {
        if left[i] != right[i] {
            return left[i] < right[i];
        }
        assert(a@.skip(i as int).drop_first() =~= a@.skip(i + 1));
        assert(b@.skip(i as int).drop_first() =~= b@.skip(i + 1));
        i = i + 1;
    }
    i < right.len()
}

// ---------------------------------------------------------------------------
// Case
// ---------------------------------------------------------------------------

pub open spec fn ascii_lower(c: char) -> char {
    if 'A' <= c <= 'Z' {
        ((c as int) + 32) as char
    } else {
        c
    }
}

pub open spec fn ascii_upper(c: char) -> char {
    if 'a' <= c <= 'z' {
        ((c as int) - 32) as char
    } else {
        c
    }
}

pub open spec fn lowercase(s: Seq<char>) -> Seq<char> {
    s.map_values(|c: char| ascii_lower(c))
}

pub open spec fn uppercase(s: Seq<char>) -> Seq<char> {
    s.map_values(|c: char| ascii_upper(c))
}

fn lower_char(c: char) -> (r: char)
    ensures
        r == ascii_lower(c),
{
    if 'A' <= c && c <= 'Z' {
        ((c as u8) + 32) as char
    } else {
        c
    }
}

fn upper_char(c: char) -> (r: char)
    ensures
        r == ascii_upper(c),
{
    if 'a' <= c && c <= 'z' {
        ((c as u8) - 32) as char
    } else {
        c
    }
}

/// The string with its ASCII letters in lower case.
pub fn to_ascii_lowercase(s: &str) -> (r: String)
    ensures
        r@ == lowercase(s@),
{
    let mut r: String = String::new();
    for c in it: s.chars()
        invariant
            it.seq() == s@,
            r@ == lowercase(s@.take(it.index() as int)),
    {
        r.push(lower_char(c));
        assert(lowercase(s@.take(it.index() + 1)) =~= lowercase(s@.take(it.index() as int)).push(
            ascii_lower(c),
        ));
    }
    assert(s@.take(s@.len() as int) =~= s@);
    r
}

/// The string with its ASCII letters in upper case.
pub fn to_ascii_uppercase(s: &str) -> (r: String)
    ensures
        r@ == uppercase(s@),
{
    let mut r: String = String::new();
    for c in it: s.chars()
        invariant
            it.seq() == s@,
            r@ == uppercase(s@.take(it.index() as int)),
    {
        r.push(upper_char(c));
        assert(uppercase(s@.take(it.index() + 1)) =~= uppercase(s@.take(it.index() as int)).push(
            ascii_upper(c),
        ));
    }
    assert(s@.take(s@.len() as int) =~= s@);
    r
}

/// Whether two strings are equal up to the case of their ASCII letters.
pub fn eq_ignore_ascii_case(a: &str, b: &str) -> (r: bool)
    ensures
        r == (lowercase(a@) == lowercase(b@)),
{
    let left: String = to_ascii_lowercase(a);
    let right: String = to_ascii_lowercase(b);
    left == right
}

// ---------------------------------------------------------------------------
// Trimming
// ---------------------------------------------------------------------------

/// The characters with the Unicode property White_Space.
pub open spec fn is_white(c: char) -> bool {
    ||| '\u{0009}' <= c <= '\u{000D}'
    ||| c == '\u{0020}'
    ||| c == '\u{0085}'
    ||| c == '\u{00A0}'
    ||| c == '\u{1680}'
    ||| '\u{2000}' <= c <= '\u{200A}'
    ||| c == '\u{2028}'
    ||| c == '\u{2029}'
    ||| c == '\u{202F}'
    ||| c == '\u{205F}'
    ||| c == '\u{3000}'
}

/// Whether the character is white space.
pub fn is_whitespace(c: char) -> (r: bool)
    ensures
        r == is_white(c),
{
    ('\u{0009}' <= c && c <= '\u{000D}') || c == '\u{0020}' || c == '\u{0085}' || c == '\u{00A0}'
        || c == '\u{1680}' || ('\u{2000}' <= c && c <= '\u{200A}') || c == '\u{2028}' || c
        == '\u{2029}' || c == '\u{202F}' || c == '\u{205F}' || c == '\u{3000}'
}

pub open spec fn trim_start_spec(s: Seq<char>) -> Seq<char>
    decreases s.len(),
{
    if s.len() > 0 && is_white(s[0]) {
        trim_start_spec(s.drop_first())
    } else {
        s
    }
}

pub open spec fn trim_end_spec(s: Seq<char>) -> Seq<char>
    decreases s.len(),
{
    if s.len() > 0 && is_white(s.last()) {
        trim_end_spec(s.drop_last())
    } else {
        s
    }
}

pub open spec fn trim_spec(s: Seq<char>) -> Seq<char> {
    trim_end_spec(trim_start_spec(s))
}

/// The string without leading white space.
pub fn trim_start(s: &str) -> (r: String)
    ensures
        r@ == trim_start_spec(s@),
{
    let chars: Vec<char> = chars_of(s);
    let mut lo: usize = 0;
    assert(s@.skip(0) =~= s@);
    while lo < chars.len() && is_whitespace(chars[lo])
        invariant
            lo <= chars@.len(),
            chars@ == s@,
            trim_start_spec(s@) == trim_start_spec(s@.skip(lo as int)),
        decreases chars@.len() - lo,
    {
        assert(s@.skip(lo as int).drop_first() =~= s@.skip(lo + 1));
        lo = lo + 1;
    }
    assert(s@.skip(lo as int) =~= s@.subrange(lo as int, s@.len() as int));
    string_of(&chars, lo, chars.len())
}

/// The string without trailing white space.
pub fn trim_end(s: &str) -> (r: String)
    ensures
        r@ == trim_end_spec(s@),
{
    let chars: Vec<char> = chars_of(s);
    let mut hi: usize = chars.len();
    assert(s@.take(s@.len() as int) =~= s@);
    while hi > 0 && is_whitespace(chars[hi - 1])
        invariant
            hi <= chars@.len(),
            chars@ == s@,
            trim_end_spec(s@) == trim_end_spec(s@.take(hi as int)),
        decreases hi,
    {
        assert(s@.take(hi as int).drop_last() =~= s@.take(hi - 1));
        hi = hi - 1;
    }
    assert(s@.take(hi as int) =~= s@.subrange(0, hi as int));
    string_of(&chars, 0, hi)
}

/// The string without leading and trailing white space.
pub fn trim(s: &str) -> (r: String)
    ensures
        r@ == trim_spec(s@),
{
    let head: String = trim_start(s);
    trim_end(head.as_str())
}

/// The string without its leading run of `c`.
pub open spec fn drop_leading(s: Seq<char>, c: char) -> Seq<char>
    decreases s.len(),
{
    if s.len() > 0 && s[0] == c {
        drop_leading(s.drop_first(), c)
    } else {
        s
    }
}

/// The string without its trailing run of `c`.
pub open spec fn drop_trailing(s: Seq<char>, c: char) -> Seq<char>
    decreases s.len(),
{
    if s.len() > 0 && s.last() == c {
        drop_trailing(s.drop_last(), c)
    } else {
        s
    }
}

/// The string without its leading run of `c`.
pub fn trim_start_matches(s: &str, c: char) -> (r: String)
    ensures
        r@ == drop_leading(s@, c),
{
    let chars: Vec<char> = chars_of(s);
    let mut lo: usize = 0;
    assert(s@.skip(0) =~= s@);
    while lo < chars.len() && chars[lo] == c
        invariant
            lo <= chars@.len(),
            chars@ == s@,
            drop_leading(s@, c) == drop_leading(s@.skip(lo as int), c),
        decreases chars@.len() - lo,
    {
        assert(s@.skip(lo as int).drop_first() =~= s@.skip(lo + 1));
        lo = lo + 1;
    }
    assert(s@.skip(lo as int) =~= s@.subrange(lo as int, s@.len() as int));
    string_of(&chars, lo, chars.len())
}

/// The string without its trailing run of `c`.
pub fn trim_end_matches(s: &str, c: char) -> (r: String)
    ensures
        r@ == drop_trailing(s@, c),
{
    let chars: Vec<char> = chars_of(s);
    let mut hi: usize = chars.len();
    assert(s@.take(s@.len() as int) =~= s@);
    while hi > 0 && chars[hi - 1] == c
        invariant
            hi <= chars@.len(),
            chars@ == s@,
            drop_trailing(s@, c) == drop_trailing(s@.take(hi as int), c),
        decreases hi,
    {
        assert(s@.take(hi as int).drop_last() =~= s@.take(hi - 1));
        hi = hi - 1;
    }
    assert(s@.take(hi as int) =~= s@.subrange(0, hi as int));
    string_of(&chars, 0, hi)
}

// ---------------------------------------------------------------------------
// Prefixes, suffixes and parts
// ---------------------------------------------------------------------------

/// Whether `p` stands in `s` at position `i`.
pub open spec fn occurs_at(s: Seq<char>, p: Seq<char>, i: int) -> bool {
    0 <= i && i + p.len() <= s.len() && s.subrange(i, i + p.len()) == p
}

/// Whether `p` stands somewhere in `s`.
pub open spec fn occurs_in(s: Seq<char>, p: Seq<char>) -> bool {
    exists|i: int| occurs_at(s, p, i)
}

fn stands_at(s: &Vec<char>, p: &Vec<char>, i: usize) -> (r: bool)
    requires
        i <= s@.len(),
    ensures
        r == occurs_at(s@, p@, i as int),
{
    if p.len() > s.len() - i {
        return false;
    }
    let mut j: usize = 0;
    while j < p.len()
        invariant
            i + p@.len() <= s.len(),
            j <= p@.len(),
            forall|k: int| 0 <= k < j ==> s@[i + k] == p@[k],
        decreases p@.len() - j,
    {
        if s[i + j] != p[j] {
            assert(s@.subrange(i as int, i + p@.len())[j as int] != p@[j as int]);
            return false;
        }
        j = j + 1;
    }
    assert(s@.subrange(i as int, i + p@.len()) =~= p@);
    true
}

/// Whether the string starts with `p`.
pub fn starts_with(s: &str, p: &str) -> (r: bool)
    ensures
        r == p@.is_prefix_of(s@),
{
    let text: Vec<char> = chars_of(s);
    let pattern: Vec<char> = chars_of(p);
    stands_at(&text, &pattern, 0)
}

/// Whether the string ends with `p`.
pub fn ends_with(s: &str, p: &str) -> (r: bool)
    ensures
        r == p@.is_suffix_of(s@),
{
    let text: Vec<char> = chars_of(s);
    let pattern: Vec<char> = chars_of(p);
    if pattern.len() > text.len() {
        return false;
    }
    stands_at(&text, &pattern, text.len() - pattern.len())
}

/// Whether `p` stands somewhere in the string.
pub fn contains(s: &str, p: &str) -> (r: bool)
    ensures
        r == occurs_in(s@, p@),
{
    let text: Vec<char> = chars_of(s);
    let pattern: Vec<char> = chars_of(p);
    let mut i: usize = 0;
    loop
        invariant
            i <= text@.len(),
            text@ == s@,
            pattern@ == p@,
            forall|k: int| 0 <= k < i ==> !occurs_at(s@, p@, k),
        decreases text@.len() - i,
    {
        if stands_at(&text, &pattern, i) {
            return true;
        }
        if i == text.len() {
            return false;
        }
        i = i + 1;
    }
}

/// The rest of the string behind `p`, where it starts with `p`.
pub open spec fn strip_prefix_spec(s: Seq<char>, p: Seq<char>) -> Option<Seq<char>> {
    if p.is_prefix_of(s) {
        Some(s.skip(p.len() as int))
    } else {
        None
    }
}

/// The rest of the string behind `p`, where it starts with `p`.
pub fn strip_prefix(s: &str, p: &str) -> (r: Option<String>)
    ensures
        r.deep_view() == strip_prefix_spec(s@, p@),
{
    let text: Vec<char> = chars_of(s);
    let pattern: Vec<char> = chars_of(p);
    if stands_at(&text, &pattern, 0) {
        assert(s@.skip(p@.len() as int) =~= s@.subrange(p@.len() as int, s@.len() as int));
        Some(string_of(&text, pattern.len(), text.len()))
    } else {
        None
    }
}

/// The string without every leading repetition of `p`.
pub open spec fn strip_prefixes_spec(s: Seq<char>, p: Seq<char>) -> Seq<char>
    decreases s.len(),
{
    if p.len() > 0 && p.is_prefix_of(s) {
        strip_prefixes_spec(s.skip(p.len() as int), p)
    } else {
        s
    }
}

/// The string without every leading repetition of `p`.
pub fn strip_prefixes(s: &str, p: &str) -> (r: String)
    ensures
        r@ == strip_prefixes_spec(s@, p@),
{
    let text: Vec<char> = chars_of(s);
    let pattern: Vec<char> = chars_of(p);
    let mut lo: usize = 0;
    assert(s@.skip(0) =~= s@);
    while pattern.len() > 0 && stands_at(&text, &pattern, lo)
        invariant
            lo <= text.len(),
            text@ == s@,
            pattern@ == p@,
            strip_prefixes_spec(s@, p@) == strip_prefixes_spec(s@.skip(lo as int), p@),
        decreases text@.len() - lo,
    {
        assert(lo + p@.len() <= text.len());
        assert(s@.skip(lo as int).subrange(0, p@.len() as int) =~= s@.subrange(
            lo as int,
            lo + p@.len(),
        ));
        assert(s@.skip(lo as int).skip(p@.len() as int) =~= s@.skip(lo + p@.len()));
        lo = lo + pattern.len();
    }
    proof {
        if p@.len() > 0 && p@.is_prefix_of(s@.skip(lo as int)) {
            assert(s@.skip(lo as int).subrange(0, p@.len() as int) =~= s@.subrange(
                lo as int,
                lo + p@.len(),
            ));
        }
    }
    assert(s@.skip(lo as int) =~= s@.subrange(lo as int, s@.len() as int));
    string_of(&text, lo, text.len())
}

// ---------------------------------------------------------------------------
// Laws
// ---------------------------------------------------------------------------

/// Whether all characters from `i` up to `j` are white space.
pub open spec fn white_between(s: Seq<char>, i: int, j: int) -> bool {
    forall|k: int| i <= k < j ==> is_white(#[trigger] s[k])
}

proof fn lemma_trim_start(s: Seq<char>) -> (n: int)
    ensures
        0 <= n <= s.len(),
        trim_start_spec(s) == s.skip(n),
        white_between(s, 0, n),
        n < s.len() ==> !is_white(s[n]),
    decreases s.len(),
{
    if s.len() > 0 && is_white(s[0]) {
        let m = lemma_trim_start(s.drop_first());
        assert(s.skip(m + 1) =~= s.drop_first().skip(m));
        assert forall|k: int| 0 <= k < m + 1 implies is_white(#[trigger] s[k]) by {
            if k > 0 {
                assert(s.drop_first()[k - 1] == s[k]);
            }
        }
        m + 1
    } else {
        assert(s.skip(0) =~= s);
        0
    }
}

proof fn lemma_trim_end(s: Seq<char>) -> (n: int)
    ensures
        0 <= n <= s.len(),
        trim_end_spec(s) == s.take(n),
        white_between(s, n, s.len() as int),
        n > 0 ==> !is_white(s[n - 1]),
    decreases s.len(),
{
    if s.len() > 0 && is_white(s.last()) {
        let n = lemma_trim_end(s.drop_last());
        assert(s.take(n) =~= s.drop_last().take(n));
        assert forall|k: int| n <= k < s.len() implies is_white(#[trigger] s[k]) by {
            if k < s.len() - 1 {
                assert(s.drop_last()[k] == s[k]);
            }
        }
        n
    } else {
        assert(s.take(s.len() as int) =~= s);
        s.len() as int
    }
}

/// Trimming takes the white space from the ends of a text and nothing else.
pub proof fn trimming_takes_white_space_from_the_ends(s: Seq<char>)
    ensures
        exists|i: int, j: int|
            0 <= i <= j <= s.len() && #[trigger] s.subrange(i, j) == trim_spec(s) && white_between(
                s,
                0,
                i,
            ) && white_between(s, j, s.len() as int),
        trim_spec(s).len() > 0 ==> !is_white(trim_spec(s)[0]) && !is_white(trim_spec(s).last()),
        exists|i: int|
            0 <= i <= s.len() && #[trigger] s.skip(i) == trim_start_spec(s) && white_between(
                s,
                0,
                i,
            ) && (i < s.len() ==> !is_white(s[i])),
        exists|j: int|
            0 <= j <= s.len() && #[trigger] s.take(j) == trim_end_spec(s) && white_between(
                s,
                j,
                s.len() as int,
            ) && (j > 0 ==> !is_white(s[j - 1])),
{
    let n = lemma_trim_start(s);
    let rest = s.skip(n);
    let m = lemma_trim_end(rest);
    let e = lemma_trim_end(s);
    assert(s.take(e) == trim_end_spec(s));
    assert(s.subrange(n, n + m) =~= rest.take(m));
    assert forall|k: int| n + m <= k < s.len() implies is_white(#[trigger] s[k]) by {
        assert(rest[k - n] == s[k]);
    }
    if m > 0 {
        assert(trim_spec(s)[0] == s[n]);
        assert(trim_spec(s).last() == rest[m - 1]);
    }
}

/// Of the characters of ASCII the space, the tab and the line ends are white space.
pub proof fn white_space_of_ascii(c: char)
    requires
        c < '\u{80}',
    ensures
        is_white(c) <==> c == ' ' || c == '\t' || c == '\n' || c == '\r' || c == '\u{0b}' || c
            == '\u{0c}',
{
}

/// Changing the case of a text changes its letters and nothing else.
pub proof fn changing_case_changes_letters(s: Seq<char>, i: int)
    requires
        0 <= i < s.len(),
    ensures
        lowercase(s).len() == s.len(),
        uppercase(s).len() == s.len(),
        !('A' <= s[i] <= 'Z') ==> lowercase(s)[i] == s[i],
        !('a' <= s[i] <= 'z') ==> uppercase(s)[i] == s[i],
        'A' <= s[i] <= 'Z' ==> lowercase(s)[i] as int - 'a' as int == s[i] as int - 'A' as int,
        'a' <= s[i] <= 'z' ==> uppercase(s)[i] as int - 'A' as int == s[i] as int - 'a' as int,
{
}

/// The case of a text does not matter to its lower and its upper case.
pub proof fn case_is_forgotten(s: Seq<char>)
    ensures
        lowercase(uppercase(s)) == lowercase(s),
        uppercase(lowercase(s)) == uppercase(s),
        lowercase(lowercase(s)) == lowercase(s),
        uppercase(uppercase(s)) == uppercase(s),
{
    assert(lowercase(uppercase(s)) =~= lowercase(s));
    assert(uppercase(lowercase(s)) =~= uppercase(s));
    assert(lowercase(lowercase(s)) =~= lowercase(s));
    assert(uppercase(uppercase(s)) =~= uppercase(s));
}

/// The first character in which two texts differ decides which comes first, and a text comes after
/// its beginnings.
pub proof fn first_difference_decides(
    front: Seq<char>,
    x: char,
    y: char,
    a: Seq<char>,
    b: Seq<char>,
)
    ensures
        x < y ==> precedes_spec(front + seq![x] + a, front + seq![y] + b),
        precedes_spec(front, front + seq![x] + a),
    decreases front.len(),
{
    let s = front + seq![x] + a;
    let t = front + seq![y] + b;
    if front.len() > 0 {
        first_difference_decides(front.drop_first(), x, y, a, b);
        assert(s.drop_first() =~= front.drop_first() + seq![x] + a);
        assert(t.drop_first() =~= front.drop_first() + seq![y] + b);
        assert(s[0] == front[0] && t[0] == front[0]);
    } else {
        assert(s[0] == x && t[0] == y);
    }
}

/// A part of a text occurs in it.
pub proof fn part_occurs(a: Seq<char>, p: Seq<char>, b: Seq<char>)
    ensures
        occurs_in(a + p + b, p),
{
    let s = a + p + b;
    assert(s.subrange(a.len() as int, (a.len() + p.len()) as int) =~= p);
    assert(occurs_at(s, p, a.len() as int));
}

/// What begins with a prefix is left without it, and nothing else is.
pub proof fn prefix_is_stripped(p: Seq<char>, s: Seq<char>)
    ensures
        strip_prefix_spec(p + s, p) == Some(s),
        !p.is_prefix_of(s) ==> strip_prefix_spec(s, p) is None,
        !p.is_prefix_of(s) && p.len() > 0 ==> strip_prefixes_spec(p + (p + s), p) == s,
{
    assert((p + s).take(p.len() as int) =~= p);
    assert((p + s).skip(p.len() as int) =~= s);
    if !p.is_prefix_of(s) && p.len() > 0 {
        let twice = p + (p + s);
        assert(twice.take(p.len() as int) =~= p);
        assert(twice.skip(p.len() as int) =~= p + s);
        assert(strip_prefixes_spec(s, p) == s);
        assert(strip_prefixes_spec(p + s, p) == s);
    }
}

/// A character is taken from the ends of a text as often as it stands there.
pub proof fn repeated_character_is_dropped(c: char, s: Seq<char>, n: nat)
    requires
        s.len() > 0 ==> s[0] != c && s.last() != c,
    ensures
        drop_leading(Seq::new(n, |i: int| c) + s, c) == s,
        drop_trailing(s + Seq::new(n, |i: int| c), c) == s,
    decreases n,
{
    let many = Seq::new(n, |i: int| c);
    if n > 0 {
        let fewer = Seq::new((n - 1) as nat, |i: int| c);
        repeated_character_is_dropped(c, s, (n - 1) as nat);
        assert((many + s).drop_first() =~= fewer + s);
        assert((s + many).drop_last() =~= s + fewer);
        assert((s + many).last() == c);
    } else {
        assert(many + s =~= s);
        assert(s + many =~= s);
    }
}

} // verus!
