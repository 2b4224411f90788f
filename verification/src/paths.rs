//! File paths as text, with `/` between their components.

use vstd::prelude::*;

use crate::numbers::{decimal, decimal_injective, decimal_spec, lemma_decimal_digits};
use crate::parts::{lemma_position, lemma_position_is, position, split, split_spec};
use crate::text::{chars_of, same, string_of};

verus! {

// ---------------------------------------------------------------------------
// Joining and taking apart
// ---------------------------------------------------------------------------

/// Whether a path starts at the root.
pub open spec fn absolute(path: Seq<char>) -> bool {
    path.len() > 0 && path[0] == '/'
}

/// Whether the path starts at the root.
pub fn is_absolute(path: &str) -> (r: bool)
    ensures
        r == absolute(path@),
{
    let chars: Vec<char> = chars_of(path);
    chars.len() > 0 && chars[0] == '/'
}

/// `path` as seen from `base`: itself where it is absolute, else below `base`.
pub open spec fn join_spec(base: Seq<char>, path: Seq<char>) -> Seq<char> {
    if absolute(path) || base.len() == 0 {
        path
    } else if base.last() == '/' {
        base + path
    } else {
        base + seq!['/'] + path
    }
}

/// `path` as seen from `base`: itself where it is absolute, else below `base`.
pub fn join(base: &str, path: &str) -> (r: String)
    ensures
        r@ == join_spec(base@, path@),
{
    let chars: Vec<char> = chars_of(base);
    if is_absolute(path) || chars.len() == 0 {
        return path.to_owned();
    }
    let mut r: String = base.to_owned();
    if chars[chars.len() - 1] != '/' {
        r.push('/');
        assert(r@ =~= base@ + seq!['/']);
    }
    r.append(path);
    r
}

/// Where the components that follow the root, or a leading `.`, begin.
pub open spec fn body_start(path: Seq<char>) -> int {
    if absolute(path) || (path.len() > 0 && path[0] == '.' && (path.len() == 1 || path[1] == '/')) {
        1
    } else {
        0
    }
}

/// The position behind the last separator from `from` on, or `from` where there is none.
pub open spec fn tail_start(path: Seq<char>, from: int) -> int
    decreases path.len(),
{
    if path.len() == 0 || path.len() <= from {
        from
    } else if path.last() == '/' {
        path.len() as int
    } else {
        tail_start(path.drop_last(), from)
    }
}

/// The last component of a path, as it is written.
pub open spec fn tail(path: Seq<char>) -> Seq<char> {
    path.skip(tail_start(path, body_start(path)))
}

/// The path before its last component and the separator in front of it.
pub open spec fn before_tail(path: Seq<char>) -> Seq<char> {
    let start = tail_start(path, body_start(path));
    if start > body_start(path) {
        path.take(start - 1)
    } else {
        path.take(start)
    }
}

/// Whether a component says nothing: it is empty or a dot.
pub open spec fn skippable(component: Seq<char>) -> bool {
    component.len() == 0 || component == seq!['.']
}

proof fn lemma_tail_start(path: Seq<char>, from: int)
    requires
        0 <= from <= path.len(),
    ensures
        from <= tail_start(path, from) <= path.len(),
        tail_start(path, from) > from ==> path[tail_start(path, from) - 1] == '/',
    decreases path.len(),
{
    if path.len() > from && path.last() != '/' {
        lemma_tail_start(path.drop_last(), from);
    }
}

proof fn lemma_before_tail(path: Seq<char>)
    requires
        path.len() > body_start(path),
    ensures
        before_tail(path).len() < path.len(),
{
    lemma_tail_start(path, body_start(path));
}

/// The path without components at its end that say nothing.
pub open spec fn trim_tail(path: Seq<char>) -> Seq<char>
    decreases path.len(),
{
    if path.len() > body_start(path) && skippable(tail(path)) && before_tail(path).len()
        < path.len() {
        trim_tail(before_tail(path))
    } else {
        path
    }
}

/// The path without its last component.
pub open spec fn parent_spec(path: Seq<char>) -> Option<Seq<char>> {
    let whole = trim_tail(path);
    if whole.len() > body_start(whole) {
        Some(trim_tail(before_tail(whole)))
    } else if whole == seq!['.'] {
        Some(Seq::empty())
    } else {
        None
    }
}

/// The last component of a path, where it names an entry.
pub open spec fn file_name_spec(path: Seq<char>) -> Option<Seq<char>> {
    let whole = trim_tail(path);
    if whole.len() > body_start(whole) && tail(whole) != seq!['.', '.'] {
        Some(tail(whole))
    } else {
        None
    }
}

fn body_from(path: &Vec<char>, len: usize) -> (r: usize)
    requires
        len <= path@.len(),
    ensures
        r == body_start(path@.take(len as int)),
        r <= len,
{
    if len > 0 && (path[0] == '/' || (path[0] == '.' && (len == 1 || path[1] == '/'))) {
        1
    } else {
        0
    }
}

fn tail_from(path: &Vec<char>, len: usize, from: usize) -> (r: usize)
    requires
        from <= len <= path@.len(),
    ensures
        r == tail_start(path@.take(len as int), from as int),
        from <= r <= len,
        r > from ==> path@[r - 1] == '/',
{
    let mut i: usize = len;
    while i > from && path[i - 1] != '/'
        invariant
            from <= i <= len <= path@.len(),
            tail_start(path@.take(len as int), from as int) == tail_start(
                path@.take(i as int),
                from as int,
            ),
        decreases i,
    {
        assert(path@.take(i as int).drop_last() =~= path@.take(i - 1));
        i = i - 1;
    }
    i
}

fn says_nothing(path: &Vec<char>, from: usize, to: usize) -> (r: bool)
    requires
        from <= to <= path@.len(),
    ensures
        r == skippable(path@.subrange(from as int, to as int)),
{
    let r: bool = from == to || (to - from == 1 && path[from] == '.');
    proof {
        let part = path@.subrange(from as int, to as int);
        if r && from != to {
            assert(part =~= seq!['.']);
        }
        if part == seq!['.'] {
            assert(part.len() == 1 && part[0] == '.');
        }
    }
    r
}

/// The length of what `trim_tail` leaves of the first `len` characters.
fn trimmed(path: &Vec<char>, len: usize) -> (r: usize)
    requires
        len <= path@.len(),
    ensures
        r <= len,
        path@.take(r as int) == trim_tail(path@.take(len as int)),
{
    let mut n: usize = len;
    loop
        invariant
            n <= len <= path@.len(),
            trim_tail(path@.take(n as int)) == trim_tail(path@.take(len as int)),
        decreases n,
    {
        let start: usize = body_from(path, n);
        if n <= start {
            return n;
        }
        let from: usize = tail_from(path, n, start);
        let ghost now = path@.take(n as int);
        assert(now.skip(from as int) =~= path@.subrange(from as int, n as int));
        if !says_nothing(path, from, n) {
            return n;
        }
        let next: usize = if from > start {
            from - 1
        } else {
            from
        };
        proof {
            lemma_before_tail(now);
            assert(before_tail(now) =~= path@.take(next as int));
        }
        n = next;
    }
}

/// The path without its last component; nothing for the root and the empty path.
pub fn parent(path: &str) -> (r: Option<String>)
    ensures
        r.deep_view() == parent_spec(path@),
{
    let chars: Vec<char> = chars_of(path);
    assert(path@.take(path@.len() as int) =~= path@);
    let len: usize = trimmed(&chars, chars.len());
    let start: usize = body_from(&chars, len);
    let ghost whole = path@.take(len as int);
    if len > start {
        let from: usize = tail_from(&chars, len, start);
        let next: usize = if from > start {
            from - 1
        } else {
            from
        };
        assert(before_tail(whole) =~= path@.take(next as int));
        let end: usize = trimmed(&chars, next);
        assert(path@.take(end as int) =~= path@.subrange(0, end as int));
        Some(string_of(&chars, 0, end))
    } else if len == 1 && chars[0] == '.' {
        assert(whole =~= seq!['.']);
        let r: String = String::new();
        assert(r@ =~= Seq::empty());
        Some(r)
    } else {
        proof {
            if whole == seq!['.'] {
                assert(whole.len() == 1 && whole[0] == '.');
            }
        }
        None
    }
}

/// The last component of the path, where it names an entry.
pub fn file_name(path: &str) -> (r: Option<String>)
    ensures
        r.deep_view() == file_name_spec(path@),
{
    let chars: Vec<char> = chars_of(path);
    assert(path@.take(path@.len() as int) =~= path@);
    let len: usize = trimmed(&chars, chars.len());
    let start: usize = body_from(&chars, len);
    let ghost whole = path@.take(len as int);
    if len <= start {
        return None;
    }
    let from: usize = tail_from(&chars, len, start);
    assert(whole.skip(from as int) =~= path@.subrange(from as int, len as int));
    if len - from == 2 && chars[from] == '.' && chars[from + 1] == '.' {
        assert(tail(whole) =~= seq!['.', '.']);
        return None;
    }
    proof {
        if tail(whole) == seq!['.', '.'] {
            assert(tail(whole).len() == 2 && tail(whole)[0] == '.' && tail(whole)[1] == '.');
        }
    }
    Some(string_of(&chars, from, len))
}

// ---------------------------------------------------------------------------
// Components
// ---------------------------------------------------------------------------

/// The components among the parts of a path.
pub open spec fn named_parts(parts: Seq<Seq<char>>) -> Seq<Seq<char>>
    decreases parts.len(),
{
    if parts.len() == 0 {
        Seq::empty()
    } else if skippable(parts.last()) {
        named_parts(parts.drop_last())
    } else {
        named_parts(parts.drop_last()).push(parts.last())
    }
}

/// The components of a path: the root or a leading dot first, where there is one.
pub open spec fn components_spec(path: Seq<char>) -> Seq<Seq<char>> {
    let head = if absolute(path) {
        seq![seq!['/']]
    } else if body_start(path) == 1 {
        seq![seq!['.']]
    } else {
        Seq::empty()
    };
    head + named_parts(split_spec(path, '/'))
}

/// The components of the path: the root or a leading dot first, where there is one.
pub fn components(path: &str) -> (r: Vec<String>)
    ensures
        r.deep_view() == components_spec(path@),
{
    let chars: Vec<char> = chars_of(path);
    let mut r: Vec<String> = Vec::new();
    assert(path@.take(path@.len() as int) =~= path@);
    let start: usize = body_from(&chars, chars.len());
    let ghost mut head: Seq<Seq<char>> = Seq::empty();
    if start == 1 {
        r.push(string_of(&chars, 0, 1));
        proof {
            assert(path@.subrange(0, 1) =~= seq![path@[0]]);
            head = seq![seq![path@[0]]];
        }
    }
    assert(r.deep_view() =~= head);
    let parts: Vec<String> = split(path, '/');
    let mut i: usize = 0;
    assert(parts.deep_view().take(0) =~= Seq::empty());
    assert(head + named_parts(Seq::empty()) =~= head);
    while i < parts.len()
        invariant
            i <= parts@.len(),
            r.deep_view() == head + named_parts(parts.deep_view().take(i as int)),
        decreases parts@.len() - i,
    {
        let ghost before = r.deep_view();
        let part: Vec<char> = chars_of(parts[i].as_str());
        assert(parts.deep_view().take(i + 1).drop_last() =~= parts.deep_view().take(i as int));
        assert(part@.subrange(0, part@.len() as int) =~= part@);
        if !says_nothing(&part, 0, part.len()) {
            r.push(parts[i].clone());
            assert(r.deep_view() =~= before.push(part@));
            assert(before.push(part@) =~= head + named_parts(
                parts.deep_view().take(i as int),
            ).push(part@));
        }
        i = i + 1;
    }
    assert(parts.deep_view().take(i as int) =~= parts.deep_view());
    r
}

/// Whether a path lies at or below `base`, component by component.
pub open spec fn below(path: Seq<char>, base: Seq<char>) -> bool {
    components_spec(base).is_prefix_of(components_spec(path))
}

/// Whether the path lies at or below `base`, component by component.
pub fn starts_with(path: &str, base: &str) -> (r: bool)
    ensures
        r == below(path@, base@),
{
    let whole: Vec<String> = components(path);
    let front: Vec<String> = components(base);
    if front.len() > whole.len() {
        return false;
    }
    let mut i: usize = 0;
    while i < front.len()
        invariant
            i <= front@.len() <= whole@.len(),
            forall|k: int| 0 <= k < i ==> (#[trigger] front@[k])@ == whole@[k]@,
            whole.deep_view() == components_spec(path@),
            front.deep_view() == components_spec(base@),
        decreases front@.len() - i,
    {
        if !same(front[i].as_str(), whole[i].as_str()) {
            proof {
                let a = components_spec(base@);
                let b = components_spec(path@);
                assert(a[i as int] != b[i as int]);
                assert(b.subrange(0, a.len() as int)[i as int] == b[i as int]);
            }
            return false;
        }
        i = i + 1;
    }
    assert(components_spec(path@).subrange(0, front@.len() as int) =~= components_spec(base@));
    true
}

// ---------------------------------------------------------------------------
// Places below the runtime directory
// ---------------------------------------------------------------------------

/// The directory that holds everything the daemon writes.
pub fn runtime_dir() -> (r: String)
    ensures
        r@ == ".rufa"@,
{
    ".rufa".to_owned()
}

/// The directory of the log files.
pub fn logs_dir() -> (r: String)
    ensures
        r@ == join_spec(".rufa"@, "logs"@),
{
    join(runtime_dir().as_str(), "logs")
}

/// The directory of the generation records.
pub fn targets_dir() -> (r: String)
    ensures
        r@ == join_spec(".rufa"@, "targets"@),
{
    join(runtime_dir().as_str(), "targets")
}

/// Whether a character may stand in a file name made from a target name.
pub open spec fn safe_char(c: char) -> bool {
    ||| 'a' <= c <= 'z'
    ||| 'A' <= c <= 'Z'
    ||| '0' <= c <= '9'
    ||| c == '-'
    ||| c == '_'
    ||| c == '.'
}

/// A target name with an underscore in place of each character that is not safe in a file name.
pub open spec fn sanitize_spec(name: Seq<char>) -> Seq<char> {
    name.map_values(
        |c: char|
            if safe_char(c) {
                c
            } else {
                '_'
            },
    )
}

/// The target name with an underscore in place of each character that is not safe in a file name.
pub fn sanitize_target_name(name: &str) -> (r: String)
    ensures
        r@ == sanitize_spec(name@),
{
    let mut r: String = String::new();
    for c in it: name.chars()
        invariant
            it.seq() == name@,
            r@ == sanitize_spec(name@.take(it.index() as int)),
    {
        let safe: bool = ('a' <= c && c <= 'z') || ('A' <= c && c <= 'Z') || ('0' <= c && c <= '9')
            || c == '-' || c == '_' || c == '.';
        if safe {
            r.push(c);
        } else {
            r.push('_');
        }
        assert(r@ =~= sanitize_spec(name@.take(it.index() + 1)));
    }
    assert(name@.take(name@.len() as int) =~= name@);
    r
}

/// The name of the log file of one generation of a target.
pub open spec fn log_file_name_spec(target: Seq<char>, generation: nat) -> Seq<char> {
    sanitize_spec(target) + seq!['.'] + decimal_spec(generation) + seq!['.', 'l', 'o', 'g']
}

/// The name of the log file of one generation of a target.
pub fn log_file_name(target: &str, generation: u64) -> (r: String)
    ensures
        r@ == log_file_name_spec(target@, generation as nat),
{
    let mut r: String = sanitize_target_name(target);
    r.push('.');
    r.append(decimal(generation).as_str());
    r.push('.');
    r.push('l');
    r.push('o');
    r.push('g');
    assert(r@ =~= log_file_name_spec(target@, generation as nat));
    r
}

/// The path of the log file of one generation of a target.
pub open spec fn log_file_path_spec(target: Seq<char>, generation: nat) -> Seq<char> {
    join_spec(join_spec(".rufa"@, "logs"@), log_file_name_spec(target, generation))
}

/// The path of the log file of one generation of a target.
pub fn log_file_path(target: &str, generation: u64) -> (r: String)
    ensures
        r@ == log_file_path_spec(target@, generation as nat),
{
    join(logs_dir().as_str(), log_file_name(target, generation).as_str())
}

// ---------------------------------------------------------------------------
// Laws
// ---------------------------------------------------------------------------

/// A file name made from a target name is as long as the name and holds only safe characters;
/// making it safe again changes nothing.
pub proof fn sanitized_name_is_safe(name: Seq<char>)
    ensures
        sanitize_spec(name).len() == name.len(),
        forall|i: int| 0 <= i < name.len() ==> safe_char(#[trigger] sanitize_spec(name)[i]),
        sanitize_spec(sanitize_spec(name)) == sanitize_spec(name),
{
    assert(sanitize_spec(sanitize_spec(name)) =~= sanitize_spec(name));
}

/// Two generations of one target never share a log file.
pub proof fn generations_have_their_own_log(target: Seq<char>, a: nat, b: nat)
    requires
        log_file_name_spec(target, a) == log_file_name_spec(target, b),
    ensures
        a == b,
{
    let head = sanitize_spec(target) + seq!['.'];
    let x = log_file_name_spec(target, a);
    let y = log_file_name_spec(target, b);
    assert(x.len() == head.len() + decimal_spec(a).len() + 4);
    assert(y.len() == head.len() + decimal_spec(b).len() + 4);
    let n = head.len() as int;
    assert(x.subrange(n, x.len() - 4) =~= decimal_spec(a));
    assert(y.subrange(n, y.len() - 4) =~= decimal_spec(b));
    decimal_injective(a, b);
}

/// A log file name holds no separator, so the file lies directly in the log directory.
pub proof fn log_file_name_has_no_separator(target: Seq<char>, generation: nat)
    ensures
        !log_file_name_spec(target, generation).contains('/'),
{
    let name = log_file_name_spec(target, generation);
    lemma_decimal_digits(generation);
    if name.contains('/') {
        let i = choose|i: int| 0 <= i < name.len() && name[i] == '/';
        let a = sanitize_spec(target);
        let d = decimal_spec(generation);
        if i < a.len() {
            assert(name[i] == a[i]);
        } else if a.len() < i < a.len() + 1 + d.len() {
            assert(name[i] == d[i - a.len() - 1]);
        }
    }
}

/// Splitting at a character that stands between two texts splits the texts.
pub proof fn lemma_split_between(a: Seq<char>, c: char, b: Seq<char>)
    ensures
        split_spec(a + seq![c] + b, c) == split_spec(a, c) + split_spec(b, c),
    decreases a.len(),
{
    let whole = a + seq![c] + b;
    lemma_position(a, c);
    let p = position(a, c) as int;
    if p < a.len() {
        assert forall|k: int| 0 <= k < p implies whole[k] != c by {
            assert(whole[k] == a[k]);
        }
        assert(whole[p] == a[p]);
        lemma_position_is(whole, c, p);
        let rest = a.skip(p + 1);
        lemma_split_between(rest, c, b);
        assert(whole.skip(p + 1) =~= rest + seq![c] + b);
        assert(whole.take(p) =~= a.take(p));
        assert(split_spec(whole, c) =~= split_spec(a, c) + split_spec(b, c));
    } else {
        assert forall|k: int| 0 <= k < a.len() implies whole[k] != c by {
            assert(whole[k] == a[k]);
        }
        assert(whole[a.len() as int] == c);
        lemma_position_is(whole, c, a.len() as int);
        assert(whole.take(a.len() as int) =~= a);
        assert(whole.skip(a.len() as int + 1) =~= b);
        assert(split_spec(whole, c) =~= split_spec(a, c) + split_spec(b, c));
    }
}

/// A text without a character is not split at it.
pub proof fn lemma_split_none(s: Seq<char>, c: char)
    requires
        !s.contains(c),
    ensures
        split_spec(s, c) == seq![s],
{
    assert forall|k: int| 0 <= k < s.len() implies s[k] != c by {
        assert(s.contains(s[k]));
    }
    lemma_position_is(s, c, s.len() as int);
}

proof fn lemma_named_parts_concat(a: Seq<Seq<char>>, b: Seq<Seq<char>>)
    ensures
        named_parts(a + b) == named_parts(a) + named_parts(b),
    decreases b.len(),
{
    if b.len() == 0 {
        assert(a + b =~= a);
        assert(named_parts(a) + named_parts(b) =~= named_parts(a));
    } else {
        lemma_named_parts_concat(a, b.drop_last());
        assert((a + b).drop_last() =~= a + b.drop_last());
        assert((a + b).last() == b.last());
        assert(named_parts(a + b) =~= named_parts(a) + named_parts(b));
    }
}

proof fn lemma_components_of_join(base: Seq<char>, path: Seq<char>)
    requires
        base.len() > 0,
        !absolute(path),
    ensures
        components_spec(join_spec(base, path)) == components_spec(base) + named_parts(
            split_spec(path, '/'),
        ),
{
    let joined = join_spec(base, path);
    let below_base = named_parts(split_spec(path, '/'));
    let front = if base.last() == '/' {
        base.drop_last()
    } else {
        base
    };
    assert(joined =~= front + seq!['/'] + path);
    lemma_split_between(front, '/', path);
    lemma_named_parts_concat(split_spec(front, '/'), split_spec(path, '/'));
    if base.last() == '/' {
        let nothing = Seq::<char>::empty();
        assert(base =~= front + seq!['/'] + nothing);
        lemma_split_between(front, '/', nothing);
        lemma_split_none(nothing, '/');
        lemma_named_parts_concat(split_spec(front, '/'), seq![nothing]);
        reveal_with_fuel(named_parts, 2);
        assert(seq![nothing].drop_last() =~= Seq::empty());
        assert(named_parts(seq![nothing]) =~= Seq::empty());
        assert(named_parts(split_spec(base, '/')) =~= named_parts(split_spec(front, '/')));
    }
    assert(joined[0] == base[0]);
    assert(absolute(joined) == absolute(base));
    if base.len() >= 2 {
        assert(joined[1] == base[1]);
    } else if base[0] == '.' {
        assert(joined[1] == '/');
    }
    assert(body_start(joined) == body_start(base));
    assert(components_spec(joined) =~= components_spec(base) + below_base);
}

/// What is named from a directory lies below the directory.
pub proof fn joined_path_lies_below_its_base(base: Seq<char>, path: Seq<char>)
    requires
        base.len() > 0,
        !absolute(path),
    ensures
        below(join_spec(base, path), base),
        below(base, base),
{
    lemma_components_of_join(base, path);
    let whole = components_spec(join_spec(base, path));
    let front = components_spec(base);
    assert(whole.take(front.len() as int) =~= front);
    assert(front.take(front.len() as int) =~= front);
}

/// Lying below is carried on: what lies below a directory lies below every directory above it.
pub proof fn below_is_transitive(a: Seq<char>, b: Seq<char>, c: Seq<char>)
    requires
        below(a, b),
        below(b, c),
    ensures
        below(a, c),
{
    let x = components_spec(a);
    let y = components_spec(b);
    let z = components_spec(c);
    assert(x.take(y.len() as int) =~= y);
    assert(y.take(z.len() as int) =~= z);
    assert(x.take(z.len() as int) =~= z) by {
        assert forall|i: int| 0 <= i < z.len() implies x[i] == z[i] by {
            assert(x.take(y.len() as int)[i] == y[i]);
            assert(y.take(z.len() as int)[i] == z[i]);
        }
    }
}

/// Whether a text names one entry of a directory.
pub open spec fn entry_name(name: Seq<char>) -> bool {
    name.len() > 0 && !name.contains('/') && name != seq!['.'] && name != seq!['.', '.']
}

/// Different entries of a directory lie beside each other: nothing below the one lies below the
/// other, even where one name begins with the other.
pub proof fn different_entries_lie_apart(
    base: Seq<char>,
    one: Seq<char>,
    other: Seq<char>,
    path: Seq<char>,
)
    requires
        base.len() > 0,
        entry_name(one),
        entry_name(other),
        one != other,
        below(path, join_spec(base, one)),
    ensures
        !below(path, join_spec(base, other)),
{
    lemma_entry(base, one);
    lemma_entry(base, other);
    let n = components_spec(base).len() as int;
    let whole = components_spec(path);
    let a = components_spec(join_spec(base, one));
    let b = components_spec(join_spec(base, other));
    assert(whole.take(a.len() as int)[n] == one);
    if below(path, join_spec(base, other)) {
        assert(whole.take(b.len() as int)[n] == other);
    }
}

/// An entry of a directory has the components of the directory and its own name.
pub proof fn lemma_entry(base: Seq<char>, name: Seq<char>)
    requires
        base.len() > 0,
        entry_name(name),
    ensures
        components_spec(join_spec(base, name)) == components_spec(base).push(name),
{
    if absolute(name) {
        assert(name.contains(name[0]));
    }
    lemma_components_of_join(base, name);
    lemma_split_none(name, '/');
    reveal_with_fuel(named_parts, 2);
    assert(seq![name].drop_last() =~= Seq::empty());
    assert(named_parts(seq![name]) =~= seq![name]);
    assert(components_spec(base) + seq![name] =~= components_spec(base).push(name));
}

proof fn lemma_tail_start_is(path: Seq<char>, from: int, at: int)
    requires
        0 <= from < at <= path.len(),
        path[at - 1] == '/',
        forall|i: int| at <= i < path.len() ==> path[i] != '/',
    ensures
        tail_start(path, from) == at,
    decreases path.len(),
{
    if path.len() > at {
        assert(path.last() == path[path.len() - 1]);
        lemma_tail_start_is(path.drop_last(), from, at);
    }
}

/// Whether a path ends with the name of an entry.
pub open spec fn plainly_ended(path: Seq<char>) -> bool {
    path.len() > 0 && path.last() != '/' && path.last() != '.'
}

proof fn lemma_plainly_ended(path: Seq<char>)
    requires
        plainly_ended(path),
    ensures
        trim_tail(path) == path,
{
    let from = body_start(path);
    lemma_tail_start(path, from);
    let at = tail_start(path, from);
    if path.len() > from {
        assert(at < path.len()) by {
            if at == path.len() {
                assert(path[at - 1] == path.last());
            }
        }
        assert(tail(path).last() == path.last());
    }
}

/// The file in a directory has the directory as its parent and keeps its name.
pub proof fn parent_of_an_entry_is_its_directory(dir: Seq<char>, name: Seq<char>)
    requires
        plainly_ended(dir),
        entry_name(name),
    ensures
        parent_spec(join_spec(dir, name)) == Some(dir),
        file_name_spec(join_spec(dir, name)) == Some(name),
{
    if absolute(name) {
        assert(name.contains(name[0]));
    }
    let path = join_spec(dir, name);
    let at = dir.len() as int + 1;
    assert(path[at - 1] == '/');
    assert forall|i: int| at <= i < path.len() implies path[i] != '/' by {
        assert(path[i] == name[i - at]);
        assert(name.contains(name[i - at]));
    }
    lemma_tail_start_is(path, body_start(path), at);
    assert(path.skip(at) =~= name);
    assert(tail(path) == name);
    assert(trim_tail(path) == path);
    assert(path.take(at - 1) =~= dir);
    lemma_plainly_ended(dir);
}

/// A name keeps its letters, digits, hyphens, underscores and dots; each other character becomes an
/// underscore.
pub proof fn safe_characters_are_kept(name: Seq<char>, i: int)
    requires
        0 <= i < name.len(),
    ensures
        ({
            let c = name[i];
            sanitize_spec(name)[i] == (if 'a' <= c <= 'z' || 'A' <= c <= 'Z' || '0' <= c <= '9' || c
                == '-' || c == '_' || c == '.' {
                c
            } else {
                '_'
            })
        }),
{
}

/// A path that begins with a separator is absolute, and is not looked for anywhere else; other
/// paths stand behind their base.
pub proof fn absolute_path_is_taken_as_it_is(base: Seq<char>, path: Seq<char>)
    ensures
        absolute(path) <==> path.len() > 0 && path[0] == '/',
        absolute(path) ==> join_spec(base, path) == path,
        !absolute(path) ==> base.is_prefix_of(join_spec(base, path)) && path.is_suffix_of(
            join_spec(base, path),
        ),
        join_spec(Seq::empty(), path) == path,
{
    let whole = join_spec(base, path);
    if !absolute(path) {
        assert(whole.take(base.len() as int) =~= base);
        assert(whole.subrange(whole.len() - path.len(), whole.len() as int) =~= path);
    }
}

/// The log of a run stands among the logs, under the name of the target and the generation.
pub proof fn log_stands_among_the_logs(target: Seq<char>, generation: nat)
    ensures
        log_file_path_spec(target, generation) == ".rufa/logs/"@ + sanitize_spec(target) + "."@
            + decimal_spec(generation) + ".log"@,
{
    reveal_strlit(".rufa");
    reveal_strlit("logs");
    reveal_strlit(".rufa/logs/");
    reveal_strlit(".");
    reveal_strlit(".log");
    let dir = join_spec(".rufa"@, "logs"@);
    assert(dir =~= ".rufa"@ + seq!['/'] + "logs"@);
    assert(dir + seq!['/'] =~= ".rufa/logs/"@);
    let name = log_file_name_spec(target, generation);
    log_file_name_has_no_separator(target, generation);
    if absolute(name) {
        assert(name.contains(name[0]));
    }
    assert(dir.last() == "logs"@[3]);
    assert(name =~= sanitize_spec(target) + "."@ + decimal_spec(generation) + ".log"@);
    assert(log_file_path_spec(target, generation) =~= dir + seq!['/'] + name);
    assert(dir + seq!['/'] + name =~= ".rufa/logs/"@ + name);
    assert(".rufa/logs/"@ + name =~= ".rufa/logs/"@ + sanitize_spec(target) + "."@ + decimal_spec(
        generation,
    ) + ".log"@);
}

} // verus!
