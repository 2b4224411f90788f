//! Files with environment variables.

use vstd::prelude::*;

use crate::names::{lemma_lookup_put, lookup, put, NameMap};
use crate::numbers::{decimal, decimal_spec};
use crate::parts::{lemma_position_is, lines, lines_spec, splitn, splitn_spec};
use crate::text::{chars_of, is_empty, is_white, starts_with, string_of, trim, trim_spec};
use crate::views::outcome;

verus! {

/// The variable that tells the daemon which file to read variables from.
pub const OVERRIDE_ENV_FILE_VAR: &'static str = "RUFA_ENV_FILE";

/// A line with a name that no variable can have.
#[derive(Debug, PartialEq, Eq)]
pub struct EnvFileError {
    pub name: String,
    /// The number of the line, counted from one.
    pub line: usize,
}

/// What an [`EnvFileError`] stands for.
pub struct EnvFileErrorView {
    pub name: Seq<char>,
    pub line: nat,
}

impl DeepView for EnvFileError {
    type V = EnvFileErrorView;

    open spec fn deep_view(&self) -> EnvFileErrorView {
        EnvFileErrorView { name: self.name@, line: self.line as nat }
    }
}

impl EnvFileError {
    /// What is shown of the error.
    pub fn message(&self) -> (r: String)
        ensures
            r@ == "invalid environment variable name `"@ + self.deep_view().name + "` at line "@
                + decimal_spec(self.deep_view().line),
    {
        let mut r: String = "invalid environment variable name `".to_owned();
        r.append(self.name.as_str());
        r.append("` at line ");
        r.append(decimal(self.line as u64).as_str());
        r
    }
}

/// Whether a character may stand in the name of a variable.
pub open spec fn env_key_char(c: char) -> bool {
    ||| c == '_'
    ||| c == '-'
    ||| c == '.'
    ||| 'a' <= c <= 'z'
    ||| 'A' <= c <= 'Z'
    ||| '0' <= c <= '9'
}

fn is_env_key_char(c: char) -> (r: bool)
    ensures
        r == env_key_char(c),
{
    c == '_' || c == '-' || c == '.' || ('a' <= c && c <= 'z') || ('A' <= c && c <= 'Z') || ('0'
        <= c && c <= '9')
}

/// Whether a name can be the name of a variable.
pub open spec fn valid_key(key: Seq<char>) -> bool {
    forall|i: int| 0 <= i < key.len() ==> env_key_char(#[trigger] key[i])
}

fn is_valid_key(key: &str) -> (r: bool)
    ensures
        r == valid_key(key@),
{
    let chars: Vec<char> = chars_of(key);
    let mut i: usize = 0;
    while i < chars.len()
        invariant
            i <= chars@.len(),
            chars@ == key@,
            forall|k: int| 0 <= k < i ==> env_key_char(#[trigger] chars@[k]),
        decreases chars@.len() - i,
    {
        if !is_env_key_char(chars[i]) {
            assert(!env_key_char(key@[i as int]));
            return false;
        }
        i = i + 1;
    }
    true
}

/// A value without the quotes around it, where the same quote stands at both ends.
pub open spec fn unquoted(value: Seq<char>) -> Seq<char> {
    if value.len() >= 2 && value[0] == value.last() && (value[0] == '"' || value[0] == '\'') {
        value.subrange(1, value.len() - 1)
    } else {
        value
    }
}

fn strip_quotes(value: &str) -> (r: String)
    ensures
        r@ == unquoted(value@),
{
    let chars: Vec<char> = chars_of(value);
    if chars.len() >= 2 && chars[0] == chars[chars.len() - 1] && (chars[0] == '"' || chars[0]
        == '\'') {
        string_of(&chars, 1, chars.len() - 1)
    } else {
        value.to_owned()
    }
}

/// What a line of an environment file says.
pub enum EnvLine {
    /// Nothing: it is blank, a comment, or names something hidden.
    Nothing,
    Variable { name: Seq<char>, value: Seq<char> },
    /// It names something that cannot be the name of a variable.
    Wrong { name: Seq<char> },
}

/// What a line of an environment file says.
pub open spec fn env_line(raw: Seq<char>) -> EnvLine {
    let line = trim_spec(raw);
    let parts = splitn_spec(line, 2, '=');
    let name = trim_spec(parts[0]);
    let value = if parts.len() >= 2 {
        trim_spec(parts[1])
    } else {
        Seq::empty()
    };
    if line.len() == 0 || "#"@.is_prefix_of(line) || name.len() == 0 || "."@.is_prefix_of(name) {
        EnvLine::Nothing
    } else if !valid_key(name) {
        EnvLine::Wrong { name }
    } else {
        EnvLine::Variable { name, value: unquoted(value) }
    }
}

/// The variables that lines set; the last line about a name counts, and the first wrong line
/// decides the error.
pub open spec fn env_lines(lines: Seq<Seq<char>>) -> Result<
    Seq<(Seq<char>, Seq<char>)>,
    EnvFileErrorView,
>
    decreases lines.len(),
{
    if lines.len() == 0 {
        Ok(Seq::empty())
    } else {
        match env_lines(lines.drop_last()) {
            Err(error) => Err(error),
            Ok(variables) => match env_line(lines.last()) {
                EnvLine::Nothing => Ok(variables),
                EnvLine::Variable { name, value } => Ok(put(variables, name, value)),
                EnvLine::Wrong { name } => Err(EnvFileErrorView { name, line: lines.len() }),
            },
        }
    }
}

proof fn lemma_env_lines_error(lines: Seq<Seq<char>>, i: int)
    requires
        0 <= i <= lines.len(),
        env_lines(lines.take(i)) is Err,
    ensures
        env_lines(lines) == env_lines(lines.take(i)),
    decreases lines.len() - i,
{
    if i < lines.len() {
        assert(lines.take(i + 1).drop_last() =~= lines.take(i));
        lemma_env_lines_error(lines, i + 1);
    } else {
        assert(lines.take(i) =~= lines);
    }
}

proof fn lemma_splitn_is_not_empty(s: Seq<char>, n: nat, c: char)
    requires
        n > 0,
    ensures
        splitn_spec(s, n, c).len() > 0,
{
}

fn read_line(raw: &str) -> (r: Result<Option<(String, String)>, String>)
    ensures
        match env_line(raw@) {
            EnvLine::Nothing => r matches Ok(None),
            EnvLine::Variable { name, value } => r matches Ok(Some((n, v))) && n@ == name && v@
                == value,
            EnvLine::Wrong { name } => r matches Err(n) && n@ == name,
        },
{
    let line: String = trim(raw);
    if is_empty(line.as_str()) || starts_with(line.as_str(), "#") {
        return Ok(None);
    }
    let parts: Vec<String> = splitn(line.as_str(), 2, '=');
    let ghost shown = parts.deep_view();
    proof {
        lemma_splitn_is_not_empty(line@, 2, '=');
        assert(shown[0] == parts@[0]@);
    }
    let name: String = trim(parts[0].as_str());
    if is_empty(name.as_str()) || starts_with(name.as_str(), ".") {
        return Ok(None);
    }
    let value: String = if parts.len() >= 2 {
        assert(shown[1] == parts@[1]@);
        trim(parts[1].as_str())
    } else {
        String::new()
    };
    assert(parts.len() < 2 ==> value@ =~= Seq::empty());
    if !is_valid_key(name.as_str()) {
        return Err(name);
    }
    Ok(Some((name, strip_quotes(value.as_str()))))
}

/// Reads the variables from the contents of an environment file. Comments, blank lines and names
/// that start with a dot are passed over.
pub fn load_env_overrides(contents: &str) -> (r: Result<NameMap<String>, EnvFileError>)
    ensures
        outcome(r) == env_lines(lines_spec(contents@)),
{
    let all: Vec<String> = lines(contents);
    let ghost list = all.deep_view();
    let mut variables: NameMap<String> = NameMap::new();
    let mut i: usize = 0;
    assert(list.take(0) =~= Seq::empty());
    while i < all.len()
        invariant
            i <= all@.len(),
            list == all.deep_view(),
            list == lines_spec(contents@),
            env_lines(list.take(i as int)) == Ok::<_, EnvFileErrorView>(variables.deep_view()),
        decreases all@.len() - i,
    {
        assert(list.take(i + 1).drop_last() =~= list.take(i as int));
        match read_line(all[i].as_str()) {
            Ok(None) => {},
            Ok(Some((name, value))) => {
                let _ = variables.insert(name, value);
            },
            Err(name) => {
                proof {
                    lemma_env_lines_error(list, i + 1);
                }
                return Err(EnvFileError { name, line: i + 1 });
            },
        }
        i = i + 1;
    }
    assert(list.take(i as int) =~= list);
    Ok(variables)
}

/// Variables with others over them.
pub open spec fn overridden(
    base: Seq<(Seq<char>, Seq<char>)>,
    over: Seq<(Seq<char>, Seq<char>)>,
) -> Seq<(Seq<char>, Seq<char>)>
    decreases over.len(),
{
    if over.len() == 0 {
        base
    } else {
        put(overridden(base, over.drop_last()), over.last().0, over.last().1)
    }
}

/// Puts the variables of `over` over those of `base`.
pub fn override_env(base: &mut NameMap<String>, over: &NameMap<String>)
    ensures
        final(base).deep_view() == overridden(old(base).deep_view(), over.deep_view()),
{
    let ghost list = over.deep_view();
    let mut i: usize = 0;
    assert(list.take(0) =~= Seq::empty());
    while i < over.len()
        invariant
            i <= list.len(),
            list == over.deep_view(),
            base.deep_view() == overridden(old(base).deep_view(), list.take(i as int)),
        decreases list.len() - i,
    {
        assert(list.take(i + 1).drop_last() =~= list.take(i as int));
        let _ = base.insert(over.name_at(i).clone(), over.value_at(i).clone());
        i = i + 1;
    }
    assert(list.take(i as int) =~= list);
}

// ---------------------------------------------------------------------------
// Laws
// ---------------------------------------------------------------------------

/// Of several lines about one variable the last one counts.
pub proof fn last_line_counts(lines: Seq<Seq<char>>, name: Seq<char>, value: Seq<char>)
    requires
        lines.len() > 0,
        env_lines(lines) is Ok,
        env_line(lines.last()) == (EnvLine::Variable { name, value }),
    ensures
        lookup(env_lines(lines)->Ok_0, name) == Some(value),
{
    lemma_lookup_put(env_lines(lines.drop_last())->Ok_0, name, value, name);
}

/// Every variable that is read has a name that is not empty, does not start with a dot and is made
/// of letters, digits, underscores, hyphens and dots.
pub proof fn names_are_valid(lines: Seq<Seq<char>>, name: Seq<char>)
    requires
        env_lines(lines) is Ok,
        lookup(env_lines(lines)->Ok_0, name) is Some,
    ensures
        valid_key(name),
        name.len() > 0,
        !"."@.is_prefix_of(name),
    decreases lines.len(),
{
    if lines.len() > 0 {
        let before = env_lines(lines.drop_last())->Ok_0;
        match env_line(lines.last()) {
            EnvLine::Variable { name: set, value } => {
                lemma_lookup_put(before, set, value, name);
                if set != name {
                    names_are_valid(lines.drop_last(), name);
                }
            },
            _ => {
                names_are_valid(lines.drop_last(), name);
            },
        }
    }
}

/// Variables that are put over others win, and the others are kept.
pub proof fn overrides_win(
    base: Seq<(Seq<char>, Seq<char>)>,
    over: Seq<(Seq<char>, Seq<char>)>,
    name: Seq<char>,
)
    ensures
        lookup(overridden(base, over), name) == (match lookup(over, name) {
            Some(value) => Some(value),
            None => lookup(base, name),
        }),
    decreases over.len(),
{
    if over.len() > 0 {
        overrides_win(base, over.drop_last(), name);
        lemma_lookup_put(overridden(base, over.drop_last()), over.last().0, over.last().1, name);
    }
}

/// Whether a text is written without white space at its ends.
pub open spec fn tight(text: Seq<char>) -> bool {
    text.len() > 0 && !is_white(text[0]) && !is_white(text.last())
}

/// Whether a text can be the name of a variable in a file: letters, digits, underscores, hyphens
/// and dots, the first not a dot.
pub open spec fn variable_name(name: Seq<char>) -> bool {
    name.len() > 0 && name[0] != '.' && forall|i: int|
        0 <= i < name.len() ==> ({
            let c = #[trigger] name[i];
            c == '_' || c == '-' || c == '.' || 'a' <= c <= 'z' || 'A' <= c <= 'Z' || '0' <= c
                <= '9'
        })
}

proof fn lemma_assignment(name: Seq<char>, value: Seq<char>)
    requires
        variable_name(name),
        value.len() > 0 ==> !is_white(value.last()),
    ensures
        ({
            let line = name + seq!['='] + value;
            &&& trim_spec(line) == line
            &&& splitn_spec(line, 2, '=') == seq![name, value]
            &&& trim_spec(name) == name
            &&& !"#"@.is_prefix_of(line)
            &&& !"."@.is_prefix_of(name)
            &&& valid_key(name)
        }),
{
    reveal_strlit("#");
    reveal_strlit(".");
    let line = name + seq!['='] + value;
    assert(line[0] == name[0]);
    assert(!is_white(name[0]));
    assert(!is_white(name[name.len() - 1]));
    assert(name.last() == name[name.len() - 1]);
    if value.len() > 0 {
        assert(line.last() == value.last());
    } else {
        assert(line.last() == '=');
    }
    let n = name.len() as int;
    assert forall|k: int| 0 <= k < n implies line[k] != '=' by {
        assert(line[k] == name[k]);
    }
    assert(line[n] == '=');
    lemma_position_is(line, '=', n);
    assert(line.take(n) =~= name);
    assert(line.skip(n + 1) =~= value);
    reveal_with_fuel(splitn_spec, 3);
    assert(splitn_spec(line, 2, '=') =~= seq![name, value]);
    if "#"@.is_prefix_of(line) {
        assert(line.take(1)[0] == "#"@[0]);
    }
    if "."@.is_prefix_of(name) {
        assert(name.take(1)[0] == "."@[0]);
    }
    assert forall|i: int| 0 <= i < name.len() implies env_key_char(#[trigger] name[i]) by {}
}

/// A line with a name, an equals sign and a value sets the variable to the value, which may hold
/// further equals signs; a value in quotes is taken without them.
pub proof fn assignment_sets_the_variable(name: Seq<char>, value: Seq<char>, quote: char)
    requires
        variable_name(name),
        tight(value),
        quote == '"' || quote == '\'',
    ensures
        value[0] != '"' && value[0] != '\'' ==> env_line(name + seq!['='] + value) == (
        EnvLine::Variable { name, value }),
        env_line(name + seq!['='] + (seq![quote] + value + seq![quote])) == (EnvLine::Variable {
            name,
            value,
        }),
{
    lemma_assignment(name, value);
    assert(trim_spec(value) == value);
    let quoted = seq![quote] + value + seq![quote];
    assert(quoted[0] == quote && quoted.last() == quote);
    lemma_assignment(name, quoted);
    assert(trim_spec(quoted) == quoted);
    assert(quoted.subrange(1, quoted.len() - 1) =~= value);
}

/// A name without a value sets the variable to nothing.
pub proof fn empty_assignment_sets_nothing(name: Seq<char>)
    requires
        variable_name(name),
    ensures
        env_line(name + seq!['=']) == (EnvLine::Variable { name, value: Seq::empty() }),
{
    let nothing = Seq::<char>::empty();
    lemma_assignment(name, nothing);
    assert(name + seq!['='] + nothing =~= name + seq!['=']);
    assert(unquoted(trim_spec(nothing)) =~= nothing);
}

/// Blank lines and comments set nothing.
pub proof fn comments_set_nothing(line: Seq<char>)
    requires
        trim_spec(line).len() == 0 || trim_spec(line)[0] == '#',
    ensures
        env_line(line) == EnvLine::Nothing,
{
    reveal_strlit("#");
    let trimmed = trim_spec(line);
    if trimmed.len() > 0 {
        assert(trimmed.take(1) =~= "#"@);
    }
}

/// Each line about a variable counts unless a later one sets it again; names that no line sets are
/// not set.
pub proof fn every_line_counts(lines: Seq<Seq<char>>, i: int, name: Seq<char>, value: Seq<char>)
    requires
        env_lines(lines) is Ok,
        0 <= i < lines.len(),
        env_line(lines[i]) == (EnvLine::Variable { name, value }),
        forall|j: int|
            i < j < lines.len() ==> (env_line(#[trigger] lines[j]) matches EnvLine::Variable {
                name: other,
                ..
            } ==> other != name),
    ensures
        lookup(env_lines(lines)->Ok_0, name) == Some(value),
    decreases lines.len(),
{
    let front = lines.drop_last();
    if i < front.len() {
        assert(front[i] == lines[i]);
        assert forall|j: int| i < j < front.len() implies (env_line(#[trigger] front[j]) matches
            EnvLine::Variable { name: other, .. } ==> other != name) by {
            assert(front[j] == lines[j]);
        }
        every_line_counts(front, i, name, value);
        let last = lines[lines.len() - 1];
        if let EnvLine::Variable { name: other, value: more } = env_line(last) {
            assert(other != name);
            lemma_lookup_put(env_lines(front)->Ok_0, other, more, name);
        }
    } else {
        last_line_counts(lines, name, value);
    }
}

/// A file is refused exactly where one of its lines names what cannot be a variable; the first
/// such line is told, by its number and the name.
pub proof fn first_wrong_line_is_told(lines: Seq<Seq<char>>)
    ensures
        env_lines(lines) is Err <==> exists|i: int|
            0 <= i < lines.len() && env_line(#[trigger] lines[i]) is Wrong,
        env_lines(lines) matches Err(error) ==> {
            &&& 1 <= error.line <= lines.len()
            &&& env_line(lines[error.line - 1]) == (EnvLine::Wrong { name: error.name })
            &&& forall|j: int|
                0 <= j < error.line - 1 ==> !(env_line(#[trigger] lines[j]) is Wrong)
        },
    decreases lines.len(),
{
    if lines.len() > 0 {
        let front = lines.drop_last();
        first_wrong_line_is_told(front);
        if env_lines(front) is Err {
            let error = env_lines(front)->Err_0;
            assert(front[error.line - 1] == lines[error.line - 1]);
            assert forall|j: int| 0 <= j < error.line - 1 implies !(env_line(#[trigger] lines[j])
                is Wrong) by {
                assert(front[j] == lines[j]);
            }
        } else {
            assert forall|j: int| 0 <= j < front.len() implies !(env_line(#[trigger] lines[j])
                is Wrong) by {
                assert(front[j] == lines[j]);
            }
            if env_line(lines.last()) is Wrong {
                assert(env_line(lines[lines.len() - 1]) is Wrong);
            }
        }
    }
}

} // verus!
