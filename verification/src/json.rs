//! JSON documents as plain values.

use serde_json::Value;
use vstd::prelude::*;

use crate::names::{lemma_lookup_put, lookup, ordered, put};
use crate::text::{is_white, precedes, same};
use crate::views::{outcome, Duplicate};

verus! {

/// A value of a JSON document.
#[derive(Debug, PartialEq, Eq)]
pub enum JsonValue {
    Null,
    Bool(bool),
    Unsigned(u64),
    Signed(i64),
    /// A number that is no integer of 64 bits, as it is written.
    Float(String),
    Text(String),
    Array(Vec<JsonValue>),
    /// Members in name order.
    Object(Vec<(String, JsonValue)>),
}

/// What a [`JsonValue`] stands for.
pub enum JsonView {
    Null,
    Bool(bool),
    Unsigned(u64),
    Signed(i64),
    Float(Seq<char>),
    Text(Seq<char>),
    Array(Seq<JsonView>),
    Object(Seq<(Seq<char>, JsonView)>),
}

/// What a JSON value stands for.
pub open spec fn json_view(value: JsonValue) -> JsonView
    decreases value,
{
    match value {
        JsonValue::Null => JsonView::Null,
        JsonValue::Bool(flag) => JsonView::Bool(flag),
        JsonValue::Unsigned(number) => JsonView::Unsigned(number),
        JsonValue::Signed(number) => JsonView::Signed(number),
        JsonValue::Float(text) => JsonView::Float(text@),
        JsonValue::Text(text) => JsonView::Text(text@),
        JsonValue::Array(items) => JsonView::Array(
            Seq::new(
                items@.len(),
                |i: int|
                    if 0 <= i < items@.len() {
                        json_view(items@[i])
                    } else {
                        arbitrary()
                    },
            ),
        ),
        JsonValue::Object(members) => JsonView::Object(
            Seq::new(
                members@.len(),
                |i: int|
                    if 0 <= i < members@.len() {
                        (members@[i].0@, json_view(members@[i].1))
                    } else {
                        arbitrary()
                    },
            ),
        ),
    }
}

impl DeepView for JsonValue {
    type V = JsonView;

    open spec fn deep_view(&self) -> JsonView {
        json_view(*self)
    }
}

/// The view of an object or an array holds the views of what is in it.
pub proof fn lemma_json_view(value: JsonValue)
    ensures
        value matches JsonValue::Array(items) ==> value.deep_view() == JsonView::Array(
            items.deep_view(),
        ),
        value matches JsonValue::Object(members) ==> value.deep_view() == JsonView::Object(
            members.deep_view(),
        ),
{
    match value {
        JsonValue::Array(items) => {
            assert(value.deep_view()->Array_0 =~= items.deep_view());
        },
        JsonValue::Object(members) => {
            assert(value.deep_view()->Object_0 =~= members.deep_view());
        },
        _ => {},
    }
}

/// A text as a JSON value.
pub fn text_value(text: &str) -> (r: JsonValue)
    ensures
        r.deep_view() == JsonView::Text(text@),
{
    JsonValue::Text(text.to_owned())
}

/// An object with the given members.
pub fn object(members: Vec<(String, JsonValue)>) -> (r: JsonValue)
    ensures
        r.deep_view() == JsonView::Object(members.deep_view()),
{
    let r = JsonValue::Object(members);
    proof {
        lemma_json_view(r);
    }
    r
}

/// An array of the given items.
pub fn array(items: Vec<JsonValue>) -> (r: JsonValue)
    ensures
        r.deep_view() == JsonView::Array(items.deep_view()),
{
    let r = JsonValue::Array(items);
    proof {
        lemma_json_view(r);
    }
    r
}

fn copy_value(value: &JsonValue) -> (copy: JsonValue)
    ensures
        copy.deep_view() == value.deep_view(),
    decreases value,
{
    match value {
        JsonValue::Null => JsonValue::Null,
        JsonValue::Bool(flag) => JsonValue::Bool(*flag),
        JsonValue::Unsigned(number) => JsonValue::Unsigned(*number),
        JsonValue::Signed(number) => JsonValue::Signed(*number),
        JsonValue::Float(text) => JsonValue::Float(text.clone()),
        JsonValue::Text(text) => JsonValue::Text(text.clone()),
        JsonValue::Array(items) => {
            let mut copies: Vec<JsonValue> = Vec::new();
            let mut i: usize = 0;
            while i < items.len()
                invariant
                    i <= items@.len(),
                    copies@.len() == i,
                    *value == JsonValue::Array(*items),
                    forall|k: int|
                        0 <= k < i ==> (#[trigger] copies@[k]).deep_view()
                            == items@[k].deep_view(),
                decreases items@.len() - i,
            {
                let item = &items[i];
                assert(decreases_to!(*value => value->Array_0));
                assert(decreases_to!(items => items@[i as int]));
                copies.push(copy_value(item));
                i = i + 1;
            }
            assert(copies.deep_view() =~= items.deep_view());
            proof {
                lemma_json_view(*value);
            }
            array(copies)
        },
        JsonValue::Object(members) => {
            let mut copies: Vec<(String, JsonValue)> = Vec::new();
            let mut i: usize = 0;
            while i < members.len()
                invariant
                    i <= members@.len(),
                    copies@.len() == i,
                    *value == JsonValue::Object(*members),
                    forall|k: int|
                        0 <= k < i ==> (#[trigger] copies@[k]).0@ == members@[k].0@
                            && copies@[k].1.deep_view() == members@[k].1.deep_view(),
                decreases members@.len() - i,
            {
                let member = &members[i];
                assert(decreases_to!(*value => value->Object_0));
                assert(decreases_to!(members => members@[i as int]));
                assert(decreases_to!(members@[i as int] => members@[i as int].1));
                copies.push((member.0.clone(), copy_value(&member.1)));
                i = i + 1;
            }
            assert(copies.deep_view() =~= members.deep_view());
            proof {
                lemma_json_view(*value);
            }
            object(copies)
        },
    }
}

impl Duplicate for JsonValue {
    fn duplicate(&self) -> (copy: Self) {
        copy_value(self)
    }
}

// ---------------------------------------------------------------------------
// Members
// ---------------------------------------------------------------------------

/// The value under `name` among the members of an object.
pub fn member<'a>(members: &'a Vec<(String, JsonValue)>, name: &str) -> (r: Option<&'a JsonValue>)
    ensures
        r.deep_view() == lookup(members.deep_view(), name@),
{
    let ghost list = members.deep_view();
    let mut i: usize = members.len();
    assert(list.take(list.len() as int) =~= list);
    while i > 0
        invariant
            i <= members@.len(),
            list == members.deep_view(),
            lookup(list, name@) == lookup(list.take(i as int), name@),
        decreases i,
    {
        let ghost front = list.take(i as int);
        assert(front.last() == list[i - 1]);
        assert(front.drop_last() =~= list.take(i - 1));
        if same(members[i - 1].0.as_str(), name) {
            return Some(&members[i - 1].1);
        }
        i = i - 1;
    }
    None
}

/// Puts `value` under `name`, in place of what stood there.
pub fn set_member(members: &mut Vec<(String, JsonValue)>, name: &str, value: JsonValue)
    ensures
        final(members).deep_view() == put(old(members).deep_view(), name@, value.deep_view()),
{
    let ghost list = members.deep_view();
    let ghost shown = value.deep_view();
    let mut i: usize = members.len();
    assert(list.take(list.len() as int) =~= list);
    assert(put(list, name@, shown) =~= put(list.take(i as int), name@, shown) + list.skip(
        i as int,
    ));
    while i > 0
        invariant
            i <= members@.len(),
            list == members.deep_view(),
            list == old(members).deep_view(),
            shown == value.deep_view(),
            put(list, name@, shown) == put(list.take(i as int), name@, shown) + list.skip(i as int),
        decreases i,
    {
        let ghost front = list.take(i as int);
        assert(front.last() == list[i - 1]);
        assert(front.drop_last() =~= list.take(i - 1));
        if same(members[i - 1].0.as_str(), name) {
            members.set(i - 1, (name.to_owned(), value));
            assert(members.deep_view() =~= list.take(i - 1).push((name@, shown)) + list.skip(
                i as int,
            ));
            return;
        }
        if precedes(members[i - 1].0.as_str(), name) {
            members.insert(i, (name.to_owned(), value));
            assert(members.deep_view() =~= front.push((name@, shown)) + list.skip(i as int));
            return;
        }
        assert(put(front.drop_last(), name@, shown).push(front.last()) + list.skip(i as int)
            =~= put(list.take(i - 1), name@, shown) + list.skip(i - 1));
        i = i - 1;
    }
    members.insert(0, (name.to_owned(), value));
    assert(members.deep_view() =~= seq![(name@, shown)] + list.skip(0));
}

/// Members with a default under `name` where there is nothing.
pub open spec fn with_default(
    members: Seq<(Seq<char>, JsonView)>,
    name: Seq<char>,
    value: JsonView,
) -> Seq<(Seq<char>, JsonView)> {
    if lookup(members, name) is Some {
        members
    } else {
        put(members, name, value)
    }
}

/// Puts `value` under `name` where there is nothing.
pub fn default_member(members: &mut Vec<(String, JsonValue)>, name: &str, value: JsonValue)
    ensures
        final(members).deep_view() == with_default(
            old(members).deep_view(),
            name@,
            value.deep_view(),
        ),
{
    if member(members, name).is_none() {
        set_member(members, name, value);
    }
}

// ---------------------------------------------------------------------------
// Reading and writing
// ---------------------------------------------------------------------------

/// A value as the `serde_json` crate holds it.
#[verifier::external_type_specification]
#[verifier::external_body]
pub struct ExJsonValue(serde_json::Value);

/// The value that `serde_json::from_str` reads from a document, or its message where the document
/// is not JSON.
pub uninterp spec fn json_document(text: Seq<char>) -> Result<JsonView, Seq<char>>;

/// What `serde_json::to_string_pretty` writes for a value, or its message.
pub uninterp spec fn json_text(value: JsonView) -> Result<Seq<char>, Seq<char>>;

/// Whether reading gives back what is written of a value: it holds no float, integers stand as
/// [`from_json`] tells them apart, members are in name order, and arrays and objects lie at most
/// `depth` deep in each other.
pub open spec fn is_plain(value: JsonView, depth: nat) -> bool
    decreases value,
{
    match value {
        JsonView::Null => true,
        JsonView::Bool(_) => true,
        JsonView::Unsigned(_) => true,
        JsonView::Signed(number) => number < 0,
        JsonView::Float(_) => false,
        JsonView::Text(_) => true,
        JsonView::Array(items) => depth > 0 && forall|i: int|
            0 <= i < items.len() ==> is_plain(#[trigger] items[i], (depth - 1) as nat),
        JsonView::Object(members) => depth > 0 && ordered(members) && forall|i: int|
            0 <= i < members.len() ==> is_plain((#[trigger] members[i]).1, (depth - 1) as nat),
    }
}

/// How deep `serde_json` reads arrays and objects that lie in each other.
pub open spec fn deepest() -> nat {
    127
}

/// Whether a text neither starts nor ends with white space and, where the value is plain, is read
/// as the value, with a line end behind it.
pub open spec fn reads_back(text: Seq<char>, value: JsonView) -> bool {
    &&& text.len() > 0
    &&& !is_white(text[0])
    &&& !is_white(text.last())
    &&& is_plain(value, deepest()) ==> json_document(text + "\n"@) == Ok::<_, Seq<char>>(value)
}

/// Moves a `serde_json::Value` into a [`JsonValue`], variant by variant. Numbers that are no
/// integers keep the text that `serde_json::Number` displays. Nothing is claimed of the result
/// here: what a whole document becomes is named by [`json_document`].
#[verifier::external_body]
fn from_json(value: Value) -> JsonValue {
    match value {
        Value::Null => JsonValue::Null,
        Value::Bool(b) => JsonValue::Bool(b),
        Value::Number(n) => match (n.as_u64(), n.as_i64()) {
            (Some(u), _) => JsonValue::Unsigned(u),
            (None, Some(i)) => JsonValue::Signed(i),
            (None, None) => JsonValue::Float(n.to_string()),
        },
        Value::String(s) => JsonValue::Text(s),
        Value::Array(a) => JsonValue::Array(a.into_iter().map(from_json).collect()),
        Value::Object(o) => JsonValue::Object(o.into_iter().map(|(k, v)| (k, from_json(v))).collect()),
    }
}

/// Moves a [`JsonValue`] into a `serde_json::Value`, variant by variant. A float whose text is no
/// finite number becomes null, as `serde_json` has it of floats that are not finite. Nothing is
/// claimed of the result here: what a value is written as is named by [`json_text`].
#[verifier::external_body]
fn to_json(value: &JsonValue) -> Value {
    match value {
        JsonValue::Null => Value::Null,
        JsonValue::Bool(b) => Value::Bool(*b),
        JsonValue::Unsigned(u) => Value::from(*u),
        JsonValue::Signed(i) => Value::from(*i),
        JsonValue::Float(s) => s.parse().ok().and_then(serde_json::Number::from_f64).into(),
        JsonValue::Text(s) => Value::String(s.clone()),
        JsonValue::Array(a) => Value::Array(a.iter().map(to_json).collect()),
        JsonValue::Object(o) => Value::Object(o.iter().map(|(k, v)| (k.clone(), to_json(v))).collect()),
    }
}

/// Reads a document with `serde_json::from_str`. What it reads depends on the text alone and has
/// the name [`json_document`]; an error is handed on as its message.
#[verifier::external_body]
pub(crate) fn read_json(text: &str) -> (r: Result<JsonValue, String>)
    ensures
        outcome(r) == json_document(text@),
{
    match serde_json::from_str::<serde_json::Value>(text) {
        Ok(value) => Ok(from_json(value)),
        Err(error) => Err(error.to_string()),
    }
}

/// Writes a value with `serde_json::to_string_pretty`. What it writes depends on the value alone
/// and has the name [`json_text`]. Writing never fails, as members have texts for names; what is
/// written neither starts nor ends with white space; and `serde_json::from_str` reads a plain value
/// back, with a line end behind it.
#[verifier::external_body]
pub(crate) fn write_json(value: &JsonValue) -> (r: Result<String, String>)
    ensures
        outcome(r) == json_text(value.deep_view()),
        r is Ok,
        reads_back(r->Ok_0@, value.deep_view()),
{
    match serde_json::to_string_pretty(&to_json(value)) {
        Ok(text) => Ok(text),
        Err(error) => Err(error.to_string()),
    }
}

/// A default counts only where nothing stands under the name, and changes nothing else.
pub proof fn default_counts_where_nothing_stands(
    members: Seq<(Seq<char>, JsonView)>,
    name: Seq<char>,
    value: JsonView,
    other: Seq<char>,
)
    ensures
        lookup(members, name) is Some ==> with_default(members, name, value) == members,
        lookup(members, name) is None ==> lookup(with_default(members, name, value), name) == Some(
            value,
        ),
        other != name ==> lookup(with_default(members, name, value), other) == lookup(
            members,
            other,
        ),
{
    lemma_lookup_put(members, name, value, name);
    lemma_lookup_put(members, name, value, other);
}

} // verus!
