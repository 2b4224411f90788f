//! Configuration documents as plain values.

use toml::Value;
use vstd::prelude::*;

use crate::names::lookup;
use crate::text::same;
use crate::views::{outcome, Duplicate};

verus! {

/// A value of a configuration document.
#[derive(Debug, PartialEq, Eq)]
pub struct ConfigValue {
    pub data: ConfigData,
    /// The value as TOML writes it.
    pub text: String,
}

/// The data of a configuration value.
#[derive(Debug, PartialEq, Eq)]
pub enum ConfigData {
    Text(String),
    Integer(i64),
    Boolean(bool),
    /// A float: its shortest decimal form and, where it is finite, its form as a JSON number.
    Float { plain: String, json: Option<String> },
    /// A date or time, as it is written.
    Datetime(String),
    Array(Vec<ConfigValue>),
    Table(Vec<(String, ConfigValue)>),
}

/// What a [`ConfigValue`] stands for.
pub struct ConfigValueView {
    pub data: ConfigDataView,
    pub text: Seq<char>,
}

/// What a [`ConfigData`] stands for.
pub enum ConfigDataView {
    Text(Seq<char>),
    Integer(i64),
    Boolean(bool),
    Float { plain: Seq<char>, json: Option<Seq<char>> },
    Datetime(Seq<char>),
    Array(Seq<ConfigValueView>),
    Table(Seq<(Seq<char>, ConfigValueView)>),
}

/// What a configuration value stands for.
pub open spec fn value_view(value: ConfigValue) -> ConfigValueView
    decreases value,
{
    let data = match value.data {
        ConfigData::Text(text) => ConfigDataView::Text(text@),
        ConfigData::Integer(number) => ConfigDataView::Integer(number),
        ConfigData::Boolean(flag) => ConfigDataView::Boolean(flag),
        ConfigData::Float { plain, json } => ConfigDataView::Float {
            plain: plain@,
            json: json.deep_view(),
        },
        ConfigData::Datetime(text) => ConfigDataView::Datetime(text@),
        ConfigData::Array(items) => ConfigDataView::Array(
            Seq::new(
                items@.len(),
                |i: int|
                    if 0 <= i < items@.len() {
                        value_view(items@[i])
                    } else {
                        arbitrary()
                    },
            ),
        ),
        ConfigData::Table(entries) => ConfigDataView::Table(
            Seq::new(
                entries@.len(),
                |i: int|
                    if 0 <= i < entries@.len() {
                        (entries@[i].0@, value_view(entries@[i].1))
                    } else {
                        arbitrary()
                    },
            ),
        ),
    };
    ConfigValueView { data, text: value.text@ }
}

impl DeepView for ConfigValue {
    type V = ConfigValueView;

    open spec fn deep_view(&self) -> ConfigValueView {
        value_view(*self)
    }
}

/// The view of a table or an array holds the views of its entries.
pub proof fn lemma_value_view(value: ConfigValue)
    ensures
        value.data matches ConfigData::Array(items) ==> value.deep_view().data
            == ConfigDataView::Array(items.deep_view()),
        value.data matches ConfigData::Table(entries) ==> value.deep_view().data
            == ConfigDataView::Table(entries.deep_view()),
{
    match value.data {
        ConfigData::Array(items) => {
            let seen = value.deep_view().data->Array_0;
            assert(seen =~= items.deep_view());
        },
        ConfigData::Table(entries) => {
            let seen = value.deep_view().data->Table_0;
            assert(seen =~= entries.deep_view());
        },
        _ => {},
    }
}

fn copy_value(value: &ConfigValue) -> (copy: ConfigValue)
    ensures
        copy.deep_view() == value.deep_view(),
    decreases value,
{
    let data = match &value.data {
        ConfigData::Text(text) => ConfigData::Text(text.clone()),
        ConfigData::Integer(number) => ConfigData::Integer(*number),
        ConfigData::Boolean(flag) => ConfigData::Boolean(*flag),
        ConfigData::Float { plain, json } => ConfigData::Float {
            plain: plain.clone(),
            json: json.duplicate(),
        },
        ConfigData::Datetime(text) => ConfigData::Datetime(text.clone()),
        ConfigData::Array(items) => {
            let mut copies: Vec<ConfigValue> = Vec::new();
            let mut i: usize = 0;
            while i < items.len()
                invariant
                    i <= items@.len(),
                    copies@.len() == i,
                    value.data == ConfigData::Array(*items),
                    forall|k: int|
                        0 <= k < i ==> (#[trigger] copies@[k]).deep_view()
                            == items@[k].deep_view(),
                decreases items@.len() - i,
            {
                let item = &items[i];
                assert(decreases_to!(value => value.data));
                assert(decreases_to!(value.data => value.data->Array_0));
                assert(decreases_to!(items => items@[i as int]));
                copies.push(copy_value(item));
                i = i + 1;
            }
            assert(copies.deep_view() =~= items.deep_view());
            ConfigData::Array(copies)
        },
        ConfigData::Table(entries) => {
            let mut copies: Vec<(String, ConfigValue)> = Vec::new();
            let mut i: usize = 0;
            while i < entries.len()
                invariant
                    i <= entries@.len(),
                    copies@.len() == i,
                    value.data == ConfigData::Table(*entries),
                    forall|k: int|
                        0 <= k < i ==> (#[trigger] copies@[k]).0@ == entries@[k].0@
                            && copies@[k].1.deep_view() == entries@[k].1.deep_view(),
                decreases entries@.len() - i,
            {
                let entry = &entries[i];
                assert(decreases_to!(value => value.data));
                assert(decreases_to!(value.data => value.data->Table_0));
                assert(decreases_to!(entries => entries@[i as int]));
                assert(decreases_to!(entries@[i as int] => entries@[i as int].1));
                copies.push((entry.0.clone(), copy_value(&entry.1)));
                i = i + 1;
            }
            assert(copies.deep_view() =~= entries.deep_view());
            ConfigData::Table(copies)
        },
    };
    let copy = ConfigValue { data, text: value.text.clone() };
    proof {
        lemma_value_view(copy);
        lemma_value_view(*value);
    }
    copy
}

impl Duplicate for ConfigValue {
    fn duplicate(&self) -> (copy: Self) {
        copy_value(self)
    }
}

impl ConfigValue {
    /// The text of a text value.
    pub fn as_str(&self) -> (r: Option<&str>)
        ensures
            r.deep_view() == as_text(self.deep_view()),
    {
        match &self.data {
            ConfigData::Text(text) => Some(text.as_str()),
            _ => None,
        }
    }
}

/// The text of a text value.
pub open spec fn as_text(value: ConfigValueView) -> Option<Seq<char>> {
    match value.data {
        ConfigDataView::Text(text) => Some(text),
        _ => None,
    }
}

/// The value under `name` in the entries of a table.
pub fn find<'a>(entries: &'a Vec<(String, ConfigValue)>, name: &str) -> (r: Option<&'a ConfigValue>)
    ensures
        r.deep_view() == lookup(entries.deep_view(), name@),
{
    let ghost list = entries.deep_view();
    let mut i: usize = entries.len();
    assert(list.take(list.len() as int) =~= list);
    while i > 0
        invariant
            i <= entries@.len(),
            list == entries.deep_view(),
            lookup(list, name@) == lookup(list.take(i as int), name@),
        decreases i,
    {
        let ghost front = list.take(i as int);
        assert(front.last() == list[i - 1]);
        assert(front.drop_last() =~= list.take(i - 1));
        if same(entries[i - 1].0.as_str(), name) {
            return Some(&entries[i - 1].1);
        }
        i = i - 1;
    }
    None
}

// ---------------------------------------------------------------------------
// Reading documents
// ---------------------------------------------------------------------------

/// A value as the `toml` crate holds it.
#[verifier::external_type_specification]
#[verifier::external_body]
pub struct ExTomlValue(toml::Value);

/// The value that the `toml` crate reads from a document, or its message where the document is
/// not TOML.
pub uninterp spec fn toml_document(text: Seq<char>) -> Result<ConfigValueView, Seq<char>>;

/// Moves a `toml::Value` into a [`ConfigValue`], variant by variant. The text of each value is
/// what `toml::Value` displays, the plain form of a float what `f64` displays, and its JSON form
/// what `serde_json::Number::from_f64` displays. Nothing is claimed of the result here: what a
/// whole document becomes is named by [`toml_document`].
#[verifier::external_body]
fn from_toml(value: Value) -> ConfigValue {
    let text = value.to_string();
    let data = match value {
        Value::String(s) => ConfigData::Text(s),
        Value::Integer(i) => ConfigData::Integer(i),
        Value::Boolean(b) => ConfigData::Boolean(b),
        Value::Float(f) => ConfigData::Float {
            plain: f.to_string(),
            json: serde_json::Number::from_f64(f).map(|n| n.to_string()),
        },
        Value::Datetime(d) => ConfigData::Datetime(d.to_string()),
        Value::Array(a) => ConfigData::Array(a.into_iter().map(from_toml).collect()),
        Value::Table(t) => ConfigData::Table(t.into_iter().map(|(k, v)| (k, from_toml(v))).collect()),
    };
    ConfigValue { data, text }
}

/// Reads a document with `toml::from_str`. What it reads depends on the text alone and has the
/// name [`toml_document`]; an error is handed on as its message.
#[verifier::external_body]
pub(crate) fn read_document(text: &str) -> (r: Result<ConfigValue, String>)
    ensures
        outcome(r) == toml_document(text@),
{
    match toml::from_str::<toml::Value>(text) {
        Ok(value) => Ok(from_toml(value)),
        Err(error) => Err(error.to_string()),
    }
}

} // verus!
