//! Maps and sets keyed by names, kept in name order.

use vstd::prelude::*;

use crate::text::{precedes, same};
use crate::text::{
    lemma_precedes_asymmetric, lemma_precedes_irreflexive, lemma_precedes_total,
    lemma_precedes_transitive, precedes_spec,
};
use crate::views::Duplicate;

verus! {

// ---------------------------------------------------------------------------
// Lists of named values
// ---------------------------------------------------------------------------

/// Whether the names come strictly in order.
pub open spec fn ordered<T>(s: Seq<(Seq<char>, T)>) -> bool {
    forall|i: int, j: int|
        #![trigger s[i], s[j]]
        0 <= i < j < s.len() ==> precedes_spec(s[i].0, s[j].0)
}

/// The value that stands under `name`.
pub open spec fn lookup<T>(s: Seq<(Seq<char>, T)>, name: Seq<char>) -> Option<T>
    decreases s.len(),
{
    if s.len() == 0 {
        None
    } else if s.last().0 == name {
        Some(s.last().1)
    } else {
        lookup(s.drop_last(), name)
    }
}

/// The list with `value` under `name`, in place of what stood there.
pub open spec fn put<T>(s: Seq<(Seq<char>, T)>, name: Seq<char>, value: T) -> Seq<(Seq<char>, T)>
    decreases s.len(),
{
    if s.len() == 0 {
        seq![(name, value)]
    } else if s.last().0 == name {
        s.drop_last().push((name, value))
    } else if precedes_spec(s.last().0, name) {
        s.push((name, value))
    } else {
        put(s.drop_last(), name, value).push(s.last())
    }
}

/// The list without what stands under `name`.
pub open spec fn without<T>(s: Seq<(Seq<char>, T)>, name: Seq<char>) -> Seq<(Seq<char>, T)>
    decreases s.len(),
{
    if s.len() == 0 {
        s
    } else if s.last().0 == name {
        without(s.drop_last(), name)
    } else {
        without(s.drop_last(), name).push(s.last())
    }
}

/// The names of a list.
pub open spec fn names_of<T>(s: Seq<(Seq<char>, T)>) -> Seq<Seq<char>> {
    Seq::new(s.len(), |i: int| s[i].0)
}

/// Looking a name up finds an entry of the list, or there is none under that name.
pub proof fn lemma_lookup_found<T>(s: Seq<(Seq<char>, T)>, name: Seq<char>)
    ensures
        lookup(s, name) matches Some(v) ==> exists|i: int| 0 <= i < s.len() && s[i] == (name, v),
        lookup(s, name) is None ==> forall|i: int| 0 <= i < s.len() ==> (#[trigger] s[i]).0 != name,
    decreases s.len(),
{
    if s.len() > 0 {
        if s.last().0 == name {
            assert(s[s.len() - 1] == (name, s.last().1));
        } else {
            lemma_lookup_found(s.drop_last(), name);
            if let Some(v) = lookup(s, name) {
                let i = choose|i: int|
                    0 <= i < s.drop_last().len() && s.drop_last()[i] == (name, v);
                assert(s[i] == (name, v));
            } else {
                assert forall|i: int| 0 <= i < s.len() implies (#[trigger] s[i]).0 != name by {
                    if i < s.len() - 1 {
                        assert(s.drop_last()[i].0 != name);
                    }
                }
            }
        }
    }
}

/// In an ordered list each entry is found under its name.
pub proof fn lemma_lookup_at<T>(s: Seq<(Seq<char>, T)>, i: int)
    requires
        ordered(s),
        0 <= i < s.len(),
    ensures
        lookup(s, s[i].0) == Some(s[i].1),
    decreases s.len(),
{
    if i < s.len() - 1 {
        lemma_precedes_asymmetric(s[i].0, s[s.len() - 1].0);
        assert(ordered(s.drop_last())) by {
            assert forall|a: int, b: int|
                #![trigger s.drop_last()[a], s.drop_last()[b]]
                0 <= a < b < s.drop_last().len() implies precedes_spec(
                s.drop_last()[a].0,
                s.drop_last()[b].0,
            ) by {
                assert(s[a] == s.drop_last()[a]);
                assert(s[b] == s.drop_last()[b]);
            }
        }
        lemma_lookup_at(s.drop_last(), i);
    }
}

/// An ordered list stays ordered without its last entry.
pub proof fn lemma_ordered_drop_last<T>(s: Seq<(Seq<char>, T)>)
    requires
        ordered(s),
        s.len() > 0,
    ensures
        ordered(s.drop_last()),
{
    assert forall|a: int, b: int|
        #![trigger s.drop_last()[a], s.drop_last()[b]]
        0 <= a < b < s.drop_last().len() implies precedes_spec(
        s.drop_last()[a].0,
        s.drop_last()[b].0,
    ) by {
        assert(s[a] == s.drop_last()[a]);
        assert(s[b] == s.drop_last()[b]);
    }
}

/// Putting a value under a name is what a later lookup of that name sees, and nothing else
/// changes.
pub proof fn lemma_lookup_put<T>(
    s: Seq<(Seq<char>, T)>,
    name: Seq<char>,
    value: T,
    other: Seq<char>,
)
    ensures
        lookup(put(s, name, value), other) == (if other == name {
            Some(value)
        } else {
            lookup(s, other)
        }),
    decreases s.len(),
{
    let after = put(s, name, value);
    if s.len() == 0 {
        assert(after.drop_last() =~= s);
    } else if s.last().0 == name {
        assert(after.drop_last() =~= s.drop_last());
    } else if precedes_spec(s.last().0, name) {
        assert(after.drop_last() =~= s);
    } else {
        lemma_lookup_put(s.drop_last(), name, value, other);
        assert(after.drop_last() =~= put(s.drop_last(), name, value));
    }
}

/// Removing a name hides it from lookups, and nothing else changes.
pub proof fn lemma_lookup_without<T>(s: Seq<(Seq<char>, T)>, name: Seq<char>, other: Seq<char>)
    ensures
        lookup(without(s, name), other) == (if other == name {
            None
        } else {
            lookup(s, other)
        }),
    decreases s.len(),
{
    if s.len() > 0 {
        lemma_lookup_without(s.drop_last(), name, other);
        if s.last().0 != name {
            assert(without(s, name).drop_last() =~= without(s.drop_last(), name));
        }
    }
}

proof fn lemma_put_names<T>(s: Seq<(Seq<char>, T)>, name: Seq<char>, value: T)
    ensures
        forall|i: int|
            0 <= i < put(s, name, value).len() ==> (#[trigger] put(s, name, value)[i]).0 == name
                || exists|j: int| 0 <= j < s.len() && s[j].0 == put(s, name, value)[i].0,
    decreases s.len(),
{
    let after = put(s, name, value);
    if s.len() > 0 {
        let rest = s.drop_last();
        if s.last().0 == name {
            assert forall|i: int| 0 <= i < after.len() implies (#[trigger] after[i]).0 == name
                || exists|j: int| 0 <= j < s.len() && s[j].0 == after[i].0 by {
                assert(s[i].0 == after[i].0);
            }
        } else if precedes_spec(s.last().0, name) {
            assert forall|i: int| 0 <= i < after.len() implies (#[trigger] after[i]).0 == name
                || exists|j: int| 0 <= j < s.len() && s[j].0 == after[i].0 by {
                if i < s.len() {
                    assert(s[i].0 == after[i].0);
                }
            }
        } else {
            lemma_put_names(rest, name, value);
            let inner = put(rest, name, value);
            assert forall|i: int| 0 <= i < after.len() implies (#[trigger] after[i]).0 == name
                || exists|j: int| 0 <= j < s.len() && s[j].0 == after[i].0 by {
                if i == after.len() - 1 {
                    assert(s[s.len() - 1].0 == after[i].0);
                } else {
                    assert(inner[i] == after[i]);
                    if inner[i].0 != name {
                        let j = choose|j: int| 0 <= j < rest.len() && rest[j].0 == inner[i].0;
                        assert(s[j].0 == after[i].0);
                    }
                }
            }
        }
    }
}

/// Putting a value keeps the list in order.
pub proof fn lemma_ordered_put<T>(s: Seq<(Seq<char>, T)>, name: Seq<char>, value: T)
    requires
        ordered(s),
    ensures
        ordered(put(s, name, value)),
    decreases s.len(),
{
    let after = put(s, name, value);
    if s.len() > 0 {
        lemma_ordered_drop_last(s);
        let last = s.last();
        if last.0 == name {
            assert forall|a: int, b: int|
                #![trigger after[a], after[b]]
                0 <= a < b < after.len() implies precedes_spec(after[a].0, after[b].0) by {
                assert(s[a].0 == after[a].0);
                assert(s[b].0 == after[b].0);
            }
        } else if precedes_spec(last.0, name) {
            assert forall|a: int, b: int|
                #![trigger after[a], after[b]]
                0 <= a < b < after.len() implies precedes_spec(after[a].0, after[b].0) by {
                assert(s[a] == after[a]);
                if b < s.len() {
                    assert(s[b] == after[b]);
                } else if a < s.len() - 1 {
                    assert(precedes_spec(s[a].0, s[s.len() - 1].0));
                    lemma_precedes_transitive(s[a].0, last.0, name);
                }
            }
        } else {
            let rest = s.drop_last();
            let inner = put(rest, name, value);
            lemma_ordered_put(rest, name, value);
            lemma_put_names(rest, name, value);
            lemma_precedes_total(last.0, name);
            assert forall|a: int, b: int|
                #![trigger after[a], after[b]]
                0 <= a < b < after.len() implies precedes_spec(after[a].0, after[b].0) by {
                assert(inner[a] == after[a]);
                if b < inner.len() {
                    assert(inner[b] == after[b]);
                } else if inner[a].0 != name {
                    let j = choose|j: int| 0 <= j < rest.len() && rest[j].0 == inner[a].0;
                    assert(s[j] == rest[j]);
                    assert(precedes_spec(s[j].0, s[s.len() - 1].0));
                }
            }
        }
    }
}

/// Two ordered lists that answer every lookup alike are the same list.
pub proof fn lemma_ordered_unique<T>(a: Seq<(Seq<char>, T)>, b: Seq<(Seq<char>, T)>)
    requires
        ordered(a),
        ordered(b),
        forall|name: Seq<char>| #[trigger] lookup(a, name) == lookup(b, name),
    ensures
        a == b,
    decreases a.len(),
{
    if a.len() == 0 {
        if b.len() > 0 {
            lemma_lookup_at(b, b.len() - 1);
            assert(lookup(a, b.last().0) is None);
        }
        assert(a =~= b);
    } else {
        lemma_lookup_at(a, a.len() - 1);
        lemma_lookup_found(b, a.last().0);
        assert(lookup(b, a.last().0) == Some(a.last().1));
        let i = choose|i: int| 0 <= i < b.len() && b[i] == (a.last().0, a.last().1);
        lemma_lookup_at(b, b.len() - 1);
        lemma_lookup_found(a, b.last().0);
        assert(lookup(a, b.last().0) == Some(b.last().1));
        let j = choose|j: int| 0 <= j < a.len() && a[j] == (b.last().0, b.last().1);
        if i < b.len() - 1 {
            assert(precedes_spec(b[i].0, b[b.len() - 1].0));
            if j < a.len() - 1 {
                assert(precedes_spec(a[j].0, a[a.len() - 1].0));
                lemma_precedes_asymmetric(a.last().0, b.last().0);
            } else {
                lemma_precedes_irreflexive(a.last().0);
            }
        }
        assert(a.last() == b.last());
        lemma_ordered_drop_last(a);
        lemma_ordered_drop_last(b);
        let x = a.drop_last();
        let y = b.drop_last();
        assert forall|name: Seq<char>| #[trigger] lookup(x, name) == lookup(y, name) by {
            assert(lookup(a, name) == lookup(b, name));
            if name == a.last().0 {
                lemma_lookup_found(x, name);
                lemma_lookup_found(y, name);
                if lookup(x, name) is Some {
                    let k = choose|k: int|
                        0 <= k < x.len() && x[k] == (name, lookup(x, name)->0);
                    assert(a[k] == x[k]);
                    assert(precedes_spec(a[k].0, a[a.len() - 1].0));
                    lemma_precedes_irreflexive(name);
                }
                if lookup(y, name) is Some {
                    let k = choose|k: int|
                        0 <= k < y.len() && y[k] == (name, lookup(y, name)->0);
                    assert(b[k] == y[k]);
                    assert(precedes_spec(b[k].0, b[b.len() - 1].0));
                    lemma_precedes_irreflexive(name);
                }
            }
        }
        lemma_ordered_unique(x, y);
        assert(a =~= x.push(a.last()));
        assert(b =~= y.push(b.last()));
    }
}

/// Removing a name keeps the list in order.
pub proof fn lemma_ordered_without<T>(s: Seq<(Seq<char>, T)>, name: Seq<char>)
    requires
        ordered(s),
    ensures
        ordered(without(s, name)),
        without(s, name).len() <= s.len(),
        forall|i: int|
            0 <= i < without(s, name).len() ==> exists|j: int|
                0 <= j < s.len() && s[j] == #[trigger] without(s, name)[i],
    decreases s.len(),
{
    if s.len() > 0 {
        let rest = s.drop_last();
        let inner = without(rest, name);
        let after = without(s, name);
        lemma_ordered_drop_last(s);
        lemma_ordered_without(rest, name);
        assert forall|i: int| 0 <= i < after.len() implies exists|j: int|
            0 <= j < s.len() && s[j] == #[trigger] after[i] by {
            if i < inner.len() {
                assert(inner[i] == after[i]);
                let j = choose|j: int| 0 <= j < rest.len() && rest[j] == inner[i];
                assert(s[j] == after[i]);
            } else {
                assert(s[s.len() - 1] == after[i]);
            }
        }
        if s.last().0 != name {
            assert forall|a: int, b: int|
                #![trigger after[a], after[b]]
                0 <= a < b < after.len() implies precedes_spec(after[a].0, after[b].0) by {
                assert(inner[a] == after[a]);
                if b < inner.len() {
                    assert(inner[b] == after[b]);
                } else {
                    let j = choose|j: int| 0 <= j < rest.len() && rest[j] == inner[a];
                    assert(s[j] == rest[j]);
                    assert(precedes_spec(s[j].0, s[s.len() - 1].0));
                }
            }
        }
    }
}

// ---------------------------------------------------------------------------
// Maps
// ---------------------------------------------------------------------------

/// A map from names to values that is walked in name order.
#[derive(Debug, PartialEq, Eq)]
pub struct NameMap<V> {
    pub(crate) entries: Vec<(String, V)>,
}

/// Whether the names of the entries come strictly in order.
pub open spec fn entries_ordered<V>(entries: Seq<(String, V)>) -> bool {
    forall|i: int, j: int|
        #![trigger entries[i], entries[j]]
        0 <= i < j < entries.len() ==> precedes_spec(entries[i].0@, entries[j].0@)
}

impl<V> NameMap<V> {
    #[verifier::type_invariant]
    pub(crate) closed spec fn names_in_order(self) -> bool {
        entries_ordered(self.entries@)
    }
}

impl<V: DeepView> DeepView for NameMap<V> {
    type V = Seq<(Seq<char>, V::V)>;

    closed spec fn deep_view(&self) -> Seq<(Seq<char>, V::V)> {
        self.entries.deep_view()
    }
}

fn search<V>(entries: &Vec<(String, V)>, name: &str) -> (r: (usize, bool))
    requires
        entries_ordered(entries@),
    ensures
        r.0 <= entries@.len(),
        forall|i: int| 0 <= i < r.0 ==> precedes_spec((#[trigger] entries@[i]).0@, name@),
        forall|i: int|
            (if r.1 {
                r.0 + 1
            } else {
                r.0 as int
            }) <= i < entries@.len() ==> precedes_spec(name@, (#[trigger] entries@[i]).0@),
        r.1 ==> r.0 < entries@.len() && entries@[r.0 as int].0@ == name@,
{
    let mut i: usize = 0;
    while i < entries.len() && precedes(entries[i].0.as_str(), name)
        invariant
            i <= entries@.len(),
            forall|k: int| 0 <= k < i ==> precedes_spec((#[trigger] entries@[k]).0@, name@),
        decreases entries@.len() - i,
    {
        i = i + 1;
    }
    if i < entries.len() {
        let found: bool = same(entries[i].0.as_str(), name);
        proof {
            lemma_precedes_total(entries@[i as int].0@, name@);
            assert forall|k: int| i < k < entries@.len() implies precedes_spec(
                name@,
                (#[trigger] entries@[k]).0@,
            ) by {
                assert(precedes_spec(entries@[i as int].0@, entries@[k].0@));
                if !found {
                    lemma_precedes_transitive(name@, entries@[i as int].0@, entries@[k].0@);
                }
            }
        }
        (i, found)
    } else {
        (i, false)
    }
}

proof fn lemma_entries_ordered<V: DeepView>(entries: Vec<(String, V)>)
    requires
        entries_ordered(entries@),
    ensures
        ordered(entries.deep_view()),
{
    let s = entries.deep_view();
    assert forall|i: int, j: int|
        #![trigger s[i], s[j]]
        0 <= i < j < s.len() implies precedes_spec(s[i].0, s[j].0) by {
        assert(precedes_spec(entries@[i].0@, entries@[j].0@));
    }
}

proof fn lemma_search<V: DeepView>(entries: Vec<(String, V)>, name: Seq<char>, at: int, found: bool)
    requires
        entries_ordered(entries@),
        0 <= at <= entries@.len(),
        forall|i: int| 0 <= i < at ==> precedes_spec((#[trigger] entries@[i]).0@, name),
        forall|i: int|
            (if found {
                at + 1
            } else {
                at
            }) <= i < entries@.len() ==> precedes_spec(name, (#[trigger] entries@[i]).0@),
        found ==> at < entries@.len() && entries@[at].0@ == name,
    ensures
        lookup(entries.deep_view(), name) == (if found {
            Some(entries@[at].1.deep_view())
        } else {
            None
        }),
{
    let s = entries.deep_view();
    lemma_entries_ordered(entries);
    if found {
        lemma_lookup_at(s, at);
    } else {
        lemma_lookup_found(s, name);
        if lookup(s, name) is Some {
            let i = choose|i: int| 0 <= i < s.len() && s[i] == (name, lookup(s, name)->0);
            assert(entries@[i].0@ == name);
            lemma_precedes_irreflexive(name);
        }
    }
}

impl<V: DeepView> NameMap<V> {
    /// The empty map.
    pub fn new() -> (map: Self)
        ensures
            map.deep_view() == Seq::<(Seq<char>, V::V)>::empty(),
    {
        let map = NameMap { entries: Vec::new() };
        assert(map.deep_view() =~= Seq::<(Seq<char>, V::V)>::empty());
        map
    }

    /// The number of entries.
    pub fn len(&self) -> (n: usize)
        ensures
            n == self.deep_view().len(),
            ordered(self.deep_view()),
    {
        proof {
            use_type_invariant(self);
            lemma_entries_ordered(self.entries);
        }
        self.entries.len()
    }

    /// Whether the map has no entry.
    pub fn is_empty(&self) -> (r: bool)
        ensures
            r == (self.deep_view().len() == 0),
    {
        self.entries.len() == 0
    }

    /// The name of the entry at position `i` of the name order.
    pub fn name_at(&self, i: usize) -> (name: &String)
        requires
            i < self.deep_view().len(),
        ensures
            name@ == self.deep_view()[i as int].0,
    {
        &self.entries[i].0
    }

    /// The value of the entry at position `i` of the name order.
    pub fn value_at(&self, i: usize) -> (value: &V)
        requires
            i < self.deep_view().len(),
        ensures
            value.deep_view() == self.deep_view()[i as int].1,
    {
        &self.entries[i].1
    }

    /// The value under `name`.
    pub fn get(&self, name: &str) -> (value: Option<&V>)
        ensures
            value.deep_view() == lookup(self.deep_view(), name@),
    {
        proof {
            use_type_invariant(self);
        }
        let (at, found) = search(&self.entries, name);
        proof {
            lemma_search(self.entries, name@, at as int, found);
        }
        if found {
            Some(&self.entries[at].1)
        } else {
            None
        }
    }

    /// Whether there is a value under `name`.
    pub fn contains_key(&self, name: &str) -> (r: bool)
        ensures
            r == lookup(self.deep_view(), name@) is Some,
    {
        self.get(name).is_some()
    }

    /// Puts `value` under `name` and gives back what stood there.
    pub fn insert(&mut self, name: String, value: V) -> (previous: Option<V>)
        ensures
            final(self).deep_view() == put(old(self).deep_view(), name@, value.deep_view()),
            previous.deep_view() == lookup(old(self).deep_view(), name@),
            ordered(old(self).deep_view()),
            ordered(final(self).deep_view()),
    {
        proof {
            use_type_invariant(&*self);
        }
        let ghost before = self.deep_view();
        let mut entries: Vec<(String, V)> = Vec::new();
        std::mem::swap(&mut entries, &mut self.entries);
        let (at, found) = search(&entries, name.as_str());
        let ghost held = entries;
        let ghost key = name@;
        let ghost shown = value.deep_view();
        proof {
            lemma_search(entries, key, at as int, found);
            lemma_entries_ordered(entries);
        }
        let mut previous: Option<V> = None;
        if found {
            let (_, replaced) = entries.remove(at);
            previous = Some(replaced);
        }
        entries.insert(at, (name, value));
        proof {
            assert(entries_ordered(entries@)) by {
                assert forall|i: int, j: int|
                    #![trigger entries@[i], entries@[j]]
                    0 <= i < j < entries@.len() implies precedes_spec(
                    entries@[i].0@,
                    entries@[j].0@,
                ) by {
                    let shift: int = if found { 0 } else { 1 };
                    if i < at && j < at {
                        assert(entries@[i] == held@[i] && entries@[j] == held@[j]);
                    } else if i < at && j == at {
                        assert(entries@[i] == held@[i]);
                    } else if i < at {
                        assert(entries@[i] == held@[i] && entries@[j] == held@[j - shift]);
                    } else if i == at {
                        assert(entries@[j] == held@[j - shift]);
                    } else {
                        assert(entries@[i] == held@[i - shift] && entries@[j] == held@[j - shift]);
                    }
                }
            }
            lemma_entries_ordered(entries);
            let after = entries.deep_view();
            lemma_ordered_put(before, key, shown);
            assert forall|other: Seq<char>| #[trigger] lookup(after, other) == lookup(
                put(before, key, shown),
                other,
            ) by {
                lemma_lookup_put(before, key, shown, other);
                assert(after[at as int] == (key, shown));
                lemma_lookup_at(after, at as int);
                lemma_lookup_found(after, other);
                lemma_lookup_found(before, other);
                let shift: int = if found { 0 } else { 1 };
                if other != key {
                    if lookup(after, other) is Some {
                        let i = choose|i: int|
                            0 <= i < after.len() && after[i] == (other, lookup(after, other)->0);
                        let k = if i < at { i } else { i - shift };
                        assert(i != at);
                        assert(entries@[i] == held@[k]);
                        assert(before[k] == after[i]);
                        lemma_lookup_at(before, k);
                    } else if lookup(before, other) is Some {
                        let k = choose|k: int|
                            0 <= k < before.len() && before[k] == (other, lookup(before, other)->0);
                        let i = if k < at { k } else { k + shift };
                        assert(entries@[i] == held@[k]);
                        assert(after[i] == before[k]);
                    }
                }
            }
            lemma_ordered_unique(after, put(before, key, shown));
        }
        self.entries = entries;
        previous
    }

    /// Takes the value under `name` out of the map.
    pub fn remove(&mut self, name: &str) -> (value: Option<V>)
        ensures
            final(self).deep_view() == without(old(self).deep_view(), name@),
            value.deep_view() == lookup(old(self).deep_view(), name@),
            ordered(old(self).deep_view()),
            ordered(final(self).deep_view()),
    {
        proof {
            use_type_invariant(&*self);
        }
        let ghost before = self.deep_view();
        let mut entries: Vec<(String, V)> = Vec::new();
        std::mem::swap(&mut entries, &mut self.entries);
        let (at, found) = search(&entries, name);
        let ghost held = entries;
        proof {
            lemma_search(entries, name@, at as int, found);
            lemma_entries_ordered(entries);
        }
        let mut value: Option<V> = None;
        if found {
            let (_, taken) = entries.remove(at);
            value = Some(taken);
        }
        proof {
            assert(entries_ordered(entries@)) by {
                assert forall|i: int, j: int|
                    #![trigger entries@[i], entries@[j]]
                    0 <= i < j < entries@.len() implies precedes_spec(
                    entries@[i].0@,
                    entries@[j].0@,
                ) by {
                    if found {
                        let p = if i < at { i } else { i + 1 };
                        let q = if j < at { j } else { j + 1 };
                        assert(entries@[i] == held@[p] && entries@[j] == held@[q]);
                    }
                }
            }
            lemma_entries_ordered(entries);
            let after = entries.deep_view();
            lemma_ordered_without(before, name@);
            assert forall|other: Seq<char>| #[trigger] lookup(after, other) == lookup(
                without(before, name@),
                other,
            ) by {
                lemma_lookup_without(before, name@, other);
                lemma_lookup_found(after, other);
                lemma_lookup_found(before, other);
                if found {
                    if lookup(after, other) is Some {
                        let i = choose|i: int|
                            0 <= i < after.len() && after[i] == (other, lookup(after, other)->0);
                        let k = if i < at { i } else { i + 1 };
                        assert(entries@[i] == held@[k]);
                        assert(before[k] == after[i]);
                        lemma_lookup_at(before, k);
                        assert(precedes_spec(held@[k].0@, name@) || precedes_spec(
                            name@,
                            held@[k].0@,
                        ));
                        lemma_precedes_irreflexive(name@);
                    } else if lookup(before, other) is Some && other != name@ {
                        let k = choose|k: int|
                            0 <= k < before.len() && before[k] == (other, lookup(before, other)->0);
                        assert(k != at);
                        let i = if k < at { k } else { k - 1 };
                        assert(entries@[i] == held@[k]);
                        assert(after[i] == before[k]);
                    }
                }
            }
            lemma_ordered_unique(after, without(before, name@));
        }
        self.entries = entries;
        value
    }

    /// The names, in order.
    pub fn keys(&self) -> (names: Vec<String>)
        ensures
            names.deep_view() == names_of(self.deep_view()),
            ordered(self.deep_view()),
    {
        let mut names: Vec<String> = Vec::new();
        let mut i: usize = 0;
        while i < self.len()
            invariant
                i <= self.deep_view().len(),
                names@.len() == i,
                forall|k: int|
                    0 <= k < i ==> (#[trigger] names@[k])@ == self.deep_view()[k].0,
            decreases self.deep_view().len() - i,
        {
            names.push(self.name_at(i).clone());
            i = i + 1;
        }
        assert(names.deep_view() =~= names_of(self.deep_view()));
        let _ = self.len();
        names
    }
}

impl<V: Duplicate> Duplicate for NameMap<V> {
    fn duplicate(&self) -> (copy: Self) {
        proof {
            use_type_invariant(self);
        }
        let mut entries: Vec<(String, V)> = Vec::new();
        let mut i: usize = 0;
        while i < self.entries.len()
            invariant
                i <= self.entries@.len(),
                entries@.len() == i,
                forall|k: int|
                    0 <= k < i ==> (#[trigger] entries@[k]).0@ == self.entries@[k].0@
                        && entries@[k].1.deep_view() == self.entries@[k].1.deep_view(),
            decreases self.entries@.len() - i,
        {
            entries.push((self.entries[i].0.clone(), self.entries[i].1.duplicate()));
            i = i + 1;
        }
        assert(entries_ordered(entries@)) by {
            assert forall|i: int, j: int|
                #![trigger entries@[i], entries@[j]]
                0 <= i < j < entries@.len() implies precedes_spec(
                entries@[i].0@,
                entries@[j].0@,
            ) by {
                assert(precedes_spec(self.entries@[i].0@, self.entries@[j].0@));
            }
        }
        assert(entries.deep_view() =~= self.entries.deep_view());
        NameMap { entries }
    }
}

impl<V: Duplicate> Clone for NameMap<V> {
    fn clone(&self) -> (copy: Self)
        ensures
            copy.deep_view() == self.deep_view(),
    {
        self.duplicate()
    }
}

// ---------------------------------------------------------------------------
// Sets
// ---------------------------------------------------------------------------

/// Whether the names come strictly in order.
pub open spec fn in_order(names: Seq<Seq<char>>) -> bool {
    forall|i: int, j: int|
        #![trigger names[i], names[j]]
        0 <= i < j < names.len() ==> precedes_spec(names[i], names[j])
}

/// Whether `names` lists the members of `set`, each once and in name order.
pub open spec fn lists(names: Seq<Seq<char>>, set: Set<Seq<char>>) -> bool {
    &&& in_order(names)
    &&& forall|name: Seq<char>| #[trigger] set.contains(name) <==> names.contains(name)
}

/// A set has one listing.
pub proof fn lemma_listing_unique(a: Seq<Seq<char>>, b: Seq<Seq<char>>, set: Set<Seq<char>>)
    requires
        lists(a, set),
        lists(b, set),
    ensures
        a == b,
{
    let p = Seq::new(a.len(), |i: int| (a[i], ()));
    let q = Seq::new(b.len(), |i: int| (b[i], ()));
    assert(ordered(p)) by {
        assert forall|i: int, j: int|
            #![trigger p[i], p[j]]
            0 <= i < j < p.len() implies precedes_spec(p[i].0, p[j].0) by {
            assert(precedes_spec(a[i], a[j]));
        }
    }
    assert(ordered(q)) by {
        assert forall|i: int, j: int|
            #![trigger q[i], q[j]]
            0 <= i < j < q.len() implies precedes_spec(q[i].0, q[j].0) by {
            assert(precedes_spec(b[i], b[j]));
        }
    }
    assert forall|name: Seq<char>| #[trigger] lookup(p, name) == lookup(q, name) by {
        lemma_lookup_found(p, name);
        lemma_lookup_found(q, name);
        if lookup(p, name) is Some {
            let i = choose|i: int| 0 <= i < p.len() && p[i] == (name, ());
            assert(a[i] == name);
            assert(a.contains(name));
            assert(set.contains(name));
            assert(b.contains(name));
            let j = choose|j: int| 0 <= j < b.len() && b[j] == name;
            assert(q[j].0 == name);
        }
        if lookup(q, name) is Some {
            let i = choose|i: int| 0 <= i < q.len() && q[i] == (name, ());
            assert(b[i] == name);
            assert(b.contains(name));
            assert(set.contains(name));
            assert(a.contains(name));
            let j = choose|j: int| 0 <= j < a.len() && a[j] == name;
            assert(p[j].0 == name);
        }
    }
    lemma_ordered_unique(p, q);
    assert(a =~= b) by {
        assert(a.len() == p.len() && b.len() == q.len());
        assert forall|i: int| 0 <= i < a.len() implies a[i] == b[i] by {
            assert(p[i].0 == a[i] && q[i].0 == b[i]);
        }
    }
}

/// The members of a finite set of names, each once and in name order.
pub open spec fn listing(set: Set<Seq<char>>) -> Seq<Seq<char>> {
    choose|names: Seq<Seq<char>>| lists(names, set)
}

/// What lists a set is its listing.
pub proof fn lemma_listing(names: Seq<Seq<char>>, set: Set<Seq<char>>)
    requires
        lists(names, set),
    ensures
        names == listing(set),
{
    lemma_listing_unique(names, listing(set), set);
}

proof fn lemma_finite_set_has_entries(set: Set<Seq<char>>) -> (s: Seq<(Seq<char>, ())>)
    requires
        set.finite(),
    ensures
        ordered(s),
        forall|name: Seq<char>| #[trigger] set.contains(name) <==> lookup(s, name) is Some,
    decreases set.len(),
{
    if set.len() == 0 {
        let s = Seq::<(Seq<char>, ())>::empty();
        assert(set =~= Set::empty());
        s
    } else {
        let name = set.choose();
        let rest = set.remove(name);
        let before = lemma_finite_set_has_entries(rest);
        let s = put(before, name, ());
        lemma_ordered_put(before, name, ());
        assert forall|other: Seq<char>| #[trigger] set.contains(other) <==> lookup(
            s,
            other,
        ) is Some by {
            lemma_lookup_put(before, name, (), other);
            assert(rest.contains(other) <==> lookup(before, other) is Some);
        }
        s
    }
}

/// Every finite set of names has a listing.
pub proof fn lemma_finite_set_is_listed(set: Set<Seq<char>>)
    requires
        set.finite(),
    ensures
        lists(listing(set), set),
{
    let s = lemma_finite_set_has_entries(set);
    let names = Seq::new(s.len(), |i: int| s[i].0);
    assert forall|i: int, j: int|
        #![trigger names[i], names[j]]
        0 <= i < j < names.len() implies precedes_spec(names[i], names[j]) by {
        assert(precedes_spec(s[i].0, s[j].0));
    }
    assert forall|name: Seq<char>| #[trigger] set.contains(name) <==> names.contains(name) by {
        lemma_lookup_found(s, name);
        if set.contains(name) {
            let i = choose|i: int| 0 <= i < s.len() && s[i] == (name, ());
            assert(names[i] == name);
        }
        if names.contains(name) {
            let i = choose|i: int| 0 <= i < names.len() && names[i] == name;
            assert(s[i].0 == name);
        }
    }
    assert(lists(names, set));
}

/// A set of names that is walked in name order.
#[derive(Debug, PartialEq, Eq)]
pub struct NameSet {
    members: NameMap<()>,
}

impl View for NameSet {
    type V = Set<Seq<char>>;

    closed spec fn view(&self) -> Set<Seq<char>> {
        Set::new(|name: Seq<char>| lookup(self.members.deep_view(), name) is Some)
    }
}

impl DeepView for NameSet {
    type V = Set<Seq<char>>;

    open spec fn deep_view(&self) -> Set<Seq<char>> {
        self.view()
    }
}

impl NameSet {
    /// The empty set.
    pub fn new() -> (set: Self)
        ensures
            set@ == Set::<Seq<char>>::empty(),
    {
        let set = NameSet { members: NameMap::new() };
        assert(set@ =~= Set::<Seq<char>>::empty());
        set
    }

    /// Whether `name` is a member.
    pub fn contains(&self, name: &str) -> (r: bool)
        ensures
            r == self@.contains(name@),
    {
        self.members.contains_key(name)
    }

    /// Adds `name` and tells whether it was new.
    pub fn insert(&mut self, name: String) -> (r: bool)
        ensures
            final(self)@ == old(self)@.insert(name@),
            r == !old(self)@.contains(name@),
    {
        let ghost before = self.members.deep_view();
        let ghost key = name@;
        let previous = self.members.insert(name, ());
        proof {
            assert forall|other: Seq<char>| self@.contains(other) == old(self)@.insert(
                key,
            ).contains(other) by {
                lemma_lookup_put(before, key, (), other);
            }
            assert(self@ =~= old(self)@.insert(key));
        }
        previous.is_none()
    }

    /// Removes `name` and tells whether it was there.
    pub fn remove(&mut self, name: &str) -> (r: bool)
        ensures
            final(self)@ == old(self)@.remove(name@),
            r == old(self)@.contains(name@),
    {
        let ghost before = self.members.deep_view();
        let taken = self.members.remove(name);
        proof {
            assert forall|other: Seq<char>| self@.contains(other) == old(self)@.remove(
                name@,
            ).contains(other) by {
                lemma_lookup_without(before, name@, other);
            }
            assert(self@ =~= old(self)@.remove(name@));
        }
        taken.is_some()
    }

    /// Whether the set has no member.
    pub fn is_empty(&self) -> (r: bool)
        ensures
            r == (self@ =~= Set::<Seq<char>>::empty()),
    {
        let r = self.members.is_empty();
        proof {
            let s = self.members.deep_view();
            if r {
                assert(self@ =~= Set::<Seq<char>>::empty());
            } else {
                let _ = s[0];
                assert(s.last().0 == s.last().0);
                assert(lookup(s, s.last().0) is Some);
                assert(self@.contains(s.last().0));
            }
        }
        r
    }

    /// The members, each once and in name order.
    pub fn to_vec(&self) -> (names: Vec<String>)
        ensures
            names.deep_view() == listing(self@),
            lists(listing(self@), self@),
    {
        let names = self.members.keys();
        proof {
            let s = self.members.deep_view();
            let list = names.deep_view();
            assert forall|i: int, j: int|
                #![trigger list[i], list[j]]
                0 <= i < j < list.len() implies precedes_spec(list[i], list[j]) by {
                assert(precedes_spec(s[i].0, s[j].0));
            }
            assert forall|name: Seq<char>| #[trigger] self@.contains(name) <==> list.contains(
                name,
            ) by {
                lemma_lookup_found(s, name);
                if self@.contains(name) {
                    let i = choose|i: int| 0 <= i < s.len() && s[i] == (name, ());
                    assert(list[i] == name);
                }
                if list.contains(name) {
                    let i = choose|i: int| 0 <= i < list.len() && list[i] == name;
                    assert(s[i].0 == name);
                }
            }
            lemma_listing(list, self@);
        }
        names
    }
}

/// The set of the given names.
pub fn name_set(names: &Vec<String>) -> (set: NameSet)
    ensures
        set@ == names.deep_view().to_set(),
{
    let mut set = NameSet::new();
    let mut i: usize = 0;
    while i < names.len()
        invariant
            i <= names@.len(),
            forall|name: Seq<char>| #[trigger]
                set@.contains(name) <==> names.deep_view().take(i as int).contains(name),
        decreases names@.len() - i,
    {
        let ghost before = set@;
        let _ = set.insert(names[i].clone());
        proof {
            let list = names.deep_view();
            assert forall|name: Seq<char>| #[trigger] set@.contains(name) <==> list.take(
                i + 1,
            ).contains(name) by {
                assert(list.take(i + 1) =~= list.take(i as int).push(list[i as int]));
                if before.contains(name) {
                    let k = choose|k: int| 0 <= k < i && list.take(i as int)[k] == name;
                    assert(list.take(i + 1)[k] == name);
                }
                if name == list[i as int] {
                    assert(list.take(i + 1)[i as int] == name);
                }
                if list.take(i + 1).contains(name) && name != list[i as int] {
                    let longer = list.take(i + 1);
                    let k = choose|k: int| 0 <= k < longer.len() && longer[k] == name;
                    assert(list.take(i as int)[k] == name);
                }
            }
        }
        i = i + 1;
    }
    proof {
        let list = names.deep_view();
        assert(list.take(i as int) =~= list);
        assert(set@ =~= list.to_set());
    }
    set
}

/// The given names, each once and in name order.
pub fn sorted_unique(names: &Vec<String>) -> (list: Vec<String>)
    ensures
        list.deep_view() == listing(names.deep_view().to_set()),
        lists(listing(names.deep_view().to_set()), names.deep_view().to_set()),
{
    name_set(names).to_vec()
}

} // verus!
