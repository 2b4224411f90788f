//! The generation of each target: how often it was started.

use vstd::prelude::*;

use crate::names::{lemma_lookup_put, lookup, put, NameMap};
use crate::paths::{
    absolute, below, entry_name, file_name, file_name_spec, join, join_spec,
    joined_path_lies_below_its_base, parent, parent_of_an_entry_is_its_directory, parent_spec,
    plainly_ended, safe_char, sanitize_spec, sanitize_target_name, sanitized_name_is_safe,
};

verus! {

/// The generations of all targets that were ever started.
#[derive(Debug, PartialEq, Eq)]
pub struct TargetGenerationStore {
    generations: NameMap<u64>,
}

impl DeepView for TargetGenerationStore {
    type V = Seq<(Seq<char>, u64)>;

    closed spec fn deep_view(&self) -> Seq<(Seq<char>, u64)> {
        self.generations.deep_view()
    }
}

/// The generations that records tell; a later record of a target replaces an earlier one.
pub open spec fn recorded(records: Seq<(Seq<char>, u64)>) -> Seq<(Seq<char>, u64)>
    decreases records.len(),
{
    if records.len() == 0 {
        Seq::empty()
    } else {
        put(recorded(records.drop_last()), records.last().0, records.last().1)
    }
}

/// The generation after the last one of a target.
pub open spec fn next_generation(generations: Seq<(Seq<char>, u64)>, target: Seq<char>) -> u64 {
    match lookup(generations, target) {
        Some(generation) => if generation == u64::MAX {
            u64::MAX
        } else {
            (generation + 1) as u64
        },
        None => 1,
    }
}

impl TargetGenerationStore {
    /// The store that the records on disk tell.
    pub fn new(records: &Vec<(String, u64)>) -> (r: Self)
        ensures
            r.deep_view() == recorded(records.deep_view()),
    {
        let mut generations: NameMap<u64> = NameMap::new();
        let ghost list = records.deep_view();
        let mut i: usize = 0;
        assert(list.take(0) =~= Seq::empty());
        while i < records.len()
            invariant
                i <= records@.len(),
                list == records.deep_view(),
                generations.deep_view() == recorded(list.take(i as int)),
            decreases records@.len() - i,
        {
            assert(list.take(i + 1).drop_last() =~= list.take(i as int));
            let _ = generations.insert(records[i].0.clone(), records[i].1);
            i = i + 1;
        }
        assert(list.take(i as int) =~= list);
        TargetGenerationStore { generations }
    }

    /// Takes the next generation of `target`.
    pub fn next(&mut self, target: &str) -> (generation: u64)
        ensures
            generation == next_generation(old(self).deep_view(), target@),
            final(self).deep_view() == put(old(self).deep_view(), target@, generation),
    {
        let generation: u64 = match self.generations.get(target) {
            Some(current) => current.saturating_add(1),
            None => 1,
        };
        let _ = self.generations.insert(target.to_owned(), generation);
        generation
    }

    /// The last generation of `target`.
    pub fn current(&self, target: &str) -> (r: Option<u64>)
        ensures
            r == lookup(self.deep_view(), target@),
    {
        match self.generations.get(target) {
            Some(generation) => Some(*generation),
            None => None,
        }
    }

    /// All targets with their generations, in name order.
    pub fn all(&self) -> (r: Vec<(String, u64)>)
        ensures
            r.deep_view() == self.deep_view(),
            crate::names::ordered(self.deep_view()),
    {
        let mut r: Vec<(String, u64)> = Vec::new();
        let mut i: usize = 0;
        while i < self.generations.len()
            invariant
                i <= self.generations.deep_view().len(),
                r@.len() == i,
                forall|k: int|
                    0 <= k < i ==> (#[trigger] r@[k]).deep_view()
                        == self.generations.deep_view()[k],
            decreases self.generations.deep_view().len() - i,
        {
            r.push((self.generations.name_at(i).clone(), *self.generations.value_at(i)));
            i = i + 1;
        }
        let _ = self.generations.len();
        assert(r.deep_view() =~= self.generations.deep_view());
        r
    }
}

/// The file that records the generation of a target.
pub open spec fn record_path_spec(base_dir: Seq<char>, target: Seq<char>) -> Seq<char> {
    join_spec(base_dir, sanitize_spec(target) + ".json"@)
}

/// The file that records the generation of the target.
pub fn record_path(base_dir: &str, target: &str) -> (r: String)
    ensures
        r@ == record_path_spec(base_dir@, target@),
{
    let mut name: String = sanitize_target_name(target);
    name.append(".json");
    join(base_dir, name.as_str())
}

/// The file beside `path` that is written first and then renamed.
pub open spec fn tmp_path_spec(path: Seq<char>) -> Seq<char> {
    let name = match file_name_spec(path) {
        Some(name) => name + ".tmp"@,
        None => "tmp"@ + ".tmp"@,
    };
    match file_name_spec(path) {
        Some(_) => join_spec(parent_spec(path)->0, name),
        None => join_spec(path, name),
    }
}

/// The file beside `path` that is written first and then renamed.
pub fn tmp_path(path: &str) -> (r: String)
    ensures
        r@ == tmp_path_spec(path@),
{
    match file_name(path) {
        Some(name) => {
            let mut written: String = name;
            written.append(".tmp");
            match parent(path) {
                Some(dir) => join(dir.as_str(), written.as_str()),
                None => {
                    assert(false);
                    written
                },
            }
        },
        None => {
            let mut written: String = "tmp".to_owned();
            written.append(".tmp");
            join(path, written.as_str())
        },
    }
}

// ---------------------------------------------------------------------------
// Laws
// ---------------------------------------------------------------------------

/// Each start of a target gives it a higher generation than before, up to the largest number; no
/// other target is touched.
pub proof fn generations_grow(
    generations: Seq<(Seq<char>, u64)>,
    target: Seq<char>,
    other: Seq<char>,
)
    ensures
        ({
            let next = next_generation(generations, target);
            let after = put(generations, target, next);
            &&& next >= 1
            &&& lookup(after, target) == Some(next)
            &&& lookup(generations, target) matches Some(now) ==> now < u64::MAX ==> now < next
            &&& other != target ==> lookup(after, other) == lookup(generations, other)
        }),
{
    let next = next_generation(generations, target);
    lemma_lookup_put(generations, target, next, target);
    lemma_lookup_put(generations, target, next, other);
}

/// The store holds the last generation that is recorded of each target, and nothing of any other.
pub proof fn recorded_generations_are_known(records: Seq<(Seq<char>, u64)>, target: Seq<char>)
    ensures
        lookup(recorded(records), target) == lookup(records, target),
    decreases records.len(),
{
    if records.len() > 0 {
        recorded_generations_are_known(records.drop_last(), target);
        lemma_lookup_put(
            recorded(records.drop_last()),
            records.last().0,
            records.last().1,
            target,
        );
    }
}

/// The first start of a target has the generation one, and every further one the next number.
pub proof fn generations_are_counted(generations: Seq<(Seq<char>, u64)>, target: Seq<char>)
    ensures
        lookup(generations, target) is None ==> next_generation(generations, target) == 1,
        lookup(generations, target) matches Some(last) ==> (last < u64::MAX ==> next_generation(
            generations,
            target,
        ) == last + 1),
{
}

/// The record of a target lies in the directory of records, under its name made safe.
pub proof fn record_lies_in_its_directory(base_dir: Seq<char>, target: Seq<char>)
    requires
        base_dir.len() > 0,
    ensures
        below(record_path_spec(base_dir, target), base_dir),
        (sanitize_spec(target) + ".json"@).is_suffix_of(record_path_spec(base_dir, target)),
{
    reveal_strlit(".json");
    let name = sanitize_spec(target) + ".json"@;
    sanitized_name_is_safe(target);
    assert(!absolute(name)) by {
        if target.len() > 0 {
            assert(safe_char(sanitize_spec(target)[0]));
            assert(name[0] == sanitize_spec(target)[0]);
        } else {
            assert(name[0] == ".json"@[0]);
        }
    }
    joined_path_lies_below_its_base(base_dir, name);
    let path = record_path_spec(base_dir, target);
    assert(path.subrange(path.len() - name.len(), path.len() as int) =~= name);
}

/// What is written first lies beside the file that it becomes, under the name of the file with
/// `.tmp` behind it.
pub proof fn temporary_file_lies_beside_the_file(dir: Seq<char>, name: Seq<char>)
    requires
        plainly_ended(dir),
        entry_name(name),
    ensures
        tmp_path_spec(join_spec(dir, name)) == join_spec(dir, name) + ".tmp"@,
{
    parent_of_an_entry_is_its_directory(dir, name);
    reveal_strlit(".tmp");
    if absolute(name) {
        assert(name.contains(name[0]));
    }
    assert((name + ".tmp"@)[0] == name[0]);
    assert(tmp_path_spec(join_spec(dir, name)) =~= join_spec(dir, name) + ".tmp"@);
}

} // verus!
