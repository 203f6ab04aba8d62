//! A table keyed by subject. Each subject occurs at most once; the order of
//! the entries means nothing.

use crate::text::str_eq;
use vstd::prelude::*;

verus! {

/// The subject of the entry at `i`.
spec fn key_at<V>(entries: Seq<(String, V)>, i: int) -> Seq<char> {
    entries[i].0@
}

/// Whether the entry at `i` exists and is the one for `key`.
spec fn holds_at<V>(entries: Seq<(String, V)>, key: Seq<char>, i: int) -> bool {
    0 <= i < entries.len() && key_at(entries, i) == key
}

/// Whether no subject has two entries.
spec fn distinct_keys<V>(entries: Seq<(String, V)>) -> bool {
    forall|i: int, j: int|
        0 <= i < j < entries.len() ==> #[trigger] key_at(entries, i) != #[trigger] key_at(
            entries,
            j,
        )
}

/// The mapping that a list of entries stands for.
spec fn mapping_of<V>(entries: Seq<(String, V)>) -> Map<Seq<char>, V> {
    Map::new(
        |key: Seq<char>| exists|i: int| holds_at(entries, key, i),
        |key: Seq<char>| entries[choose|i: int| holds_at(entries, key, i)].1,
    )
}

/// In a list without repeated subjects, each entry is what the mapping
/// gives for its subject.
proof fn lemma_entry_is_mapped<V>(entries: Seq<(String, V)>, i: int)
    requires
        distinct_keys(entries),
        0 <= i < entries.len(),
    ensures
        mapping_of(entries).contains_key(key_at(entries, i)),
        mapping_of(entries)[key_at(entries, i)] == entries[i].1,
{
    let key = key_at(entries, i);
    assert(holds_at(entries, key, i));
    let j = choose|j: int| holds_at(entries, key, j);
    if j < i {
        assert(key_at(entries, j) != key_at(entries, i));
    } else if i < j {
        assert(key_at(entries, i) != key_at(entries, j));
    }
}

/// A list without repeated subjects stands for `target` as soon as `target`
/// maps every entry's subject to its value and maps no other subject.
proof fn lemma_mapping_is<V>(entries: Seq<(String, V)>, target: Map<Seq<char>, V>)
    requires
        distinct_keys(entries),
        forall|i: int|
            0 <= i < entries.len() ==> target.contains_key(#[trigger] key_at(entries, i))
                && target[key_at(entries, i)] == entries[i].1,
        forall|key: Seq<char>| #[trigger]
            target.contains_key(key) ==> exists|i: int| holds_at(entries, key, i),
    ensures
        mapping_of(entries) == target,
{
    assert forall|key: Seq<char>| #[trigger]
        mapping_of(entries).contains_key(key) implies target.contains_key(key) && mapping_of(
        entries,
    )[key] == target[key] by {
        let i = choose|i: int| holds_at(entries, key, i);
        lemma_entry_is_mapped(entries, i);
    }
    assert(mapping_of(entries) =~= target);
}

/// Writing a new value over the entry of a subject is inserting it.
proof fn lemma_overwrite_is_insert<V>(entries: Seq<(String, V)>, i: int, entry: (String, V))
    requires
        distinct_keys(entries),
        holds_at(entries, entry.0@, i),
    ensures
        distinct_keys(entries.update(i, entry)),
        mapping_of(entries.update(i, entry)) == mapping_of(entries).insert(entry.0@, entry.1),
{
    let after = entries.update(i, entry);
    assert forall|a: int, b: int| 0 <= a < b < after.len() implies key_at(after, a) != key_at(
        after,
        b,
    ) by {
        assert(key_at(after, a) == key_at(entries, a));
        assert(key_at(after, b) == key_at(entries, b));
    }
    let target = mapping_of(entries).insert(entry.0@, entry.1);
    assert forall|a: int| 0 <= a < after.len() implies target.contains_key(
        #[trigger] key_at(after, a),
    ) && target[key_at(after, a)] == after[a].1 by {
        lemma_entry_is_mapped(entries, a);
        if a != i {
            assert(key_at(after, a) == key_at(entries, a));
            if a < i {
                assert(key_at(entries, a) != key_at(entries, i));
            } else {
                assert(key_at(entries, i) != key_at(entries, a));
            }
        }
    }
    assert forall|key: Seq<char>| #[trigger] target.contains_key(key) implies exists|a: int|
        holds_at(after, key, a) by {
        if key == entry.0@ {
            assert(holds_at(after, key, i));
        } else {
            let a = choose|a: int| holds_at(entries, key, a);
            assert(holds_at(after, key, a));
        }
    }
    lemma_mapping_is(after, target);
}

/// Appending an entry for a subject that has none is inserting it.
proof fn lemma_append_is_insert<V>(entries: Seq<(String, V)>, entry: (String, V))
    requires
        distinct_keys(entries),
        forall|i: int| !holds_at(entries, entry.0@, i),
    ensures
        distinct_keys(entries.push(entry)),
        mapping_of(entries.push(entry)) == mapping_of(entries).insert(entry.0@, entry.1),
{
    let after = entries.push(entry);
    let last = entries.len() as int;
    assert forall|a: int, b: int| 0 <= a < b < after.len() implies key_at(after, a) != key_at(
        after,
        b,
    ) by {
        assert(key_at(after, a) == key_at(entries, a));
        if b < last {
            assert(key_at(after, b) == key_at(entries, b));
        } else {
            assert(!holds_at(entries, entry.0@, a));
        }
    }
    let target = mapping_of(entries).insert(entry.0@, entry.1);
    assert forall|a: int| 0 <= a < after.len() implies target.contains_key(
        #[trigger] key_at(after, a),
    ) && target[key_at(after, a)] == after[a].1 by {
        if a < last {
            lemma_entry_is_mapped(entries, a);
            assert(key_at(after, a) == key_at(entries, a));
            assert(!holds_at(entries, entry.0@, a));
        }
    }
    assert forall|key: Seq<char>| #[trigger] target.contains_key(key) implies exists|a: int|
        holds_at(after, key, a) by {
        if key == entry.0@ {
            assert(holds_at(after, key, last));
        } else {
            let a = choose|a: int| holds_at(entries, key, a);
            assert(holds_at(after, key, a));
        }
    }
    lemma_mapping_is(after, target);
}

/// Taking an entry out of the list is removing its subject.
proof fn lemma_take_out_is_remove<V>(entries: Seq<(String, V)>, i: int)
    requires
        distinct_keys(entries),
        0 <= i < entries.len(),
    ensures
        distinct_keys(entries.remove(i)),
        mapping_of(entries.remove(i)) == mapping_of(entries).remove(key_at(entries, i)),
{
    let after = entries.remove(i);
    let behind = |a: int|
        if a < i {
            a
        } else {
            a + 1
        };
    assert forall|a: int| 0 <= a < after.len() implies #[trigger] key_at(after, a) == key_at(
        entries,
        behind(a),
    ) && after[a].1 == entries[behind(a)].1 by {}
    assert forall|a: int, b: int| 0 <= a < b < after.len() implies key_at(after, a) != key_at(
        after,
        b,
    ) by {
        assert(key_at(entries, behind(a)) != key_at(entries, behind(b)));
    }
    let gone = key_at(entries, i);
    let target = mapping_of(entries).remove(gone);
    assert forall|a: int| 0 <= a < after.len() implies target.contains_key(
        #[trigger] key_at(after, a),
    ) && target[key_at(after, a)] == after[a].1 by {
        lemma_entry_is_mapped(entries, behind(a));
        if behind(a) < i {
            assert(key_at(entries, behind(a)) != key_at(entries, i));
        } else {
            assert(key_at(entries, i) != key_at(entries, behind(a)));
        }
    }
    assert forall|key: Seq<char>| #[trigger] target.contains_key(key) implies exists|a: int|
        holds_at(after, key, a) by {
        let b = choose|b: int| holds_at(entries, key, b);
        assert(b != i);
        let a = if b < i {
            b
        } else {
            b - 1
        };
        assert(behind(a) == b);
        assert(holds_at(after, key, a));
    }
    lemma_mapping_is(after, target);
}

/// Whether `values` holds the value of every subject of `mapping`, once for
/// each subject, in some order.
pub open spec fn lists_values_of<V>(values: Seq<V>, mapping: Map<Seq<char>, V>) -> bool {
    exists|subjects: Seq<Seq<char>>|
        {
            &&& subjects.no_duplicates()
            &&& subjects.to_set() == mapping.dom()
            &&& #[trigger] subjects.len() == values.len()
            &&& forall|i: int| 0 <= i < subjects.len() ==> values[i] == mapping[subjects[i]]
        }
}

/// The values of a list without repeated subjects, last entry first, are the
/// values of the mapping that the list stands for.
proof fn lemma_reversed_values_list_mapping<V>(entries: Seq<(String, V)>, values: Seq<V>)
    requires
        distinct_keys(entries),
        values.len() == entries.len(),
        forall|i: int| 0 <= i < values.len() ==> values[i] == entries[entries.len() - 1 - i].1,
    ensures
        lists_values_of(values, mapping_of(entries)),
{
    let n = entries.len() as int;
    let subjects = Seq::new(entries.len(), |i: int| key_at(entries, n - 1 - i));
    assert forall|i: int, j: int| 0 <= i < j < subjects.len() implies subjects[i] != subjects[j] by {
        assert(key_at(entries, n - 1 - j) != key_at(entries, n - 1 - i));
    }
    assert forall|key: Seq<char>| subjects.to_set().contains(key) == mapping_of(
        entries,
    ).dom().contains(key) by {
        if subjects.to_set().contains(key) {
            let i = choose|i: int| 0 <= i < subjects.len() && subjects[i] == key;
            assert(holds_at(entries, key, n - 1 - i));
        }
        if mapping_of(entries).dom().contains(key) {
            let a = choose|a: int| holds_at(entries, key, a);
            assert(subjects[n - 1 - a] == key);
        }
    }
    assert(subjects.to_set() =~= mapping_of(entries).dom());
    assert forall|i: int| 0 <= i < subjects.len() implies values[i] == mapping_of(
        entries,
    )[subjects[i]] by {
        lemma_entry_is_mapped(entries, n - 1 - i);
    }
    assert(subjects.len() == values.len());
}

/// Where the entry for `key` stands in `entries`, if there is one.
fn position<V>(entries: &Vec<(String, V)>, key: &str) -> (found: Option<usize>)
    ensures
        match found {
            Some(i) => holds_at(entries@, key@, i as int),
            None => forall|i: int| !holds_at(entries@, key@, i),
        },
{
    let mut i: usize = 0;
    while i < entries.len()
        invariant
            i <= entries.len(),
            forall|j: int| 0 <= j < i ==> key_at(entries@, j) != key@,
        decreases entries.len() - i,
    {
        if str_eq(entries[i].0.as_str(), key) {
            return Some(i);
        }
        i += 1;
    }
    None
}

/// A mapping from subjects to values of `V`.
pub struct SubjectTable<V> {
    entries: Vec<(String, V)>,
}

impl<V> View for SubjectTable<V> {
    type V = Map<Seq<char>, V>;

    closed spec fn view(&self) -> Map<Seq<char>, V> {
        mapping_of(self.entries@)
    }
}

impl<V> SubjectTable<V> {
    #[verifier::type_invariant]
    spec fn no_subject_twice(self) -> bool {
        distinct_keys(self.entries@)
    }

    /// The empty table.
    pub fn new() -> (table: Self)
        ensures
            table@ == Map::<Seq<char>, V>::empty(),
    {
        let table = SubjectTable { entries: Vec::new() };
        assert(table@ =~= Map::<Seq<char>, V>::empty());
        table
    }

    /// Whether `key` has an entry.
    pub fn contains_key(&self, key: &str) -> (present: bool)
        ensures
            present == self@.contains_key(key@),
    {
        position(&self.entries, key).is_some()
    }

    /// The value stored for `key`.
    pub fn get(&self, key: &str) -> (value: Option<&V>)
        ensures
            match value {
                Some(v) => self@.contains_key(key@) && *v == self@[key@],
                None => !self@.contains_key(key@),
            },
    {
        proof {
            use_type_invariant(self);
        }
        match position(&self.entries, key) {
            Some(i) => {
                proof {
                    lemma_entry_is_mapped(self.entries@, i as int);
                }
                Some(&self.entries[i].1)
            },
            None => None,
        }
    }

    /// Stores `value` for `key`, in place of what was stored for it before.
    pub fn insert(&mut self, key: String, value: V)
        ensures
            final(self)@ == old(self)@.insert(key@, value),
    {
        proof {
            use_type_invariant(&*self);
        }
        let mut entries: Vec<(String, V)> = Vec::new();
        core::mem::swap(&mut self.entries, &mut entries);
        match position(&entries, key.as_str()) {
            Some(i) => {
                proof {
                    lemma_overwrite_is_insert(entries@, i as int, (key, value));
                }
                entries.set(i, (key, value));
            },
            None => {
                proof {
                    lemma_append_is_insert(entries@, (key, value));
                }
                entries.push((key, value));
            },
        }
        core::mem::swap(&mut self.entries, &mut entries);
    }

    /// Takes out the entry for `key` and returns its value; `None`, and the
    /// table stays as it is, where `key` has no entry.
    pub fn remove(&mut self, key: &str) -> (value: Option<V>)
        ensures
            final(self)@ == old(self)@.remove(key@),
            match value {
                Some(v) => old(self)@.contains_key(key@) && v == old(self)@[key@],
                None => !old(self)@.contains_key(key@),
            },
    {
        proof {
            use_type_invariant(&*self);
        }
        let mut entries: Vec<(String, V)> = Vec::new();
        core::mem::swap(&mut self.entries, &mut entries);
        let value = match position(&entries, key) {
            Some(i) => {
                proof {
                    lemma_entry_is_mapped(entries@, i as int);
                    lemma_take_out_is_remove(entries@, i as int);
                }
                Some(entries.remove(i).1)
            },
            None => {
                assert(mapping_of(entries@) =~= mapping_of(entries@).remove(key@));
                None
            },
        };
        core::mem::swap(&mut self.entries, &mut entries);
        value
    }

    /// Empties the table and returns the values it held, one for each
    /// subject, in no particular order.
    pub fn drain(&mut self) -> (values: Vec<V>)
        ensures
            final(self)@ == Map::<Seq<char>, V>::empty(),
            lists_values_of(values@, old(self)@),
    {
        proof {
            use_type_invariant(&*self);
        }
        let mut entries: Vec<(String, V)> = Vec::new();
        core::mem::swap(&mut self.entries, &mut entries);
        assert(self@ =~= Map::<Seq<char>, V>::empty());
        let ghost before = entries@;
        let mut values: Vec<V> = Vec::new();
        while entries.len() > 0
            invariant
                entries@ == before.take(before.len() - values.len()),
                values.len() <= before.len(),
                forall|i: int|
                    0 <= i < values.len() ==> values@[i] == before[before.len() - 1 - i].1,
            decreases entries.len(),
        {
            match entries.pop() {
                Some(entry) => values.push(entry.1),
                None => {},
            }
        }
        proof {
            lemma_reversed_values_list_mapping(before, values@);
        }
        values
    }
}

} // verus!
