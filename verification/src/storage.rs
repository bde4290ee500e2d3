//! The storage map that every pallet keeps its records in.

use vstd::prelude::*;

verus! {

/// A finite map from text keys to values.
///
/// The entries are held in a list in which no key occurs twice; the order of
/// the list carries no meaning. The view is the mathematical map from the
/// characters of each key to its value.
#[derive(Debug)]
pub struct StorageMap<V> {
    entries: Vec<(String, V)>,
}

/// The entry at position `i` is filed under the key `k`.
spec fn keyed_at<V>(entries: Seq<(String, V)>, i: int, k: Seq<char>) -> bool {
    0 <= i < entries.len() && entries[i].0@ == k
}

/// No two entries share a key.
spec fn distinct_keys<V>(entries: Seq<(String, V)>) -> bool {
    forall|i: int, j: int|
        0 <= i < j < entries.len() ==> (#[trigger] entries[i]).0@ != (#[trigger] entries[j]).0@
}

/// A position at which `k` is filed, where there is one.
spec fn position_of<V>(entries: Seq<(String, V)>, k: Seq<char>) -> int {
    choose|i: int| keyed_at(entries, i, k)
}

/// The map that a list of entries stands for.
spec fn as_map<V>(entries: Seq<(String, V)>) -> Map<Seq<char>, V> {
    Map::new(
        |k: Seq<char>| exists|i: int| keyed_at(entries, i, k),
        |k: Seq<char>| entries[position_of(entries, k)].1,
    )
}

/// A key that is filed at `i` is in the map, with the value found at `i`.
proof fn lemma_present<V>(entries: Seq<(String, V)>, i: int, k: Seq<char>)
    requires
        distinct_keys(entries),
        keyed_at(entries, i, k),
    ensures
        as_map(entries).contains_key(k),
        as_map(entries)[k] == entries[i].1,
{
    let j = position_of(entries, k);
    assert(keyed_at(entries, j, k));
    if i < j {
        assert(entries[i].0@ != entries[j].0@);
    } else if j < i {
        assert(entries[j].0@ != entries[i].0@);
    }
}

/// A key that is filed nowhere is not in the map.
proof fn lemma_absent<V>(entries: Seq<(String, V)>, k: Seq<char>)
    requires
        forall|i: int| 0 <= i < entries.len() ==> (#[trigger] entries[i]).0@ != k,
    ensures
        !as_map(entries).contains_key(k),
{
    if as_map(entries).contains_key(k) {
        let i = choose|i: int| keyed_at(entries, i, k);
        assert(entries[i].0@ == k);
    }
}

/// Appending an entry under a fresh key inserts it into the map.
proof fn lemma_push<V>(entries: Seq<(String, V)>, key: String, value: V)
    requires
        distinct_keys(entries),
        !as_map(entries).contains_key(key@),
    ensures
        distinct_keys(entries.push((key, value))),
        as_map(entries.push((key, value))) == as_map(entries).insert(key@, value),
{
    let after = entries.push((key, value));
    let last = entries.len() as int;
    assert forall|i: int| 0 <= i < entries.len() implies (#[trigger] entries[i]).0@ != key@ by {
        if entries[i].0@ == key@ {
            assert(keyed_at(entries, i, key@));
        }
    }
    assert(distinct_keys(after));
    assert forall|k: Seq<char>| as_map(after).contains_key(k) <==> as_map(entries).insert(
        key@,
        value,
    ).contains_key(k) by {
        if as_map(after).contains_key(k) {
            let i = choose|i: int| keyed_at(after, i, k);
            if i < last {
                assert(keyed_at(entries, i, k));
            }
        }
        if as_map(entries).contains_key(k) {
            let i = choose|i: int| keyed_at(entries, i, k);
            assert(keyed_at(after, i, k));
        }
        if k == key@ {
            assert(keyed_at(after, last, k));
        }
    }
    assert forall|k: Seq<char>| as_map(after).contains_key(k) implies as_map(after)[k]
        == as_map(entries).insert(key@, value)[k] by {
        if k == key@ {
            lemma_present(after, last, k);
        } else {
            let i = choose|i: int| keyed_at(after, i, k);
            assert(keyed_at(entries, i, k));
            lemma_present(after, i, k);
            lemma_present(entries, i, k);
        }
    }
    assert(as_map(after) =~= as_map(entries).insert(key@, value));
}

/// Taking out the entry at `at` removes its key from the map.
proof fn lemma_take_out<V>(entries: Seq<(String, V)>, at: int)
    requires
        distinct_keys(entries),
        0 <= at < entries.len(),
    ensures
        distinct_keys(entries.remove(at)),
        as_map(entries.remove(at)) == as_map(entries).remove(entries[at].0@),
{
    let after = entries.remove(at);
    let gone = entries[at].0@;
    assert forall|i: int, j: int| 0 <= i < j < after.len() implies (#[trigger] after[i]).0@ != (
    #[trigger] after[j]).0@ by {
        let a = if i < at { i } else { i + 1 };
        let b = if j < at { j } else { j + 1 };
        assert(after[i] == entries[a]);
        assert(after[j] == entries[b]);
        assert(entries[a].0@ != entries[b].0@);
    }
    assert forall|k: Seq<char>| as_map(after).contains_key(k) <==> as_map(entries).remove(
        gone,
    ).contains_key(k) by {
        if as_map(after).contains_key(k) {
            let i = choose|i: int| keyed_at(after, i, k);
            let a = if i < at { i } else { i + 1 };
            assert(after[i] == entries[a]);
            assert(keyed_at(entries, a, k));
            if a < at {
                assert(entries[a].0@ != entries[at].0@);
            } else {
                assert(entries[at].0@ != entries[a].0@);
            }
        }
        if as_map(entries).contains_key(k) && k != gone {
            let a = choose|a: int| keyed_at(entries, a, k);
            let i = if a < at { a } else { a - 1 };
            assert(after[i] == entries[a]);
            assert(keyed_at(after, i, k));
        }
    }
    assert forall|k: Seq<char>| as_map(after).contains_key(k) implies as_map(after)[k]
        == as_map(entries).remove(gone)[k] by {
        let i = choose|i: int| keyed_at(after, i, k);
        let a = if i < at { i } else { i + 1 };
        assert(after[i] == entries[a]);
        assert(keyed_at(entries, a, k));
        lemma_present(after, i, k);
        lemma_present(entries, a, k);
    }
    assert(as_map(after) =~= as_map(entries).remove(gone));
}

/// A list of entries stands for a map of finitely many keys.
proof fn lemma_finitely_many<V>(entries: Seq<(String, V)>)
    ensures
        as_map(entries).dom().finite(),
    decreases entries.len(),
{
    if entries.len() == 0 {
        lemma_absent_everywhere(entries);
    } else {
        let earlier = entries.drop_last();
        let end = entries.len() - 1;
        lemma_finitely_many(earlier);
        assert forall|k: Seq<char>| as_map(entries).dom().contains(k) <==> as_map(
            earlier,
        ).dom().insert(entries[end].0@).contains(k) by {
            if as_map(entries).contains_key(k) {
                let i = choose|i: int| keyed_at(entries, i, k);
                if i < end {
                    assert(keyed_at(earlier, i, k));
                }
            }
            if as_map(earlier).contains_key(k) {
                let i = choose|i: int| keyed_at(earlier, i, k);
                assert(keyed_at(entries, i, k));
            }
            if k == entries[end].0@ {
                assert(keyed_at(entries, end, k));
            }
        }
        assert(as_map(entries).dom() =~= as_map(earlier).dom().insert(entries[end].0@));
    }
}

/// A list without entries stands for the empty map.
proof fn lemma_absent_everywhere<V>(entries: Seq<(String, V)>)
    requires
        entries.len() == 0,
    ensures
        as_map(entries) == Map::<Seq<char>, V>::empty(),
{
    assert forall|k: Seq<char>| !as_map(entries).contains_key(k) by {
        lemma_absent(entries, k);
    }
    assert(as_map(entries) =~= Map::<Seq<char>, V>::empty());
}

/// The position of `key` in `entries`, if it is filed there.
fn find<V>(entries: &Vec<(String, V)>, key: &String) -> (r: Option<usize>)
    ensures
        match r {
            Some(i) => keyed_at(entries@, i as int, key@),
            None => forall|j: int| 0 <= j < entries.len() ==> (#[trigger] entries@[j]).0@ != key@,
        },
{
    let mut i: usize = 0;
    while i < entries.len()
        invariant
            i <= entries.len(),
            forall|j: int| 0 <= j < i ==> (#[trigger] entries@[j]).0@ != key@,
        decreases entries.len() - i,
    {
        if entries[i].0 == *key {
            return Some(i);
        }
        i += 1;
    }
    None
}

impl<V> View for StorageMap<V> {
    type V = Map<Seq<char>, V>;

    closed spec fn view(&self) -> Map<Seq<char>, V> {
        as_map(self.entries@)
    }
}

impl<V> StorageMap<V> {
    #[verifier::type_invariant]
    spec fn no_key_twice(self) -> bool {
        distinct_keys(self.entries@)
    }

    /// The map has finitely many keys.
    pub proof fn lemma_finite(&self)
        ensures
            self@.dom().finite(),
    {
        lemma_finitely_many(self.entries@);
    }

    /// The empty map.
    pub fn new() -> (m: Self)
        ensures
            m@ == Map::<Seq<char>, V>::empty(),
    {
        let m = StorageMap { entries: Vec::new() };
        proof {
            lemma_absent_everywhere(m.entries@);
        }
        m
    }

    /// Whether `key` has a value.
    pub fn contains_key(&self, key: &String) -> (r: bool)
        ensures
            r == self@.contains_key(key@),
    {
        proof {
            use_type_invariant(self);
        }
        match find(&self.entries, key) {
            Some(i) => {
                proof {
                    lemma_present(self.entries@, i as int, key@);
                }
                true
            },
            None => {
                proof {
                    lemma_absent(self.entries@, key@);
                }
                false
            },
        }
    }

    /// The value of `key`, if it has one.
    pub fn get(&self, key: &String) -> (r: Option<&V>)
        ensures
            r == (if self@.contains_key(key@) {
                Some(&self@[key@])
            } else {
                None
            }),
    {
        proof {
            use_type_invariant(self);
        }
        match find(&self.entries, key) {
            Some(i) => {
                proof {
                    lemma_present(self.entries@, i as int, key@);
                }
                Some(&self.entries[i].1)
            },
            None => {
                proof {
                    lemma_absent(self.entries@, key@);
                }
                None
            },
        }
    }

    /// Gives `key` the value `value`, in place of any value it had.
    pub fn insert(&mut self, key: String, value: V)
        ensures
            final(self)@ == old(self)@.insert(key@, value),
    {
        proof {
            use_type_invariant(&*self);
        }
        let mut entries: Vec<(String, V)> = Vec::new();
        std::mem::swap(&mut entries, &mut self.entries);
        let ghost before = entries@;
        match find(&entries, &key) {
            Some(i) => {
                proof {
                    lemma_take_out(before, i as int);
                }
                entries.remove(i);
            },
            None => {
                proof {
                    lemma_absent(before, key@);
                    assert(as_map(before).remove(key@) =~= as_map(before));
                }
            },
        }
        proof {
            lemma_push(entries@, key, value);
            assert(as_map(before).remove(key@).insert(key@, value) =~= as_map(before).insert(
                key@,
                value,
            ));
        }
        entries.push((key, value));
        self.entries = entries;
    }

    /// Takes `key` and its value out of the map, and returns the value it had.
    pub fn remove(&mut self, key: &String) -> (r: Option<V>)
        ensures
            final(self)@ == old(self)@.remove(key@),
            r == (if old(self)@.contains_key(key@) {
                Some(old(self)@[key@])
            } else {
                None
            }),
    {
        proof {
            use_type_invariant(&*self);
        }
        let mut entries: Vec<(String, V)> = Vec::new();
        std::mem::swap(&mut entries, &mut self.entries);
        let ghost before = entries@;
        let r = match find(&entries, key) {
            Some(i) => {
                proof {
                    lemma_present(before, i as int, key@);
                    lemma_take_out(before, i as int);
                }
                let entry = entries.remove(i);
                Some(entry.1)
            },
            None => {
                proof {
                    lemma_absent(before, key@);
                    assert(as_map(before).remove(key@) =~= as_map(before));
                }
                None
            },
        };
        self.entries = entries;
        r
    }
}

} // verus!
