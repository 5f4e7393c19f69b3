//! A small map from text keys to values that keeps its entries in the order
//! in which their keys first came.

use vstd::prelude::*;

verus! {

/// One key with its value.
#[derive(Debug)]
pub struct Entry<V> {
    pub key: String,
    pub value: V,
}

/// A map from text keys to values. A later value for a key replaces the
/// earlier one; no key occurs twice.
#[derive(Debug)]
pub struct Ledger<V> {
    entries: Vec<Entry<V>>,
}

/// Entry `i` of `entries` exists and has the key `key`.
pub open spec fn holds_key<V>(entries: Seq<Entry<V>>, key: Seq<char>, i: int) -> bool {
    0 <= i < entries.len() && entries[i].key@ == key
}

/// No two entries share a key.
pub open spec fn distinct_keys<V>(entries: Seq<Entry<V>>) -> bool {
    forall|i: int, j: int|
        0 <= i < j < entries.len() ==> (#[trigger] entries[i]).key@ != (#[trigger] entries[j]).key@
}

/// The map that a list of entries stands for.
pub open spec fn map_of<V: View>(entries: Seq<Entry<V>>) -> Map<Seq<char>, V::V> {
    Map::new(
        |key: Seq<char>| exists|i: int| holds_key(entries, key, i),
        |key: Seq<char>| entries[choose|i: int| holds_key(entries, key, i)].value@,
    )
}

/// Where keys are distinct, each entry is what the map holds under its key.
proof fn lemma_map_of_entry<V: View>(entries: Seq<Entry<V>>, i: int)
    requires
        distinct_keys(entries),
        0 <= i < entries.len(),
    ensures
        map_of(entries).contains_key(entries[i].key@),
        map_of(entries)[entries[i].key@] == entries[i].value@,
{
    let key = entries[i].key@;
    assert(holds_key(entries, key, i));
    let j = choose|j: int| holds_key(entries, key, j);
    assert(j == i);
}

/// Replacing the entry of a key, or adding one for a new key, is an insertion
/// into the map.
proof fn lemma_map_of_insert<V: View>(
    before: Seq<Entry<V>>,
    after: Seq<Entry<V>>,
    entry: Entry<V>,
    found: Option<int>,
)
    requires
        distinct_keys(before),
        match found {
            Some(i) => holds_key(before, entry.key@, i) && after == before.update(i, entry),
            None => (forall|i: int| !holds_key(before, entry.key@, i)) && after == before.push(
                entry,
            ),
        },
    ensures
        distinct_keys(after),
        map_of(after) == map_of(before).insert(entry.key@, entry.value@),
{
    let key = entry.key@;
    let at: int = match found {
        Some(i) => i,
        None => before.len() as int,
    };
    assert(holds_key(after, key, at));
    assert forall|i: int, j: int| 0 <= i < j < after.len() implies (#[trigger] after[i]).key@ != (
    #[trigger] after[j]).key@ by {
        if i != at && j != at {
            assert(after[i] == before[i] && after[j] == before[j]);
        } else if i == at {
            if found is Some {
                assert(after[j] == before[j]);
                assert(holds_key(before, key, at));
            }
        } else {
            assert(after[i] == before[i]);
            if found is Some {
                assert(holds_key(before, key, at));
            } else {
                assert(!holds_key(before, key, i));
            }
        }
    }
    let target = map_of(before).insert(key, entry.value@);
    assert forall|q: Seq<char>| map_of(after).contains_key(q) <==> target.contains_key(q) by {
        if map_of(after).contains_key(q) && q != key {
            let j = choose|j: int| holds_key(after, q, j);
            assert(j != at);
            assert(holds_key(before, q, j));
        }
        if map_of(before).contains_key(q) && q != key {
            let j = choose|j: int| holds_key(before, q, j);
            assert(holds_key(after, q, j));
        }
    }
    assert forall|q: Seq<char>| map_of(after).contains_key(q) implies map_of(after)[q]
        == target[q] by {
        let j = choose|j: int| holds_key(after, q, j);
        lemma_map_of_entry(after, j);
        if q != key {
            assert(holds_key(before, q, j));
            lemma_map_of_entry(before, j);
        } else {
            assert(j == at);
        }
    }
    assert(map_of(after) =~= target);
}

/// The position of the entry with the given key, if there is one.
fn position<V>(entries: &Vec<Entry<V>>, key: &String) -> (found: Option<usize>)
    ensures
        match found {
            Some(i) => holds_key(entries@, key@, i as int),
            None => forall|i: int| !holds_key(entries@, key@, i),
        },
{
    let mut i: usize = 0;
    while i < entries.len()
        invariant
            i <= entries.len(),
            forall|j: int| 0 <= j < i ==> !holds_key(entries@, key@, j),
        decreases entries.len() - i,
    {
        if entries[i].key == *key {
            return Some(i);
        }
        i += 1;
    }
    None
}

impl<V: View> View for Ledger<V> {
    type V = Map<Seq<char>, V::V>;

    closed spec fn view(&self) -> Map<Seq<char>, V::V> {
        map_of(self.entries@)
    }
}

impl<V> Ledger<V> {
    #[verifier::type_invariant]
    spec fn well_formed(self) -> bool {
        distinct_keys(self.entries@)
    }
}

impl<V: View> Ledger<V> {
    /// The keys in the order in which they first came.
    pub closed spec fn keys(self) -> Seq<Seq<char>> {
        self.entries@.map_values(|entry: Entry<V>| entry.key@)
    }

    /// The empty map.
    pub fn new() -> (ledger: Ledger<V>)
        ensures
            ledger@ == Map::<Seq<char>, V::V>::empty(),
            ledger.keys() == Seq::<Seq<char>>::empty(),
    {
        let ledger = Ledger { entries: Vec::new() };
        assert(ledger@ =~= Map::<Seq<char>, V::V>::empty());
        assert(ledger.keys() =~= Seq::<Seq<char>>::empty());
        ledger
    }

    /// Puts `value` under `key`, in place of the value that the key had.
    pub fn insert(&mut self, key: String, value: V)
        ensures
            final(self)@ == old(self)@.insert(key@, value@),
            final(self).keys() == if old(self)@.contains_key(key@) {
                old(self).keys()
            } else {
                old(self).keys().push(key@)
            },
    {
        proof {
            use_type_invariant(&*self);
        }
        let mut entries: Vec<Entry<V>> = Vec::new();
        std::mem::swap(&mut entries, &mut self.entries);
        let ghost before = entries@;
        let ghost text = key@;
        let found = position(&entries, &key);
        let entry = Entry { key, value };
        let ghost at: Option<int> = match found {
            Some(i) => Some(i as int),
            None => None,
        };
        proof {
            lemma_map_of_insert(before, match at {
                Some(i) => before.update(i, entry),
                None => before.push(entry),
            }, entry, at);
            if at is Some {
                assert(holds_key(before, text, at.unwrap()));
            }
        }
        match found {
            Some(i) => {
                entries.set(i, entry);
            },
            None => {
                entries.push(entry);
            },
        }
        assert(entries@.map_values(|entry: Entry<V>| entry.key@) =~= if at is Some {
            before.map_values(|entry: Entry<V>| entry.key@)
        } else {
            before.map_values(|entry: Entry<V>| entry.key@).push(text)
        });
        self.entries = entries;
    }

    /// The value under `key`, if the key has one.
    pub fn get(&self, key: &String) -> (value: Option<&V>)
        ensures
            match value {
                Some(v) => self@.contains_key(key@) && self@[key@] == v@,
                None => !self@.contains_key(key@),
            },
    {
        proof {
            use_type_invariant(self);
        }
        match position(&self.entries, key) {
            Some(i) => {
                proof {
                    lemma_map_of_entry(self.entries@, i as int);
                }
                Some(&self.entries[i].value)
            },
            None => None,
        }
    }

    /// The number of keys. Over the positions below it each key of the map
    /// comes exactly once: no key stands at two positions, and the keys at
    /// the positions are the keys of the map.
    pub fn len(&self) -> (n: usize)
        ensures
            n == self.keys().len(),
            self.keys().no_duplicates(),
            forall|key: Seq<char>| self@.contains_key(key) <==> self.keys().contains(key),
    {
        proof {
            use_type_invariant(self);
            let keys = self.keys();
            assert forall|a: int, b: int|
                0 <= a < keys.len() && 0 <= b < keys.len() && a != b implies keys[a] != keys[b] by {
                if a < b {
                    assert(self.entries@[a].key@ != self.entries@[b].key@);
                } else {
                    assert(self.entries@[b].key@ != self.entries@[a].key@);
                }
            }
            assert forall|key: Seq<char>| self@.contains_key(key) <==> keys.contains(key) by {
                if self@.contains_key(key) {
                    let j = choose|j: int| holds_key(self.entries@, key, j);
                    assert(keys[j] == key);
                }
                if keys.contains(key) {
                    let j = choose|j: int| 0 <= j < keys.len() && keys[j] == key;
                    assert(holds_key(self.entries@, key, j));
                }
            }
        }
        self.entries.len()
    }

    /// The entry of the key at position `i`.
    pub fn entry(&self, i: usize) -> (entry: &Entry<V>)
        requires
            i < self.keys().len(),
        ensures
            entry.key@ == self.keys()[i as int],
            self@.contains_key(entry.key@),
            self@[entry.key@] == entry.value@,
    {
        proof {
            use_type_invariant(self);
            lemma_map_of_entry(self.entries@, i as int);
        }
        &self.entries[i]
    }
}

} // verus!
