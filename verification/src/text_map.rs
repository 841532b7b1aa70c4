//! A small map from text to values that keeps its keys in the order of their first insertion.

use vstd::prelude::*;

verus! {

/// One key with its value.
#[derive(Debug)]
struct Entry<V> {
    key: String,
    value: V,
}

/// A map from text to values.
#[derive(Debug)]
pub struct TextMap<V> {
    entries: Vec<Entry<V>>,
}

spec fn distinct<V>(entries: Seq<Entry<V>>) -> bool {
    forall|i: int, j: int|
        0 <= i < j < entries.len() ==> (#[trigger] entries[i]).key@ != (
        #[trigger] entries[j]).key@
}

spec fn holds<V>(entries: Seq<Entry<V>>, key: Seq<char>) -> bool {
    exists|i: int| 0 <= i < entries.len() && (#[trigger] entries[i]).key@ == key
}

spec fn place<V>(entries: Seq<Entry<V>>, key: Seq<char>) -> int {
    choose|i: int| 0 <= i < entries.len() && (#[trigger] entries[i]).key@ == key
}

impl<V> View for TextMap<V> {
    type V = Map<Seq<char>, V>;

    closed spec fn view(&self) -> Map<Seq<char>, V> {
        Map::new(
            |key: Seq<char>| holds(self.entries@, key),
            |key: Seq<char>| self.entries@[place(self.entries@, key)].value,
        )
    }
}

impl<V> TextMap<V> {
    #[verifier::type_invariant]
    spec fn well_formed(self) -> bool {
        distinct(self.entries@)
    }

    /// The keys in the order of their first insertion.
    pub closed spec fn key_order(self) -> Seq<Seq<char>> {
        Seq::new(self.entries@.len(), |i: int| self.entries@[i].key@)
    }

    /// Creates an empty map.
    pub fn new() -> (result: Self)
        ensures
            result@ == Map::<Seq<char>, V>::empty(),
            result.key_order() == Seq::<Seq<char>>::empty(),
    {
        let result = TextMap { entries: Vec::new() };
        assert(result@ =~= Map::<Seq<char>, V>::empty());
        assert(result.key_order() =~= Seq::<Seq<char>>::empty());
        result
    }

    fn position(&self, key: &str) -> (result: Option<usize>)
        ensures
            match result {
                Some(index) => index < self.entries@.len() && self.entries@[index as int].key@
                    == key@ && self@.contains_key(key@) && self@[key@]
                    == self.entries@[index as int].value,
                None => !self@.contains_key(key@),
            },
    {
        proof {
            use_type_invariant(self);
        }
        let wanted: String = key.to_owned();
        let mut index: usize = 0;
        while index < self.entries.len()
            invariant
                index <= self.entries@.len(),
                wanted@ == key@,
                distinct(self.entries@),
                forall|i: int| 0 <= i < index ==> (#[trigger] self.entries@[i]).key@ != key@,
            decreases self.entries@.len() - index,
        {
            if self.entries[index].key == wanted {
                proof {
                    let found = place(self.entries@, key@);
                    assert(self.entries@[index as int].key@ == key@);
                    assert(holds(self.entries@, key@));
                    if found < index {
                        assert(self.entries@[found].key@ != self.entries@[index as int].key@);
                    }
                    if index < found {
                        assert(self.entries@[index as int].key@ != self.entries@[found].key@);
                    }
                }
                return Some(index);
            }
            index = index + 1;
        }
        None
    }

    /// Returns the value of `key`, where there is one.
    pub fn get(&self, key: &str) -> (result: Option<&V>)
        ensures
            match result {
                Some(value) => self@.contains_key(key@) && *value == self@[key@],
                None => !self@.contains_key(key@),
            },
    {
        match self.position(key) {
            Some(index) => Some(&self.entries[index].value),
            None => None,
        }
    }

    /// Returns whether `key` has a value.
    pub fn contains(&self, key: &str) -> (result: bool)
        ensures
            result == self@.contains_key(key@),
    {
        self.position(key).is_some()
    }

    /// Gives `key` a value, in place of the one that it had.
    pub fn insert(self, key: &str, value: V) -> (result: Self)
        ensures
            result@ == self@.insert(key@, value),
            result.key_order() == if self@.contains_key(key@) {
                self.key_order()
            } else {
                self.key_order().push(key@)
            },
    {
        proof {
            use_type_invariant(&self);
        }
        let ghost before = self@;
        let ghost old_entries = self.entries@;
        let found: Option<usize> = self.position(key);
        let mut entries: Vec<Entry<V>> = self.entries;
        let entry = Entry { key: key.to_owned(), value };
        match found {
            Some(index) => {
                entries.set(index, entry);
                proof {
                    assert forall|i: int| 0 <= i < entries@.len() implies (
                    #[trigger] entries@[i]).key@ == old_entries[i].key@ by {}
                    assert(distinct(entries@));
                }
                let result = TextMap { entries };
                proof {
                    lemma_same_places(old_entries, entries@);
                    assert(result@ =~= before.insert(key@, value)) by {
                        assert forall|k: Seq<char>| holds(entries@, k) == holds(old_entries, k) by {
                            lemma_places(old_entries, entries@, k);
                        }
                        assert forall|k: Seq<char>| holds(entries@, k) && k != key@ implies
                            entries@[place(entries@, k)].value == old_entries[place(
                            old_entries,
                            k,
                        )].value by {
                            lemma_places(old_entries, entries@, k);
                        }
                        lemma_places(old_entries, entries@, key@);
                        lemma_unique_place(entries@, key@, index as int);
                    }
                    assert(result.key_order() =~= self.key_order());
                }
                result
            },
            None => {
                entries.push(entry);
                proof {
                    assert forall|i: int, j: int| 0 <= i < j < entries@.len() implies (
                    #[trigger] entries@[i]).key@ != (#[trigger] entries@[j]).key@ by {
                        if j == old_entries.len() && entries@[i].key@ == key@ {
                            assert(old_entries[i].key@ == key@);
                            assert(holds(old_entries, key@));
                        }
                    }
                }
                let result = TextMap { entries };
                proof {
                    assert(result@ =~= before.insert(key@, value)) by {
                        assert forall|k: Seq<char>| k != key@ implies holds(entries@, k) == holds(
                            old_entries,
                            k,
                        ) by {
                            if holds(old_entries, k) {
                                let p = place(old_entries, k);
                                assert(entries@[p].key@ == k);
                            }
                            if holds(entries@, k) {
                                let p = place(entries@, k);
                                assert(p < old_entries.len());
                                assert(old_entries[p].key@ == k);
                            }
                        }
                        assert forall|k: Seq<char>| k != key@ && holds(old_entries, k) implies
                            entries@[place(entries@, k)].value == old_entries[place(
                            old_entries,
                            k,
                        )].value by {
                            let p = place(old_entries, k);
                            assert(entries@[p].key@ == k);
                            lemma_unique_place(entries@, k, p);
                        }
                        assert(entries@[old_entries.len() as int].key@ == key@);
                        lemma_unique_place(entries@, key@, old_entries.len() as int);
                    }
                    assert(result.key_order() =~= self.key_order().push(key@));
                }
                result
            },
        }
    }

    /// Removes `key` and its value.
    pub fn remove(self, key: &str) -> (result: Self)
        ensures
            result@ == self@.remove(key@),
    {
        proof {
            use_type_invariant(&self);
        }
        let ghost before = self@;
        let ghost old_entries = self.entries@;
        let found: Option<usize> = self.position(key);
        let mut entries: Vec<Entry<V>> = self.entries;
        match found {
            Some(index) => {
                let _removed: Entry<V> = entries.remove(index);
                proof {
                    assert forall|i: int| 0 <= i < entries@.len() implies (
                    #[trigger] entries@[i]) == old_entries[if i < index {
                        i
                    } else {
                        i + 1
                    }] by {}
                    assert forall|i: int, j: int| 0 <= i < j < entries@.len() implies (
                    #[trigger] entries@[i]).key@ != (#[trigger] entries@[j]).key@ by {
                        let a = if i < index {
                            i
                        } else {
                            i + 1
                        };
                        let b = if j < index {
                            j
                        } else {
                            j + 1
                        };
                        assert(old_entries[a].key@ != old_entries[b].key@);
                    }
                }
                let result = TextMap { entries };
                proof {
                    assert(result@ =~= before.remove(key@)) by {
                        assert forall|k: Seq<char>| k != key@ && holds(old_entries, k) implies holds(
                            entries@,
                            k,
                        ) && entries@[place(entries@, k)].value == old_entries[place(
                            old_entries,
                            k,
                        )].value by {
                            let p = place(old_entries, k);
                            let q = if p < index {
                                p
                            } else {
                                p - 1
                            };
                            assert(entries@[q].key@ == k);
                            lemma_unique_place(entries@, k, q);
                        }
                        assert forall|k: Seq<char>| holds(entries@, k) implies k != key@ && holds(
                            old_entries,
                            k,
                        ) by {
                            let q = place(entries@, k);
                            let p = if q < index {
                                q
                            } else {
                                q + 1
                            };
                            assert(old_entries[p].key@ == k);
                            if p < index {
                                assert(old_entries[p].key@ != old_entries[index as int].key@);
                            } else {
                                assert(old_entries[index as int].key@ != old_entries[p].key@);
                            }
                        }
                    }
                }
                result
            },
            None => {
                let result = TextMap { entries };
                assert(result@ =~= before.remove(key@));
                result
            },
        }
    }

    /// Returns the keys in the order of their first insertion.
    pub fn keys(&self) -> (result: Vec<String>)
        ensures
            result.deep_view() == self.key_order(),
            forall|key: Seq<char>| self@.contains_key(key) <==> self.key_order().contains(key),
            self.key_order().no_duplicates(),
    {
        proof {
            use_type_invariant(self);
        }
        let mut keys: Vec<String> = Vec::new();
        let mut index: usize = 0;
        while index < self.entries.len()
            invariant
                index <= self.entries@.len(),
                keys@.len() == index,
                forall|i: int| 0 <= i < index ==> (#[trigger] keys@[i])@ == self.entries@[i].key@,
            decreases self.entries@.len() - index,
        {
            keys.push(self.entries[index].key.clone());
            index = index + 1;
        }
        assert(keys.deep_view() =~= self.key_order());
        assert forall|i: int, j: int|
            0 <= i < self.key_order().len() && 0 <= j < self.key_order().len() && i
                != j implies self.key_order()[i] != self.key_order()[j] by {
            if i < j {
                assert(self.entries@[i].key@ != self.entries@[j].key@);
            } else {
                assert(self.entries@[j].key@ != self.entries@[i].key@);
            }
        }
        assert forall|key: Seq<char>| self@.contains_key(key) <==> self.key_order().contains(
            key,
        ) by {
            if self@.contains_key(key) {
                let p = place(self.entries@, key);
                assert(self.key_order()[p] == key);
            }
            if self.key_order().contains(key) {
                let p = choose|i: int|
                    0 <= i < self.key_order().len() && self.key_order()[i] == key;
                assert(self.entries@[p].key@ == key);
            }
        }
        keys
    }
}

impl<V: Clone> Clone for TextMap<V> {
    fn clone(&self) -> (result: Self)
        ensures
            result@.dom() == self@.dom(),
            forall|key: Seq<char>|
                self@.contains_key(key) ==> cloned::<V>(self@[key], #[trigger] result@[key]),
            result.key_order() == self.key_order(),
    {
        proof {
            use_type_invariant(self);
        }
        let mut entries: Vec<Entry<V>> = Vec::new();
        let mut index: usize = 0;
        while index < self.entries.len()
            invariant
                index <= self.entries@.len(),
                entries@.len() == index,
                forall|i: int|
                    0 <= i < index ==> (#[trigger] entries@[i]).key@ == self.entries@[i].key@
                        && cloned::<V>(self.entries@[i].value, entries@[i].value),
            decreases self.entries@.len() - index,
        {
            let entry = &self.entries[index];
            entries.push(Entry { key: entry.key.clone(), value: entry.value.clone() });
            index = index + 1;
        }
        proof {
            lemma_same_places(self.entries@, entries@);
        }
        let result = TextMap { entries };
        proof {
            assert forall|key: Seq<char>| result@.contains_key(key) == self@.contains_key(key) by {
                lemma_places(self.entries@, entries@, key);
            }
            assert(result@.dom() =~= self@.dom());
            assert forall|key: Seq<char>| self@.contains_key(key) implies cloned::<V>(
                self@[key],
                #[trigger] result@[key],
            ) by {
                lemma_places(self.entries@, entries@, key);
                let at = place(entries@, key);
                assert(entries@[at].key@ == self.entries@[at].key@);
            }
            assert(result.key_order() =~= self.key_order());
        }
        result
    }
}

proof fn lemma_unique_place<V>(entries: Seq<Entry<V>>, key: Seq<char>, at: int)
    requires
        distinct(entries),
        0 <= at < entries.len(),
        entries[at].key@ == key,
    ensures
        holds(entries, key),
        place(entries, key) == at,
{
    let found = place(entries, key);
    if found < at {
        assert(entries[found].key@ != entries[at].key@);
    }
    if at < found {
        assert(entries[at].key@ != entries[found].key@);
    }
}

proof fn lemma_same_places<V>(first: Seq<Entry<V>>, second: Seq<Entry<V>>)
    requires
        first.len() == second.len(),
        distinct(first),
        forall|i: int| 0 <= i < first.len() ==> (#[trigger] second[i]).key@ == first[i].key@,
    ensures
        distinct(second),
{
    assert forall|i: int, j: int| 0 <= i < j < second.len() implies (#[trigger] second[i]).key@
        != (#[trigger] second[j]).key@ by {
        assert(first[i].key@ != first[j].key@);
    }
}

proof fn lemma_places<V>(first: Seq<Entry<V>>, second: Seq<Entry<V>>, key: Seq<char>)
    requires
        first.len() == second.len(),
        distinct(first),
        distinct(second),
        forall|i: int| 0 <= i < first.len() ==> (#[trigger] second[i]).key@ == first[i].key@,
    ensures
        holds(first, key) == holds(second, key),
        holds(first, key) ==> place(first, key) == place(second, key),
{
    if holds(first, key) {
        let p = place(first, key);
        assert(second[p].key@ == key);
        lemma_unique_place(second, key, p);
    }
    if holds(second, key) {
        let p = place(second, key);
        assert(first[p].key@ == key);
    }
}

} // verus!
