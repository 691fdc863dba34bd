use vstd::prelude::*;

verus! {

/// A map from file paths to values, kept as a list of entries in which no
/// path occurs twice.
pub struct PathMap<V> {
    entries: Vec<(String, V)>,
}

/// Whether no key occurs twice in `s`.
pub open spec fn keys_unique<V>(s: Seq<(String, V)>) -> bool {
    forall|i: int, j: int| 0 <= i < s.len() && 0 <= j < s.len() && i != j ==> s[i].0@ != s[j].0@
}

/// Whether some entry of `s` has the key `k`.
pub open spec fn has_key<V>(s: Seq<(String, V)>, k: Seq<char>) -> bool {
    exists|i: int| 0 <= i < s.len() && s[i].0@ == k
}

/// The map that a list of entries denotes: each key to the value of an entry with that key.
pub open spec fn entries_map<V>(s: Seq<(String, V)>) -> Map<Seq<char>, V> {
    Map::new(
        |k: Seq<char>| has_key(s, k),
        |k: Seq<char>| s[choose|i: int| 0 <= i < s.len() && s[i].0@ == k].1,
    )
}

/// In a list without repeated keys, the map gives each entry's key that entry's value.
pub proof fn lemma_entries_map_index<V>(s: Seq<(String, V)>, i: int)
    requires
        keys_unique(s),
        0 <= i < s.len(),
    ensures
        entries_map(s).contains_key(s[i].0@),
        entries_map(s)[s[i].0@] == s[i].1,
{
    let k = s[i].0@;
    assert(has_key(s, k));
    let j = choose|j: int| 0 <= j < s.len() && s[j].0@ == k;
    assert(j == i);
}

/// The position of the entry for `key` in `entries`, if there is one.
fn position<V>(entries: &Vec<(String, V)>, key: &String) -> (r: Option<usize>)
    ensures
        match r {
            Some(i) => i < entries@.len() && entries@[i as int].0@ == key@,
            None => !has_key(entries@, key@),
        },
{
    let mut i: usize = 0;
    while i < entries.len()
        invariant
            i <= entries@.len(),
            forall|j: int| 0 <= j < i ==> entries@[j].0@ != key@,
        decreases entries@.len() - i,
    {
        if entries[i].0 == *key {
            return Some(i);
        }
        i = i + 1;
    }
    None
}

impl<V> View for PathMap<V> {
    type V = Map<Seq<char>, V>;

    closed spec fn view(&self) -> Map<Seq<char>, V> {
        entries_map(self.entries@)
    }
}

impl<V> PathMap<V> {
    /// The entries, in the order in which their keys were first inserted.
    pub closed spec fn entries(&self) -> Seq<(String, V)> {
        self.entries@
    }

    /// No key occurs twice among the entries.
    #[verifier::type_invariant]
    spec fn keys_are_unique(&self) -> bool {
        keys_unique(self.entries@)
    }

    /// An empty map.
    pub fn new() -> (r: Self)
        ensures
            r@ == Map::<Seq<char>, V>::empty(),
            r.entries().len() == 0,
    {
        let r = PathMap { entries: Vec::new() };
        assert(r@ =~= Map::<Seq<char>, V>::empty());
        r
    }

    /// The number of paths in the map.
    /// The view is then the map that the entries denote, in which each entry's
    /// path has that entry's value.
    pub fn len(&self) -> (n: usize)
        ensures
            n == self.entries().len(),
            self@ == entries_map(self.entries()),
            keys_unique(self.entries()),
            forall|i: int|
                0 <= i < self.entries().len() ==> self@.contains_key(#[trigger] self.entries()[i].0@)
                    && self@[self.entries()[i].0@] == self.entries()[i].1,
            forall|k: Seq<char>|
                #[trigger] self@.contains_key(k) ==> exists|i: int|
                    0 <= i < self.entries().len() && self.entries()[i].0@ == k,
    {
        proof {
            use_type_invariant(self);
            assert forall|i: int| 0 <= i < self.entries().len() implies self@.contains_key(
                #[trigger] self.entries()[i].0@,
            ) && self@[self.entries()[i].0@] == self.entries()[i].1 by {
                lemma_entries_map_index(self.entries@, i);
            }
        }
        self.entries.len()
    }

    /// The value for `key`, if the map has one.
    pub fn get(&self, key: &String) -> (r: Option<&V>)
        ensures
            match r {
                Some(v) => self@.contains_key(key@) && *v == self@[key@],
                None => !self@.contains_key(key@),
            },
    {
        proof {
            use_type_invariant(self);
        }
        match position(&self.entries, key) {
            Some(i) => {
                proof {
                    lemma_entries_map_index(self.entries@, i as int);
                }
                Some(&self.entries[i].1)
            },
            None => None,
        }
    }

    /// Sets the value for `key`, replacing any value it had.
    pub fn insert(&mut self, key: String, value: V)
        ensures
            final(self)@ == old(self)@.insert(key@, value),
    {
        proof {
            use_type_invariant(&*self);
        }
        let ghost k = key@;
        let ghost old_entries = self.entries@;
        let mut entries: Vec<(String, V)> = Vec::new();
        std::mem::swap(&mut entries, &mut self.entries);
        match position(&entries, &key) {
            Some(i) => {
                entries.set(i, (key, value));
                proof {
                    let s = entries@;
                    assert(keys_unique(s));
                    lemma_entries_map_index(s, i as int);
                    assert forall|k2: Seq<char>| k2 != k implies #[trigger] has_key(s, k2) == has_key(old_entries, k2)
                        && (has_key(s, k2) ==> entries_map(s)[k2] == entries_map(old_entries)[k2]) by {
                        if has_key(old_entries, k2) {
                            let j = choose|j: int| 0 <= j < old_entries.len() && old_entries[j].0@ == k2;
                            assert(s[j].0@ == k2);
                            lemma_entries_map_index(s, j);
                            lemma_entries_map_index(old_entries, j);
                        }
                        if has_key(s, k2) {
                            let j = choose|j: int| 0 <= j < s.len() && s[j].0@ == k2;
                            assert(old_entries[j].0@ == k2);
                        }
                    }
                    assert(entries_map(s) =~= entries_map(old_entries).insert(k, value));
                }
            },
            None => {
                entries.push((key, value));
                proof {
                    let s = entries@;
                    assert(keys_unique(s));
                    lemma_entries_map_index(s, old_entries.len() as int);
                    assert forall|k2: Seq<char>| k2 != k implies #[trigger] has_key(s, k2) == has_key(old_entries, k2)
                        && (has_key(s, k2) ==> entries_map(s)[k2] == entries_map(old_entries)[k2]) by {
                        if has_key(old_entries, k2) {
                            let j = choose|j: int| 0 <= j < old_entries.len() && old_entries[j].0@ == k2;
                            assert(s[j].0@ == k2);
                            lemma_entries_map_index(s, j);
                            lemma_entries_map_index(old_entries, j);
                        }
                        if has_key(s, k2) {
                            let j = choose|j: int| 0 <= j < s.len() && s[j].0@ == k2;
                            assert(old_entries[j].0@ == k2);
                        }
                    }
                    assert(entries_map(s) =~= entries_map(old_entries).insert(k, value));
                }
            },
        }
        self.entries = entries;
    }

    /// The entry at position `i`: a path and its value.
    pub fn entry(&self, i: usize) -> (r: (&String, &V))
        requires
            i < self.entries().len(),
        ensures
            *r.0 == self.entries()[i as int].0,
            *r.1 == self.entries()[i as int].1,
            self@.contains_key(r.0@),
            self@[r.0@] == *r.1,
    {
        proof {
            use_type_invariant(self);
            lemma_entries_map_index(self.entries@, i as int);
        }
        (&self.entries[i].0, &self.entries[i].1)
    }
}

} // verus!
