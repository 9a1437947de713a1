//! Small collections keyed by text: a set of names and a map from names to values, each held
//! as a vector without repeated keys.
use vstd::prelude::*;

verus! {

pub open spec fn key_list<V>(entries: Seq<(String, V)>) -> Seq<Seq<char>> {
    entries.map_values(|entry: (String, V)| entry.0@)
}

pub open spec fn entry_map<V>(entries: Seq<(String, V)>) -> Map<Seq<char>, V> {
    Map::new(
        |key: Seq<char>| key_list(entries).contains(key),
        |key: Seq<char>| entries[key_list(entries).index_of(key)].1,
    )
}

proof fn lemma_entry_lookup<V>(entries: Seq<(String, V)>, i: int)
    requires
        key_list(entries).no_duplicates(),
        0 <= i < entries.len(),
    ensures
        entry_map(entries).contains_key(entries[i].0@),
        entry_map(entries)[entries[i].0@] == entries[i].1,
{
    let keys = key_list(entries);
    assert(keys[i] == entries[i].0@);
    assert(keys.contains(entries[i].0@));
    let j = keys.index_of(entries[i].0@);
    assert(keys[j] == entries[i].0@);
}

proof fn lemma_entry_absent<V>(entries: Seq<(String, V)>, key: Seq<char>)
    requires
        forall|i: int| 0 <= i < entries.len() ==> entries[i].0@ != key,
    ensures
        !entry_map(entries).contains_key(key),
{
    if key_list(entries).contains(key) {
        let j = key_list(entries).index_of(key);
        assert(entries[j].0@ == key);
    }
}

proof fn lemma_entry_push<V>(entries: Seq<(String, V)>, entry: (String, V))
    requires
        key_list(entries).no_duplicates(),
        !key_list(entries).contains(entry.0@),
    ensures
        key_list(entries.push(entry)).no_duplicates(),
        entry_map(entries.push(entry)) =~= entry_map(entries).insert(entry.0@, entry.1),
{
    let after = entries.push(entry);
    assert(key_list(after) =~= key_list(entries).push(entry.0@));
    assert forall|key: Seq<char>| #[trigger] entry_map(after).contains_key(key) implies entry_map(
        entries,
    ).insert(entry.0@, entry.1).contains_key(key) by {
        let i = key_list(after).index_of(key);
        if i < entries.len() {
            assert(key_list(entries)[i] == key);
        }
    }
    assert forall|key: Seq<char>| #[trigger] entry_map(entries).insert(entry.0@, entry.1).contains_key(key)
        implies entry_map(after).contains_key(key) && entry_map(after)[key] == entry_map(
        entries,
    ).insert(entry.0@, entry.1)[key] by {
        if key == entry.0@ {
            lemma_entry_lookup(after, entries.len() as int);
        } else {
            let i = key_list(entries).index_of(key);
            lemma_entry_lookup(entries, i);
            assert(after[i] == entries[i]);
            lemma_entry_lookup(after, i);
        }
    }
}

proof fn lemma_entry_update<V>(entries: Seq<(String, V)>, i: int, entry: (String, V))
    requires
        key_list(entries).no_duplicates(),
        0 <= i < entries.len(),
        entry.0@ == entries[i].0@,
    ensures
        key_list(entries.update(i, entry)) == key_list(entries),
        entry_map(entries.update(i, entry)) =~= entry_map(entries).insert(entry.0@, entry.1),
{
    let after = entries.update(i, entry);
    assert(key_list(after) =~= key_list(entries));
    assert forall|key: Seq<char>| #[trigger] entry_map(entries).insert(entry.0@, entry.1).contains_key(key)
        implies entry_map(after).contains_key(key) && entry_map(after)[key] == entry_map(
        entries,
    ).insert(entry.0@, entry.1)[key] by {
        if key == entry.0@ {
            lemma_entry_lookup(after, i);
        } else {
            let j = key_list(entries).index_of(key);
            lemma_entry_lookup(entries, j);
            assert(after[j] == entries[j]);
            lemma_entry_lookup(after, j);
        }
    }
}

proof fn lemma_entry_remove<V>(entries: Seq<(String, V)>, i: int)
    requires
        key_list(entries).no_duplicates(),
        0 <= i < entries.len(),
    ensures
        key_list(entries.remove(i)).no_duplicates(),
        entry_map(entries.remove(i)) =~= entry_map(entries).remove(entries[i].0@),
{
    let after = entries.remove(i);
    let removed = entries[i].0@;
    assert(key_list(after) =~= key_list(entries).remove(i));
    assert forall|a: int, b: int|
        0 <= a < key_list(after).len() && 0 <= b < key_list(after).len() && a != b
            implies key_list(after)[a] != key_list(after)[b] by {
        let a0 = if a < i { a } else { a + 1 };
        let b0 = if b < i { b } else { b + 1 };
        assert(key_list(after)[a] == key_list(entries)[a0]);
        assert(key_list(after)[b] == key_list(entries)[b0]);
    }
    assert forall|key: Seq<char>| #[trigger] entry_map(after).contains_key(key) implies key
        != removed && entry_map(entries).contains_key(key) by {
        let j = key_list(after).index_of(key);
        let j0 = if j < i { j } else { j + 1 };
        assert(key_list(entries)[j0] == key);
        assert(key_list(entries)[i] == removed);
    }
    assert forall|key: Seq<char>| #[trigger] entry_map(entries).remove(removed).contains_key(key)
        implies entry_map(after).contains_key(key) && entry_map(after)[key] == entry_map(
        entries,
    )[key] by {
        let j = key_list(entries).index_of(key);
        lemma_entry_lookup(entries, j);
        assert(j != i);
        let j1 = if j < i { j } else { j - 1 };
        assert(after[j1] == entries[j]);
        lemma_entry_lookup(after, j1);
    }
}

proof fn lemma_entry_size<V>(entries: Seq<(String, V)>)
    requires
        key_list(entries).no_duplicates(),
    ensures
        entry_map(entries).dom().finite(),
        entry_map(entries).dom().len() == entries.len(),
{
    let keys = key_list(entries);
    assert(entry_map(entries).dom() =~= keys.to_set());
    keys.unique_seq_to_set();
    vstd::seq_lib::seq_to_set_is_finite(keys);
}

fn find_key<V>(entries: &Vec<(String, V)>, key: &String) -> (index: Option<usize>)
    ensures
        match index {
            Some(i) => i < entries@.len() && entries@[i as int].0@ == key@,
            None => forall|k: int| 0 <= k < entries@.len() ==> entries@[k].0@ != key@,
        },
{
    let mut i: usize = 0;
    while i < entries.len()
        invariant
            i <= entries@.len(),
            forall|k: int| 0 <= k < i ==> entries@[k].0@ != key@,
        decreases entries@.len() - i,
    {
        if entries[i].0 == *key {
            return Some(i);
        }
        i = i + 1;
    }
    None
}

/// A map from names to values.
pub struct TextMap<V> {
    entries: Vec<(String, V)>,
}

impl<V> View for TextMap<V> {
    type V = Map<Seq<char>, V>;

    closed spec fn view(&self) -> Map<Seq<char>, V> {
        entry_map(self.entries@)
    }
}

impl<V> TextMap<V> {
    /// The names, as stored.
    pub closed spec fn stored_keys(&self) -> Seq<Seq<char>> {
        key_list(self.entries@)
    }

    #[verifier::type_invariant]
    closed spec fn keys_distinct(self) -> bool {
        key_list(self.entries@).no_duplicates()
    }

    /// The names, in stored order; each key of the map occurs once.
    pub fn keys(&self) -> (keys: Vec<String>)
        ensures
            keys@.map_values(|key: String| key@) == self.stored_keys(),
            self.stored_keys().no_duplicates(),
            self.stored_keys().to_set() == self@.dom(),
            self@.dom().finite(),
            self@.dom().len() == self.stored_keys().len(),
    {
        proof {
            use_type_invariant(self);
            lemma_entry_size(self.entries@);
            assert(self.stored_keys().to_set() =~= self@.dom());
        }
        let mut keys: Vec<String> = Vec::new();
        let mut i: usize = 0;
        while i < self.entries.len()
            invariant
                i <= self.entries@.len(),
                keys@.len() == i,
                forall|k: int| 0 <= k < i ==> #[trigger] keys@[k]@ == self.entries@[k].0@,
            decreases self.entries@.len() - i,
        {
            keys.push(self.entries[i].0.clone());
            i = i + 1;
        }
        assert(keys@.map_values(|key: String| key@) =~= self.stored_keys());
        keys
    }

    pub fn new() -> (map: Self)
        ensures
            map@ == Map::<Seq<char>, V>::empty(),
            map.stored_keys() == Seq::<Seq<char>>::empty(),
    {
        let map = TextMap { entries: Vec::new() };
        assert(map@ =~= Map::<Seq<char>, V>::empty());
        assert(map.stored_keys() =~= Seq::<Seq<char>>::empty());
        map
    }

    fn position(&self, key: &str) -> (index: Option<usize>)
        ensures
            match index {
                Some(i) => i < self.entries@.len() && self.entries@[i as int].0@ == key@
                    && self@.contains_key(key@) && self@[key@] == self.entries@[i as int].1,
                None => !self@.contains_key(key@),
            },
    {
        proof {
            use_type_invariant(self);
        }
        let wanted = key.to_owned();
        let mut i: usize = 0;
        while i < self.entries.len()
            invariant
                key_list(self.entries@).no_duplicates(),
                wanted@ == key@,
                i <= self.entries@.len(),
                forall|k: int| 0 <= k < i ==> self.entries@[k].0@ != key@,
            decreases self.entries@.len() - i,
        {
            if self.entries[i].0 == wanted {
                proof {
                    lemma_entry_lookup(self.entries@, i as int);
                }
                return Some(i);
            }
            i = i + 1;
        }
        proof {
            lemma_entry_absent(self.entries@, key@);
        }
        None
    }

    pub fn contains_key(&self, key: &str) -> (found: bool)
        ensures
            found == self@.contains_key(key@),
    {
        self.position(key).is_some()
    }

    pub fn get(&self, key: &str) -> (value: Option<&V>)
        ensures
            match value {
                Some(v) => self@.contains_key(key@) && self@[key@] == *v,
                None => !self@.contains_key(key@),
            },
    {
        match self.position(key) {
            Some(i) => Some(&self.entries[i].1),
            None => None,
        }
    }

    /// Number of entries.
    pub fn len(&self) -> (count: usize)
        ensures
            count == self@.dom().len(),
    {
        proof {
            use_type_invariant(self);
            lemma_entry_size(self.entries@);
        }
        self.entries.len()
    }

    /// The name stored at `index`.
    pub fn key_at(&self, index: usize) -> (key: &String)
        requires
            index < self.stored_keys().len(),
        ensures
            key@ == self.stored_keys()[index as int],
    {
        &self.entries[index].0
    }

    /// The value stored at `index`.
    pub fn value_at(&self, index: usize) -> (value: &V)
        requires
            index < self.stored_keys().len(),
        ensures
            self@.contains_key(self.stored_keys()[index as int]),
            self@[self.stored_keys()[index as int]] == *value,
    {
        proof {
            use_type_invariant(self);
            lemma_entry_lookup(self.entries@, index as int);
        }
        &self.entries[index].1
    }

    /// Set the value of `key`, adding the key if it is new.
    pub fn insert(&mut self, key: String, value: V)
        ensures
            final(self)@ == old(self)@.insert(key@, value),
    {
        proof {
            use_type_invariant(&*self);
        }
        let mut entries = Vec::new();
        std::mem::swap(&mut entries, &mut self.entries);
        let ghost before = entries@;
        let found = find_key(&entries, &key);
        match found {
            Some(index) => {
                proof {
                    lemma_entry_update(before, index as int, (key, value));
                }
                entries.set(index, (key, value));
            },
            None => {
                proof {
                    assert(!key_list(before).contains(key@)) by {
                        if key_list(before).contains(key@) {
                            let j = key_list(before).index_of(key@);
                            assert(key_list(before)[j] == before[j].0@);
                        }
                    }
                    lemma_entry_push(before, (key, value));
                }
                entries.push((key, value));
            },
        }
        self.entries = entries;
    }

    /// Remove `key`, handing back its value.
    pub fn take(&mut self, key: &str) -> (value: Option<V>)
        ensures
            final(self)@ == old(self)@.remove(key@),
            match value {
                Some(v) => old(self)@.contains_key(key@) && old(self)@[key@] == v,
                None => !old(self)@.contains_key(key@),
            },
    {
        match self.position(key) {
            Some(i) => {
                proof {
                    use_type_invariant(&*self);
                    lemma_entry_remove(self.entries@, i as int);
                }
                let mut entries = Vec::new();
                std::mem::swap(&mut entries, &mut self.entries);
                let (_, value) = entries.remove(i);
                self.entries = entries;
                Some(value)
            },
            None => {
                assert(self@.remove(key@) =~= self@);
                None
            },
        }
    }

    /// Drop `key` and its value.
    pub fn remove(&mut self, key: &str)
        ensures
            final(self)@ == old(self)@.remove(key@),
    {
        match self.position(key) {
            Some(i) => {
                proof {
                    use_type_invariant(&*self);
                    lemma_entry_remove(self.entries@, i as int);
                }
                let mut entries = Vec::new();
                std::mem::swap(&mut entries, &mut self.entries);
                entries.remove(i);
                self.entries = entries;
            },
            None => {
                assert(self@.remove(key@) =~= self@);
            },
        }
    }
}

/// A set of names.
pub struct TextSet {
    map: TextMap<()>,
}

impl View for TextSet {
    type V = Set<Seq<char>>;

    closed spec fn view(&self) -> Set<Seq<char>> {
        self.map@.dom()
    }
}

impl TextSet {
    pub fn new() -> (set: Self)
        ensures
            set@ == Set::<Seq<char>>::empty(),
    {
        let set = TextSet { map: TextMap::new() };
        assert(set@ =~= Set::<Seq<char>>::empty());
        set
    }

    pub fn contains(&self, name: &str) -> (found: bool)
        ensures
            found == self@.contains(name@),
    {
        self.map.contains_key(name)
    }

    pub fn insert(&mut self, name: String)
        ensures
            final(self)@ == old(self)@.insert(name@),
    {
        self.map.insert(name, ());
        assert(self@ =~= old(self)@.insert(name@));
    }

    pub fn remove(&mut self, name: &str)
        ensures
            final(self)@ == old(self)@.remove(name@),
    {
        self.map.remove(name);
        assert(self@ =~= old(self)@.remove(name@));
    }

    pub fn clear(&mut self)
        ensures
            final(self)@ == Set::<Seq<char>>::empty(),
    {
        self.map = TextMap::new();
        assert(self@ =~= Set::<Seq<char>>::empty());
    }

    pub fn len(&self) -> (count: usize)
        ensures
            count == self@.len(),
    {
        self.map.len()
    }
}

} // verus!
