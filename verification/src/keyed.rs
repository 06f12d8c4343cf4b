//! A table of values under natural keys. A key is a tuple of texts, such as
//! the symbol and the network of a currency; the table holds at most one
//! value for each key.

use vstd::prelude::*;

verus! {

/// One key with its value.
pub struct Entry<V> {
    pub key: Vec<String>,
    pub value: V,
}

/// A table with at most one entry for each key.
pub struct KeyedTable<V> {
    entries: Vec<Entry<V>>,
}

/// The texts that make up a key.
pub open spec fn key_text(key: Vec<String>) -> Seq<Seq<char>> {
    key@.map_values(|part: String| part@)
}

/// Whether no two entries share a key.
pub open spec fn distinct_keys<V>(entries: Seq<Entry<V>>) -> bool {
    forall|i: int, j: int|
        0 <= i < entries.len() && 0 <= j < entries.len() && key_text(#[trigger] entries[i].key)
            == key_text(#[trigger] entries[j].key) ==> i == j
}

/// Whether some entry has the key `key`.
pub open spec fn has_key<V>(entries: Seq<Entry<V>>, key: Seq<Seq<char>>) -> bool {
    exists|i: int| 0 <= i < entries.len() && key_text(#[trigger] entries[i].key) == key
}

/// The index of an entry with the key `key`.
pub open spec fn index_of_key<V>(entries: Seq<Entry<V>>, key: Seq<Seq<char>>) -> int {
    choose|i: int| 0 <= i < entries.len() && key_text(#[trigger] entries[i].key) == key
}

/// The entries as a map from key to value.
pub open spec fn entries_map<V>(entries: Seq<Entry<V>>) -> Map<Seq<Seq<char>>, V> {
    Map::new(
        |key: Seq<Seq<char>>| has_key(entries, key),
        |key: Seq<Seq<char>>| entries[index_of_key(entries, key)].value,
    )
}

/// Whether two keys are made up of the same texts.
pub fn same_key(a: &Vec<String>, b: &Vec<String>) -> (same: bool)
    ensures
        same == (key_text(*a) == key_text(*b)),
{
    if a.len() != b.len() {
        assert(key_text(*a).len() != key_text(*b).len());
        return false;
    }
    let mut i: usize = 0;
    while i < a.len()
        invariant
            i <= a@.len(),
            a@.len() == b@.len(),
            forall|j: int| 0 <= j < i ==> (#[trigger] a@[j])@ == b@[j]@,
        decreases a@.len() - i,
    {
        if a[i] != b[i] {
            assert(key_text(*a)[i as int] == a@[i as int]@);
            assert(key_text(*b)[i as int] == b@[i as int]@);
            return false;
        }
        i += 1;
    }
    assert(key_text(*a) =~= key_text(*b));
    true
}

proof fn lemma_entry_in_map<V>(entries: Seq<Entry<V>>, i: int)
    requires
        distinct_keys(entries),
        0 <= i < entries.len(),
    ensures
        entries_map(entries).contains_key(key_text(entries[i].key)),
        entries_map(entries)[key_text(entries[i].key)] == entries[i].value,
        index_of_key(entries, key_text(entries[i].key)) == i,
{
    let key = key_text(entries[i].key);
    assert(has_key(entries, key));
    let j = index_of_key(entries, key);
    assert(0 <= j < entries.len() && key_text(entries[j].key) == key);
}

proof fn lemma_update_is_insert<V>(entries: Seq<Entry<V>>, i: int, entry: Entry<V>)
    requires
        distinct_keys(entries),
        0 <= i < entries.len(),
        key_text(entry.key) == key_text(entries[i].key),
    ensures
        distinct_keys(entries.update(i, entry)),
        entries_map(entries.update(i, entry)) == entries_map(entries).insert(
            key_text(entry.key),
            entry.value,
        ),
{
    let after = entries.update(i, entry);
    assert forall|a: int, b: int|
        0 <= a < after.len() && 0 <= b < after.len() && key_text(#[trigger] after[a].key)
            == key_text(#[trigger] after[b].key) implies a == b by {
        assert(key_text(after[a].key) == key_text(entries[a].key));
        assert(key_text(after[b].key) == key_text(entries[b].key));
    }
    let want = entries_map(entries).insert(key_text(entry.key), entry.value);
    assert forall|key: Seq<Seq<char>>| entries_map(after).contains_key(key) implies #[trigger]
        want.contains_key(key) by {
        let j = index_of_key(after, key);
        assert(key_text(entries[j].key) == key);
    }
    assert forall|key: Seq<Seq<char>>| want.contains_key(key) implies #[trigger] entries_map(
        after,
    ).contains_key(key) by {
        if key == key_text(entry.key) {
            assert(key_text(after[i].key) == key);
        } else {
            let j = index_of_key(entries, key);
            assert(key_text(after[j].key) == key);
        }
    }
    assert forall|key: Seq<Seq<char>>| entries_map(after).contains_key(key) implies #[trigger]
        entries_map(after)[key] == want[key] by {
        let j = index_of_key(after, key);
        lemma_entry_in_map(after, j);
        if j != i {
            assert(key_text(entries[j].key) == key);
            lemma_entry_in_map(entries, j);
        }
    }
    assert(entries_map(after) =~= want);
}

proof fn lemma_push_is_insert<V>(entries: Seq<Entry<V>>, entry: Entry<V>)
    requires
        distinct_keys(entries),
        !has_key(entries, key_text(entry.key)),
    ensures
        distinct_keys(entries.push(entry)),
        entries_map(entries.push(entry)) == entries_map(entries).insert(
            key_text(entry.key),
            entry.value,
        ),
{
    let after = entries.push(entry);
    let last = entries.len() as int;
    assert forall|a: int, b: int|
        0 <= a < after.len() && 0 <= b < after.len() && key_text(#[trigger] after[a].key)
            == key_text(#[trigger] after[b].key) implies a == b by {
        if a < last {
            assert(key_text(entries[a].key) == key_text(after[a].key));
        }
        if b < last {
            assert(key_text(entries[b].key) == key_text(after[b].key));
        }
    }
    let want = entries_map(entries).insert(key_text(entry.key), entry.value);
    assert forall|key: Seq<Seq<char>>| entries_map(after).contains_key(key) implies #[trigger]
        want.contains_key(key) by {
        let j = index_of_key(after, key);
        if j < last {
            assert(key_text(entries[j].key) == key);
        }
    }
    assert forall|key: Seq<Seq<char>>| want.contains_key(key) implies #[trigger] entries_map(
        after,
    ).contains_key(key) by {
        if key == key_text(entry.key) {
            assert(key_text(after[last].key) == key);
        } else {
            let j = index_of_key(entries, key);
            assert(key_text(after[j].key) == key);
        }
    }
    assert forall|key: Seq<Seq<char>>| entries_map(after).contains_key(key) implies #[trigger]
        entries_map(after)[key] == want[key] by {
        let j = index_of_key(after, key);
        lemma_entry_in_map(after, j);
        if j < last {
            assert(key_text(entries[j].key) == key);
            lemma_entry_in_map(entries, j);
        }
    }
    assert(entries_map(after) =~= want);
}

impl<V> KeyedTable<V> {
    /// The entries in the order in which their keys were first put.
    pub closed spec fn entries(&self) -> Seq<Entry<V>> {
        self.entries@
    }

    /// The invariant of the table: no two entries share a key.
    pub open spec fn wf(&self) -> bool {
        distinct_keys(self.entries())
    }

    /// The table as a map from key to value.
    pub open spec fn view(&self) -> Map<Seq<Seq<char>>, V> {
        entries_map(self.entries())
    }

    /// An empty table.
    pub fn new() -> (table: KeyedTable<V>)
        ensures
            table.wf(),
            table.entries().len() == 0,
            table@ == Map::<Seq<Seq<char>>, V>::empty(),
    {
        let table = KeyedTable { entries: Vec::new() };
        assert(table@ =~= Map::<Seq<Seq<char>>, V>::empty());
        table
    }

    /// The number of entries.
    pub fn len(&self) -> (n: usize)
        ensures
            n == self.entries().len(),
    {
        self.entries.len()
    }

    /// The entry at index `i`.
    pub fn nth(&self, i: usize) -> (entry: &Entry<V>)
        requires
            i < self.entries().len(),
        ensures
            *entry == self.entries()[i as int],
    {
        &self.entries[i]
    }

    fn position(&self, key: &Vec<String>) -> (found: Option<usize>)
        ensures
            match found {
                Some(i) => i < self.entries@.len() && key_text(self.entries@[i as int].key)
                    == key_text(*key),
                None => !has_key(self.entries@, key_text(*key)),
            },
    {
        let mut i: usize = 0;
        while i < self.entries.len()
            invariant
                i <= self.entries@.len(),
                forall|j: int|
                    0 <= j < i ==> key_text(#[trigger] self.entries@[j].key) != key_text(*key),
            decreases self.entries@.len() - i,
        {
            if same_key(&self.entries[i].key, key) {
                return Some(i);
            }
            i += 1;
        }
        None
    }

    /// The value under `key`, if the table has one.
    pub fn get(&self, key: &Vec<String>) -> (found: Option<&V>)
        requires
            self.wf(),
        ensures
            found is Some <==> self@.contains_key(key_text(*key)),
            found is Some ==> *found->Some_0 == self@[key_text(*key)],
    {
        match self.position(key) {
            Some(i) => {
                proof {
                    lemma_entry_in_map(self.entries@, i as int);
                }
                Some(&self.entries[i].value)
            },
            None => None,
        }
    }

    /// Puts `value` under `key`, in place of the value that is there or as
    /// a new entry.
    pub fn put(&mut self, key: Vec<String>, value: V)
        requires
            old(self).wf(),
        ensures
            final(self).wf(),
            final(self)@ == old(self)@.insert(key_text(key), value),
            final(self).entries().len() == if old(self)@.contains_key(key_text(key)) {
                old(self).entries().len()
            } else {
                old(self).entries().len() + 1
            },
    {
        let found = self.position(&key);
        let entry = Entry { key, value };
        match found {
            Some(i) => {
                proof {
                    lemma_entry_in_map(self.entries@, i as int);
                    lemma_update_is_insert(self.entries@, i as int, entry);
                }
                self.entries.set(i, entry);
            },
            None => {
                proof {
                    lemma_push_is_insert(self.entries@, entry);
                }
                self.entries.push(entry);
            },
        }
    }
}

/// Every entry of a table is what the table holds under the entry's key,
/// and every key of the table is the key of one of its entries.
pub proof fn lemma_entries_are_the_table<V>(table: &KeyedTable<V>)
    requires
        table.wf(),
    ensures
        forall|i: int|
            0 <= i < table.entries().len() ==> table@.contains_key(
                key_text(#[trigger] table.entries()[i].key),
            ) && table@[key_text(table.entries()[i].key)] == table.entries()[i].value,
        forall|key: Seq<Seq<char>>| #[trigger]
            table@.contains_key(key) ==> has_key(table.entries(), key),
{
    assert forall|i: int| 0 <= i < table.entries().len() implies table@.contains_key(
        key_text(#[trigger] table.entries()[i].key),
    ) && table@[key_text(table.entries()[i].key)] == table.entries()[i].value by {
        lemma_entry_in_map(table.entries(), i);
    }
}

} // verus!
