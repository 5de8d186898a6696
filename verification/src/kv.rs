//! The key/value persistence interface the engine stores its records in,
//! and a verified in-memory table. Each table is a map from string keys to
//! values; `get`, `put` and `delete` are specified against that map, so the
//! flows built on top of them are verified against exact store semantics.

use vstd::prelude::*;

verus! {

/// A table of the credential store: a map from string keys to values with
/// get/put/delete semantics.
pub trait KVTable<V>: Sized {
    /// The table as the map it represents.
    spec fn table_view(&self) -> Map<Seq<char>, V>;

    /// Whether the representation is well formed.
    spec fn table_inv(&self) -> bool;

    /// Looks a key up.
    fn get(&self, key: &str) -> (r: Option<&V>)
        requires
            self.table_inv(),
        ensures
            match r {
                Some(v) => self.table_view().contains_key(key@) && *v == self.table_view()[key@],
                None => !self.table_view().contains_key(key@),
            },
    ;

    /// Stores a value under a key, replacing any previous value.
    fn put(&mut self, key: &str, value: V)
        requires
            old(self).table_inv(),
        ensures
            final(self).table_inv(),
            final(self).table_view() == old(self).table_view().insert(key@, value),
    ;

    /// Removes a key, if present.
    fn delete(&mut self, key: &str)
        requires
            old(self).table_inv(),
        ensures
            final(self).table_inv(),
            final(self).table_view() == old(self).table_view().remove(key@),
    ;
}

/// A whole credential store: named tables opened on demand. Backends — a
/// folder of files, a database, the in-memory table — implement this at the
/// I/O edge; the engine never inspects which one it got.
pub trait KVDatabase {
    /// The table type this backend hands out.
    type Table;

    /// A short name identifying the backend.
    fn backend_name(&self) -> &'static str;

    /// Opens the table with this name, creating it if needed.
    fn open(&mut self, name: &str) -> Self::Table;
}

/// The map represented by a list of key/value entries; later entries win.
pub open spec fn map_of<V>(entries: Seq<(String, V)>) -> Map<Seq<char>, V>
    decreases entries.len(),
{
    if entries.len() == 0 {
        Map::<Seq<char>, V>::empty()
    } else {
        map_of(entries.drop_last()).insert(entries.last().0@, entries.last().1)
    }
}

/// Entry keys are pairwise distinct.
pub open spec fn keys_unique<V>(entries: Seq<(String, V)>) -> bool {
    forall|i: int, j: int|
        0 <= i < j < entries.len() ==> entries[i].0@ != entries[j].0@
}

proof fn lemma_map_of_found<V>(entries: Seq<(String, V)>, i: int)
    requires
        keys_unique(entries),
        0 <= i < entries.len(),
    ensures
        map_of(entries).contains_key(entries[i].0@),
        map_of(entries)[entries[i].0@] == entries[i].1,
    decreases entries.len(),
{
    if i == entries.len() - 1 {
    } else {
        assert(keys_unique(entries.drop_last())) by {
            assert(forall|a: int, b: int|
                0 <= a < b < entries.drop_last().len() ==> entries.drop_last()[a]
                    == entries[a] && entries.drop_last()[b] == entries[b]);
        }
        lemma_map_of_found(entries.drop_last(), i);
        assert(entries.last().0@ != entries[i].0@);
    }
}

proof fn lemma_map_of_absent<V>(entries: Seq<(String, V)>, key: Seq<char>)
    requires
        forall|i: int| 0 <= i < entries.len() ==> entries[i].0@ != key,
    ensures
        !map_of(entries).contains_key(key),
    decreases entries.len(),
{
    if entries.len() > 0 {
        assert(forall|i: int|
            0 <= i < entries.drop_last().len() ==> entries.drop_last()[i] == entries[i]);
        lemma_map_of_absent(entries.drop_last(), key);
    }
}

/// The entry list with every entry under this key dropped.
pub open spec fn entries_without<V>(entries: Seq<(String, V)>, key: Seq<char>) -> Seq<(String, V)>
    decreases entries.len(),
{
    if entries.len() == 0 {
        Seq::<(String, V)>::empty()
    } else {
        let rest = entries_without(entries.drop_last(), key);
        if entries.last().0@ == key {
            rest
        } else {
            rest.push(entries.last())
        }
    }
}

proof fn lemma_entries_without_sub<V>(entries: Seq<(String, V)>, key: Seq<char>)
    ensures
        forall|i: int|
            0 <= i < entries_without(entries, key).len() ==> exists|j: int|
                0 <= j < entries.len() && #[trigger] entries_without(entries, key)[i]
                    == entries[j],
    decreases entries.len(),
{
    if entries.len() > 0 {
        lemma_entries_without_sub(entries.drop_last(), key);
        let rest = entries_without(entries.drop_last(), key);
        assert(forall|i: int|
            0 <= i < rest.len() ==> exists|j: int|
                0 <= j < entries.drop_last().len() && #[trigger] rest[i]
                    == entries.drop_last()[j]);
        assert(forall|j: int|
            0 <= j < entries.drop_last().len() ==> entries.drop_last()[j] == entries[j]);
        if entries.last().0@ != key {
            assert(entries_without(entries, key).last() == entries[entries.len() - 1]);
        }
    }
}

proof fn lemma_map_of_without<V>(entries: Seq<(String, V)>, key: Seq<char>)
    requires
        keys_unique(entries),
    ensures
        keys_unique(entries_without(entries, key)),
        map_of(entries_without(entries, key)) == map_of(entries).remove(key),
        forall|i: int|
            0 <= i < entries_without(entries, key).len() ==> #[trigger] entries_without(
                entries,
                key,
            )[i].0@ != key,
    decreases entries.len(),
{
    if entries.len() == 0 {
        assert(map_of(entries_without(entries, key)) =~= map_of(entries).remove(key));
    } else {
        let dl = entries.drop_last();
        assert(keys_unique(dl)) by {
            assert(forall|a: int, b: int|
                0 <= a < b < dl.len() ==> dl[a] == entries[a] && dl[b] == entries[b]);
        }
        lemma_map_of_without(dl, key);
        lemma_entries_without_sub(dl, key);
        let rest = entries_without(dl, key);
        if entries.last().0@ == key {
            assert(map_of(entries) == map_of(dl).insert(key, entries.last().1));
            assert(map_of(entries).remove(key) =~= map_of(dl).remove(key));
        } else {
            let last = entries.last();
            // the rebuilt list keeps unique keys: its entries all come from
            // the prefix, whose keys differ from the last entry's key
            assert(forall|i: int| 0 <= i < rest.len() ==> #[trigger] rest[i].0@ != last.0@)
                by {
                assert(forall|j: int| 0 <= j < dl.len() ==> entries[j] == dl[j]);
                assert(forall|j: int| 0 <= j < dl.len() ==> #[trigger] dl[j].0@ != last.0@);
            }
            let built = rest.push(last);
            assert(keys_unique(built)) by {
                assert(forall|a: int, b: int|
                    0 <= a < b < built.len() && b < rest.len() ==> built[a] == rest[a]
                        && built[b] == rest[b]);
            }
            assert(map_of(built) == map_of(rest).insert(last.0@, last.1)) by {
                assert(built.drop_last() =~= rest);
            }
            assert(map_of(dl).remove(key).insert(last.0@, last.1) =~= map_of(dl).insert(
                last.0@,
                last.1,
            ).remove(key));
        }
    }
}

/// An in-memory table: the engine's own backend for tests and for flows that
/// keep everything in process.
pub struct MemoryTable<V> {
    entries: Vec<(String, V)>,
}

impl<V> MemoryTable<V> {
    /// Creates an empty table.
    pub fn new() -> (r: Self)
        ensures
            r.wf(),
            r@ == Map::<Seq<char>, V>::empty(),
    {
        MemoryTable { entries: Vec::new() }
    }

    /// Whether the representation is well formed: no key occurs twice.
    pub closed spec fn wf(&self) -> bool {
        keys_unique(self.entries@)
    }

    /// How many keys the table holds.
    pub fn entry_count(&self) -> (r: usize)
        ensures
            r == self.entries_view().len(),
    {
        self.entries.len()
    }

    /// The raw entry list, for walking the table.
    pub closed spec fn entries_view(&self) -> Seq<(String, V)> {
        self.entries@
    }

    /// One entry of the table, for walking it.
    pub fn nth(&self, i: usize) -> (r: &(String, V))
        requires
            i < self.entries_view().len(),
        ensures
            *r == self.entries_view()[i as int],
    {
        &self.entries[i]
    }

    /// Every entry's key maps to its value.
    pub proof fn lemma_entry_in_map(&self, i: int)
        requires
            self.wf(),
            0 <= i < self.entries_view().len(),
        ensures
            self@.contains_key(self.entries_view()[i].0@),
            self@[self.entries_view()[i].0@] == self.entries_view()[i].1,
    {
        lemma_map_of_found(self.entries@, i);
    }

    /// Every key of the map is carried by some entry.
    pub proof fn lemma_key_has_entry(&self, k: Seq<char>)
        requires
            self@.contains_key(k),
        ensures
            exists|i: int|
                0 <= i < self.entries_view().len() && #[trigger] self.entries_view()[i].0@ == k
                    && self.entries_view()[i].1 == self@[k],
    {
        lemma_map_contains_entry(self.entries@, k);
        let i = choose|i: int|
            0 <= i < self.entries@.len() && #[trigger] self.entries@[i].0@ == k
                && self.entries@[i].1 == map_of(self.entries@)[k];
        assert(self.entries_view()[i].0@ == k);
    }
}

proof fn lemma_map_contains_entry<V>(entries: Seq<(String, V)>, k: Seq<char>)
    requires
        map_of(entries).contains_key(k),
    ensures
        exists|i: int|
            0 <= i < entries.len() && #[trigger] entries[i].0@ == k && entries[i].1 == map_of(
                entries,
            )[k],
    decreases entries.len(),
{
    if entries.last().0@ == k {
        assert(entries[entries.len() - 1].0@ == k);
    } else {
        lemma_map_contains_entry(entries.drop_last(), k);
        let i = choose|i: int|
            0 <= i < entries.drop_last().len() && #[trigger] entries.drop_last()[i].0@ == k
                && entries.drop_last()[i].1 == map_of(entries.drop_last())[k];
        assert(entries[i].0@ == k);
    }
}

impl<V> View for MemoryTable<V> {
    type V = Map<Seq<char>, V>;

    closed spec fn view(&self) -> Map<Seq<char>, V> {
        map_of(self.entries@)
    }
}

impl<V> KVTable<V> for MemoryTable<V> {
    open spec fn table_view(&self) -> Map<Seq<char>, V> {
        self.view()
    }

    open spec fn table_inv(&self) -> bool {
        self.wf()
    }

    fn get(&self, key: &str) -> (r: Option<&V>) {
        let mut i: usize = 0;
        while i < self.entries.len()
            invariant
                i <= self.entries@.len(),
                keys_unique(self.entries@),
                forall|j: int| 0 <= j < i ==> self.entries@[j].0@ != key@,
            decreases self.entries@.len() - i,
        {
            if crate::strutil::str_equal(self.entries[i].0.as_str(), key) {
                proof {
                    lemma_map_of_found(self.entries@, i as int);
                }
                return Some(&self.entries[i].1);
            }
            i += 1;
        }
        proof {
            lemma_map_of_absent(self.entries@, key@);
        }
        None
    }

    fn put(&mut self, key: &str, value: V) {
        self.delete(key);
        let ghost removed = self.entries@;
        self.entries.push((key.to_owned(), value));
        proof {
            assert(self.entries@.drop_last() =~= removed);
            assert(keys_unique(self.entries@)) by {
                assert(forall|a: int, b: int|
                    0 <= a < b < self.entries@.len() && b < removed.len()
                        ==> self.entries@[a] == removed[a] && self.entries@[b] == removed[b]);
                assert forall|a: int| 0 <= a < removed.len() implies #[trigger] removed[a].0@
                    != key@ by {
                    if removed[a].0@ == key@ {
                        lemma_map_of_found(removed, a);
                    }
                }
            }
            assert(map_of(self.entries@) =~= map_of(removed).insert(key@, value));
            assert(map_of(removed).insert(key@, value) =~= old(self).table_view().insert(
                key@,
                value,
            ));
        }
    }

    fn delete(&mut self, key: &str) {
        proof {
            lemma_map_of_without(self.entries@, key@);
        }
        let mut kept: Vec<(String, V)> = Vec::new();
        let n = self.entries.len();
        let ghost before = self.entries@;
        let mut i: usize = 0;
        while i < n
            invariant
                i <= n,
                n == before.len(),
                self.entries@ =~= before.subrange(i as int, n as int),
                kept@ =~= entries_without(before.subrange(0, i as int), key@),
            decreases n - i,
        {
            proof {
                assert(before.subrange(0, i + 1).drop_last() =~= before.subrange(
                    0,
                    i as int,
                ));
                assert(before.subrange(0, i + 1).last() == before[i as int]);
            }
            let (k, v) = self.entries.remove(0);
            if !crate::strutil::str_equal(k.as_str(), key) {
                kept.push((k, v));
            }
            proof {
                assert(self.entries@ =~= before.subrange(i + 1, n as int));
                assert(kept@ =~= entries_without(before.subrange(0, i + 1), key@));
            }
            i += 1;
        }
        proof {
            assert(before.subrange(0, n as int) =~= before);
        }
        self.entries = kept;
    }
}

} // verus!
