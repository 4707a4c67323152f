//! Permanent storage: a map from byte-string keys to byte-string values.

use vstd::prelude::*;
use vstd::slice::slice_to_vec;

verus! {

/// Prefix of the keys under which the permanent storage keeps its entries.
pub const STORAGE_PREFIX: [u8; 7] = [115u8, 116u8, 111u8, 114u8, 97u8, 103u8, 101u8];

/// Why a write to a store did not take effect.
#[derive(Debug, Clone, Copy, PartialEq, Eq, Structural)]
pub enum StorageError {
    /// The database refused the commit; the store is as it was.
    CommitFailed,
}

/// The contents of a store that holds nothing.
pub open spec fn empty_contents() -> Map<Seq<u8>, Seq<u8>> {
    Map::empty()
}

/// A store of values under keys. A write either takes effect as a whole or leaves the
/// store as it was, and says which.
pub trait PermaStorage: Send + Sync {
    /// What the store holds.
    spec fn contents(&self) -> Map<Seq<u8>, Seq<u8>>;

    /// Whether the store can be read and written: what it stands on is there, and nothing
    /// but this store writes to it.
    spec fn usable(&self) -> bool;

    /// Puts `value` under `key`, in place of what was there.
    fn set(&mut self, key: &[u8], value: &[u8]) -> (done: Result<(), StorageError>)
        requires
            old(self).usable(),
        ensures
            final(self).usable(),
            done is Ok ==> final(self).contents() == old(self).contents().insert(key@, value@),
            done is Err ==> final(self).contents() == old(self).contents(),
    ;

    /// Takes `key` and its value out; a key that is not there is no error.
    fn remove(&mut self, key: &[u8]) -> (done: Result<(), StorageError>)
        requires
            old(self).usable(),
        ensures
            final(self).usable(),
            done is Ok ==> final(self).contents() == old(self).contents().remove(key@),
            done is Err ==> final(self).contents() == old(self).contents(),
    ;

    /// The value under `key`, if there is one.
    fn get(&self, key: &[u8]) -> (found: Option<Vec<u8>>)
        requires
            self.usable(),
        ensures
            found is Some <==> self.contents().contains_key(key@),
            found matches Some(value) ==> value@ == self.contents()[key@],
    ;
}

/// Whether two byte strings are the same.
pub fn same_bytes(a: &[u8], b: &[u8]) -> (same: bool)
    ensures
        same == (a@ == b@),
{
    if a.len() != b.len() {
        return false;
    }
    let mut i: usize = 0;
    while i < a.len()
        invariant
            i <= a@.len(),
            a@.len() == b@.len(),
            forall|j: int| 0 <= j < i ==> a@[j] == b@[j],
        decreases a@.len() - i,
    {
        if a[i] != b[i] {
            return false;
        }
        i = i + 1;
    }
    assert(a@ =~= b@);
    true
}

/// Says that no key stands twice among the entries.
pub open spec fn distinct_keys(entries: Seq<(Vec<u8>, Vec<u8>)>) -> bool {
    forall|i: int, j: int|
        0 <= i < j < entries.len() ==> (#[trigger] entries[i]).0@ != (#[trigger] entries[j]).0@
}

/// Says that `key` stands at place `i` of the entries.
pub open spec fn key_at(entries: Seq<(Vec<u8>, Vec<u8>)>, key: Seq<u8>, i: int) -> bool {
    0 <= i < entries.len() && entries[i].0@ == key
}

/// The map that a sequence of entries stands for: each key with the value beside it.
pub open spec fn entries_map(entries: Seq<(Vec<u8>, Vec<u8>)>) -> Map<Seq<u8>, Seq<u8>> {
    Map::new(
        |key: Seq<u8>| exists|i: int| key_at(entries, key, i),
        |key: Seq<u8>| entries[choose|i: int| key_at(entries, key, i)].1@,
    )
}

/// A store that lives in memory.
#[derive(Debug)]
pub struct InMemoryPermaStorage {
    storage: Vec<(Vec<u8>, Vec<u8>)>,
}

impl View for InMemoryPermaStorage {
    type V = Map<Seq<u8>, Seq<u8>>;

    closed spec fn view(&self) -> Map<Seq<u8>, Seq<u8>> {
        entries_map(self.storage@)
    }
}

/// The place of `key` among the entries, if it is there.
fn position(entries: &Vec<(Vec<u8>, Vec<u8>)>, key: &[u8]) -> (place: Option<usize>)
    ensures
        place matches Some(i) ==> key_at(entries@, key@, i as int),
        place is None ==> forall|i: int| !key_at(entries@, key@, i),
{
    let mut i: usize = 0;
    while i < entries.len()
        invariant
            i <= entries@.len(),
            forall|j: int| 0 <= j < i ==> !key_at(entries@, key@, j),
        decreases entries@.len() - i,
    {
        if same_bytes(entries[i].0.as_slice(), key) {
            return Some(i);
        }
        i = i + 1;
    }
    None
}

/// Puts `value` beside `key`: in place of the value that was there, or as a new entry.
fn put_entry(entries: &mut Vec<(Vec<u8>, Vec<u8>)>, key: &[u8], value: &[u8])
    requires
        distinct_keys(old(entries)@),
    ensures
        distinct_keys(final(entries)@),
        entries_map(final(entries)@) == entries_map(old(entries)@).insert(key@, value@),
{
    let ghost before = entries@;
    let entry = (slice_to_vec(key), slice_to_vec(value));
    match position(entries, key) {
        Some(i) => {
            entries.set(i, entry);
            proof {
                let after = entries@;
                assert forall|k: Seq<u8>, j: int| key_at(after, k, j) <==> key_at(
                    before,
                    k,
                    j,
                ) by {}
                assert forall|k: Seq<u8>| #[trigger]
                    entries_map(after).contains_key(k) implies entries_map(after)[k]
                    == entries_map(before).insert(key@, value@)[k] by {
                    let j = choose|j: int| key_at(after, k, j);
                    if k == key@ {
                        assert(key_at(after, k, i as int));
                        assert(j == i);
                    } else {
                        assert(j != i);
                    }
                }
                assert(entries_map(before).contains_key(key@)) by {
                    assert(key_at(before, key@, i as int));
                }
                assert(entries_map(after) =~= entries_map(before).insert(key@, value@));
            }
        },
        None => {
            entries.push(entry);
            proof {
                let after = entries@;
                let last = before.len() as int;
                assert(distinct_keys(after)) by {
                    assert forall|a: int, b: int| 0 <= a < b < after.len() implies (
                    #[trigger] after[a]).0@ != (#[trigger] after[b]).0@ by {
                        if b == last {
                            assert(!key_at(before, key@, a));
                        }
                    }
                }
                assert forall|k: Seq<u8>| #[trigger]
                    entries_map(after).contains_key(k) <==> entries_map(before).insert(
                        key@,
                        value@,
                    ).contains_key(k) by {
                    if entries_map(after).contains_key(k) {
                        let j = choose|j: int| key_at(after, k, j);
                        if j != last {
                            assert(key_at(before, k, j));
                        }
                    }
                    if entries_map(before).contains_key(k) {
                        let j = choose|j: int| key_at(before, k, j);
                        assert(key_at(after, k, j));
                    }
                    if k == key@ {
                        assert(key_at(after, k, last));
                    }
                }
                assert forall|k: Seq<u8>| #[trigger]
                    entries_map(after).contains_key(k) implies entries_map(after)[k]
                    == entries_map(before).insert(key@, value@)[k] by {
                    let j = choose|j: int| key_at(after, k, j);
                    if k == key@ {
                        assert(key_at(after, k, last));
                        assert(j == last);
                    } else {
                        assert(key_at(before, k, j));
                        let j0 = choose|j: int| key_at(before, k, j);
                        assert(key_at(after, k, j0));
                    }
                }
                assert(entries_map(after) =~= entries_map(before).insert(key@, value@));
            }
        },
    }
}

/// Drops the entry of `key`, if there is one, and keeps the others in their order.
fn drop_entry(entries: &mut Vec<(Vec<u8>, Vec<u8>)>, key: &[u8])
    requires
        distinct_keys(old(entries)@),
    ensures
        distinct_keys(final(entries)@),
        entries_map(final(entries)@) == entries_map(old(entries)@).remove(key@),
{
    match position(entries, key) {
        Some(i) => {
            let ghost before = entries@;
            entries.remove(i);
            proof {
                let after = entries@;
                assert forall|j: int| 0 <= j < after.len() implies after[j] == before[if j
                    < i { j } else { j + 1 }] by {}
                assert(distinct_keys(after));
                assert forall|k: Seq<u8>| #[trigger]
                    entries_map(after).contains_key(k) <==> entries_map(before).remove(
                        key@,
                    ).contains_key(k) by {
                    if entries_map(after).contains_key(k) {
                        let j = choose|j: int| key_at(after, k, j);
                        assert(key_at(before, k, if j < i { j } else { j + 1 }));
                    }
                    if entries_map(before).remove(key@).contains_key(k) {
                        let j = choose|j: int| key_at(before, k, j);
                        assert(j != i);
                        assert(key_at(after, k, if j < i { j } else { j - 1 }));
                    }
                }
                assert forall|k: Seq<u8>| #[trigger]
                    entries_map(after).contains_key(k) implies entries_map(after)[k]
                    == entries_map(before).remove(key@)[k] by {
                    let j = choose|j: int| key_at(after, k, j);
                    let j0 = choose|j: int| key_at(before, k, j);
                    assert(key_at(before, k, if j < i { j } else { j + 1 }));
                    assert(j0 == if j < i { j } else { j + 1 });
                }
                assert(entries_map(after) =~= entries_map(before).remove(key@));
            }
        },
        None => {
            assert(entries_map(entries@) =~= entries_map(entries@).remove(key@));
        },
    }
}

/// The value beside `key`, if the key is there.
fn entry_value(entries: &Vec<(Vec<u8>, Vec<u8>)>, key: &[u8]) -> (found: Option<Vec<u8>>)
    requires
        distinct_keys(entries@),
    ensures
        found is Some <==> entries_map(entries@).contains_key(key@),
        found matches Some(value) ==> value@ == entries_map(entries@)[key@],
{
    match position(entries, key) {
        Some(i) => {
            proof {
                let j = choose|j: int| key_at(entries@, key@, j);
                assert(key_at(entries@, key@, i as int));
                assert(j == i);
            }
            Some(slice_to_vec(entries[i].1.as_slice()))
        },
        None => None,
    }
}

/// A copy of the entries, byte for byte.
fn copy_entries(entries: &Vec<(Vec<u8>, Vec<u8>)>) -> (copy: Vec<(Vec<u8>, Vec<u8>)>)
    requires
        distinct_keys(entries@),
    ensures
        distinct_keys(copy@),
        entries_map(copy@) == entries_map(entries@),
{
    let mut copy: Vec<(Vec<u8>, Vec<u8>)> = Vec::new();
    let mut i: usize = 0;
    while i < entries.len()
        invariant
            i <= entries@.len(),
            copy@.len() == i,
            forall|j: int|
                0 <= j < i ==> (#[trigger] copy@[j]).0@ == entries@[j].0@ && copy@[j].1@
                    == entries@[j].1@,
        decreases entries@.len() - i,
    {
        let entry = (
            slice_to_vec(entries[i].0.as_slice()),
            slice_to_vec(entries[i].1.as_slice()),
        );
        copy.push(entry);
        i = i + 1;
    }
    proof {
        assert forall|a: int, b: int| 0 <= a < b < copy@.len() implies (#[trigger] copy@[a]).0@ != (
        #[trigger] copy@[b]).0@ by {
            assert(entries@[a].0@ != entries@[b].0@);
        }
        assert forall|k: Seq<u8>, j: int| key_at(copy@, k, j) <==> key_at(entries@, k, j) by {}
        assert forall|k: Seq<u8>| #[trigger]
            entries_map(copy@).contains_key(k) implies entries_map(copy@)[k] == entries_map(
            entries@,
        )[k] by {
            let j = choose|j: int| key_at(copy@, k, j);
            let j0 = choose|j: int| key_at(entries@, k, j);
            assert(key_at(entries@, k, j));
            assert(j == j0);
        }
        assert(entries_map(copy@) =~= entries_map(entries@));
    }
    copy
}

impl Clone for InMemoryPermaStorage {
    /// A store of its own with the same contents.
    fn clone(&self) -> (copy: InMemoryPermaStorage)
        ensures
            copy@ == self@,
    {
        proof {
            use_type_invariant(&*self);
        }
        InMemoryPermaStorage { storage: copy_entries(&self.storage) }
    }
}

impl Default for InMemoryPermaStorage {
    fn default() -> (store: InMemoryPermaStorage)
        ensures
            store@ == empty_contents(),
    {
        let store = InMemoryPermaStorage { storage: Vec::new() };
        assert(store@ =~= empty_contents());
        store
    }
}

impl InMemoryPermaStorage {
    /// Every key is held once.
    #[verifier::type_invariant]
    spec fn valid(self) -> bool {
        distinct_keys(self.storage@)
    }

    /// All entries, each key once, in no order that a caller may rely on.
    pub fn into_iter(self) -> (entries: Vec<(Vec<u8>, Vec<u8>)>)
        ensures
            distinct_keys(entries@),
            entries_map(entries@) == self@,
    {
        proof {
            use_type_invariant(&self);
        }
        self.storage
    }

    /// All entries by reference, each key once, in no order that a caller may rely on.
    pub fn iter(&self) -> (entries: &[(Vec<u8>, Vec<u8>)])
        ensures
            distinct_keys(entries@),
            entries_map(entries@) == self@,
    {
        proof {
            use_type_invariant(&*self);
        }
        self.storage.as_slice()
    }

    /// Takes `key` and its value out; a key that is not there changes nothing. In memory
    /// this always takes effect.
    pub fn remove(&mut self, key: &[u8]) -> (done: Result<(), StorageError>)
        ensures
            done is Ok,
            final(self)@ == old(self)@.remove(key@),
            !old(self)@.contains_key(key@) ==> final(self)@ == old(self)@,
    {
        proof {
            use_type_invariant(&*self);
        }
        let mut entries: Vec<(Vec<u8>, Vec<u8>)> = Vec::new();
        std::mem::swap(&mut entries, &mut self.storage);
        drop_entry(&mut entries, key);
        self.storage = entries;
        proof {
            if !old(self)@.contains_key(key@) {
                lemma_remove_absent(old(self)@, key@);
            }
        }
        Ok(())
    }
}

impl PermaStorage for InMemoryPermaStorage {
    open spec fn contents(&self) -> Map<Seq<u8>, Seq<u8>> {
        self@
    }

    /// A store in memory stands on nothing but itself.
    open spec fn usable(&self) -> bool {
        true
    }

    /// Puts `value` under `key`; in memory this always takes effect.
    fn set(&mut self, key: &[u8], value: &[u8]) -> (done: Result<(), StorageError>)
        ensures
            done is Ok,
    {
        proof {
            use_type_invariant(&*self);
        }
        let mut entries: Vec<(Vec<u8>, Vec<u8>)> = Vec::new();
        std::mem::swap(&mut entries, &mut self.storage);
        put_entry(&mut entries, key, value);
        self.storage = entries;
        Ok(())
    }

    /// Takes `key` and its value out; in memory this always takes effect.
    fn remove(&mut self, key: &[u8]) -> (done: Result<(), StorageError>)
        ensures
            done is Ok,
    {
        InMemoryPermaStorage::remove(self, key)
    }

    fn get(&self, key: &[u8]) -> (found: Option<Vec<u8>>) {
        proof {
            use_type_invariant(&*self);
        }
        entry_value(&self.storage, key)
    }
}

/// After a write of `value` under `key` took effect, a read of `key` finds `value`; after a
/// removal of `key` then took effect, a read of `key` finds nothing.
pub proof fn lemma_set_get_remove<T: PermaStorage>(
    before: T,
    written: T,
    removed: T,
    key: Seq<u8>,
    value: Seq<u8>,
)
    requires
        written.contents() == before.contents().insert(key, value),
        removed.contents() == written.contents().remove(key),
    ensures
        written.contents().contains_key(key),
        written.contents()[key] == value,
        !removed.contents().contains_key(key),
        removed.contents() == before.contents().remove(key),
{
    assert(before.contents().insert(key, value).remove(key) =~= before.contents().remove(key));
}

/// To take out a key that is not there changes nothing.
pub proof fn lemma_remove_absent(before: Map<Seq<u8>, Seq<u8>>, key: Seq<u8>)
    requires
        !before.contains_key(key),
    ensures
        before.remove(key) == before,
{
    assert(before.remove(key) =~= before);
}

/// A write leaves every other key as it was.
pub proof fn lemma_other_keys_stay(
    before: Map<Seq<u8>, Seq<u8>>,
    key: Seq<u8>,
    value: Seq<u8>,
    other: Seq<u8>,
)
    requires
        other != key,
    ensures
        before.insert(key, value).contains_key(other) == before.contains_key(other),
        before.contains_key(other) ==> before.insert(key, value)[other] == before[other],
        before.remove(key).contains_key(other) == before.contains_key(other),
        before.contains_key(other) ==> before.remove(key)[other] == before[other],
{
}

} // verus!
