//! A key-value storage abstraction, an in-memory store, and a view of a
//! store under a key prefix.

use crate::keyed::{lemma_map_at, lemma_map_push, lemma_map_remove, map_of};
use crate::text::{chars_of, has_prefix_at, push_all, slice_of, string_of};
use vstd::prelude::*;
use vstd::slice::slice_to_vec;

verus! {

/// Why a storage operation failed.
#[derive(Debug, Clone, PartialEq, Eq)]
pub struct StorageError {
    pub message: String,
}

/// The character sequences of a sequence of keys.
pub open spec fn key_views(keys: Seq<String>) -> Seq<Seq<char>> {
    Seq::new(keys.len(), |i: int| keys[i]@)
}

/// The bytes of an optional value.
pub open spec fn value_view(v: Option<Vec<u8>>) -> Option<Seq<u8>> {
    match v {
        Some(bytes) => Some(bytes@),
        None => None,
    }
}

/// What a store answers to a lookup.
pub open spec fn lookup(contents: Map<Seq<char>, Seq<u8>>, key: Seq<char>) -> Option<Seq<u8>> {
    if contents.contains_key(key) {
        Some(contents[key])
    } else {
        None
    }
}

/// `listed` names exactly the keys of `contents` that start with `prefix`,
/// each once.
pub open spec fn lists_prefixed_keys(
    contents: Map<Seq<char>, Seq<u8>>,
    prefix: Seq<char>,
    listed: Seq<Seq<char>>,
) -> bool {
    &&& listed.no_duplicates()
    &&& forall|i: int|
        0 <= i < listed.len() ==> contents.contains_key(#[trigger] listed[i])
            && prefix.is_prefix_of(listed[i])
    &&& forall|k: Seq<char>|
        contents.contains_key(k) && prefix.is_prefix_of(k) ==> listed.contains(k)
}

/// A key-value storage backend.
///
/// `contents` is what the store holds. An operation that returns `Ok` has
/// done to the contents what its contract says; nothing is claimed of one
/// that returns an error.
pub trait Storage {
    /// What the store holds.
    spec fn contents(&self) -> Map<Seq<char>, Seq<u8>>;

    /// Get a value by key.
    fn get(&self, key: &str) -> (r: Result<Option<Vec<u8>>, StorageError>)
        ensures
            r matches Ok(found) ==> value_view(found) == lookup(self.contents(), key@),
    ;

    /// Set a value by key.
    fn set(&mut self, key: &str, value: &[u8]) -> (r: Result<(), StorageError>)
        ensures
            r is Ok ==> final(self).contents() == old(self).contents().insert(key@, value@),
    ;

    /// Delete a value by key.
    fn delete(&mut self, key: &str) -> (r: Result<(), StorageError>)
        ensures
            r is Ok ==> final(self).contents() == old(self).contents().remove(key@),
    ;

    /// List all keys with a given prefix.
    fn list_keys(&self, prefix: &str) -> (r: Result<Vec<String>, StorageError>)
        ensures
            r matches Ok(keys) ==> lists_prefixed_keys(self.contents(), prefix@, key_views(keys@)),
    ;

    /// Clear all data.
    fn clear(&mut self) -> (r: Result<(), StorageError>)
        ensures
            r is Ok ==> final(self).contents() == Map::<Seq<char>, Seq<u8>>::empty(),
    ;
}

/// One stored value under its key.
struct Entry {
    key: String,
    value: Vec<u8>,
}

spec fn entry_keys(s: Seq<Entry>) -> Seq<Seq<char>> {
    Seq::new(s.len(), |i: int| s[i].key@)
}

spec fn entry_values(s: Seq<Entry>) -> Seq<Seq<u8>> {
    Seq::new(s.len(), |i: int| s[i].value@)
}

/// In-memory storage for testing and ephemeral sessions.
pub struct MemoryStorage {
    data: Vec<Entry>,
}

impl MemoryStorage {
    #[verifier::type_invariant]
    spec fn well_formed(&self) -> bool {
        entry_keys(self.data@).no_duplicates()
    }

    /// An empty store.
    pub fn new() -> (s: MemoryStorage)
        ensures
            s.contents() == Map::<Seq<char>, Seq<u8>>::empty(),
    {
        let s = MemoryStorage { data: Vec::new() };
        assert(s.contents() =~= Map::<Seq<char>, Seq<u8>>::empty());
        s
    }

    /// Index of the entry under `key`, if there is one.
    fn find(&self, key: &String) -> (r: Option<usize>)
        ensures
            match r {
                Some(i) => i < self.data@.len() && self.data@[i as int].key@ == key@,
                None => !entry_keys(self.data@).contains(key@),
            },
    {
        let mut i: usize = 0;
        while i < self.data.len()
            invariant
                i <= self.data@.len(),
                forall|k: int| 0 <= k < i ==> (#[trigger] entry_keys(self.data@)[k]) != key@,
            decreases self.data@.len() - i,
        {
            if self.data[i].key == *key {
                return Some(i);
            }
            assert(entry_keys(self.data@)[i as int] == self.data@[i as int].key@);
            i += 1;
        }
        None
    }
}

impl Default for MemoryStorage {
    fn default() -> (s: MemoryStorage)
        ensures
            s.contents() == Map::<Seq<char>, Seq<u8>>::empty(),
    {
        MemoryStorage::new()
    }
}

impl Storage for MemoryStorage {
    closed spec fn contents(&self) -> Map<Seq<char>, Seq<u8>> {
        map_of(entry_keys(self.data@), entry_values(self.data@))
    }

    fn get(&self, key: &str) -> (r: Result<Option<Vec<u8>>, StorageError>)
        ensures
            r is Ok,
    {
        proof {
            use_type_invariant(self);
        }
        let wanted = key.to_owned();
        match self.find(&wanted) {
            Some(i) => {
                proof {
                    lemma_map_at(entry_keys(self.data@), entry_values(self.data@), i as int);
                }
                Ok(Some(slice_to_vec(self.data[i].value.as_slice())))
            },
            None => Ok(None),
        }
    }

    fn set(&mut self, key: &str, value: &[u8]) -> (r: Result<(), StorageError>)
        ensures
            r is Ok,
    {
        proof {
            use_type_invariant(&*self);
        }
        let wanted = key.to_owned();
        let found = self.find(&wanted);
        let mut data: Vec<Entry> = Vec::new();
        std::mem::swap(&mut self.data, &mut data);
        let ghost before = data@;
        match found {
            Some(i) => {
                proof {
                    lemma_map_remove(entry_keys(before), entry_values(before), i as int);
                    assert(entry_keys(before.remove(i as int)) =~= entry_keys(before).remove(
                        i as int,
                    ));
                    assert(entry_values(before.remove(i as int)) =~= entry_values(before).remove(
                        i as int,
                    ));
                }
                let _replaced = data.remove(i);
            },
            None => {},
        }
        let entry = Entry { key: wanted, value: slice_to_vec(value) };
        proof {
            let mid = data@;
            lemma_map_push(entry_keys(mid), entry_values(mid), key@, value@);
            assert(entry_keys(mid.push(entry)) =~= entry_keys(mid).push(key@));
            assert(entry_values(mid.push(entry)) =~= entry_values(mid).push(value@));
            let m = map_of(entry_keys(before), entry_values(before));
            assert(m.remove(key@).insert(key@, value@) =~= m.insert(key@, value@));
        }
        data.push(entry);
        std::mem::swap(&mut self.data, &mut data);
        Ok(())
    }

    fn delete(&mut self, key: &str) -> (r: Result<(), StorageError>)
        ensures
            r is Ok,
    {
        proof {
            use_type_invariant(&*self);
        }
        let wanted = key.to_owned();
        match self.find(&wanted) {
            Some(i) => {
                let mut data: Vec<Entry> = Vec::new();
                std::mem::swap(&mut self.data, &mut data);
                proof {
                    let before = data@;
                    lemma_map_remove(entry_keys(before), entry_values(before), i as int);
                    assert(entry_keys(before.remove(i as int)) =~= entry_keys(before).remove(
                        i as int,
                    ));
                    assert(entry_values(before.remove(i as int)) =~= entry_values(before).remove(
                        i as int,
                    ));
                }
                let _gone = data.remove(i);
                std::mem::swap(&mut self.data, &mut data);
            },
            None => {
                assert(old(self).contents().remove(key@) =~= old(self).contents());
            },
        }
        Ok(())
    }

    fn list_keys(&self, prefix: &str) -> (r: Result<Vec<String>, StorageError>)
        ensures
            r is Ok,
    {
        proof {
            use_type_invariant(self);
        }
        let wanted = chars_of(prefix);
        let ghost keys = entry_keys(self.data@);
        let mut out: Vec<String> = Vec::new();
        let ghost mut picked: Seq<int> = Seq::empty();
        let mut i: usize = 0;
        while i < self.data.len()
            invariant
                i <= self.data@.len(),
                wanted@ == prefix@,
                keys == entry_keys(self.data@),
                keys.no_duplicates(),
                picked.len() == out@.len(),
                forall|a: int|
                    0 <= a < picked.len() ==> 0 <= #[trigger] picked[a] < i && out@[a]@
                        == keys[picked[a]] && prefix@.is_prefix_of(keys[picked[a]]),
                forall|a: int, b: int|
                    0 <= a < b < picked.len() ==> #[trigger] picked[a] < #[trigger] picked[b],
                forall|k: int|
                    0 <= k < i && prefix@.is_prefix_of(#[trigger] keys[k]) ==> key_views(
                        out@,
                    ).contains(keys[k]),
            decreases self.data@.len() - i,
        {
            let key = chars_of(self.data[i].key.as_str());
            assert(key@.skip(0) == key@);
            assert(keys[i as int] == key@);
            if has_prefix_at(&key, 0, &wanted) {
                let ghost before = key_views(out@);
                out.push(self.data[i].key.clone());
                proof {
                    picked = picked.push(i as int);
                    let after = key_views(out@);
                    assert(after =~= before.push(key@));
                    assert forall|k: int|
                        0 <= k < i + 1 && prefix@.is_prefix_of(
                            #[trigger] keys[k],
                        ) implies after.contains(keys[k]) by {
                        if k < i {
                            let w = before.index_of(keys[k]);
                            assert(after[w] == before[w]);
                        } else {
                            assert(after[before.len() as int] == key@);
                        }
                    }
                }
            }
            i += 1;
        }
        proof {
            let listed = key_views(out@);
            assert(listed.no_duplicates()) by {
                assert forall|a: int, b: int|
                    0 <= a < listed.len() && 0 <= b < listed.len() && a != b implies listed[a]
                    != listed[b] by {
                    assert(picked[a] != picked[b]) by {
                        if a < b {
                            assert(picked[a] < picked[b]);
                        } else {
                            assert(picked[b] < picked[a]);
                        }
                    }
                    assert(listed[a] == keys[picked[a]]);
                    assert(listed[b] == keys[picked[b]]);
                }
            }
            assert forall|a: int| 0 <= a < listed.len() implies self.contents().contains_key(
                #[trigger] listed[a],
            ) && prefix@.is_prefix_of(listed[a]) by {
                assert(listed[a] == keys[picked[a]]);
                assert(keys.contains(keys[picked[a]]));
            }
            assert forall|k: Seq<char>|
                self.contents().contains_key(k) && prefix@.is_prefix_of(
                    k,
                ) implies listed.contains(k) by {
                let w = keys.index_of(k);
                assert(keys[w] == k);
            }
        }
        Ok(out)
    }

    fn clear(&mut self) -> (r: Result<(), StorageError>)
        ensures
            r is Ok,
    {
        let mut data: Vec<Entry> = Vec::new();
        std::mem::swap(&mut self.data, &mut data);
        assert(self.contents() =~= Map::<Seq<char>, Seq<u8>>::empty());
        Ok(())
    }
}

/// A storage key under a prefix: the prefix, a colon, and the key.
pub open spec fn prefixed(prefix: Seq<char>, key: Seq<char>) -> Seq<char> {
    prefix + seq![':'] + key
}

/// A wrapper around a [`Storage`] that keeps its keys under a prefix.
pub struct TypedStorage<S: Storage> {
    storage: S,
    prefix: String,
}

impl<S: Storage> TypedStorage<S> {
    /// The store underneath.
    pub closed spec fn inner(&self) -> S {
        self.storage
    }

    /// The prefix of every key.
    pub closed spec fn prefix_spec(&self) -> Seq<char> {
        self.prefix@
    }

    /// Wraps `storage`; every key is kept under `prefix`.
    pub fn new(storage: S, prefix: String) -> (t: TypedStorage<S>)
        ensures
            t.inner() == storage,
            t.prefix_spec() == prefix@,
    {
        TypedStorage { storage, prefix }
    }

    /// The key under which `key` is kept in the store underneath.
    pub fn prefixed_key(&self, key: &str) -> (full: String)
        ensures
            full@ == prefixed(self.prefix_spec(), key@),
    {
        let mut out = chars_of(self.prefix.as_str());
        out.push(':');
        assert(out@ =~= self.prefix@ + seq![':']);
        push_all(&mut out, &chars_of(key));
        string_of(&out)
    }

    /// The bytes stored under `key`, if there are any: what the store
    /// underneath answers when it is asked for the prefixed key.
    pub fn get(&self, key: &str) -> (r: Result<Option<Vec<u8>>, StorageError>)
        ensures
            exists|full: &str|
                full@ == prefixed(self.prefix_spec(), key@) && call_ensures(
                    S::get,
                    (&self.inner(), full),
                    r,
                ),
            r matches Ok(found) ==> value_view(found) == lookup(
                self.inner().contents(),
                prefixed(self.prefix_spec(), key@),
            ),
    {
        let full = self.prefixed_key(key);
        let asked: &str = full.as_str();
        let r = self.storage.get(asked);
        assert(call_ensures(S::get, (&self.storage, asked), r));
        r
    }

    /// Stores `value` under `key`: does to the store underneath, and
    /// answers, what that store does and answers when it is told to set the
    /// prefixed key.
    pub fn set(&mut self, key: &str, value: &[u8]) -> (r: Result<(), StorageError>)
        ensures
            final(self).prefix_spec() == old(self).prefix_spec(),
            exists|store: &mut S, full: &str|
                mut_ref_current(store) == old(self).inner()
                    && mut_ref_future(store) == final(self).inner()
                    && full@ == prefixed(old(self).prefix_spec(), key@)
                    && call_ensures(S::set, (store, full, value), r),
            r is Ok ==> final(self).inner().contents() == old(self).inner().contents().insert(
                prefixed(old(self).prefix_spec(), key@),
                value@,
            ),
    {
        let full = self.prefixed_key(key);
        let asked: &str = full.as_str();
        self.storage.set(asked, value)
    }

    /// Deletes what is stored under `key`: does to the store underneath,
    /// and answers, what that store does and answers when it is told to
    /// delete the prefixed key.
    pub fn delete(&mut self, key: &str) -> (r: Result<(), StorageError>)
        ensures
            final(self).prefix_spec() == old(self).prefix_spec(),
            exists|store: &mut S, full: &str|
                mut_ref_current(store) == old(self).inner()
                    && mut_ref_future(store) == final(self).inner()
                    && full@ == prefixed(old(self).prefix_spec(), key@)
                    && call_ensures(S::delete, (store, full), r),
            r is Ok ==> final(self).inner().contents() == old(self).inner().contents().remove(
                prefixed(old(self).prefix_spec(), key@),
            ),
    {
        let full = self.prefixed_key(key);
        let asked: &str = full.as_str();
        self.storage.delete(asked)
    }

    /// The keys kept under the prefix: what the store underneath lists
    /// when it is asked for the keys that start with the prefix and a
    /// colon, each key without that start. An error of the store is handed
    /// on. Where the store keeps the promise of its listing, the keys are
    /// those kept under the prefix, each once.
    pub fn list_keys(&self) -> (r: Result<Vec<String>, StorageError>)
        ensures
            exists|asked: &str, listed: Result<Vec<String>, StorageError>|
                asked@ == self.prefix_spec() + seq![':'] && #[trigger] call_ensures(
                    S::list_keys,
                    (&self.inner(), asked),
                    listed,
                ) && is_listing_without(asked@, listed, r),
            r matches Ok(keys) ==> {
                &&& key_views(keys@).no_duplicates()
                &&& forall|i: int|
                    0 <= i < keys@.len() ==> self.inner().contents().contains_key(
                        prefixed(self.prefix_spec(), #[trigger] key_views(keys@)[i]),
                    )
                &&& forall|k: Seq<char>|
                    self.inner().contents().contains_key(prefixed(self.prefix_spec(), k))
                        ==> key_views(keys@).contains(k)
            },
    {
        let mut start = chars_of(self.prefix.as_str());
        start.push(':');
        assert(start@ =~= self.prefix@ + seq![':']);
        let full_prefix = string_of(&start);
        let asked: &str = full_prefix.as_str();
        let listed = self.storage.list_keys(asked);
        let ghost answer = listed;
        assert(call_ensures(S::list_keys, (&self.inner(), asked), answer));
        let raw = match listed {
            Ok(raw) => raw,
            Err(e) => {
                assert(is_listing_without(asked@, answer, Err::<Vec<String>, StorageError>(e)));
                return Err(e);
            },
        };
        let out = without_prefix(asked, raw.as_slice());
        proof {
            let p = start@;
            let full = key_views(raw@);
            let listed_keys = key_views(out@);
            let contents = self.inner().contents();
            assert forall|k: int| 0 <= k < listed_keys.len() implies p + #[trigger] listed_keys[k]
                == full[k] by {
                assert(p.is_prefix_of(full[k]));
                assert(listed_keys[k] == unprefixed(p, full[k]));
                assert(p + full[k].skip(p.len() as int) =~= full[k]);
            }
            assert forall|k: Seq<char>| prefixed(self.prefix_spec(), k) == p + k by {
                assert(self.prefix@ + seq![':'] + k =~= p + k);
            }
            assert(listed_keys.no_duplicates()) by {
                assert forall|a: int, b: int|
                    0 <= a < listed_keys.len() && 0 <= b < listed_keys.len() && a
                        != b implies listed_keys[a] != listed_keys[b] by {
                    assert(p + listed_keys[a] == full[a]);
                    assert(p + listed_keys[b] == full[b]);
                }
            }
            assert forall|a: int| 0 <= a < out@.len() implies contents.contains_key(
                prefixed(self.prefix_spec(), #[trigger] listed_keys[a]),
            ) by {
                assert(p + listed_keys[a] == full[a]);
            }
            assert forall|k: Seq<char>|
                contents.contains_key(prefixed(self.prefix_spec(), k)) implies listed_keys.contains(
                k,
            ) by {
                let fk = p + k;
                assert(p.is_prefix_of(fk)) by {
                    assert(fk.subrange(0, p.len() as int) =~= p);
                }
                assert(full.contains(fk));
                let w = full.index_of(fk);
                assert(p + listed_keys[w] == p + k);
                assert(listed_keys[w] =~= k) by {
                    assert((p + listed_keys[w]).skip(p.len() as int) =~= listed_keys[w]);
                    assert((p + k).skip(p.len() as int) =~= k);
                }
            }
        }
        Ok(out)
    }
}

/// A key without `prefix` at its start; a key that does not start with
/// `prefix` as it is.
pub open spec fn unprefixed(prefix: Seq<char>, key: Seq<char>) -> Seq<char> {
    if prefix.is_prefix_of(key) {
        key.skip(prefix.len() as int)
    } else {
        key
    }
}

/// Whether `answer` is what becomes of the listing `listed` when `prefix`
/// is taken off its keys: the keys in the same order, each without
/// `prefix` at its start; an error is the same error.
pub open spec fn is_listing_without(
    prefix: Seq<char>,
    listed: Result<Vec<String>, StorageError>,
    answer: Result<Vec<String>, StorageError>,
) -> bool {
    match listed {
        Ok(raw) => answer matches Ok(keys) && key_views(keys@) == unprefixed_all(
            prefix,
            key_views(raw@),
        ),
        Err(e) => answer == Err::<Vec<String>, StorageError>(e),
    }
}

/// Each of `keys` without `prefix` at its start.
pub open spec fn unprefixed_all(prefix: Seq<char>, keys: Seq<Seq<char>>) -> Seq<Seq<char>> {
    Seq::new(keys.len(), |i: int| unprefixed(prefix, keys[i]))
}

/// Takes `prefix` off the start of each key that starts with it; the
/// other keys stay as they are.
pub fn without_prefix(prefix: &str, keys: &[String]) -> (out: Vec<String>)
    ensures
        key_views(out@) == unprefixed_all(prefix@, key_views(keys@)),
{
    let p = chars_of(prefix);
    let mut out: Vec<String> = Vec::new();
    let mut i: usize = 0;
    while i < keys.len()
        invariant
            i <= keys@.len(),
            p@ == prefix@,
            out@.len() == i,
            forall|k: int| 0 <= k < i ==> (#[trigger] out@[k])@ == unprefixed(prefix@, keys@[k]@),
        decreases keys@.len() - i,
    {
        let key = chars_of(keys[i].as_str());
        assert(key@.skip(0) == key@);
        if has_prefix_at(&key, 0, &p) {
            assert(key@.subrange(0, p@.len() as int).len() == p@.len());
            assert(key@.skip(p@.len() as int) == key@.subrange(p@.len() as int, key@.len() as int));
            out.push(string_of(&slice_of(&key, p.len(), key.len())));
        } else {
            out.push(keys[i].clone());
        }
        i += 1;
    }
    assert(key_views(out@) =~= unprefixed_all(prefix@, key_views(keys@)));
    out
}

} // verus!
