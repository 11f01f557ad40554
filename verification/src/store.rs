//! The storage capability and its in-memory backend.

use std::collections::HashMap;
use std::hash::Hash;
use vstd::hash_map::StringHashMap;
use vstd::prelude::*;
use vstd::std_specs::hash::obeys_key_model;

verus! {

broadcast use vstd::std_specs::hash::group_hash_axioms;

/// The failure a backend reports when it cannot carry out an operation.
#[derive(Debug, Clone, Copy, PartialEq, Eq)]
pub struct OperationalError;

impl OperationalError {
    /// The text shown for this error.
    pub fn message(&self) -> (text: String)
        ensures
            text@ == "Operational Error occured"@,
    {
        "Operational Error occured".to_owned()
    }
}

/// A key/value container. Keys are unique; `set` overwrites.
///
/// Operations are shaped to be fallible so that a backend may refuse one.
/// A backend says by what its keys and values are told apart (`key_model`,
/// `val_model`) and on which key types its lookups are exact (`keys_behave`).
pub trait Store<K, V>: Sized {
    /// What a key is told apart by.
    type KeyModel;

    /// What a value amounts to.
    type ValModel;

    /// The mapping that the container currently holds.
    spec fn entries(&self) -> Map<Self::KeyModel, Self::ValModel>;

    /// The model of one key.
    spec fn key_model(key: K) -> Self::KeyModel;

    /// The model of one value.
    spec fn val_model(val: V) -> Self::ValModel;

    /// Whether the key type is one on which the backend's lookups are exact.
    spec fn keys_behave() -> bool;

    /// An empty container.
    fn new() -> (store: Self)
        ensures
            store.entries() == Map::<Self::KeyModel, Self::ValModel>::empty(),
    ;

    /// Binds `key` to `val` and hands back the value that `key` had before.
    /// A refused write leaves the contents as they were.
    fn set(&mut self, key: K, val: V) -> (prev: Result<Option<V>, OperationalError>)
        ensures
            Self::keys_behave() ==> match prev {
                Ok(Some(before)) => {
                    &&& final(self).entries() == old(self).entries().insert(
                        Self::key_model(key),
                        Self::val_model(val),
                    )
                    &&& old(self).entries().get(Self::key_model(key)) == Some(
                        Self::val_model(before),
                    )
                },
                Ok(None) => {
                    &&& final(self).entries() == old(self).entries().insert(
                        Self::key_model(key),
                        Self::val_model(val),
                    )
                    &&& !old(self).entries().contains_key(Self::key_model(key))
                },
                Err(_) => final(self).entries() == old(self).entries(),
            },
    ;

    /// The value bound to `key`, if any. Never changes the contents.
    fn get(&self, key: &K) -> (found: Result<Option<&V>, OperationalError>)
        ensures
            Self::keys_behave() ==> match found {
                Ok(Some(val)) => self.entries().get(Self::key_model(*key)) == Some(
                    Self::val_model(*val),
                ),
                Ok(None) => !self.entries().contains_key(Self::key_model(*key)),
                Err(_) => true,
            },
    ;
}

/// The in-memory backend for any key type: a hash map that never refuses an
/// operation. What it holds is stated for the key types whose hashing and
/// equality are known to agree, such as the integers; for text keys there is
/// `TextStore`, of which everything is stated outright.
#[derive(Debug)]
pub struct HashStore<K, V> {
    store: HashMap<K, V>,
}

impl<K, V> View for HashStore<K, V> {
    type V = Map<K, V>;

    closed spec fn view(&self) -> Map<K, V> {
        self.store@
    }
}

impl<K, V> Store<K, V> for HashStore<K, V> where K: Eq + PartialEq + Hash {
    type KeyModel = K;

    type ValModel = V;

    open spec fn entries(&self) -> Map<K, V> {
        self@
    }

    open spec fn key_model(key: K) -> K {
        key
    }

    open spec fn val_model(val: V) -> V {
        val
    }

    open spec fn keys_behave() -> bool {
        obeys_key_model::<K>()
    }

    fn new() -> (store: Self)
        ensures
            store@ == Map::<K, V>::empty(),
    {
        HashStore { store: HashMap::new() }
    }

    fn get(&self, key: &K) -> (found: Result<Option<&V>, OperationalError>)
        ensures
            found is Ok,
    {
        match self.store.get(key) {
            Some(val) => Ok(Some(val)),
            None => Ok(None),
        }
    }

    fn set(&mut self, key: K, val: V) -> (prev: Result<Option<V>, OperationalError>)
        ensures
            prev is Ok,
    {
        match self.store.insert(key, val) {
            Some(val) => Ok(Some(val)),
            None => Ok(None),
        }
    }
}

/// The in-memory backend for text: a hash map from text to text that never
/// refuses an operation. Keys are told apart by their characters.
pub struct TextStore {
    map: StringHashMap<String>,
}

impl View for TextStore {
    type V = Map<Seq<char>, Seq<char>>;

    closed spec fn view(&self) -> Map<Seq<char>, Seq<char>> {
        Map::new(|key: Seq<char>| self.map@.contains_key(key), |key: Seq<char>| self.map@[key]@)
    }
}

impl Store<String, String> for TextStore {
    type KeyModel = Seq<char>;

    type ValModel = Seq<char>;

    open spec fn entries(&self) -> Map<Seq<char>, Seq<char>> {
        self@
    }

    open spec fn key_model(key: String) -> Seq<char> {
        key@
    }

    open spec fn val_model(val: String) -> Seq<char> {
        val@
    }

    open spec fn keys_behave() -> bool {
        true
    }

    fn new() -> (store: Self)
        ensures
            store@ == Map::<Seq<char>, Seq<char>>::empty(),
    {
        let store = TextStore { map: StringHashMap::new() };
        assert(store@ =~= Map::<Seq<char>, Seq<char>>::empty());
        store
    }

    fn get(&self, key: &String) -> (found: Result<Option<&String>, OperationalError>)
        ensures
            found is Ok,
    {
        match self.map.get(key.as_str()) {
            Some(val) => Ok(Some(val)),
            None => Ok(None),
        }
    }

    fn set(&mut self, key: String, val: String) -> (prev: Result<Option<String>, OperationalError>)
        ensures
            prev is Ok,
    {
        let before = match self.map.get(key.as_str()) {
            Some(held) => Some(held.clone()),
            None => None,
        };
        self.map.insert(key, val);
        assert(final(self)@ =~= old(self)@.insert(key@, val@));
        Ok(before)
    }
}

} // verus!
