//! Values that are initialized once: the first initialization wins, and later ones see its
//! value.

use std::collections::HashMap;
use std::hash::Hash;

use vstd::prelude::*;
use vstd::pervasive::strictly_cloned;
use vstd::std_specs::hash::obeys_key_model;

verus! {

broadcast use vstd::std_specs::hash::group_hash_axioms;

/// A value that is set by the first initialization and kept afterwards.
pub struct Once<T> {
    value: Option<T>,
}

impl<T> View for Once<T> {
    type V = Option<T>;

    closed spec fn view(&self) -> Option<T> {
        self.value
    }
}

impl<T> Once<T> {
    /// A value not yet initialized.
    pub fn new() -> (o: Self)
        ensures
            o@ is None,
    {
        Once { value: None }
    }

    /// The value, if it was initialized.
    pub fn get(&self) -> (value: Option<&T>)
        ensures
            value == match self@ {
                Some(v) => Some(&v),
                None => None::<&T>,
            },
    {
        match &self.value {
            Some(v) => Some(v),
            None => None,
        }
    }

    /// Initialize the value with `value` if nobody has yet, and return the value.
    pub fn get_or_set(&mut self, value: T) -> (v: &T)
        ensures
            final(self)@ == Some(*v),
            old(self)@ matches Some(w) ==> *v == w,
            old(self)@ is None ==> *v == value,
    {
        if self.value.is_none() {
            self.value = Some(value);
        }
        match &self.value {
            Some(v) => v,
            None => unreached(),
        }
    }

    /// The value, initializing it with `f` if nobody has yet; `f` runs only then.
    pub fn get_or_init<F: FnOnce() -> T>(&mut self, f: F) -> (value: &T)
        requires
            old(self)@ is None ==> f.requires(()),
        ensures
            final(self)@ == Some(*value),
            old(self)@ matches Some(v) ==> *value == v,
            old(self)@ is None ==> f.ensures((), *value),
    {
        if self.value.is_none() {
            let v = f();
            self.value = Some(v);
        }
        match &self.value {
            Some(v) => v,
            None => unreached(),
        }
    }
}

/// A group of values initialized once each, by key.
pub struct OnceMap<K, V> {
    map: HashMap<K, V>,
}

impl<K, V> View for OnceMap<K, V> {
    type V = Map<K, V>;

    closed spec fn view(&self) -> Map<K, V> {
        self.map@
    }
}

impl<K: Eq + Hash + Clone, V> OnceMap<K, V> {
    /// A group with no value initialized.
    pub fn new() -> (m: Self)
        ensures
            m@ == Map::<K, V>::empty(),
    {
        OnceMap { map: HashMap::new() }
    }

    /// The value for `key`, initializing it with `f` applied to the key if nobody has yet;
    /// `f` runs only then.
    pub fn get_or_init<F: FnOnce(&K) -> V>(&mut self, key: K, f: F) -> (value: &V)
        requires
            obeys_key_model::<K>(),
            forall|a: K, b: K| #[trigger] strictly_cloned(a, b) ==> a == b,
            !old(self)@.contains_key(key) ==> f.requires((&key,)),
        ensures
            final(self)@.contains_key(key),
            final(self)@[key] == *value,
            old(self)@.contains_key(key) ==> final(self)@ == old(self)@,
            !old(self)@.contains_key(key) ==> f.ensures((&key,), *value) && final(self)@
                == old(self)@.insert(key, *value),
    {
        if !self.map.contains_key(&key) {
            let v = f(&key);
            let k = key.clone();
            proof {
                assert(strictly_cloned(key, k));
            }
            self.map.insert(k, v);
        }
        match self.map.get(&key) {
            Some(v) => v,
            None => unreached(),
        }
    }
}

} // verus!
