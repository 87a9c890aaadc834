//! A small map from identifiers to values that remembers the order in which
//! its keys were first inserted.

use vstd::prelude::*;
use crate::text::text_eq;

verus! {

/// The entries of a map, oldest key first: pairs of a key and a value.
pub type Entries<T> = Seq<(Seq<char>, T)>;

/// Some entry of `s` has the key `k`.
pub open spec fn has_key<T>(s: Entries<T>, k: Seq<char>) -> bool {
    exists|i: int| 0 <= i < s.len() && (#[trigger] s[i]).0 == k
}

/// The place of an entry with the key `k`, where there is one.
pub open spec fn index_of_key<T>(s: Entries<T>, k: Seq<char>) -> int {
    choose|i: int| 0 <= i < s.len() && (#[trigger] s[i]).0 == k
}

/// No key occurs twice.
pub open spec fn distinct_keys<T>(s: Entries<T>) -> bool {
    forall|i: int, j: int|
        0 <= i < s.len() && 0 <= j < s.len() && i != j ==> (#[trigger] s[i]).0 != (#[trigger] s[j]).0
}

/// The value stored under `k`, if any.
pub open spec fn value_of<T>(s: Entries<T>, k: Seq<char>) -> Option<T> {
    if has_key(s, k) {
        Some(s[index_of_key(s, k)].1)
    } else {
        None
    }
}

/// `s` after `v` was stored under `k`: an entry with that key is overwritten
/// in place, a new key is appended.
pub open spec fn put<T>(s: Entries<T>, k: Seq<char>, v: T) -> Entries<T> {
    if has_key(s, k) {
        s.update(index_of_key(s, k), (k, v))
    } else {
        s.push((k, v))
    }
}

/// `s` without the entry under `k`; unchanged where there is none.
pub open spec fn del<T>(s: Entries<T>, k: Seq<char>) -> Entries<T> {
    if has_key(s, k) {
        s.remove(index_of_key(s, k))
    } else {
        s
    }
}

/// Storing keeps the keys distinct, makes the key present with the new
/// value, and leaves every other key as it was.
pub proof fn lemma_put<T>(s: Entries<T>, k: Seq<char>, v: T)
    requires
        distinct_keys(s),
    ensures
        distinct_keys(put(s, k, v)),
        has_key(put(s, k, v), k),
        value_of(put(s, k, v), k) == Some(v),
        forall|other: Seq<char>|
            other != k ==> has_key(put(s, k, v), other) == has_key(s, other) && value_of(
                put(s, k, v),
                other,
            ) == value_of(s, other),
        put(s, k, v).len() == if has_key(s, k) {
            s.len()
        } else {
            s.len() + 1
        },
{
    let t = put(s, k, v);
    let at = if has_key(s, k) {
        index_of_key(s, k)
    } else {
        s.len() as int
    };
    assert(t[at] == (k, v));
    assert forall|i: int| 0 <= i < t.len() && i != at implies #[trigger] t[i] == s[i] by {}
    assert(distinct_keys(t));
    assert(has_key(t, k));
    assert(index_of_key(t, k) == at);
    assert forall|other: Seq<char>| other != k implies has_key(t, other) == has_key(s, other)
        && value_of(t, other) == value_of(s, other) by {
        if has_key(s, other) {
            let i = index_of_key(s, other);
            assert(t[i] == s[i]);
            assert(has_key(t, other));
            assert(index_of_key(t, other) == i);
        }
        if has_key(t, other) {
            let i = index_of_key(t, other);
            assert(t[i] == s[i]);
            assert(has_key(s, other));
            assert(index_of_key(s, other) == i);
        }
    }
}

/// Removing keeps the keys distinct, makes the key absent, and leaves every
/// other key as it was.
pub proof fn lemma_del<T>(s: Entries<T>, k: Seq<char>)
    requires
        distinct_keys(s),
    ensures
        distinct_keys(del(s, k)),
        !has_key(del(s, k), k),
        forall|other: Seq<char>|
            other != k ==> has_key(del(s, k), other) == has_key(s, other) && value_of(
                del(s, k),
                other,
            ) == value_of(s, other),
        del(s, k).len() == if has_key(s, k) {
            s.len() - 1
        } else {
            s.len() as int
        },
{
    let t = del(s, k);
    if has_key(s, k) {
        let at = index_of_key(s, k);
        assert forall|i: int| 0 <= i < t.len() implies #[trigger] t[i] == s[if i < at {
            i
        } else {
            i + 1
        }] by {}
        assert(distinct_keys(t));
        if has_key(t, k) {
            let i = index_of_key(t, k);
            assert(t[i] == s[if i < at {
                i
            } else {
                i + 1
            }]);
        }
        assert forall|other: Seq<char>| other != k implies has_key(t, other) == has_key(s, other)
            && value_of(t, other) == value_of(s, other) by {
            if has_key(s, other) {
                let i = index_of_key(s, other);
                let j = if i < at {
                    i
                } else {
                    i - 1
                };
                assert(t[j] == s[i]);
                assert(has_key(t, other));
                let j2 = index_of_key(t, other);
                assert(t[j2] == s[if j2 < at {
                    j2
                } else {
                    j2 + 1
                }]);
            }
            if has_key(t, other) {
                let j = index_of_key(t, other);
                let i = if j < at {
                    j
                } else {
                    j + 1
                };
                assert(t[j] == s[i]);
                assert(has_key(s, other));
                assert(index_of_key(s, other) == i);
            }
        }
    }
}

/// A map from identifiers to values, in the order in which the keys came.
#[derive(Debug)]
pub struct IdMap<V> {
    keys: Vec<String>,
    values: Vec<V>,
}

impl<V: View> View for IdMap<V> {
    type V = Entries<V::V>;

    closed spec fn view(&self) -> Entries<V::V> {
        Seq::new(self.keys@.len(), |i: int| (self.keys@[i]@, self.values@[i]@))
    }
}

impl<V> IdMap<V> {
    #[verifier::type_invariant]
    spec fn inv(self) -> bool {
        &&& self.keys@.len() == self.values@.len()
        &&& forall|i: int, j: int|
            0 <= i < self.keys@.len() && 0 <= j < self.keys@.len() && i != j
                ==> self.keys@[i]@ != self.keys@[j]@
    }
}

impl<V: View> IdMap<V> {

    /// A map without entries.
    pub fn new() -> (m: Self)
        ensures
            m@ == Entries::<V::V>::empty(),
    {
        let m = IdMap { keys: Vec::new(), values: Vec::new() };
        assert(m@ =~= Entries::<V::V>::empty());
        m
    }

    /// The number of entries.
    pub fn len(&self) -> (n: usize)
        ensures
            n == self@.len(),
            distinct_keys(self@),
    {
        proof {
            use_type_invariant(self);
        }
        self.keys.len()
    }

    /// Tells whether the map has no entry.
    pub fn is_empty(&self) -> (r: bool)
        ensures
            r == (self@.len() == 0),
    {
        self.keys.len() == 0
    }

    /// The key of the entry at place `i`.
    pub fn key_at(&self, i: usize) -> (k: &String)
        requires
            i < self@.len(),
        ensures
            k@ == self@[i as int].0,
    {
        &self.keys[i]
    }

    /// The value of the entry at place `i`.
    pub fn value_at(&self, i: usize) -> (v: &V)
        requires
            i < self@.len(),
        ensures
            v@ == self@[i as int].1,
    {
        proof {
            use_type_invariant(self);
        }
        &self.values[i]
    }

    /// The place of the entry under `key`, if there is one.
    pub fn position(&self, key: &str) -> (r: Option<usize>)
        ensures
            r is Some == has_key(self@, key@),
            r matches Some(i) ==> i == index_of_key(self@, key@) && i < self@.len(),
            distinct_keys(self@),
    {
        proof {
            use_type_invariant(self);
        }
        let mut i: usize = 0;
        while i < self.keys.len()
            invariant
                i <= self.keys@.len(),
                self.inv(),
                forall|j: int| 0 <= j < i ==> (#[trigger] self@[j]).0 != key@,
            decreases self.keys.len() - i,
        {
            if text_eq(self.keys[i].as_str(), key) {
                assert(self@[i as int].0 == key@);
                return Some(i);
            }
            i += 1;
        }
        None
    }

    /// Tells whether an entry is stored under `key`.
    pub fn contains_key(&self, key: &str) -> (r: bool)
        ensures
            r == has_key(self@, key@),
    {
        self.position(key).is_some()
    }

    /// The value stored under `key`, if any.
    pub fn get(&self, key: &str) -> (r: Option<&V>)
        ensures
            r is Some == has_key(self@, key@),
            r matches Some(v) ==> Some(v@) == value_of(self@, key@),
    {
        proof {
            use_type_invariant(self);
        }
        match self.position(key) {
            Some(i) => Some(&self.values[i]),
            None => None,
        }
    }

    /// Stores `value` under `key`. A value that was there is overwritten and
    /// the key keeps its place; a new key goes to the end.
    pub fn insert(&mut self, key: String, value: V)
        ensures
            final(self)@ == put(old(self)@, key@, value@),
            distinct_keys(old(self)@),
            distinct_keys(final(self)@),
    {
        let found = self.position(key.as_str());
        let mut taken = IdMap { keys: Vec::new(), values: Vec::new() };
        core::mem::swap(self, &mut taken);
        proof {
            use_type_invariant(&taken);
        }
        let IdMap { mut keys, mut values } = taken;
        match found {
            Some(i) => {
                values.set(i, value);
            },
            None => {
                assert forall|j: int| 0 <= j < keys@.len() implies keys@[j]@ != key@ by {
                    assert(old(self)@[j].0 == keys@[j]@);
                }
                keys.push(key);
                values.push(value);
            },
        }
        *self = IdMap { keys, values };
        assert(self@ =~= put(old(self)@, key@, value@));
        proof {
            lemma_put(old(self)@, key@, value@);
        }
    }

    /// Removes the entry at place `i`; the other entries keep their order.
    pub fn remove_at(&mut self, i: usize)
        requires
            i < old(self)@.len(),
        ensures
            final(self)@ == old(self)@.remove(i as int),
            distinct_keys(final(self)@),
    {
        let mut taken = IdMap { keys: Vec::new(), values: Vec::new() };
        core::mem::swap(self, &mut taken);
        proof {
            use_type_invariant(&taken);
        }
        let IdMap { mut keys, mut values } = taken;
        keys.remove(i);
        values.remove(i);
        *self = IdMap { keys, values };
        assert(self@ =~= old(self)@.remove(i as int));
    }

    /// Removes the entry under `key` and hands its value out; the other
    /// entries keep their order. Without such an entry nothing changes.
    pub fn remove(&mut self, key: &str) -> (r: Option<V>)
        ensures
            final(self)@ == del(old(self)@, key@),
            r is Some == has_key(old(self)@, key@),
            r matches Some(v) ==> Some(v@) == value_of(old(self)@, key@),
            distinct_keys(old(self)@),
            distinct_keys(final(self)@),
    {
        let found = self.position(key);
        proof {
            lemma_del(self@, key@);
        }
        match found {
            Some(i) => {
                let mut taken = IdMap { keys: Vec::new(), values: Vec::new() };
                core::mem::swap(self, &mut taken);
                proof {
                    use_type_invariant(&taken);
                }
                let IdMap { mut keys, mut values } = taken;
                keys.remove(i);
                let v = values.remove(i);
                *self = IdMap { keys, values };
                assert(self@ =~= del(old(self)@, key@));
                Some(v)
            },
            None => None,
        }
    }
}

} // verus!
