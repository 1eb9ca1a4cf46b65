//! An insertion-ordered map from text keys to values.
//!
//! The documents of the application map note paths, palette keys and window
//! labels to values. A `Table` keeps such a map as a list of entries in which
//! no key occurs twice, so that every lookup has one answer and the order of
//! the entries is the order in which their keys were first inserted.

use vstd::prelude::*;

verus! {

/// The keys of the entries `s`, in order.
pub open spec fn keys_of<V>(s: Seq<(Seq<char>, V)>) -> Seq<Seq<char>> {
    s.map_values(|e: (Seq<char>, V)| e.0)
}

/// Some entry of `s` has the key `key`.
pub open spec fn has_key<V>(s: Seq<(Seq<char>, V)>, key: Seq<char>) -> bool {
    exists|i: int| 0 <= i < s.len() && (#[trigger] s[i]).0 == key
}

/// The index of an entry of `s` with the key `key`; where no key occurs
/// twice it is the only one.
pub open spec fn index_of_key<V>(s: Seq<(Seq<char>, V)>, key: Seq<char>) -> int {
    choose|i: int| 0 <= i < s.len() && (#[trigger] s[i]).0 == key
}

/// The value stored in `s` under `key`.
pub open spec fn value_of<V>(s: Seq<(Seq<char>, V)>, key: Seq<char>) -> Option<V> {
    if has_key(s, key) {
        Some(s[index_of_key(s, key)].1)
    } else {
        None
    }
}

/// No key occurs twice in `s`.
pub open spec fn distinct_keys<V>(s: Seq<(Seq<char>, V)>) -> bool {
    forall|i: int, j: int|
        0 <= i < s.len() && 0 <= j < s.len() && i != j ==> (#[trigger] s[i]).0 != (#[trigger] s[j]).0
}

/// `s` after storing `value` under `key`: in place where the key is there,
/// at the end where it is new.
pub open spec fn with_entry<V>(s: Seq<(Seq<char>, V)>, key: Seq<char>, value: V) -> Seq<
    (Seq<char>, V),
> {
    if has_key(s, key) {
        s.update(index_of_key(s, key), (key, value))
    } else {
        s.push((key, value))
    }
}

/// `s` without the entry under `key`.
pub open spec fn without_key<V>(s: Seq<(Seq<char>, V)>, key: Seq<char>) -> Seq<(Seq<char>, V)> {
    if has_key(s, key) {
        s.remove(index_of_key(s, key))
    } else {
        s
    }
}

/// Storing a value keeps the keys distinct, makes the key present with that
/// value, and leaves every other key as it was.
pub proof fn lemma_with_entry<V>(s: Seq<(Seq<char>, V)>, key: Seq<char>, value: V, other: Seq<char>)
    requires
        distinct_keys(s),
    ensures
        distinct_keys(with_entry(s, key, value)),
        has_key(with_entry(s, key, value), key),
        value_of(with_entry(s, key, value), key) == Some(value),
        other != key ==> has_key(with_entry(s, key, value), other) == has_key(s, other),
        other != key ==> value_of(with_entry(s, key, value), other) == value_of(s, other),
{
    let t = with_entry(s, key, value);
    if has_key(s, key) {
        let i = index_of_key(s, key);
        assert(t[i].0 == key);
        assert forall|a: int, b: int| 0 <= a < t.len() && 0 <= b < t.len() && a != b implies (
        #[trigger] t[a]).0 != (#[trigger] t[b]).0 by {
            assert(t[a].0 == s[a].0);
            assert(t[b].0 == s[b].0);
        }
    } else {
        assert(t[s.len() as int].0 == key);
        assert forall|a: int, b: int| 0 <= a < t.len() && 0 <= b < t.len() && a != b implies (
        #[trigger] t[a]).0 != (#[trigger] t[b]).0 by {
            if a < s.len() {
                assert(t[a] == s[a]);
            }
            if b < s.len() {
                assert(t[b] == s[b]);
            }
        }
    }
    assert(has_key(t, key));
    let at = index_of_key(t, key);
    if has_key(s, key) {
        assert(t[index_of_key(s, key)].0 == key);
    } else {
        assert(t[s.len() as int].0 == key);
    }
    assert(t[at].1 == value) by {
        if has_key(s, key) {
            let i = index_of_key(s, key);
            if at != i {
                assert(t[at].0 != t[i].0);
            }
        } else {
            if at != s.len() {
                assert(t[at].0 != t[s.len() as int].0);
            }
        }
    }
    if other != key {
        if has_key(s, other) {
            let j = index_of_key(s, other);
            assert(t[j] == s[j]);
            assert(has_key(t, other));
            let k = index_of_key(t, other);
            if k != j {
                assert(t[k].0 != t[j].0);
            }
        }
        if has_key(t, other) {
            let k = index_of_key(t, other);
            assert(k < s.len() && s[k] == t[k]) by {
                if !has_key(s, key) && k == s.len() {
                    assert(t[k].0 == key);
                }
                if has_key(s, key) && k == index_of_key(s, key) {
                    assert(t[k].0 == key);
                }
            }
            assert(has_key(s, other));
            let j = index_of_key(s, other);
            if k != j {
                assert(s[k].0 != s[j].0);
            }
        }
    }
}

/// Removing a key keeps the keys distinct, makes the key absent, and leaves
/// every other key as it was.
pub proof fn lemma_without_key<V>(s: Seq<(Seq<char>, V)>, key: Seq<char>, other: Seq<char>)
    requires
        distinct_keys(s),
    ensures
        distinct_keys(without_key(s, key)),
        !has_key(without_key(s, key), key),
        value_of(without_key(s, key), key) is None,
        other != key ==> has_key(without_key(s, key), other) == has_key(s, other),
        other != key ==> value_of(without_key(s, key), other) == value_of(s, other),
{
    let t = without_key(s, key);
    if has_key(s, key) {
        let i = index_of_key(s, key);
        assert forall|a: int| 0 <= a < t.len() implies #[trigger] t[a] == s[if a < i {
            a
        } else {
            a + 1
        }] by {}
        assert forall|a: int, b: int| 0 <= a < t.len() && 0 <= b < t.len() && a != b implies (
        #[trigger] t[a]).0 != (#[trigger] t[b]).0 by {
            let sa = if a < i {
                a
            } else {
                a + 1
            };
            let sb = if b < i {
                b
            } else {
                b + 1
            };
            assert(t[a] == s[sa]);
            assert(t[b] == s[sb]);
            assert(s[sa].0 != s[sb].0);
        }
        if has_key(t, key) {
            let k = index_of_key(t, key);
            let sk = if k < i {
                k
            } else {
                k + 1
            };
            assert(t[k] == s[sk]);
            assert(s[sk].0 != s[i].0);
        }
        if other != key {
            if has_key(s, other) {
                let j = index_of_key(s, other);
                let tj = if j < i {
                    j
                } else {
                    j - 1
                };
                assert(t[tj] == s[j]);
                assert(has_key(t, other));
                let k = index_of_key(t, other);
                if k != tj {
                    assert(t[k].0 != t[tj].0);
                }
            }
            if has_key(t, other) {
                let k = index_of_key(t, other);
                let sk = if k < i {
                    k
                } else {
                    k + 1
                };
                assert(t[k] == s[sk]);
                assert(has_key(s, other));
                let j = index_of_key(s, other);
                if j != sk {
                    assert(s[j].0 != s[sk].0);
                }
            }
        }
    }
}

/// An insertion-ordered map from text keys to values.
pub struct Table<V> {
    entries: Vec<(String, V)>,
}

impl<V> View for Table<V> {
    type V = Seq<(Seq<char>, V)>;

    /// The entries, in insertion order, each key by its characters.
    closed spec fn view(&self) -> Seq<(Seq<char>, V)> {
        self.entries@.map_values(|e: (String, V)| (e.0@, e.1))
    }
}

impl<V: Clone> Clone for Table<V> {
    /// A table with the same keys in the same order, each with a copy of its
    /// value.
    fn clone(&self) -> (copy: Self)
        ensures
            keys_of(copy@) == keys_of(self@),
            forall|i: int| 0 <= i < self@.len() ==> cloned(self@[i].1, #[trigger] copy@[i].1),
    {
        proof {
            use_type_invariant(self);
        }
        let mut entries: Vec<(String, V)> = Vec::new();
        let mut i: usize = 0;
        while i < self.entries.len()
            invariant
                i <= self.entries@.len(),
                entries@.len() == i,
                forall|j: int| 0 <= j < i ==> (#[trigger] entries@[j]).0@ == self.entries@[j].0@,
                forall|j: int|
                    0 <= j < i ==> cloned(self.entries@[j].1, (#[trigger] entries@[j]).1),
            decreases self.entries@.len() - i,
        {
            entries.push((self.entries[i].0.clone(), self.entries[i].1.clone()));
            i += 1;
        }
        let ghost view = entries@.map_values(|e: (String, V)| (e.0@, e.1));
        assert(keys_of(view) =~= keys_of(self@));
        assert forall|a: int, b: int| 0 <= a < view.len() && 0 <= b < view.len() && a != b implies (
        #[trigger] view[a]).0 != (#[trigger] view[b]).0 by {
            assert(view[a].0 == self@[a].0);
            assert(view[b].0 == self@[b].0);
        }
        let copy = Table { entries };
        assert forall|i: int| 0 <= i < self@.len() implies cloned(
            self@[i].1,
            #[trigger] copy@[i].1,
        ) by {
            assert(copy@[i].1 == entries@[i].1);
        }
        copy
    }
}

impl<V> Table<V> {
    #[verifier::type_invariant]
    spec fn well_formed(self) -> bool {
        distinct_keys(self@)
    }

    /// The empty table.
    pub fn new() -> (t: Self)
        ensures
            t@ == Seq::<(Seq<char>, V)>::empty(),
    {
        let t = Table { entries: Vec::new() };
        assert(t@ =~= Seq::<(Seq<char>, V)>::empty());
        t
    }

    /// The number of entries. In every table, no key occurs twice.
    pub fn len(&self) -> (n: usize)
        ensures
            n == self@.len(),
            distinct_keys(self@),
    {
        proof {
            use_type_invariant(self);
        }
        self.entries.len()
    }

    /// The index of the entry under `key`.
    pub fn find(&self, key: &str) -> (r: Option<usize>)
        ensures
            r is Some <==> has_key(self@, key@),
            r matches Some(i) ==> i == index_of_key(self@, key@) && i < self@.len() && self@[i as int].0
                == key@,
    {
        proof {
            use_type_invariant(self);
        }
        let wanted = key.to_owned();
        let mut i: usize = 0;
        while i < self.entries.len()
            invariant
                i <= self.entries@.len(),
                wanted@ == key@,
                distinct_keys(self@),
                forall|j: int| 0 <= j < i ==> (#[trigger] self@[j]).0 != key@,
            decreases self.entries.len() - i,
        {
            if self.entries[i].0 == wanted {
                assert(self@[i as int].0 == key@);
                return Some(i);
            }
            i += 1;
        }
        None
    }

    /// Whether an entry is stored under `key`.
    pub fn contains_key(&self, key: &str) -> (b: bool)
        ensures
            b == has_key(self@, key@),
    {
        self.find(key).is_some()
    }

    /// The value stored under `key`.
    pub fn get(&self, key: &str) -> (r: Option<&V>)
        ensures
            r == match value_of(self@, key@) {
                Some(v) => Some(&v),
                None => None,
            },
    {
        match self.find(key) {
            Some(i) => Some(&self.entries[i].1),
            None => None,
        }
    }

    /// The key of the entry at index `i`.
    pub fn key_at(&self, i: usize) -> (key: &String)
        requires
            i < self@.len(),
        ensures
            key@ == self@[i as int].0,
    {
        &self.entries[i].0
    }

    /// The value of the entry at index `i`.
    pub fn value_at(&self, i: usize) -> (value: &V)
        requires
            i < self@.len(),
        ensures
            *value == self@[i as int].1,
    {
        &self.entries[i].1
    }

    /// The keys, in order.
    pub fn keys(&self) -> (out: Vec<String>)
        ensures
            out@.map_values(|key: String| key@) == keys_of(self@),
    {
        let mut out: Vec<String> = Vec::new();
        let mut i: usize = 0;
        while i < self.entries.len()
            invariant
                i <= self.entries@.len(),
                out@.len() == i,
                forall|j: int| 0 <= j < i ==> (#[trigger] out@[j])@ == self.entries@[j].0@,
            decreases self.entries@.len() - i,
        {
            out.push(self.entries[i].0.clone());
            i += 1;
        }
        assert(out@.map_values(|key: String| key@) =~= keys_of(self@));
        out
    }

    /// Stores `value` under `key` and returns the value that was there.
    pub fn insert(&mut self, key: String, value: V) -> (previous: Option<V>)
        ensures
            final(self)@ == with_entry(old(self)@, key@, value),
            previous == value_of(old(self)@, key@),
            distinct_keys(old(self)@),
            distinct_keys(final(self)@),
    {
        proof {
            use_type_invariant(&*self);
        }
        let found = self.find(key.as_str());
        let ghost before = self@;
        let mut entries: Vec<(String, V)> = Vec::new();
        assert(entries@.map_values(|e: (String, V)| (e.0@, e.1)) =~= Seq::empty());
        core::mem::swap(&mut self.entries, &mut entries);
        let previous = match found {
            Some(i) => {
                let old_entry = entries.remove(i);
                entries.insert(i, (key, value));
                assert(entries@.map_values(|e: (String, V)| (e.0@, e.1)) =~= before.update(
                    i as int,
                    (key@, value),
                ));
                Some(old_entry.1)
            },
            None => {
                entries.push((key, value));
                assert(entries@.map_values(|e: (String, V)| (e.0@, e.1)) =~= before.push(
                    (key@, value),
                ));
                None
            },
        };
        core::mem::swap(&mut self.entries, &mut entries);
        previous
    }

    /// Removes the entry under `key` and returns its value.
    pub fn remove(&mut self, key: &str) -> (previous: Option<V>)
        ensures
            final(self)@ == without_key(old(self)@, key@),
            previous == value_of(old(self)@, key@),
            distinct_keys(old(self)@),
            distinct_keys(final(self)@),
    {
        proof {
            use_type_invariant(&*self);
        }
        let found = self.find(key);
        let ghost before = self@;
        match found {
            Some(i) => {
                let mut entries: Vec<(String, V)> = Vec::new();
                assert(entries@.map_values(|e: (String, V)| (e.0@, e.1)) =~= Seq::empty());
                core::mem::swap(&mut self.entries, &mut entries);
                let old_entry = entries.remove(i);
                assert(entries@.map_values(|e: (String, V)| (e.0@, e.1)) =~= before.remove(
                    i as int,
                ));
                core::mem::swap(&mut self.entries, &mut entries);
                Some(old_entry.1)
            },
            None => None,
        }
    }
}

} // verus!
