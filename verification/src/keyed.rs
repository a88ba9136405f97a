//! A map from string keys to values, kept as a vector of entries with
//! distinct keys. Its view is a `Map` over the keys' characters.
use vstd::prelude::*;
use crate::text::str_eq;

verus! {

/// No two entries share a key.
pub open spec fn keys_unique<V>(s: Seq<(String, V)>) -> bool {
    forall|i: int, j: int|
        0 <= i < s.len() && 0 <= j < s.len() && i != j ==> (#[trigger] s[i]).0@ != (#[trigger] s[j]).0@
}

/// Some entry has key `k`.
pub open spec fn seq_has_key<V>(s: Seq<(String, V)>, k: Seq<char>) -> bool {
    exists|i: int| 0 <= i < s.len() && (#[trigger] s[i]).0@ == k
}

/// An index of an entry with key `k` (the only one when keys are unique).
pub open spec fn seq_key_index<V>(s: Seq<(String, V)>, k: Seq<char>) -> int {
    choose|i: int| 0 <= i < s.len() && (#[trigger] s[i]).0@ == k
}

/// The map that a sequence of entries with distinct keys stands for.
pub open spec fn seq_to_map<V>(s: Seq<(String, V)>) -> Map<Seq<char>, V> {
    Map::new(|k: Seq<char>| seq_has_key(s, k), |k: Seq<char>| s[seq_key_index(s, k)].1)
}

pub proof fn lemma_key_index<V>(s: Seq<(String, V)>, i: int)
    requires
        keys_unique(s),
        0 <= i < s.len(),
    ensures
        seq_has_key(s, s[i].0@),
        seq_key_index(s, s[i].0@) == i,
        seq_to_map(s).contains_key(s[i].0@),
        seq_to_map(s)[s[i].0@] == s[i].1,
{
    assert(seq_has_key(s, s[i].0@));
    let j = seq_key_index(s, s[i].0@);
    assert(s[j].0@ == s[i].0@);
}

pub proof fn lemma_push_map<V>(s: Seq<(String, V)>, key: String, value: V)
    requires
        keys_unique(s),
        !seq_has_key(s, key@),
    ensures
        keys_unique(s.push((key, value))),
        seq_to_map(s.push((key, value))) =~= seq_to_map(s).insert(key@, value),
{
    let t = s.push((key, value));
    assert forall|i: int, j: int|
        0 <= i < t.len() && 0 <= j < t.len() && i != j implies (#[trigger] t[i]).0@ != (
        #[trigger] t[j]).0@ by {
        if i < s.len() && j < s.len() {
            assert(t[i] == s[i] && t[j] == s[j]);
        } else if i < s.len() {
            assert(t[i] == s[i]);
        } else {
            assert(t[j] == s[j]);
        }
    }
    assert forall|k: Seq<char>| seq_has_key(t, k) <==> (seq_has_key(s, k) || k == key@) by {
        if seq_has_key(s, k) {
            let i = choose|i: int| 0 <= i < s.len() && (#[trigger] s[i]).0@ == k;
            assert(t[i] == s[i]);
        }
        if k == key@ {
            assert(t[s.len() as int].0@ == k);
        }
        if seq_has_key(t, k) {
            let i = choose|i: int| 0 <= i < t.len() && (#[trigger] t[i]).0@ == k;
            if i < s.len() {
                assert(t[i] == s[i]);
            }
        }
    }
    assert forall|k: Seq<char>| #[trigger]
        seq_to_map(t).contains_key(k) implies seq_to_map(t)[k] == seq_to_map(s).insert(
        key@,
        value,
    )[k] by {
        let i = seq_key_index(t, k);
        lemma_key_index(t, i);
        if k == key@ {
            lemma_key_index(t, s.len() as int);
        } else {
            assert(i < s.len());
            assert(t[i] == s[i]);
            lemma_key_index(s, i);
        }
    }
}

pub proof fn lemma_update_map<V>(s: Seq<(String, V)>, i: int, key: String, value: V)
    requires
        keys_unique(s),
        0 <= i < s.len(),
        key@ == s[i].0@,
    ensures
        keys_unique(s.update(i, (key, value))),
        seq_to_map(s.update(i, (key, value))) =~= seq_to_map(s).insert(s[i].0@, value),
{
    let t = s.update(i, (key, value));
    assert forall|a: int, b: int|
        0 <= a < t.len() && 0 <= b < t.len() && a != b implies (#[trigger] t[a]).0@ != (
        #[trigger] t[b]).0@ by {
        assert(t[a].0@ == s[a].0@ && t[b].0@ == s[b].0@);
    }
    assert forall|k: Seq<char>| seq_has_key(t, k) <==> seq_has_key(s, k) by {
        if seq_has_key(s, k) {
            let a = choose|a: int| 0 <= a < s.len() && (#[trigger] s[a]).0@ == k;
            assert(t[a].0@ == s[a].0@);
        }
        if seq_has_key(t, k) {
            let a = choose|a: int| 0 <= a < t.len() && (#[trigger] t[a]).0@ == k;
            assert(t[a].0@ == s[a].0@);
        }
    }
    lemma_key_index(s, i);
    assert forall|k: Seq<char>| #[trigger]
        seq_to_map(t).contains_key(k) implies seq_to_map(t)[k] == seq_to_map(s).insert(
        s[i].0@,
        value,
    )[k] by {
        let a = seq_key_index(t, k);
        lemma_key_index(t, a);
        if a == i {
        } else {
            assert(t[a] == s[a]);
            lemma_key_index(s, a);
        }
    }
}

pub proof fn lemma_remove_map<V>(s: Seq<(String, V)>, i: int)
    requires
        keys_unique(s),
        0 <= i < s.len(),
    ensures
        keys_unique(s.remove(i)),
        seq_to_map(s.remove(i)) =~= seq_to_map(s).remove(s[i].0@),
{
    let t = s.remove(i);
    assert forall|a: int, b: int|
        0 <= a < t.len() && 0 <= b < t.len() && a != b implies (#[trigger] t[a]).0@ != (
        #[trigger] t[b]).0@ by {
        let a2 = if a < i { a } else { a + 1 };
        let b2 = if b < i { b } else { b + 1 };
        assert(t[a] == s[a2] && t[b] == s[b2]);
    }
    assert forall|k: Seq<char>| seq_has_key(t, k) <==> (seq_has_key(s, k) && k != s[i].0@) by {
        if seq_has_key(s, k) && k != s[i].0@ {
            let a = choose|a: int| 0 <= a < s.len() && (#[trigger] s[a]).0@ == k;
            assert(a != i);
            if a < i {
                assert(t[a] == s[a]);
            } else {
                assert(t[a - 1] == s[a]);
            }
        }
        if seq_has_key(t, k) {
            let a = choose|a: int| 0 <= a < t.len() && (#[trigger] t[a]).0@ == k;
            let a2 = if a < i { a } else { a + 1 };
            assert(t[a] == s[a2]);
            assert(a2 != i);
        }
    }
    assert forall|k: Seq<char>| #[trigger]
        seq_to_map(t).contains_key(k) implies seq_to_map(t)[k] == seq_to_map(s).remove(
        s[i].0@,
    )[k] by {
        let a = seq_key_index(t, k);
        lemma_key_index(t, a);
        let a2 = if a < i { a } else { a + 1 };
        assert(t[a] == s[a2]);
        lemma_key_index(s, a2);
    }
}

/// A map from string keys to values, with entries in insertion order.
pub struct KeyedVec<V> {
    entries: Vec<(String, V)>,
}

impl<V> KeyedVec<V> {
    #[verifier::type_invariant]
    spec fn inv(&self) -> bool {
        keys_unique(self.entries@)
    }

    /// The entries, in insertion order.
    pub closed spec fn entries_seq(&self) -> Seq<(String, V)> {
        self.entries@
    }

    pub open spec fn view(&self) -> Map<Seq<char>, V> {
        seq_to_map(self.entries_seq())
    }

    /// The entries, in insertion order; their keys are distinct.
    pub fn entries(&self) -> (r: &Vec<(String, V)>)
        ensures
            r@ == self.entries_seq(),
            keys_unique(r@),
    {
        proof {
            use_type_invariant(self);
        }
        &self.entries
    }

    pub fn new() -> (r: Self)
        ensures
            r.entries_seq().len() == 0,
            r@ =~= Map::<Seq<char>, V>::empty(),
    {
        KeyedVec { entries: Vec::new() }
    }

    pub fn len(&self) -> (r: usize)
        ensures
            r == self.entries_seq().len(),
            r == self@.dom().len(),
    {
        proof {
            use_type_invariant(self);
            lemma_map_len(self.entries@);
        }
        self.entries.len()
    }

    /// The position of the entry with key `key`, if there is one.
    pub fn find(&self, key: &str) -> (r: Option<usize>)
        ensures
            r is None <==> !self@.contains_key(key@),
            r matches Some(i) ==> i < self.entries_seq().len() && self.entries_seq()[i as int].0@
                == key@ && self@[key@] == self.entries_seq()[i as int].1 && i == seq_key_index(
                self.entries_seq(),
                key@,
            ),
    {
        proof {
            use_type_invariant(self);
        }
        let n = self.entries.len();
        let mut i: usize = 0;
        while i < n
            invariant
                keys_unique(self.entries@),
                n == self.entries@.len(),
                i <= n,
                forall|j: int| 0 <= j < i ==> (#[trigger] self.entries@[j]).0@ != key@,
            decreases n - i,
        {
            if str_eq(self.entries[i].0.as_str(), key) {
                proof {
                    lemma_key_index(self.entries@, i as int);
                }
                return Some(i);
            }
            i = i + 1;
        }
        None
    }

    pub fn contains_key(&self, key: &str) -> (r: bool)
        ensures
            r == self@.contains_key(key@),
    {
        self.find(key).is_some()
    }

    pub fn get(&self, key: &str) -> (r: Option<&V>)
        ensures
            r is None <==> !self@.contains_key(key@),
            r matches Some(v) ==> *v == self@[key@],
    {
        match self.find(key) {
            Some(i) => Some(&self.entries[i].1),
            None => None,
        }
    }

    /// Sets the value at `key`, adding the key at the end when it is new.
    pub fn insert(&mut self, key: String, value: V)
        ensures
            final(self)@ =~= old(self)@.insert(key@, value),
            old(self)@.contains_key(key@) ==> final(self).entries_seq() == old(self).entries_seq().update(
                seq_key_index(old(self).entries_seq(), key@),
                (key, value),
            ),
            !old(self)@.contains_key(key@) ==> final(self).entries_seq() == old(
                self,
            ).entries_seq().push((key, value)),
            keys_unique(final(self).entries_seq()),
    {
        proof {
            use_type_invariant(&*self);
        }
        match self.find(key.as_str()) {
            Some(i) => {
                proof {
                    lemma_update_map(self.entries@, i as int, key, value);
                }
                let mut entries = Vec::new();
                std::mem::swap(&mut entries, &mut self.entries);
                entries.set(i, (key, value));
                self.entries = entries;
            },
            None => {
                proof {
                    lemma_push_map(self.entries@, key, value);
                }
                let mut entries = Vec::new();
                std::mem::swap(&mut entries, &mut self.entries);
                entries.push((key, value));
                self.entries = entries;
            },
        }
    }

    /// Puts `value` at `key`, keeping the entry's position, and gives back the
    /// value it held. Returns `None`, and changes nothing, when `key` is absent.
    pub fn replace(&mut self, key: &str, value: V) -> (r: Option<V>)
        ensures
            r is None <==> !old(self)@.contains_key(key@),
            r is None ==> final(self)@ == old(self)@,
            r matches Some(v) ==> v == old(self)@[key@] && final(self)@ =~= old(self)@.insert(
                key@,
                value,
            ),
            r is None ==> final(self).entries_seq() == old(self).entries_seq(),
            keys_unique(old(self).entries_seq()),
            keys_unique(final(self).entries_seq()),
            r is Some ==> final(self).entries_seq() == old(self).entries_seq().update(
                seq_key_index(old(self).entries_seq(), key@),
                (old(self).entries_seq()[seq_key_index(old(self).entries_seq(), key@)].0, value),
            ),
    {
        proof {
            use_type_invariant(&*self);
        }
        match self.find(key) {
            Some(i) => {
                let mut entries = Vec::new();
                std::mem::swap(&mut entries, &mut self.entries);
                let (k, previous) = entries.remove(i);
                proof {
                    lemma_update_map(old(self).entries@, i as int, k, value);
                    assert(entries@.insert(i as int, (k, value)) =~= old(self).entries@.update(
                        i as int,
                        (k, value),
                    ));
                }
                entries.insert(i, (k, value));
                self.entries = entries;
                Some(previous)
            },
            None => None,
        }
    }

    /// Removes the entry with key `key`, if there is one.
    pub fn remove(&mut self, key: &str)
        ensures
            final(self)@ =~= old(self)@.remove(key@),
    {
        proof {
            use_type_invariant(&*self);
        }
        match self.find(key) {
            Some(i) => {
                proof {
                    lemma_remove_map(self.entries@, i as int);
                }
                let mut entries = Vec::new();
                std::mem::swap(&mut entries, &mut self.entries);
                entries.remove(i);
                self.entries = entries;
            },
            None => {},
        }
    }
}

pub proof fn lemma_map_len<V>(s: Seq<(String, V)>)
    requires
        keys_unique(s),
    ensures
        seq_to_map(s).dom().len() == s.len(),
        seq_to_map(s).dom().finite(),
    decreases s.len(),
{
    if s.len() == 0 {
        assert(seq_to_map(s).dom() =~= Set::empty());
    } else {
        let t = s.drop_last();
        assert(keys_unique(t)) by {
            assert forall|i: int, j: int|
                0 <= i < t.len() && 0 <= j < t.len() && i != j implies (#[trigger] t[i]).0@ != (
                #[trigger] t[j]).0@ by {
                assert(t[i] == s[i] && t[j] == s[j]);
            }
        }
        lemma_map_len(t);
        let last = s[s.len() - 1];
        assert(!seq_has_key(t, last.0@)) by {
            if seq_has_key(t, last.0@) {
                let i = choose|i: int| 0 <= i < t.len() && (#[trigger] t[i]).0@ == last.0@;
                assert(t[i] == s[i]);
            }
        }
        lemma_push_map(t, last.0, last.1);
        assert(t.push((last.0, last.1)) =~= s);
    }
}


pub proof fn lemma_insert_at_map<V>(s: Seq<(String, V)>, i: int, key: String, value: V)
    requires
        keys_unique(s),
        !seq_has_key(s, key@),
        0 <= i <= s.len(),
    ensures
        keys_unique(s.insert(i, (key, value))),
        seq_to_map(s.insert(i, (key, value))) =~= seq_to_map(s).insert(key@, value),
{
    let t = s.insert(i, (key, value));
    assert forall|a: int| 0 <= a < t.len() implies #[trigger] t[a] == (if a < i {
        s[a]
    } else if a == i {
        (key, value)
    } else {
        s[a - 1]
    }) by {}
    assert forall|a: int, b: int|
        0 <= a < t.len() && 0 <= b < t.len() && a != b implies (#[trigger] t[a]).0@ != (
        #[trigger] t[b]).0@ by {
        if a != i && b != i {
            let a2 = if a < i { a } else { a - 1 };
            let b2 = if b < i { b } else { b - 1 };
            assert(t[a] == s[a2] && t[b] == s[b2]);
        } else if a == i {
            let b2 = if b < i { b } else { b - 1 };
            assert(t[b] == s[b2]);
        } else {
            let a2 = if a < i { a } else { a - 1 };
            assert(t[a] == s[a2]);
        }
    }
    assert forall|k: Seq<char>| seq_has_key(t, k) <==> (seq_has_key(s, k) || k == key@) by {
        if seq_has_key(s, k) {
            let a = choose|a: int| 0 <= a < s.len() && (#[trigger] s[a]).0@ == k;
            if a < i {
                assert(t[a] == s[a]);
            } else {
                assert(t[a + 1] == s[a]);
            }
        }
        if k == key@ {
            assert(t[i].0@ == k);
        }
        if seq_has_key(t, k) {
            let a = choose|a: int| 0 <= a < t.len() && (#[trigger] t[a]).0@ == k;
            if a < i {
                assert(t[a] == s[a]);
            } else if a > i {
                assert(t[a] == s[a - 1]);
            }
        }
    }
    assert forall|k: Seq<char>| #[trigger]
        seq_to_map(t).contains_key(k) implies seq_to_map(t)[k] == seq_to_map(s).insert(
        key@,
        value,
    )[k] by {
        let a = seq_key_index(t, k);
        lemma_key_index(t, a);
        if a == i {
        } else {
            let a2 = if a < i { a } else { a - 1 };
            assert(t[a] == s[a2]);
            lemma_key_index(s, a2);
        }
    }
}

} // verus!
