//! A map from string keys to values whose entries stay sorted by key, the
//! order in which `BTreeMap<String, _>` walks its entries.
use vstd::prelude::*;
use crate::keyed::{
    keys_unique, lemma_insert_at_map, lemma_key_index, lemma_remove_map, lemma_update_map, seq_has_key,
    seq_to_map,
};
use crate::text::{lemma_seq_lt_irreflexive, lemma_seq_lt_total, lemma_seq_lt_transitive, seq_lt, str_eq, str_lt};

verus! {

/// Keys strictly increase along the sequence.
pub open spec fn keys_sorted<V>(s: Seq<(String, V)>) -> bool {
    forall|i: int, j: int| 0 <= i < j < s.len() ==> seq_lt((#[trigger] s[i]).0@, (#[trigger] s[j]).0@)
}

pub proof fn lemma_sorted_unique<V>(s: Seq<(String, V)>)
    requires
        keys_sorted(s),
    ensures
        keys_unique(s),
{
    assert forall|i: int, j: int|
        0 <= i < s.len() && 0 <= j < s.len() && i != j implies (#[trigger] s[i]).0@ != (
        #[trigger] s[j]).0@ by {
        lemma_seq_lt_irreflexive(s[i].0@);
    }
}

/// Names strictly increase along the sequence.
pub open spec fn names_sorted(s: Seq<Seq<char>>) -> bool {
    forall|i: int, j: int| 0 <= i < j < s.len() ==> seq_lt(#[trigger] s[i], #[trigger] s[j])
}

/// The keys of the entries, in order.
pub open spec fn keys_of<V>(s: Seq<(String, V)>) -> Seq<Seq<char>> {
    s.map_values(|e: (String, V)| e.0@)
}

/// Two name lists in strictly increasing order that hold the same names are
/// the same list: a set of names has one sorted listing.
pub proof fn lemma_sorted_names_determined(a: Seq<Seq<char>>, b: Seq<Seq<char>>)
    requires
        names_sorted(a),
        names_sorted(b),
        forall|k: Seq<char>| a.contains(k) <==> b.contains(k),
    ensures
        a == b,
    decreases a.len() + b.len(),
{
    if a.len() == 0 {
        if b.len() > 0 {
            assert(b.contains(b[0]));
        }
        assert(a =~= b);
    } else if b.len() == 0 {
        assert(a.contains(a[0]));
    } else {
        let x = a.last();
        let y = b.last();
        assert(a.contains(x));
        assert(b.contains(y));
        let j = choose|j: int| 0 <= j < b.len() && b[j] == x;
        let i = choose|i: int| 0 <= i < a.len() && a[i] == y;
        if x != y {
            lemma_seq_lt_total(x, y);
            if seq_lt(x, y) {
                // y is in a, below its last element x
                assert(i < a.len() - 1);
                lemma_seq_lt_transitive(x, y, x);
                lemma_seq_lt_irreflexive(x);
            } else {
                assert(j < b.len() - 1);
                lemma_seq_lt_transitive(y, x, y);
                lemma_seq_lt_irreflexive(y);
            }
        }
        let a2 = a.drop_last();
        let b2 = b.drop_last();
        assert forall|k: Seq<char>| a2.contains(k) implies b2.contains(k) by {
            let p = choose|p: int| 0 <= p < a2.len() && a2[p] == k;
            assert(a[p] == k);
            assert(seq_lt(a[p], a[a.len() - 1]));
            lemma_seq_lt_irreflexive(k);
            assert(a.contains(k));
            let q = choose|q: int| 0 <= q < b.len() && b[q] == k;
            assert(q != b.len() - 1);
            assert(b2[q] == k);
        }
        assert forall|k: Seq<char>| b2.contains(k) implies a2.contains(k) by {
            let p = choose|p: int| 0 <= p < b2.len() && b2[p] == k;
            assert(b[p] == k);
            assert(seq_lt(b[p], b[b.len() - 1]));
            lemma_seq_lt_irreflexive(k);
            assert(b.contains(k));
            let q = choose|q: int| 0 <= q < a.len() && a[q] == k;
            assert(q != a.len() - 1);
            assert(a2[q] == k);
        }
        assert(names_sorted(a2)) by {
            assert forall|p: int, q: int| 0 <= p < q < a2.len() implies seq_lt(
                #[trigger] a2[p],
                #[trigger] a2[q],
            ) by {
                assert(a2[p] == a[p] && a2[q] == a[q]);
            }
        }
        assert(names_sorted(b2)) by {
            assert forall|p: int, q: int| 0 <= p < q < b2.len() implies seq_lt(
                #[trigger] b2[p],
                #[trigger] b2[q],
            ) by {
                assert(b2[p] == b[p] && b2[q] == b[q]);
            }
        }
        lemma_sorted_names_determined(a2, b2);
        assert(a =~= a2.push(x));
        assert(b =~= b2.push(y));
    }
}

/// Entries in key order list their keys in strictly increasing order.
pub proof fn lemma_keys_of_sorted<V>(s: Seq<(String, V)>)
    requires
        keys_sorted(s),
    ensures
        names_sorted(keys_of(s)),
        keys_of(s).len() == s.len(),
        forall|k: Seq<char>| keys_of(s).contains(k) <==> seq_to_map(s).contains_key(k),
{
    let ks = keys_of(s);
    assert forall|i: int, j: int| 0 <= i < j < ks.len() implies seq_lt(#[trigger] ks[i], #[trigger] ks[j]) by {
        assert(ks[i] == s[i].0@ && ks[j] == s[j].0@);
    }
    assert forall|k: Seq<char>| ks.contains(k) <==> seq_to_map(s).contains_key(k) by {
        if ks.contains(k) {
            let i = choose|i: int| 0 <= i < ks.len() && ks[i] == k;
            assert(s[i].0@ == k);
            assert(seq_has_key(s, k));
        }
        if seq_to_map(s).contains_key(k) {
            assert(seq_has_key(s, k));
            let i = choose|i: int| 0 <= i < s.len() && (#[trigger] s[i]).0@ == k;
            assert(ks[i] == k);
        }
    }
}

/// A map from string keys to values, with entries in key order.
pub struct OrderedMap<V> {
    entries: Vec<(String, V)>,
}

impl<V> OrderedMap<V> {
    #[verifier::type_invariant]
    spec fn inv(&self) -> bool {
        keys_sorted(self.entries@)
    }

    /// The entries, in key order.
    pub closed spec fn entries_seq(&self) -> Seq<(String, V)> {
        self.entries@
    }

    pub open spec fn view(&self) -> Map<Seq<char>, V> {
        seq_to_map(self.entries_seq())
    }

    pub fn new() -> (r: Self)
        ensures
            r.entries_seq().len() == 0,
            keys_sorted(r.entries_seq()),
            r@ =~= Map::<Seq<char>, V>::empty(),
    {
        OrderedMap { entries: Vec::new() }
    }

    /// The entries, in key order.
    pub fn entries(&self) -> (r: &Vec<(String, V)>)
        ensures
            r@ == self.entries_seq(),
            keys_sorted(r@),
            keys_unique(r@),
    {
        proof {
            use_type_invariant(self);
            lemma_sorted_unique(self.entries@);
        }
        &self.entries
    }

    pub fn len(&self) -> (r: usize)
        ensures
            r == self.entries_seq().len(),
    {
        self.entries.len()
    }

    pub fn get(&self, key: &str) -> (r: Option<&V>)
        ensures
            r is None <==> !self@.contains_key(key@),
            r matches Some(v) ==> *v == self@[key@],
            keys_sorted(self.entries_seq()),
    {
        proof {
            use_type_invariant(self);
            lemma_sorted_unique(self.entries@);
        }
        let n = self.entries.len();
        let mut i: usize = 0;
        while i < n
            invariant
                keys_unique(self.entries@),
                keys_sorted(self.entries@),
                n == self.entries@.len(),
                i <= n,
                forall|j: int| 0 <= j < i ==> (#[trigger] self.entries@[j]).0@ != key@,
            decreases n - i,
        {
            if str_eq(self.entries[i].0.as_str(), key) {
                proof {
                    lemma_key_index(self.entries@, i as int);
                }
                return Some(&self.entries[i].1);
            }
            i = i + 1;
        }
        None
    }

    pub fn contains_key(&self, key: &str) -> (r: bool)
        ensures
            r == self@.contains_key(key@),
            keys_sorted(self.entries_seq()),
    {
        self.get(key).is_some()
    }

    /// Sets the value at `key`, keeping the entries in key order.
    pub fn insert(&mut self, key: String, value: V)
        ensures
            final(self)@ =~= old(self)@.insert(key@, value),
            keys_sorted(final(self).entries_seq()),
    {
        proof {
            use_type_invariant(&*self);
            lemma_sorted_unique(self.entries@);
        }
        let n = self.entries.len();
        let mut i: usize = 0;
        loop
            invariant
                n == self.entries@.len(),
                keys_sorted(self.entries@),
                i <= n,
                forall|j: int| 0 <= j < i ==> seq_lt((#[trigger] self.entries@[j]).0@, key@),
            ensures
                i <= n,
                forall|j: int| 0 <= j < i ==> seq_lt((#[trigger] self.entries@[j]).0@, key@),
                i < n ==> !seq_lt(self.entries@[i as int].0@, key@),
            decreases n - i,
        {
            if i >= n {
                break;
            }
            if !str_lt(self.entries[i].0.as_str(), key.as_str()) {
                break;
            }
            i = i + 1;
        }
        let mut entries = Vec::new();
        std::mem::swap(&mut entries, &mut self.entries);
        let ghost s = entries@;
        if i < n && str_eq(entries[i].0.as_str(), key.as_str()) {
            proof {
                lemma_update_map(s, i as int, key, value);
                assert forall|a: int, b: int|
                    0 <= a < b < s.len() implies seq_lt(
                    (#[trigger] s.update(i as int, (key, value))[a]).0@,
                    (#[trigger] s.update(i as int, (key, value))[b]).0@,
                ) by {}
            }
            entries.set(i, (key, value));
        } else {
            proof {
                assert(!seq_has_key(s, key@)) by {
                    if seq_has_key(s, key@) {
                        let a = choose|a: int| 0 <= a < s.len() && (#[trigger] s[a]).0@ == key@;
                        if a < i {
                            lemma_seq_lt_irreflexive(key@);
                        } else if a > i {
                            lemma_seq_lt_total(s[i as int].0@, key@);
                            lemma_seq_lt_transitive(key@, s[i as int].0@, key@);
                            lemma_seq_lt_irreflexive(key@);
                        }
                    }
                }
                lemma_insert_at_map(s, i as int, key, value);
                let t = s.insert(i as int, (key, value));
                if i < n {
                    lemma_seq_lt_total(s[i as int].0@, key@);
                }
                assert forall|a: int, b: int|
                    0 <= a < b < t.len() implies seq_lt((#[trigger] t[a]).0@, (#[trigger] t[b]).0@) by {
                    if b < i {
                        assert(t[a] == s[a] && t[b] == s[b]);
                    } else if b == i {
                        assert(t[a] == s[a]);
                    } else if a < i {
                        assert(t[a] == s[a] && t[b] == s[b - 1]);
                        if b - 1 > i {
                            lemma_seq_lt_transitive(key@, s[i as int].0@, s[b - 1].0@);
                        }
                        lemma_seq_lt_transitive(s[a].0@, key@, s[b - 1].0@);
                    } else if a == i {
                        assert(t[b] == s[b - 1]);
                        if b - 1 > i {
                            lemma_seq_lt_transitive(key@, s[i as int].0@, s[b - 1].0@);
                        }
                    } else {
                        assert(t[a] == s[a - 1] && t[b] == s[b - 1]);
                    }
                }
            }
            entries.insert(i, (key, value));
        }
        self.entries = entries;
    }

    /// Removes the entry with key `key` and gives back its value, if there is one.
    pub fn remove(&mut self, key: &str) -> (r: Option<V>)
        ensures
            final(self)@ =~= old(self)@.remove(key@),
            r is None <==> !old(self)@.contains_key(key@),
            r matches Some(v) ==> v == old(self)@[key@],
            keys_sorted(final(self).entries_seq()),
    {
        proof {
            use_type_invariant(&*self);
            lemma_sorted_unique(self.entries@);
        }
        let n = self.entries.len();
        let mut i: usize = 0;
        while i < n
            invariant
                keys_unique(self.entries@),
                keys_sorted(self.entries@),
                self.entries@ == old(self).entries@,
                n == self.entries@.len(),
                i <= n,
                forall|j: int| 0 <= j < i ==> (#[trigger] self.entries@[j]).0@ != key@,
            decreases n - i,
        {
            if str_eq(self.entries[i].0.as_str(), key) {
                let ghost s = self.entries@;
                proof {
                    lemma_key_index(s, i as int);
                    lemma_remove_map(s, i as int);
                    assert forall|a: int, b: int|
                        0 <= a < b < s.remove(i as int).len() implies seq_lt(
                        (#[trigger] s.remove(i as int)[a]).0@,
                        (#[trigger] s.remove(i as int)[b]).0@,
                    ) by {
                        let a2 = if a < i { a } else { a + 1 };
                        let b2 = if b < i { b } else { b + 1 };
                        assert(s.remove(i as int)[a] == s[a2] && s.remove(i as int)[b] == s[b2]);
                    }
                }
                let mut entries = Vec::new();
                std::mem::swap(&mut entries, &mut self.entries);
                let (_, value) = entries.remove(i);
                self.entries = entries;
                return Some(value);
            }
            i = i + 1;
        }
        proof {
            assert(!seq_has_key(self.entries@, key@));
        }
        None
    }
}

} // verus!
