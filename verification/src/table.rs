//! Small keyed tables: a list of entries in which no key occurs twice.
//! Inserting under a key that is present replaces its value in place;
//! inserting under a new key adds an entry at the end.
use vstd::prelude::*;

verus! {

/// Keys that can be compared by their deep view.
pub trait TableKey: DeepView + Sized {
    fn same_key(&self, other: &Self) -> (b: bool)
        ensures
            b == (self.deep_view() == other.deep_view()),
    ;
}

impl TableKey for String {
    fn same_key(&self, other: &Self) -> (b: bool) {
        *self == *other
    }
}

impl TableKey for (String, String) {
    fn same_key(&self, other: &Self) -> (b: bool) {
        self.0 == other.0 && self.1 == other.1
    }
}

/// The index of the first entry of `s` at or after `i` whose key is `k`, or
/// `s.len()` if there is none.
pub open spec fn key_index_from<A, B>(s: Seq<(A, B)>, k: A, i: int) -> int
    decreases s.len() - i,
{
    if i < 0 || i >= s.len() {
        s.len() as int
    } else if s[i].0 == k {
        i
    } else {
        key_index_from(s, k, i + 1)
    }
}

/// The index of the entry of `s` whose key is `k`, or `s.len()`.
pub open spec fn key_index<A, B>(s: Seq<(A, B)>, k: A) -> int {
    key_index_from(s, k, 0)
}

/// The value stored under `k`.
pub open spec fn lookup<A, B>(s: Seq<(A, B)>, k: A) -> Option<B> {
    let i = key_index(s, k);
    if i < s.len() {
        Some(s[i].1)
    } else {
        None
    }
}

/// The table `s` after `v` has been stored under `k`.
pub open spec fn assoc_insert<A, B>(s: Seq<(A, B)>, k: A, v: B) -> Seq<(A, B)> {
    let i = key_index(s, k);
    if i < s.len() {
        s.update(i, (k, v))
    } else {
        s.push((k, v))
    }
}

/// The table of lists `s` after `v` has been added at the end of the list
/// stored under `k` (a new list holding `v` alone if there is none).
pub open spec fn assoc_push<A, B>(s: Seq<(A, Seq<B>)>, k: A, v: B) -> Seq<(A, Seq<B>)> {
    let i = key_index(s, k);
    if i < s.len() {
        s.update(i, (k, s[i].1.push(v)))
    } else {
        s.push((k, seq![v]))
    }
}

/// No key occurs twice in `s`.
pub open spec fn keys_unique<A, B>(s: Seq<(A, B)>) -> bool {
    forall|i: int, j: int| 0 <= i < j < s.len() ==> s[i].0 != s[j].0
}

pub proof fn lemma_key_index_from_bounds<A, B>(s: Seq<(A, B)>, k: A, i: int)
    requires
        0 <= i <= s.len(),
    ensures
        i <= key_index_from(s, k, i) <= s.len(),
        key_index_from(s, k, i) < s.len() ==> s[key_index_from(s, k, i)].0 == k,
        forall|j: int| i <= j < key_index_from(s, k, i) ==> s[j].0 != k,
    decreases s.len() - i,
{
    if i < s.len() && s[i].0 != k {
        lemma_key_index_from_bounds(s, k, i + 1);
    }
}

/// `key_index` finds the first entry with the key, and only entries with it.
pub proof fn lemma_key_index<A, B>(s: Seq<(A, B)>, k: A)
    ensures
        0 <= key_index(s, k) <= s.len(),
        key_index(s, k) < s.len() ==> s[key_index(s, k)].0 == k,
        forall|j: int| 0 <= j < key_index(s, k) ==> s[j].0 != k,
{
    lemma_key_index_from_bounds(s, k, 0);
}

/// Inserting keeps the keys unique, and a lookup of the key inserted gives
/// the value inserted while any other key keeps its value.
pub proof fn lemma_assoc_insert<A, B>(s: Seq<(A, B)>, k: A, v: B)
    requires
        keys_unique(s),
    ensures
        keys_unique(assoc_insert(s, k, v)),
        lookup(assoc_insert(s, k, v), k) == Some(v),
        forall|k2: A| k2 != k ==> lookup(assoc_insert(s, k, v), k2) == lookup(s, k2),
{
    let r = assoc_insert(s, k, v);
    let i = key_index(s, k);
    lemma_key_index(s, k);
    lemma_key_index(r, k);
    assert(r[i].0 == k);
    assert(forall|j: int| 0 <= j < r.len() && j != i ==> r[j] == s[j]);
    let b = key_index(r, k);
    if b < i {
        assert(r[b] == s[b]);
    }
    assert(b == i);
    assert forall|k2: A| k2 != k implies lookup(r, k2) == lookup(s, k2) by {
        lemma_key_index(s, k2);
        lemma_key_index(r, k2);
        let a = key_index(s, k2);
        let c = key_index(r, k2);
        if a < s.len() {
            assert(a != i);
            assert(r[a] == s[a]);
            if c < a {
                assert(c != i);
                assert(r[c] == s[c]);
            }
            assert(c == a);
        } else if c < r.len() {
            assert(c != i);
            assert(r[c] == s[c]);
        }
    }
}

/// Adding to a list keeps the keys unique, and the list under the key gains
/// the value at its end while any other key keeps its list.
pub proof fn lemma_assoc_push<A, B>(s: Seq<(A, Seq<B>)>, k: A, v: B)
    requires
        keys_unique(s),
    ensures
        keys_unique(assoc_push(s, k, v)),
        lookup(assoc_push(s, k, v), k) == Some(
            match lookup(s, k) {
                Some(l) => l.push(v),
                None => seq![v],
            },
        ),
        forall|k2: A| k2 != k ==> lookup(assoc_push(s, k, v), k2) == lookup(s, k2),
{
    let r = assoc_push(s, k, v);
    let i = key_index(s, k);
    lemma_key_index(s, k);
    lemma_key_index(r, k);
    assert(r[i].0 == k);
    assert(forall|j: int| 0 <= j < r.len() && j != i ==> r[j] == s[j]);
    let b = key_index(r, k);
    if b < i {
        assert(r[b] == s[b]);
    }
    assert(b == i);
    assert forall|k2: A| k2 != k implies lookup(r, k2) == lookup(s, k2) by {
        lemma_key_index(s, k2);
        lemma_key_index(r, k2);
        let a = key_index(s, k2);
        let c = key_index(r, k2);
        if a < s.len() {
            assert(a != i);
            assert(r[a] == s[a]);
            if c < a {
                assert(c != i);
                assert(r[c] == s[c]);
            }
            assert(c == a);
        } else if c < r.len() {
            assert(c != i);
            assert(r[c] == s[c]);
        }
    }
}

/// A table: entries in the order their keys were first inserted.
pub struct Table<K, V> {
    entries: Vec<(K, V)>,
}

impl<K: DeepView, V: DeepView> DeepView for Table<K, V> {
    type V = Seq<(K::V, V::V)>;

    closed spec fn deep_view(&self) -> Seq<(K::V, V::V)> {
        Seq::new(
            self.entries@.len(),
            |i: int| (self.entries@[i].0.deep_view(), self.entries@[i].1.deep_view()),
        )
    }
}

impl<K: TableKey, V: DeepView> Table<K, V> {
    /// An empty table.
    pub fn new() -> (t: Self)
        ensures
            t.deep_view() == Seq::<(K::V, V::V)>::empty(),
            keys_unique(t.deep_view()),
    {
        let t = Table { entries: Vec::new() };
        assert(t.deep_view() =~= Seq::<(K::V, V::V)>::empty());
        t
    }

    /// The number of entries.
    pub fn len(&self) -> (n: usize)
        ensures
            n == self.deep_view().len(),
    {
        self.entries.len()
    }

    /// The entry at position `i`.
    pub fn entry(&self, i: usize) -> (e: &(K, V))
        requires
            i < self.deep_view().len(),
        ensures
            (e.0.deep_view(), e.1.deep_view()) == self.deep_view()[i as int],
    {
        &self.entries[i]
    }

    /// The position of the entry with key `k`, or the number of entries.
    fn find(&self, k: &K) -> (i: usize)
        ensures
            i == key_index(self.deep_view(), k.deep_view()),
    {
        let ghost s = self.deep_view();
        let mut i: usize = 0;
        while i < self.entries.len()
            invariant
                i <= self.entries@.len(),
                s == self.deep_view(),
                key_index(s, k.deep_view()) == key_index_from(s, k.deep_view(), i as int),
            decreases self.entries@.len() - i,
        {
            if self.entries[i].0.same_key(k) {
                return i;
            }
            i = i + 1;
        }
        i
    }

    /// The value stored under `k`.
    pub fn get(&self, k: &K) -> (r: Option<&V>)
        ensures
            r.deep_view() == lookup(self.deep_view(), k.deep_view()),
    {
        let i = self.find(k);
        if i < self.entries.len() {
            Some(&self.entries[i].1)
        } else {
            None
        }
    }

    /// Stores `v` under `k`.
    pub fn insert(&mut self, k: K, v: V)
        ensures
            final(self).deep_view() == assoc_insert(
                old(self).deep_view(),
                k.deep_view(),
                v.deep_view(),
            ),
            keys_unique(old(self).deep_view()) ==> keys_unique(final(self).deep_view()),
    {
        let ghost kv = k.deep_view();
        let ghost vv = v.deep_view();
        proof {
            if keys_unique(self.deep_view()) {
                lemma_assoc_insert(self.deep_view(), kv, vv);
            }
        }
        let i = self.find(&k);
        if i < self.entries.len() {
            self.entries.set(i, (k, v));
            assert(self.deep_view() =~= old(self).deep_view().update(i as int, (kv, vv)));
        } else {
            self.entries.push((k, v));
            assert(self.deep_view() =~= old(self).deep_view().push((kv, vv)));
        }
    }
}

impl<K: TableKey, T: DeepView> Table<K, Vec<T>> {
    /// Adds `v` at the end of the list stored under `k`.
    pub fn push_value(&mut self, k: K, v: T)
        ensures
            final(self).deep_view() == assoc_push(
                old(self).deep_view(),
                k.deep_view(),
                v.deep_view(),
            ),
            keys_unique(old(self).deep_view()) ==> keys_unique(final(self).deep_view()),
    {
        let ghost kv = k.deep_view();
        let ghost tv = v.deep_view();
        proof {
            if keys_unique(self.deep_view()) {
                lemma_assoc_push(self.deep_view(), kv, tv);
            }
        }
        let i = self.find(&k);
        if i < self.entries.len() {
            let ghost before = self.deep_view();
            let ghost old_entries = self.entries@;
            let (key, mut values) = self.entries.remove(i);
            let ghost old_values = values.deep_view();
            assert(old_values == before[i as int].1);
            values.push(v);
            assert(values.deep_view() =~= old_values.push(tv));
            let ghost new_entry = (key, values);
            proof {
                lemma_key_index(before, kv);
            }
            assert(key.deep_view() == kv);
            self.entries.insert(i, (key, values));
            assert(self.entries@ =~= old_entries.update(i as int, new_entry));
            assert(self.deep_view() =~= before.update(i as int, (kv, before[i as int].1.push(tv))));
        } else {
            let mut values = Vec::new();
            values.push(v);
            assert(values.deep_view() =~= seq![tv]);
            self.entries.push((k, values));
            assert(self.deep_view() =~= old(self).deep_view().push((kv, seq![tv])));
        }
    }
}

} // verus!
