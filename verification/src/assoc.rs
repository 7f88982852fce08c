//! A small map kept as a list of entries, for keys that are compared by a
//! mathematical identity (the text of a name, the bytes of a public key).

use vstd::prelude::*;

verus! {

/// A key of an [`AssocMap`]: two keys are the same key when their `id`s are equal.
pub trait Key: Sized {
    /// The mathematical value that identifies a key.
    type Id;

    /// What identifies this key.
    spec fn id(&self) -> Self::Id;

    /// Whether two keys are the same key.
    fn same(&self, other: &Self) -> (r: bool)
        ensures
            r == (self.id() == other.id()),
    ;
}

/// No two entries of the list have the same key.
pub open spec fn distinct_ids<K: Key, V>(s: Seq<(K, V)>) -> bool {
    forall|i: int, j: int| 0 <= i < j < s.len() ==> (#[trigger] s[i]).0.id() != (#[trigger] s[j]).0.id()
}

/// Whether some entry of the list has the key `id`.
pub open spec fn has_id<K: Key, V>(s: Seq<(K, V)>, id: K::Id) -> bool {
    exists|i: int| 0 <= i < s.len() && (#[trigger] s[i]).0.id() == id
}

/// The map that a list of entries stands for: later entries win.
pub open spec fn entries_map<K: Key, V>(s: Seq<(K, V)>) -> Map<K::Id, V>
    decreases s.len(),
{
    if s.len() == 0 {
        Map::empty()
    } else {
        entries_map(s.drop_last()).insert(s.last().0.id(), s.last().1)
    }
}

/// The keys of the map are the keys of the entries.
pub proof fn lemma_entries_dom<K: Key, V>(s: Seq<(K, V)>, id: K::Id)
    ensures
        entries_map(s).contains_key(id) <==> has_id(s, id),
    decreases s.len(),
{
    if s.len() > 0 {
        let t = s.drop_last();
        lemma_entries_dom(t, id);
        if has_id(s, id) {
            let i = choose|i: int| 0 <= i < s.len() && (#[trigger] s[i]).0.id() == id;
            if i < s.len() - 1 {
                assert(t[i].0.id() == id);
            }
        }
        if has_id(t, id) {
            let i = choose|i: int| 0 <= i < t.len() && (#[trigger] t[i]).0.id() == id;
            assert(s[i].0.id() == id);
        }
        if s.last().0.id() == id {
            assert(s[s.len() - 1].0.id() == id);
        }
    }
}

/// Where keys are distinct, the map gives each entry's key that entry's value.
pub proof fn lemma_entries_lookup<K: Key, V>(s: Seq<(K, V)>, i: int)
    requires
        distinct_ids(s),
        0 <= i < s.len(),
    ensures
        entries_map(s).contains_key(s[i].0.id()),
        entries_map(s)[s[i].0.id()] == s[i].1,
    decreases s.len(),
{
    let t = s.drop_last();
    if i < s.len() - 1 {
        assert(distinct_ids(t)) by {
            assert forall|a: int, b: int| 0 <= a < b < t.len() implies (#[trigger] t[a]).0.id() != (
            #[trigger] t[b]).0.id() by {
                assert(s[a].0.id() != s[b].0.id());
            }
        }
        lemma_entries_lookup(t, i);
        assert(t[i] == s[i]);
        assert(s[i].0.id() != s[s.len() - 1].0.id());
    }
}

/// Replacing the value of an entry is an insertion into the map under its key.
pub proof fn lemma_entries_update<K: Key, V>(s: Seq<(K, V)>, i: int, key: K, value: V)
    requires
        distinct_ids(s),
        0 <= i < s.len(),
        s[i].0.id() == key.id(),
    ensures
        distinct_ids(s.update(i, (key, value))),
        entries_map(s.update(i, (key, value))) == entries_map(s).insert(key.id(), value),
    decreases s.len(),
{
    let u = s.update(i, (key, value));
    assert(distinct_ids(u)) by {
        assert forall|a: int, b: int| 0 <= a < b < u.len() implies (#[trigger] u[a]).0.id() != (
        #[trigger] u[b]).0.id() by {
            assert(s[a].0.id() != s[b].0.id());
        }
    }
    let t = s.drop_last();
    assert(distinct_ids(t)) by {
        assert forall|a: int, b: int| 0 <= a < b < t.len() implies (#[trigger] t[a]).0.id() != (
        #[trigger] t[b]).0.id() by {
            assert(s[a].0.id() != s[b].0.id());
        }
    }
    if i == s.len() - 1 {
        assert(u.drop_last() =~= t);
        assert(entries_map(u) =~= entries_map(s).insert(key.id(), value));
    } else {
        lemma_entries_update(t, i, key, value);
        assert(u.drop_last() =~= t.update(i, (key, value)));
        assert(u.last() == s.last());
        assert(s[i].0.id() != s[s.len() - 1].0.id());
        assert(entries_map(u) =~= entries_map(s).insert(key.id(), value));
    }
}

/// Adding an entry under a key that the list does not hold keeps keys distinct.
pub proof fn lemma_entries_push<K: Key, V>(s: Seq<(K, V)>, key: K, value: V)
    requires
        distinct_ids(s),
        !has_id(s, key.id()),
    ensures
        distinct_ids(s.push((key, value))),
        entries_map(s.push((key, value))) == entries_map(s).insert(key.id(), value),
{
    let u = s.push((key, value));
    assert forall|a: int, b: int| 0 <= a < b < u.len() implies (#[trigger] u[a]).0.id() != (
    #[trigger] u[b]).0.id() by {
        if b < s.len() {
            assert(s[a].0.id() != s[b].0.id());
        } else {
            assert(s[a].0.id() != key.id());
        }
    }
    assert(u.drop_last() =~= s);
}

/// Where keys are distinct, the map has as many keys as the list has entries.
pub proof fn lemma_entries_len<K: Key, V>(s: Seq<(K, V)>)
    requires
        distinct_ids(s),
    ensures
        entries_map(s).dom().finite(),
        entries_map(s).dom().len() == s.len(),
    decreases s.len(),
{
    if s.len() > 0 {
        let t = s.drop_last();
        assert(distinct_ids(t)) by {
            assert forall|a: int, b: int| 0 <= a < b < t.len() implies (#[trigger] t[a]).0.id() != (
            #[trigger] t[b]).0.id() by {
                assert(s[a].0.id() != s[b].0.id());
            }
        }
        lemma_entries_len(t);
        lemma_entries_dom(t, s.last().0.id());
        if has_id(t, s.last().0.id()) {
            let i = choose|i: int| 0 <= i < t.len() && (#[trigger] t[i]).0.id() == s.last().0.id();
            assert(s[i].0.id() != s[s.len() - 1].0.id());
        }
        assert(entries_map(s).dom() =~= entries_map(t).dom().insert(s.last().0.id()));
    }
}

/// A map from keys to values, kept in the order in which keys first came.
pub struct AssocMap<K, V> {
    list: Vec<(K, V)>,
}

impl<K: Key, V> View for AssocMap<K, V> {
    type V = Map<K::Id, V>;

    open spec fn view(&self) -> Map<K::Id, V> {
        entries_map(self.entries())
    }
}

impl<K: Key, V> AssocMap<K, V> {
    /// The entries, in the order in which their keys first came.
    pub closed spec fn entries(&self) -> Seq<(K, V)> {
        self.list@
    }

    /// No key occurs twice.
    pub open spec fn wf(&self) -> bool {
        distinct_ids(self.entries())
    }

    /// The empty map.
    pub fn new() -> (m: Self)
        ensures
            m.wf(),
            m.entries() == Seq::<(K, V)>::empty(),
            m@ == Map::<K::Id, V>::empty(),
    {
        AssocMap { list: Vec::new() }
    }

    /// The number of keys.
    pub fn len(&self) -> (n: usize)
        ensures
            n == self.entries().len(),
            self.wf() ==> n == self@.dom().len(),
    {
        proof {
            if self.wf() {
                lemma_entries_len(self.entries());
            }
        }
        self.list.len()
    }

    /// The key of the entry at `i`.
    pub fn key_at(&self, i: usize) -> (k: &K)
        requires
            i < self.entries().len(),
        ensures
            *k == self.entries()[i as int].0,
    {
        &self.list[i].0
    }

    /// The value of the entry at `i`.
    pub fn value_at(&self, i: usize) -> (v: &V)
        requires
            i < self.entries().len(),
        ensures
            *v == self.entries()[i as int].1,
    {
        &self.list[i].1
    }

    /// Where the entry of `key` stands, if the map has the key.
    pub fn position(&self, key: &K) -> (r: Option<usize>)
        requires
            self.wf(),
        ensures
            r is Some == self@.contains_key(key.id()),
            r matches Some(i) ==> i < self.entries().len() && self.entries()[i as int].0.id()
                == key.id() && self@[key.id()] == self.entries()[i as int].1,
    {
        let mut i: usize = 0;
        while i < self.list.len()
            invariant
                self.wf(),
                i <= self.list.len(),
                forall|j: int| 0 <= j < i ==> (#[trigger] self.list@[j]).0.id() != key.id(),
            decreases self.list.len() - i,
        {
            if self.list[i].0.same(key) {
                proof {
                    lemma_entries_lookup(self.entries(), i as int);
                }
                return Some(i);
            }
            i += 1;
        }
        proof {
            lemma_entries_dom(self.entries(), key.id());
        }
        None
    }

    /// Whether the map has `key`.
    pub fn contains_key(&self, key: &K) -> (r: bool)
        requires
            self.wf(),
        ensures
            r == self@.contains_key(key.id()),
    {
        self.position(key).is_some()
    }

    /// The value under `key`, if the map has the key.
    pub fn get(&self, key: &K) -> (r: Option<&V>)
        requires
            self.wf(),
        ensures
            r is Some == self@.contains_key(key.id()),
            r matches Some(v) ==> *v == self@[key.id()],
    {
        match self.position(key) {
            Some(i) => Some(&self.list[i].1),
            None => None,
        }
    }

    /// Puts `value` under `key`, in place of the value that the key had, if any.
    pub fn insert(&mut self, key: K, value: V)
        requires
            old(self).wf(),
        ensures
            final(self).wf(),
            final(self)@ == old(self)@.insert(key.id(), value),
            old(self)@.contains_key(key.id()) ==> final(self).entries().len() == old(
                self,
            ).entries().len(),
            !old(self)@.contains_key(key.id()) ==> final(self).entries() == old(
                self,
            ).entries().push((key, value)),
    {
        match self.position(&key) {
            Some(i) => {
                proof {
                    lemma_entries_update(self.entries(), i as int, key, value);
                }
                self.list.set(i, (key, value));
            },
            None => {
                proof {
                    lemma_entries_dom(self.entries(), key.id());
                    lemma_entries_push(self.entries(), key, value);
                }
                self.list.push((key, value));
            },
        }
    }
}

} // verus!
