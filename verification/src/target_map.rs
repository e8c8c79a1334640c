//! A map keyed by installation target that remembers the order in which its
//! targets were first added.
use vstd::prelude::*;
use crate::package::SupportedTarget;

verus! {

/// No target occurs twice among the keys of `e`.
pub open spec fn distinct_keys<V>(e: Seq<(SupportedTarget, V)>) -> bool {
    forall|i: int, j: int| 0 <= i < j < e.len() ==> e[i].0 != e[j].0
}

/// The position of the entry with key `k`, if there is one (the last one,
/// should there be several).
pub open spec fn key_index<V>(e: Seq<(SupportedTarget, V)>, k: SupportedTarget) -> Option<int>
    decreases e.len(),
{
    if e.len() == 0 {
        None
    } else if e.last().0 == k {
        Some(e.len() - 1)
    } else {
        key_index(e.drop_last(), k)
    }
}

/// The value stored under `k`, if any.
pub open spec fn lookup<V>(e: Seq<(SupportedTarget, V)>, k: SupportedTarget) -> Option<V> {
    match key_index(e, k) {
        Some(i) => Some(e[i].1),
        None => None,
    }
}

/// The entries after storing `v` under `k`: the entry of `k` gets the new
/// value in place, or a new entry is appended.
pub open spec fn inserted<V>(e: Seq<(SupportedTarget, V)>, k: SupportedTarget, v: V) -> Seq<(SupportedTarget, V)> {
    match key_index(e, k) {
        Some(i) => e.update(i, (k, v)),
        None => e.push((k, v)),
    }
}

/// The keys of the entries, in order.
pub open spec fn keys_of<V>(e: Seq<(SupportedTarget, V)>) -> Seq<SupportedTarget> {
    Seq::new(e.len(), |i: int| e[i].0)
}

/// `key_index` finds an entry with the key asked for, and finds one exactly
/// when the key occurs.
pub proof fn lemma_key_index<V>(e: Seq<(SupportedTarget, V)>, k: SupportedTarget)
    ensures
        key_index(e, k) matches Some(i) ==> 0 <= i < e.len() && e[i].0 == k,
        key_index(e, k) is None <==> (forall|j: int| 0 <= j < e.len() ==> e[j].0 != k),
    decreases e.len(),
{
    if e.len() > 0 {
        lemma_key_index(e.drop_last(), k);
        if e.last().0 != k {
            assert forall|j: int| 0 <= j < e.len() && (forall|m: int| 0 <= m < e.drop_last().len() ==> e.drop_last()[m].0 != k) implies e[j].0 != k by {
                if j < e.len() - 1 {
                    assert(e.drop_last()[j] == e[j]);
                }
            }
        }
    }
}

/// With distinct keys, the entry at `i` is the one `key_index` finds for its key.
pub proof fn lemma_key_index_unique<V>(e: Seq<(SupportedTarget, V)>, i: int)
    requires
        distinct_keys(e),
        0 <= i < e.len(),
    ensures
        key_index(e, e[i].0) == Some(i),
    decreases e.len(),
{
    if i < e.len() - 1 {
        lemma_key_index_unique(e.drop_last(), i);
    }
}

/// Storing a value and then looking up its key gives that value; looking up
/// any other key gives what it gave before; the keys stay distinct.
pub proof fn lemma_inserted_lookup<V>(e: Seq<(SupportedTarget, V)>, k: SupportedTarget, v: V, j: SupportedTarget)
    requires
        distinct_keys(e),
    ensures
        lookup(inserted(e, k, v), k) == Some(v),
        j != k ==> lookup(inserted(e, k, v), j) == lookup(e, j),
        distinct_keys(inserted(e, k, v)),
{
    lemma_key_index(e, k);
    lemma_key_index(e, j);
    let e2 = inserted(e, k, v);
    match key_index(e, k) {
        Some(i) => {
            assert(distinct_keys(e2));
            lemma_key_index_unique(e2, i);
            lemma_key_index(e2, j);
            if j != k {
                match key_index(e, j) {
                    Some(m) => {
                        lemma_key_index_unique(e2, m);
                    },
                    None => {
                        assert forall|n: int| 0 <= n < e2.len() implies e2[n].0 != j by {
                            if n != i {
                                assert(e2[n] == e[n]);
                            }
                        }
                    },
                }
            }
        },
        None => {
            assert(e2.drop_last() =~= e);
            assert(distinct_keys(e2)) by {
                assert forall|a: int, b: int| 0 <= a < b < e2.len() implies e2[a].0 != e2[b].0 by {
                    if b == e.len() {
                        assert(e2[a] == e[a]);
                    }
                }
            }
        },
    }
}

/// A map keyed by installation target. Each target has at most one entry,
/// and entries keep the order in which their targets were first added, so
/// that what is built from the entries in turn (such as an installation
/// command, one piece per target) comes out the same on every run.
pub struct TargetMap<V> {
    entries: Vec<(SupportedTarget, V)>,
}

impl<V> TargetMap<V> {
    /// Each target has at most one entry.
    #[verifier::type_invariant]
    pub open spec fn keys_unique(self) -> bool {
        distinct_keys(self.spec_entries())
    }

    /// The entries of the map, in order.
    pub closed spec fn spec_entries(&self) -> Seq<(SupportedTarget, V)> {
        self.entries@
    }

    /// The value stored under `k`, if any.
    pub open spec fn spec_get(&self, k: SupportedTarget) -> Option<V> {
        lookup(self.spec_entries(), k)
    }

    /// An empty map.
    pub fn new() -> (res: Self)
        ensures
            res.spec_entries() == Seq::<(SupportedTarget, V)>::empty(),
    {
        TargetMap { entries: Vec::new() }
    }

    /// The entries of the map, in order; their keys are distinct.
    pub fn entries(&self) -> (res: &Vec<(SupportedTarget, V)>)
        ensures
            res@ == self.spec_entries(),
            distinct_keys(res@),
    {
        proof {
            use_type_invariant(self);
        }
        &self.entries
    }

    /// The number of entries.
    pub fn len(&self) -> (res: usize)
        ensures
            res == self.spec_entries().len(),
    {
        self.entries.len()
    }

    /// Whether the map has no entry.
    pub fn is_empty(&self) -> (res: bool)
        ensures
            res == (self.spec_entries().len() == 0),
    {
        self.entries.len() == 0
    }

    /// The position of the entry of `k`, if any.
    pub fn index_of(&self, k: &SupportedTarget) -> (res: Option<usize>)
        ensures
            res is None <==> key_index(self.spec_entries(), *k) is None,
            res matches Some(i) ==> key_index(self.spec_entries(), *k) == Some(i as int),
            res matches Some(i) ==> i < self.spec_entries().len() && self.spec_entries()[i as int].0 == *k,
    {
        proof {
            lemma_key_index(self.entries@, *k);
        }
        let ghost e = self.entries@;
        let mut i: usize = self.entries.len();
        assert(e.take(i as int) =~= e);
        while i > 0
            invariant
                i <= self.entries.len(),
                e == self.entries@,
                key_index(e, *k) == key_index(e.take(i as int), *k),
            decreases i,
        {
            assert(e.take(i as int).drop_last() =~= e.take(i - 1));
            if self.entries[i - 1].0 == *k {
                return Some(i - 1);
            }
            i = i - 1;
        }
        None
    }

    /// The value stored under `k`, if any.
    pub fn get(&self, k: &SupportedTarget) -> (res: Option<&V>)
        ensures
            match self.spec_get(*k) {
                Some(v) => res matches Some(r) && *r == v,
                None => res is None,
            },
    {
        match self.index_of(k) {
            Some(i) => {
                assert(key_index(self.entries@, *k) == Some(i as int));
                assert(self.spec_get(*k) == Some(self.entries@[i as int].1));
                Some(&self.entries[i].1)
            },
            None => None,
        }
    }

    /// Whether some value is stored under `k`.
    pub fn contains_key(&self, k: &SupportedTarget) -> (res: bool)
        ensures
            res == self.spec_get(*k) is Some,
    {
        self.index_of(k).is_some()
    }

    /// The keys, in order.
    pub fn keys(&self) -> (res: Vec<SupportedTarget>)
        ensures
            res@ == keys_of(self.spec_entries()),
    {
        let mut res: Vec<SupportedTarget> = Vec::new();
        let mut i: usize = 0;
        while i < self.entries.len()
            invariant
                i <= self.entries.len(),
                res@ == keys_of(self.entries@.take(i as int)),
            decreases self.entries.len() - i,
        {
            res.push(self.entries[i].0);
            assert(res@ =~= keys_of(self.entries@.take(i + 1)));
            i = i + 1;
        }
        assert(self.entries@.take(i as int) =~= self.entries@);
        res
    }

    /// Stores `v` under `k`, replacing what was stored there; a new key goes
    /// after all others.
    pub fn insert(&mut self, k: SupportedTarget, v: V)
        ensures
            final(self).spec_entries() == inserted(old(self).spec_entries(), k, v),
    {
        proof {
            use_type_invariant(&*self);
        }
        let idx = self.index_of(&k);
        let mut entries: Vec<(SupportedTarget, V)> = Vec::new();
        std::mem::swap(&mut entries, &mut self.entries);
        let ghost e = entries@;
        proof {
            lemma_inserted_lookup(e, k, v, k);
            lemma_key_index(e, k);
        }
        match idx {
            Some(i) => {
                assert(key_index(e, k) == Some(i as int));
                entries.set(i, (k, v));
                assert(entries@ =~= inserted(e, k, v));
            },
            None => {
                entries.push((k, v));
            },
        }
        assert(entries@ =~= inserted(e, k, v));
        self.entries = entries;
    }
}

/// The entries of a map of lists, each list seen as a sequence.
pub open spec fn list_view<T>(e: Seq<(SupportedTarget, Vec<T>)>) -> Seq<(SupportedTarget, Seq<T>)> {
    Seq::new(e.len(), |i: int| (e[i].0, e[i].1@))
}

/// The position of a key depends on the keys alone.
pub proof fn lemma_key_index_keys<V, W>(a: Seq<(SupportedTarget, V)>, b: Seq<(SupportedTarget, W)>, k: SupportedTarget)
    requires
        keys_of(a) == keys_of(b),
    ensures
        key_index(a, k) == key_index(b, k),
    decreases a.len(),
{
    assert(a.len() == keys_of(a).len());
    assert(b.len() == keys_of(b).len());
    if a.len() > 0 {
        assert(keys_of(a)[a.len() - 1] == a.last().0);
        assert(keys_of(b)[b.len() - 1] == b.last().0);
        assert(keys_of(a.drop_last()) =~= keys_of(a).drop_last());
        assert(keys_of(b.drop_last()) =~= keys_of(b).drop_last());
        lemma_key_index_keys(a.drop_last(), b.drop_last(), k);
    }
}

impl<T> TargetMap<Vec<T>> {
    /// Appends `item` to the list stored under `k`, starting a new list after
    /// all others when `k` has none.
    pub fn push_to(&mut self, k: SupportedTarget, item: T)
        ensures
            list_view(final(self).spec_entries()) == inserted(
                list_view(old(self).spec_entries()),
                k,
                match lookup(list_view(old(self).spec_entries()), k) {
                    Some(l) => l.push(item),
                    None => seq![item],
                },
            ),
    {
        proof {
            use_type_invariant(&*self);
        }
        let idx = self.index_of(&k);
        let mut entries: Vec<(SupportedTarget, Vec<T>)> = Vec::new();
        std::mem::swap(&mut entries, &mut self.entries);
        let ghost e = entries@;
        let ghost lv = list_view(e);
        proof {
            assert(keys_of(e) =~= keys_of(lv));
            lemma_key_index_keys(e, lv, k);
            lemma_key_index(e, k);
        }
        match idx {
            Some(i) => {
                let (key, mut list) = entries.remove(i);
                list.push(item);
                entries.insert(i, (key, list));
                assert(list_view(entries@) =~= inserted(lv, k, lv[i as int].1.push(item)));
            },
            None => {
                let mut list: Vec<T> = Vec::new();
                list.push(item);
                entries.push((k, list));
                assert(list_view(entries@) =~= inserted(lv, k, seq![item]));
            },
        }
        proof {
            assert forall|a: int, b: int| 0 <= a < b < entries@.len() implies entries@[a].0 != entries@[b].0 by {
                assert(keys_of(entries@)[a] == entries@[a].0);
                match idx {
                    Some(i) => {
                        assert(entries@[a].0 == e[a].0);
                        assert(entries@[b].0 == e[b].0);
                    },
                    None => {
                        if b < e.len() {
                            assert(entries@[b] == e[b]);
                        }
                        assert(entries@[a] == e[a]);
                    },
                }
            }
        }
        self.entries = entries;
    }
}

} // verus!
