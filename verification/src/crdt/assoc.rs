//! A small map kept as two parallel vectors, for keys that cannot be hashed
//! under proof. No key occurs twice.
use crate::utility::{HashableItem, UWMapItem};
use vstd::prelude::*;

verus! {

/// The map that sends `ks[i]` to `vs[i]`.
pub open spec fn pair_map<A, B>(ks: Seq<A>, vs: Seq<B>) -> Map<A, B> {
    Map::new(|k: A| ks.contains(k), |k: A| vs[ks.index_of(k)])
}

/// In a sequence without repetition every element is found at its own place.
pub proof fn lemma_index_of_unique<A>(ks: Seq<A>, i: int)
    requires
        ks.no_duplicates(),
        0 <= i < ks.len(),
    ensures
        ks.contains(ks[i]),
        ks.index_of(ks[i]) == i,
{
}

pub proof fn lemma_pair_map_at<A, B>(ks: Seq<A>, vs: Seq<B>, i: int)
    requires
        ks.no_duplicates(),
        ks.len() == vs.len(),
        0 <= i < ks.len(),
    ensures
        pair_map(ks, vs).contains_key(ks[i]),
        pair_map(ks, vs)[ks[i]] == vs[i],
{
    lemma_index_of_unique(ks, i);
}

pub proof fn lemma_pair_map_push<A, B>(ks: Seq<A>, vs: Seq<B>, k: A, v: B)
    requires
        ks.no_duplicates(),
        ks.len() == vs.len(),
        !ks.contains(k),
    ensures
        ks.push(k).no_duplicates(),
        pair_map(ks.push(k), vs.push(v)) == pair_map(ks, vs).insert(k, v),
{
    let ks2 = ks.push(k);
    let vs2 = vs.push(v);
    assert(ks2.no_duplicates()) by {
        assert forall|i: int, j: int|
            0 <= i < ks2.len() && 0 <= j < ks2.len() && i != j implies ks2[i] != ks2[j] by {
            if i < ks.len() && j < ks.len() {
            } else if i < ks.len() {
                assert(ks[i] == ks2[i]);
            } else {
                assert(ks[j] == ks2[j]);
            }
        }
    }
    assert forall|x: A| ks2.contains(x) <==> (ks.contains(x) || x == k) by {
        if ks.contains(x) {
            let i = ks.index_of(x);
            assert(ks2[i] == x);
        }
        if x == k {
            assert(ks2[ks.len() as int] == k);
        }
    }
    assert forall|x: A| ks2.contains(x) implies #[trigger] pair_map(ks2, vs2)[x] == pair_map(
        ks,
        vs,
    ).insert(k, v)[x] by {
        let i = ks2.index_of(x);
        lemma_index_of_unique(ks2, i);
        if i < ks.len() {
            lemma_index_of_unique(ks, i);
        }
    }
    assert(pair_map(ks2, vs2) =~= pair_map(ks, vs).insert(k, v));
}

pub proof fn lemma_pair_map_update<A, B>(ks: Seq<A>, vs: Seq<B>, i: int, v: B)
    requires
        ks.no_duplicates(),
        ks.len() == vs.len(),
        0 <= i < ks.len(),
    ensures
        pair_map(ks, vs.update(i, v)) == pair_map(ks, vs).insert(ks[i], v),
{
    let vs2 = vs.update(i, v);
    lemma_index_of_unique(ks, i);
    assert forall|x: A| ks.contains(x) implies #[trigger] pair_map(ks, vs2)[x] == pair_map(
        ks,
        vs,
    ).insert(ks[i], v)[x] by {
        let j = ks.index_of(x);
        lemma_index_of_unique(ks, j);
    }
    assert(pair_map(ks, vs2) =~= pair_map(ks, vs).insert(ks[i], v));
}

pub proof fn lemma_pair_map_remove<A, B>(ks: Seq<A>, vs: Seq<B>, i: int)
    requires
        ks.no_duplicates(),
        ks.len() == vs.len(),
        0 <= i < ks.len(),
    ensures
        ks.remove(i).no_duplicates(),
        !ks.remove(i).contains(ks[i]),
        pair_map(ks.remove(i), vs.remove(i)) == pair_map(ks, vs).remove(ks[i]),
{
    let ks2 = ks.remove(i);
    let vs2 = vs.remove(i);
    assert forall|a: int| 0 <= a < ks2.len() implies ks2[a] == ks[if a < i {
        a
    } else {
        a + 1
    }] by {}
    assert(ks2.no_duplicates());
    assert(!ks2.contains(ks[i])) by {
        if ks2.contains(ks[i]) {
            let a = ks2.index_of(ks[i]);
            assert(ks2[a] == ks[if a < i {
                a
            } else {
                a + 1
            }]);
        }
    }
    assert forall|x: A| ks2.contains(x) <==> (ks.contains(x) && x != ks[i]) by {
        if ks2.contains(x) {
            let a = ks2.index_of(x);
            assert(ks2[a] == ks[if a < i {
                a
            } else {
                a + 1
            }]);
        }
        if ks.contains(x) && x != ks[i] {
            let j = ks.index_of(x);
            if j < i {
                assert(ks2[j] == x);
            } else {
                assert(ks2[j - 1] == x);
            }
        }
    }
    assert forall|x: A| ks2.contains(x) implies #[trigger] pair_map(ks2, vs2)[x] == pair_map(
        ks,
        vs,
    ).remove(ks[i])[x] by {
        let a = ks2.index_of(x);
        lemma_index_of_unique(ks2, a);
        let j = if a < i {
            a
        } else {
            a + 1
        };
        assert(ks2[a] == ks[j]);
        lemma_index_of_unique(ks, j);
    }
    assert(pair_map(ks2, vs2) =~= pair_map(ks, vs).remove(ks[i]));
}

/// A finite map from keys to values, told apart by what the keys stand for.
pub struct AssocList<K: HashableItem, V: UWMapItem> {
    items: Vec<(K, V)>,
}

impl<K: HashableItem, V: UWMapItem> DeepView for AssocList<K, V> {
    type V = Map<K::V, V::V>;

    open spec fn deep_view(&self) -> Map<K::V, V::V> {
        pair_map(self.keys(), self.values())
    }
}

impl<K: HashableItem, V: UWMapItem> AssocList<K, V> {
    /// The keys, in the order in which they are stored.
    pub closed spec fn keys(&self) -> Seq<K::V> {
        Seq::new(self.items.len() as nat, |i: int| self.items[i].0.deep_view())
    }

    /// The values, each at the place of its key.
    pub closed spec fn values(&self) -> Seq<V::V> {
        Seq::new(self.items.len() as nat, |i: int| self.items[i].1.deep_view())
    }

    #[verifier::type_invariant]
    spec fn inv(&self) -> bool {
        self.keys().no_duplicates()
    }

    pub fn new() -> (m: Self)
        ensures
            m.keys().len() == 0,
            m.deep_view() == Map::<K::V, V::V>::empty(),
    {
        let m = AssocList { items: Vec::new() };
        assert(m.keys() =~= Seq::empty());
        assert(m.deep_view() =~= Map::<K::V, V::V>::empty());
        m
    }

    /// The number of keys. The keys are pairwise distinct.
    pub fn len(&self) -> (n: usize)
        ensures
            n == self.keys().len(),
            n == self.values().len(),
            self.keys().no_duplicates(),
            self.deep_view().dom().finite(),
            n == self.deep_view().dom().len(),
    {
        proof {
            use_type_invariant(self);
            self.keys().unique_seq_to_set();
            vstd::seq_lib::seq_to_set_is_finite(self.keys());
            assert(self.deep_view().dom() =~= self.keys().to_set());
        }
        self.items.len()
    }

    /// The place of `key`, if it is there.
    pub fn find(&self, key: &K) -> (at: Option<usize>)
        ensures
            match at {
                Some(i) => i < self.keys().len() && self.keys()[i as int] == key.deep_view(),
                None => !self.keys().contains(key.deep_view()),
            },
    {
        let mut i: usize = 0;
        while i < self.items.len()
            invariant
                i <= self.items.len(),
                forall|j: int| 0 <= j < i ==> self.keys()[j] != key.deep_view(),
            decreases self.items.len() - i,
        {
            if self.items[i].0.same(key) {
                return Some(i);
            }
            i += 1;
        }
        None
    }

    pub fn contains_key(&self, key: &K) -> (b: bool)
        ensures
            b == self.deep_view().contains_key(key.deep_view()),
    {
        self.find(key).is_some()
    }

    pub fn get(&self, key: &K) -> (v: Option<&V>)
        ensures
            match v {
                Some(v) => self.deep_view().contains_key(key.deep_view()) && v.deep_view()
                    == self.deep_view()[key.deep_view()],
                None => !self.deep_view().contains_key(key.deep_view()),
            },
    {
        proof {
            use_type_invariant(self);
        }
        match self.find(key) {
            Some(i) => {
                proof {
                    lemma_pair_map_at(self.keys(), self.values(), i as int);
                }
                Some(&self.items[i].1)
            },
            None => None,
        }
    }

    /// The key stored at place `i`.
    pub fn key_at(&self, i: usize) -> (k: &K)
        requires
            i < self.keys().len(),
        ensures
            k.deep_view() == self.keys()[i as int],
            self.deep_view().contains_key(k.deep_view()),
    {
        proof {
            use_type_invariant(self);
            lemma_pair_map_at(self.keys(), self.values(), i as int);
        }
        &self.items[i].0
    }

    /// The value stored at place `i`.
    pub fn value_at(&self, i: usize) -> (v: &V)
        requires
            i < self.keys().len(),
        ensures
            v.deep_view() == self.values()[i as int],
            v.deep_view() == self.deep_view()[self.keys()[i as int]],
    {
        proof {
            use_type_invariant(self);
            lemma_pair_map_at(self.keys(), self.values(), i as int);
        }
        &self.items[i].1
    }

    /// Binds `key` to `value`, in place of what it was bound to.
    pub fn insert(&mut self, key: K, value: V)
        ensures
            final(self).deep_view() == old(self).deep_view().insert(
                key.deep_view(),
                value.deep_view(),
            ),
    {
        proof {
            use_type_invariant(&*self);
        }
        let ghost ks0 = self.keys();
        let ghost vs0 = self.values();
        match self.find(&key) {
            Some(i) => {
                proof {
                    lemma_pair_map_update(ks0, vs0, i as int, value.deep_view());
                }
                let ghost k = key.deep_view();
                let ghost v = value.deep_view();
                let mut items: Vec<(K, V)> = Vec::new();
                core::mem::swap(&mut self.items, &mut items);
                items.set(i, (key, value));
                assert(Seq::new(items.len() as nat, |i: int| items[i].0.deep_view()) =~= ks0);
                core::mem::swap(&mut self.items, &mut items);
                assert(self.keys() =~= ks0);
                assert(self.values() =~= vs0.update(i as int, v));
            },
            None => {
                proof {
                    lemma_pair_map_push(ks0, vs0, key.deep_view(), value.deep_view());
                }
                let ghost k = key.deep_view();
                let ghost v = value.deep_view();
                let mut items: Vec<(K, V)> = Vec::new();
                core::mem::swap(&mut self.items, &mut items);
                items.push((key, value));
                assert(Seq::new(items.len() as nat, |i: int| items[i].0.deep_view()) =~= ks0.push(
                    k,
                ));
                core::mem::swap(&mut self.items, &mut items);
                assert(self.keys() =~= ks0.push(k));
                assert(self.values() =~= vs0.push(v));
            },
        }
    }

    /// Takes `key` out and hands back what it was bound to.
    pub fn remove(&mut self, key: &K) -> (taken: Option<V>)
        ensures
            final(self).deep_view() == old(self).deep_view().remove(key.deep_view()),
            match taken {
                Some(v) => old(self).deep_view().contains_key(key.deep_view()) && v.deep_view()
                    == old(self).deep_view()[key.deep_view()],
                None => !old(self).deep_view().contains_key(key.deep_view()),
            },
    {
        proof {
            use_type_invariant(&*self);
        }
        let ghost ks0 = self.keys();
        let ghost vs0 = self.values();
        match self.find(key) {
            Some(i) => {
                proof {
                    lemma_pair_map_remove(ks0, vs0, i as int);
                    lemma_pair_map_at(ks0, vs0, i as int);
                }
                let mut items: Vec<(K, V)> = Vec::new();
                core::mem::swap(&mut self.items, &mut items);
                let pair = items.remove(i);
                assert(Seq::new(items.len() as nat, |i: int| items[i].0.deep_view())
                    =~= ks0.remove(i as int));
                core::mem::swap(&mut self.items, &mut items);
                assert(self.keys() =~= ks0.remove(i as int));
                assert(self.values() =~= vs0.remove(i as int));
                Some(pair.1)
            },
            None => {
                assert(old(self).deep_view().remove(key.deep_view()) =~= old(self).deep_view());
                None
            },
        }
    }
}

impl<K: HashableItem, V: UWMapItem> UWMapItem for AssocList<K, V> {
    fn replicate(&self) -> (copy: Self)
        ensures
            copy.keys() == self.keys(),
            copy.values() == self.values(),
    {
        proof {
            use_type_invariant(self);
        }
        let mut items: Vec<(K, V)> = Vec::new();
        let mut i: usize = 0;
        while i < self.items.len()
            invariant
                i <= self.items.len(),
                items.len() == i,
                forall|j: int|
                    0 <= j < i ==> items[j].0.deep_view() == self.items[j].0.deep_view()
                        && items[j].1.deep_view() == self.items[j].1.deep_view(),
            decreases self.items.len() - i,
        {
            items.push((self.items[i].0.replicate(), self.items[i].1.replicate()));
            i += 1;
        }
        let ghost ks = Seq::new(items.len() as nat, |i: int| items[i].0.deep_view());
        assert(ks =~= self.keys());
        let copy = AssocList { items };
        assert(copy.keys() =~= self.keys());
        assert(copy.values() =~= self.values());
        copy
    }
}

} // verus!
