//! The per-service keyed store.
//!
//! Every service owns exactly one in-memory store mapping a string
//! identifier to a record. The store is an association vector with
//! pairwise-distinct keys; lookups are linear scans. Its view is the
//! abstract map from key characters to the record's deep view, and the
//! insertion order of the entries is exposed as well, since listing
//! operations return records in store-iteration order.

use vstd::prelude::*;

verus! {

/// The value stored under `k`, or `dflt` where `k` is absent.
///
/// Absent keys are read as an empty default throughout the services
/// (an unknown user has no followers, an unknown post no likes).
pub open spec fn entry_or<V>(m: Map<Seq<char>, V>, k: Seq<char>, dflt: V) -> V {
    if m.dom().contains(k) {
        m[k]
    } else {
        dflt
    }
}

/// A keyed in-memory store: records of type `T` under string keys.
pub struct StrMap<T> {
    pairs: Vec<(String, T)>,
}

impl<T> StrMap<T> {
    /// Keys are pairwise distinct.
    #[verifier::type_invariant]
    pub closed spec fn inv(self) -> bool {
        forall|i: int, j: int|
            0 <= i < j < self.pairs@.len() ==> (#[trigger] self.pairs@[i].0@) != (
            #[trigger] self.pairs@[j].0@)
    }
}

impl<T: DeepView> StrMap<T> {
    /// The keys, in insertion order.
    pub closed spec fn key_seq(self) -> Seq<Seq<char>> {
        Seq::new(self.pairs@.len(), |i: int| self.pairs@[i].0@)
    }

    /// The stored records, in insertion order.
    pub closed spec fn val_seq(self) -> Seq<T::V> {
        Seq::new(self.pairs@.len(), |i: int| self.pairs@[i].1.deep_view())
    }

    /// The position of `k` among the keys.
    pub closed spec fn index_of(self, k: Seq<char>) -> int {
        choose|i: int| 0 <= i < self.key_seq().len() && self.key_seq()[i] == k
    }

    /// How the map view and the ordered entries relate: every key holds
    /// the record stored at its position, and every stored record is the
    /// value of its key.
    pub proof fn lemma_view_entries(self)
        requires
            self.inv(),
        ensures
            self.key_seq().len() == self.val_seq().len(),
            forall|i: int|
                0 <= i < self.key_seq().len() ==> self@.dom().contains(#[trigger] self.key_seq()[i])
                    && self@[self.key_seq()[i]] == self.val_seq()[i],
            forall|k: Seq<char>|
                self@.dom().contains(k) ==> exists|i: int|
                    0 <= i < self.val_seq().len() && #[trigger] self.key_seq()[i] == k
                        && self.val_seq()[i] == self@[k],
    {
        assert forall|i: int| 0 <= i < self.key_seq().len() implies self@.dom().contains(
            #[trigger] self.key_seq()[i],
        ) && self@[self.key_seq()[i]] == self.val_seq()[i] by {
            let k = self.key_seq()[i];
            assert(self.key_seq().contains(k));
            let j = self.index_of(k);
            assert(0 <= j < self.key_seq().len() && self.key_seq()[j] == k);
            assert(j == i);
        }
        assert forall|k: Seq<char>| self@.dom().contains(k) implies exists|i: int|
            0 <= i < self.val_seq().len() && #[trigger] self.key_seq()[i] == k && self.val_seq()[i]
                == self@[k] by {
            let j = self.index_of(k);
            assert(0 <= j < self.key_seq().len() && self.key_seq()[j] == k);
        }
    }

    /// An empty store.
    pub fn new() -> (s: Self)
        ensures
            s@ == Map::<Seq<char>, T::V>::empty(),
            s.key_seq() == Seq::<Seq<char>>::empty(),
            s.val_seq() == Seq::<T::V>::empty(),
    {
        let s = StrMap { pairs: Vec::new() };
        proof {
            assert(s.key_seq() =~= Seq::<Seq<char>>::empty());
            assert(s.val_seq() =~= Seq::<T::V>::empty());
            assert(s@ =~= Map::<Seq<char>, T::V>::empty());
        }
        s
    }

    /// The number of entries.
    pub fn len(&self) -> (n: usize)
        ensures
            n == self.key_seq().len(),
            n == self.val_seq().len(),
    {
        self.pairs.len()
    }

    /// The record at position `i` in insertion order.
    pub fn val_at(&self, i: usize) -> (v: &T)
        requires
            i < self.val_seq().len(),
        ensures
            v.deep_view() == self.val_seq()[i as int],
    {
        &self.pairs[i].1
    }

    /// The key at position `i` in insertion order.
    pub fn key_at(&self, i: usize) -> (k: &String)
        requires
            i < self.key_seq().len(),
        ensures
            k@ == self.key_seq()[i as int],
    {
        &self.pairs[i].0
    }

    /// The position of `k`, where present.
    fn position(&self, k: &String) -> (r: Option<usize>)
        ensures
            match r {
                Some(i) => i < self.key_seq().len() && self.key_seq()[i as int] == k@,
                None => !self.key_seq().contains(k@),
            },
    {
        let n = self.pairs.len();
        let mut i: usize = 0;
        while i < n
            invariant
                i <= n,
                n == self.pairs@.len(),
                forall|j: int| 0 <= j < i ==> self.key_seq()[j] != k@,
            decreases n - i,
        {
            if self.pairs[i].0 == *k {
                return Some(i);
            }
            i += 1;
        }
        proof {
            assert forall|j: int| 0 <= j < self.key_seq().len() implies self.key_seq()[j] != k@ by {
            }
        }
        None
    }

    /// Looks `k` up; `None` exactly where the key is absent.
    pub fn get(&self, k: &String) -> (r: Option<&T>)
        ensures
            match r {
                Some(v) => self@.dom().contains(k@) && v.deep_view() == self@[k@],
                None => !self@.dom().contains(k@),
            },
    {
        proof {
            use_type_invariant(&*self);
        }
        match self.position(k) {
            Some(i) => {
                proof {
                    assert(self.key_seq().contains(k@));
                    let j = self.index_of(k@);
                    assert(0 <= j < self.key_seq().len() && self.key_seq()[j] == k@);
                    assert(j == i);
                }
                Some(&self.pairs[i].1)
            },
            None => {
                None
            },
        }
    }

    /// Whether the key is present.
    pub fn contains_key(&self, k: &String) -> (b: bool)
        ensures
            b == self@.dom().contains(k@),
    {
        match self.get(k) {
            Some(_) => true,
            None => false,
        }
    }

    /// Stores `v` under `k`: a fresh key is appended, an existing key's
    /// record is replaced in place.
    pub fn insert(&mut self, k: String, v: T)
        ensures
            final (self)@ == old(self)@.insert(k@, v.deep_view()),
            !old(self)@.dom().contains(k@) ==> final (self).key_seq() == old(self).key_seq().push(
                k@,
            ) && final (self).val_seq() == old(self).val_seq().push(v.deep_view()),
            old(self)@.dom().contains(k@) ==> final (self).key_seq() == old(self).key_seq()
                && exists|i: int|
                0 <= i < old(self).key_seq().len() && #[trigger] old(self).key_seq()[i] == k@
                    && final (self).val_seq() == old(self).val_seq().update(i, v.deep_view()),
    {
        proof {
            use_type_invariant(&*self);
        }
        let ghost prior = *self;
        match self.position(&k) {
            Some(i) => {
                let mut ps: Vec<(String, T)> = Vec::new();
                std::mem::swap(&mut ps, &mut self.pairs);
                ps[i] = (k, v);
                proof {
                    assert(StrMap { pairs: ps }.key_seq() =~= prior.key_seq());
                    assert(StrMap { pairs: ps }.val_seq() =~= prior.val_seq().update(
                        i as int,
                        v.deep_view(),
                    ));
                }
                self.pairs = ps;
                proof {
                    assert(self.key_seq().contains(k@));
                    self.lemma_same_keys_same_index(prior);
                    assert(self@ =~= prior@.insert(k@, v.deep_view()));
                }
            },
            None => {
                let mut ps: Vec<(String, T)> = Vec::new();
                std::mem::swap(&mut ps, &mut self.pairs);
                ps.push((k, v));
                proof {
                    let m2 = (StrMap { pairs: ps });
                    assert(m2.key_seq() =~= prior.key_seq().push(k@));
                    assert(m2.val_seq() =~= prior.val_seq().push(v.deep_view()));
                    let n = prior.pairs@.len();
                    assert forall|i: int, j: int| 0 <= i < j < m2.pairs@.len() implies (
                    #[trigger] m2.pairs@[i].0@) != (#[trigger] m2.pairs@[j].0@) by {
                        assert(m2.key_seq()[i] == m2.pairs@[i].0@);
                        assert(m2.key_seq()[j] == m2.pairs@[j].0@);
                        if j < n {
                            assert(m2.pairs@[i] == prior.pairs@[i]);
                            assert(m2.pairs@[j] == prior.pairs@[j]);
                        } else {
                            assert(m2.key_seq()[j] == k@);
                            assert(prior.key_seq()[i] == m2.key_seq()[i]);
                            assert(!prior.key_seq().contains(k@));
                        }
                    }
                }
                self.pairs = ps;
                proof {
                    self.lemma_push_view(prior, k@, v.deep_view());
                }
            },
        }
    }

    /// Stores with the same keys in the same order agree on every key's
    /// position.
    proof fn lemma_same_keys_same_index(self, other: Self)
        requires
            self.inv(),
            self.key_seq() == other.key_seq(),
        ensures
            forall|k: Seq<char>|
                self.key_seq().contains(k) ==> #[trigger] self.index_of(k) == other.index_of(k)
                    && 0 <= self.index_of(k) < self.key_seq().len() && self.key_seq()[self.index_of(
                    k,
                )] == k,
    {
        assert forall|k: Seq<char>| self.key_seq().contains(k) implies #[trigger] self.index_of(k)
            == other.index_of(k) && 0 <= self.index_of(k) < self.key_seq().len()
            && self.key_seq()[self.index_of(k)] == k by {
            let i = self.index_of(k);
            assert(0 <= i < self.key_seq().len() && self.key_seq()[i] == k);
            let j = other.index_of(k);
            assert(0 <= j < other.key_seq().len() && other.key_seq()[j] == k);
            assert(i == j);
        }
    }

    /// Appending a fresh key makes the map view gain exactly that entry.
    proof fn lemma_push_view(self, prior: Self, k: Seq<char>, v: T::V)
        requires
            self.inv(),
            !prior@.dom().contains(k),
            self.key_seq() == prior.key_seq().push(k),
            self.val_seq() == prior.val_seq().push(v),
        ensures
            self@ == prior@.insert(k, v),
    {
        let n = prior.key_seq().len();
        assert(!prior.key_seq().contains(k));
        assert forall|q: Seq<char>| #[trigger]
            self.key_seq().contains(q) implies prior@.insert(k, v).dom().contains(q) by {
            let i = choose|i: int| 0 <= i < self.key_seq().len() && self.key_seq()[i] == q;
            if i < n {
                assert(prior.key_seq()[i] == q);
                assert(prior.key_seq().contains(q));
            } else {
                assert(q == k);
            }
        }
        assert forall|q: Seq<char>| prior@.insert(k, v).dom().contains(
            q,
        ) implies self.key_seq().contains(q) by {
            if q == k {
                assert(self.key_seq()[n as int] == k);
            } else {
                let i = choose|i: int| 0 <= i < prior.key_seq().len() && prior.key_seq()[i] == q;
                assert(self.key_seq()[i] == q);
            }
        }
        assert forall|q: Seq<char>| self@.dom().contains(q) implies self@[q] == prior@.insert(
            k,
            v,
        )[q] by {
            let i = self.index_of(q);
            assert(0 <= i < self.key_seq().len() && self.key_seq()[i] == q);
            if q == k {
                assert(i == n) by {
                    if i < n {
                        assert(prior.key_seq()[i] == q);
                        assert(prior.key_seq().contains(q));
                    }
                }
                assert(self@[q] == self.val_seq()[n as int]);
            } else {
                assert(i < n);
                assert(prior.key_seq()[i] == q);
                assert(prior.key_seq().contains(q));
                let j = prior.index_of(q);
                assert(0 <= j < prior.key_seq().len() && prior.key_seq()[j] == q);
                assert(self.key_seq()[j] == q);
                assert(j == i);
                assert(self@[q] == self.val_seq()[i] && self.val_seq()[i] == prior.val_seq()[i]);
            }
        }
        assert(self@ =~= prior@.insert(k, v));
    }
}

impl<T: DeepView> View for StrMap<T> {
    type V = Map<Seq<char>, T::V>;

    /// The store as a map from key to stored record.
    closed spec fn view(&self) -> Map<Seq<char>, T::V> {
        Map::new(
            |k: Seq<char>| self.key_seq().contains(k),
            |k: Seq<char>| self.val_seq()[self.index_of(k)],
        )
    }
}

} // verus!
