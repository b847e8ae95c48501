//! A set of string identifiers.
//!
//! Follower and following adjacency and per-post like sets are sets of
//! user ids: insertion is idempotent, removal of an absent member is a
//! no-op. The representation is a duplicate-free vector, so handing the
//! members out preserves first-insertion order.

use vstd::prelude::*;

verus! {

/// A set of string identifiers, stored duplicate-free.
pub struct StrSet {
    items: Vec<String>,
}

impl StrSet {
    /// Members are pairwise distinct.
    #[verifier::type_invariant]
    pub closed spec fn inv(self) -> bool {
        forall|i: int, j: int|
            0 <= i < j < self.items@.len() ==> (#[trigger] self.items@[i]@) != (
            #[trigger] self.items@[j]@)
    }

    /// The members in first-insertion order.
    pub closed spec fn elems(self) -> Seq<Seq<char>> {
        Seq::new(self.items@.len(), |i: int| self.items@[i]@)
    }

    /// An empty set.
    pub fn new() -> (s: Self)
        ensures
            s@ == Set::<Seq<char>>::empty(),
            s.elems() == Seq::<Seq<char>>::empty(),
    {
        let s = StrSet { items: Vec::new() };
        proof {
            assert(s.elems() =~= Seq::<Seq<char>>::empty());
            assert(s@ =~= Set::<Seq<char>>::empty());
        }
        s
    }

    /// Whether `x` is a member.
    pub fn contains(&self, x: &String) -> (b: bool)
        ensures
            b == self@.contains(x@),
    {
        let n = self.items.len();
        let mut i: usize = 0;
        while i < n
            invariant
                i <= n,
                n == self.items@.len(),
                forall|j: int| 0 <= j < i ==> self.elems()[j] != x@,
            decreases n - i,
        {
            if self.items[i] == *x {
                proof {
                    assert(self.elems()[i as int] == x@);
                    assert(self.elems().contains(x@));
                }
                return true;
            }
            i += 1;
        }
        proof {
            assert(!self.elems().contains(x@));
        }
        false
    }

    /// Adds `x`; adding a member again changes nothing.
    pub fn insert(&mut self, x: String)
        ensures
            final (self)@ == old(self)@.insert(x@),
            final (self).elems() == if old(self)@.contains(x@) {
                old(self).elems()
            } else {
                old(self).elems().push(x@)
            },
    {
        proof {
            use_type_invariant(&*self);
        }
        let ghost prior = *self;
        if self.contains(&x) {
            proof {
                assert(prior@.insert(x@) =~= prior@);
            }
        } else {
            let mut vs: Vec<String> = Vec::new();
            std::mem::swap(&mut vs, &mut self.items);
            vs.push(x);
            let ghost grown = (StrSet { items: vs });
            proof {
                assert(grown.elems() =~= prior.elems().push(x@));
                let n = prior.items@.len();
                assert forall|i: int, j: int| 0 <= i < j < grown.items@.len() implies (
                #[trigger] grown.items@[i]@) != (#[trigger] grown.items@[j]@) by {
                    assert(grown.elems()[i] == grown.items@[i]@);
                    assert(grown.elems()[j] == grown.items@[j]@);
                    if j < n {
                        assert(grown.items@[i] == prior.items@[i]);
                        assert(grown.items@[j] == prior.items@[j]);
                    } else {
                        assert(grown.elems()[j] == x@);
                        assert(prior.elems()[i] == grown.elems()[i]);
                        assert(prior.elems()[i] == prior.items@[i]@);
                        assert(!prior.elems().contains(x@));
                    }
                }
            }
            self.items = vs;
            proof {
                assert(*self == grown);
                assert forall|y: Seq<char>| self@.contains(y) implies prior@.insert(x@).contains(
                    y,
                ) by {
                    let p = choose|p: int| 0 <= p < self.elems().len() && self.elems()[p] == y;
                    if p < prior.elems().len() {
                        assert(prior.elems()[p] == y);
                        assert(prior.elems().contains(y));
                    }
                }
                assert forall|y: Seq<char>| prior@.insert(x@).contains(y) implies self@.contains(
                    y,
                ) by {
                    if y == x@ {
                        assert(self.elems()[prior.elems().len() as int] == x@);
                    } else {
                        let p = choose|p: int|
                            0 <= p < prior.elems().len() && prior.elems()[p] == y;
                        assert(self.elems()[p] == y);
                    }
                    assert(self.elems().contains(y));
                }
                assert(self@ =~= prior@.insert(x@));
            }
        }
    }

    /// Removes `x`; removing an absent member changes nothing.
    pub fn remove(&mut self, x: &String)
        ensures
            final (self)@ == old(self)@.remove(x@),
            !old(self)@.contains(x@) ==> final (self).elems() == old(self).elems(),
    {
        proof {
            use_type_invariant(&*self);
        }
        let ghost prior = *self;
        let n = self.items.len();
        let mut i: usize = 0;
        while i < n
            invariant
                i <= n,
                n == self.items@.len(),
                *self == prior,
                prior == *old(self),
                prior.inv(),
                forall|j: int| 0 <= j < i ==> self.elems()[j] != x@,
            decreases n - i,
        {
            if self.items[i] == *x {
                let ghost ii = i as int;
                proof {
                    assert(prior.elems()[ii] == x@);
                }
                let mut vs: Vec<String> = Vec::new();
                std::mem::swap(&mut vs, &mut self.items);
                vs.remove(i);
                let ghost shrunk = (StrSet { items: vs });
                proof {
                    prior.items@.remove_ensures(ii);
                    assert(shrunk.items@.len() == prior.items@.len() - 1);
                    assert forall|p: int| 0 <= p < shrunk.items@.len() implies shrunk.items@[p]
                        == prior.items@[if p < ii {
                        p
                    } else {
                        p + 1
                    }] by {
                        if p < ii {
                            assert(prior.items@.remove(ii)[p] == prior.items@[p]);
                        } else {
                            assert(prior.items@.remove(ii)[p] == prior.items@[p + 1]);
                        }
                    }
                    assert forall|p: int, q: int| 0 <= p < q < shrunk.items@.len() implies (
                    #[trigger] shrunk.items@[p]@) != (#[trigger] shrunk.items@[q]@) by {
                        let pp: int = if p < ii {
                            p
                        } else {
                            p + 1
                        };
                        let qq: int = if q < ii {
                            q
                        } else {
                            q + 1
                        };
                        assert(0 <= pp < qq < prior.items@.len());
                        assert(shrunk.items@[p] == prior.items@[pp]);
                        assert(shrunk.items@[q] == prior.items@[qq]);
                        assert(prior.items@[pp]@ != prior.items@[qq]@);
                    }
                }
                self.items = vs;
                proof {
                    assert(*self == shrunk);
                    assert forall|y: Seq<char>| self@.contains(y) implies prior@.remove(
                        x@,
                    ).contains(y) by {
                        let p = choose|p: int|
                            0 <= p < self.elems().len() && self.elems()[p] == y;
                        let pp: int = if p < ii {
                            p
                        } else {
                            p + 1
                        };
                        assert(self.items@[p] == prior.items@[pp]);
                        assert(prior.elems()[pp] == y);
                        assert(prior.elems().contains(y));
                        assert(pp != ii);
                        assert(y != x@) by {
                            if pp < ii {
                                assert(prior.items@[pp]@ != prior.items@[ii]@);
                            } else {
                                assert(prior.items@[ii]@ != prior.items@[pp]@);
                            }
                        }
                    }
                    assert forall|y: Seq<char>| prior@.remove(x@).contains(
                        y,
                    ) implies self@.contains(y) by {
                        let p = choose|p: int|
                            0 <= p < prior.elems().len() && prior.elems()[p] == y;
                        assert(p != ii) by {
                            assert(prior.elems()[ii] == x@);
                        }
                        if p < ii {
                            assert(self.items@[p] == prior.items@[p]);
                            assert(self.elems()[p] == y);
                        } else {
                            assert(self.items@[p - 1] == prior.items@[p]);
                            assert(self.elems()[p - 1] == y);
                        }
                        assert(self.elems().contains(y));
                    }
                    assert(self@ =~= prior@.remove(x@));
                }
                return ;
            }
            i += 1;
        }
        proof {
            assert(!self.elems().contains(x@));
            assert(self@ =~= prior@.remove(x@));
        }
    }

    /// The members, in first-insertion order and without duplicates.
    pub fn to_vec(&self) -> (r: Vec<String>)
        ensures
            r.deep_view() == self.elems(),
            r.deep_view().no_duplicates(),
            forall|x: Seq<char>| #[trigger] r.deep_view().contains(x) <==> self@.contains(x),
    {
        proof {
            use_type_invariant(&*self);
        }
        let n = self.items.len();
        let mut r: Vec<String> = Vec::new();
        let mut i: usize = 0;
        while i < n
            invariant
                i <= n,
                n == self.items@.len(),
                r@.len() == i,
                r.deep_view() == self.elems().take(i as int),
            decreases n - i,
        {
            let ghost r0 = r;
            let s = self.items[i].clone();
            proof {
                assert(s@ == self.elems()[i as int]);
            }
            r.push(s);
            proof {
                assert(r@ == r0@.push(s));
                assert forall|j: int| 0 <= j < r@.len() implies r.deep_view()[j]
                    == self.elems().take(i as int + 1)[j] by {
                    assert(r.deep_view()[j] == r@[j]@);
                    if j < i as int {
                        assert(r@[j] == r0@[j]);
                        assert(r0.deep_view()[j] == r0@[j]@);
                        assert(r0.deep_view()[j] == self.elems().take(i as int)[j]);
                    } else {
                        assert(r@[j] == s);
                    }
                }
                assert(r.deep_view() =~= self.elems().take(i as int + 1));
            }
            i += 1;
        }
        proof {
            assert(r.deep_view() =~= self.elems());
            assert forall|p: int, q: int|
                0 <= p < r.deep_view().len() && 0 <= q < r.deep_view().len() && p
                    != q implies r.deep_view()[p] != r.deep_view()[q] by {
                if p < q {
                    assert(self.items@[p]@ != self.items@[q]@);
                } else {
                    assert(self.items@[q]@ != self.items@[p]@);
                }
            }
        }
        r
    }
}

impl Clone for StrSet {
    /// The copy has the same members in the same order.
    fn clone(&self) -> (res: Self)
        ensures
            res@ == self@,
            res.elems() == self.elems(),
    {
        let items = self.to_vec();
        let ghost dv = items.deep_view();
        proof {
            assert forall|i: int, j: int| 0 <= i < j < items@.len() implies (
            #[trigger] items@[i]@) != (#[trigger] items@[j]@) by {
                assert(dv[i] == items@[i]@);
                assert(dv[j] == items@[j]@);
            }
        }
        let res = StrSet { items };
        proof {
            assert(res.elems() =~= self.elems());
        }
        res
    }
}

impl View for StrSet {
    type V = Set<Seq<char>>;

    /// The set of members.
    closed spec fn view(&self) -> Set<Seq<char>> {
        self.elems().to_set()
    }
}

impl DeepView for StrSet {
    type V = Set<Seq<char>>;

    open spec fn deep_view(&self) -> Set<Seq<char>> {
        self.view()
    }
}

} // verus!
