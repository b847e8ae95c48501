//! The follower/following graph service.
//!
//! Owns two keyed stores of user-id sets: who follows a user, and whom
//! a user follows. Every edge is stored mirrored — once in the
//! followee's follower set and once in the follower's following set —
//! and each operation updates both sides within the one call. Follow
//! and unfollow are idempotent; nothing restricts following oneself.
//! Reading an unknown user yields the empty set rather than an error.

use crate::set::StrSet;
use crate::store::entry_or;
use crate::store::StrMap;
use vstd::prelude::*;

verus! {

/// The adjacency read for `u`: the stored set, or empty where `u` is
/// unknown.
pub open spec fn adj(m: Map<Seq<char>, Set<Seq<char>>>, u: Seq<char>) -> Set<Seq<char>> {
    entry_or(m, u, Set::empty())
}

/// The abstract value of the graph: both adjacency maps.
pub struct GraphView {
    pub followers: Map<Seq<char>, Set<Seq<char>>>,
    pub following: Map<Seq<char>, Set<Seq<char>>>,
}

/// The graph after `follower` follows `followee`: the edge is added to
/// both sides.
pub open spec fn spec_follow(g: GraphView, follower: Seq<char>, followee: Seq<char>) -> GraphView {
    GraphView {
        followers: g.followers.insert(followee, adj(g.followers, followee).insert(follower)),
        following: g.following.insert(follower, adj(g.following, follower).insert(followee)),
    }
}

/// The graph after `follower` unfollows `followee`: the edge is removed
/// from both sides; a side whose key is unknown stays as it is.
pub open spec fn spec_unfollow(g: GraphView, follower: Seq<char>, followee: Seq<char>) -> GraphView {
    GraphView {
        followers: if g.followers.dom().contains(followee) {
            g.followers.insert(followee, g.followers[followee].remove(follower))
        } else {
            g.followers
        },
        following: if g.following.dom().contains(follower) {
            g.following.insert(follower, g.following[follower].remove(followee))
        } else {
            g.following
        },
    }
}

/// The two sides agree: `a` is read among `b`'s followers exactly when
/// `b` is read among those `a` follows.
pub open spec fn mirrored(g: GraphView) -> bool {
    forall|a: Seq<char>, b: Seq<char>|
        #![trigger adj(g.followers, b).contains(a)]
        #![trigger adj(g.following, a).contains(b)]
        adj(g.followers, b).contains(a) <==> adj(g.following, a).contains(b)
}

/// After a follow, the edge is visible on both sides: `a` among `b`'s
/// followers and `b` among those `a` follows.
pub proof fn lemma_follow_mirrors(g: GraphView, a: Seq<char>, b: Seq<char>)
    ensures
        adj(spec_follow(g, a, b).followers, b).contains(a),
        adj(spec_follow(g, a, b).following, a).contains(b),
{
}

/// Where the edge was absent, unfollowing right after following
/// restores the adjacency read for every user, on both sides.
pub proof fn lemma_unfollow_undoes_follow(g: GraphView, a: Seq<char>, b: Seq<char>)
    requires
        !adj(g.following, a).contains(b),
        !adj(g.followers, b).contains(a),
    ensures
        forall|u: Seq<char>| #[trigger]
            adj(spec_unfollow(spec_follow(g, a, b), a, b).followers, u) == adj(g.followers, u),
        forall|u: Seq<char>| #[trigger]
            adj(spec_unfollow(spec_follow(g, a, b), a, b).following, u) == adj(g.following, u),
{
    let g1 = spec_follow(g, a, b);
    let g2 = spec_unfollow(g1, a, b);
    assert(g1.followers[b].remove(a) =~= adj(g.followers, b));
    assert(g1.following[a].remove(b) =~= adj(g.following, a));
    assert forall|u: Seq<char>| #[trigger] adj(g2.followers, u) == adj(g.followers, u) by {
        if u == b {
            assert(adj(g2.followers, u) =~= adj(g.followers, u));
        } else {
            assert(adj(g2.followers, u) =~= adj(g.followers, u));
        }
    }
    assert forall|u: Seq<char>| #[trigger] adj(g2.following, u) == adj(g.following, u) by {
        if u == a {
            assert(adj(g2.following, u) =~= adj(g.following, u));
        } else {
            assert(adj(g2.following, u) =~= adj(g.following, u));
        }
    }
}

/// The graph service and its two keyed stores.
pub struct SocialGraphService {
    followers: StrMap<StrSet>,
    following: StrMap<StrSet>,
}

impl View for SocialGraphService {
    type V = GraphView;

    /// Both adjacency maps.
    closed spec fn view(&self) -> GraphView {
        GraphView { followers: self.followers@, following: self.following@ }
    }
}

impl SocialGraphService {
    /// A graph with no edges.
    pub fn new() -> (s: Self)
        ensures
            s@.followers == Map::<Seq<char>, Set<Seq<char>>>::empty(),
            s@.following == Map::<Seq<char>, Set<Seq<char>>>::empty(),
            mirrored(s@),
    {
        let s = SocialGraphService { followers: StrMap::new(), following: StrMap::new() };
        proof {
            assert forall|a: Seq<char>, b: Seq<char>|
                adj(s@.followers, b).contains(a) <==> adj(s@.following, a).contains(b) by {
                assert(!adj(s@.followers, b).contains(a));
                assert(!adj(s@.following, a).contains(b));
            }
        }
        s
    }

    /// Adds the edge to both sides. Idempotent, and keeps the two
    /// sides mirrored.
    pub fn follow(&mut self, follower: String, followee: String)
        ensures
            final (self)@ == spec_follow(old(self)@, follower@, followee@),
            mirrored(old(self)@) ==> mirrored(final (self)@),
    {
        let mut fg: StrSet = match self.following.get(&follower) {
            Some(s) => s.clone(),
            None => StrSet::new(),
        };
        fg.insert(followee.clone());
        self.following.insert(follower.clone(), fg);
        let mut fr: StrSet = match self.followers.get(&followee) {
            Some(s) => s.clone(),
            None => StrSet::new(),
        };
        fr.insert(follower);
        self.followers.insert(followee, fr);
        proof {
            let g = old(self)@;
            let a = follower@;
            let b = followee@;
            assert(self@.followers =~= spec_follow(g, a, b).followers);
            assert(self@.following =~= spec_follow(g, a, b).following);
            if mirrored(g) {
                assert forall|x: Seq<char>, y: Seq<char>|
                    adj(self@.followers, y).contains(x) <==> adj(self@.following, x).contains(
                        y,
                    ) by {
                    assert(adj(g.followers, y).contains(x) <==> adj(g.following, x).contains(y));
                    if y == b {
                        assert(adj(self@.followers, y) == adj(g.followers, b).insert(a));
                    } else {
                        assert(adj(self@.followers, y) == adj(g.followers, y));
                    }
                    if x == a {
                        assert(adj(self@.following, x) == adj(g.following, a).insert(b));
                    } else {
                        assert(adj(self@.following, x) == adj(g.following, x));
                    }
                }
            }
        }
    }

    /// Removes the edge from both sides. A no-op on any side where it
    /// is absent, and keeps the two sides mirrored.
    pub fn unfollow(&mut self, follower: String, followee: String)
        ensures
            final (self)@ == spec_unfollow(old(self)@, follower@, followee@),
            mirrored(old(self)@) ==> mirrored(final (self)@),
    {
        let fg: Option<StrSet> = match self.following.get(&follower) {
            Some(s) => Some(s.clone()),
            None => None,
        };
        match fg {
            Some(mut s) => {
                s.remove(&followee);
                self.following.insert(follower.clone(), s);
            },
            None => {},
        }
        let fr: Option<StrSet> = match self.followers.get(&followee) {
            Some(s) => Some(s.clone()),
            None => None,
        };
        match fr {
            Some(mut s) => {
                s.remove(&follower);
                self.followers.insert(followee.clone(), s);
            },
            None => {},
        }
        proof {
            let g = old(self)@;
            let a = follower@;
            let b = followee@;
            assert(self@.followers =~= spec_unfollow(g, a, b).followers);
            assert(self@.following =~= spec_unfollow(g, a, b).following);
            if mirrored(g) {
                assert forall|x: Seq<char>, y: Seq<char>|
                    adj(self@.followers, y).contains(x) <==> adj(self@.following, x).contains(
                        y,
                    ) by {
                    assert(adj(g.followers, y).contains(x) <==> adj(g.following, x).contains(y));
                    if y == b {
                        assert(adj(self@.followers, y) =~= adj(g.followers, b).remove(a));
                    } else {
                        assert(adj(self@.followers, y) == adj(g.followers, y));
                    }
                    if x == a {
                        assert(adj(self@.following, x) =~= adj(g.following, a).remove(b));
                    } else {
                        assert(adj(self@.following, x) == adj(g.following, x));
                    }
                }
            }
        }
    }

    /// The users following `user`, duplicate-free; empty where `user`
    /// is unknown. Read-only.
    pub fn get_followers(&self, user: String) -> (r: Vec<String>)
        ensures
            r.deep_view().no_duplicates(),
            forall|x: Seq<char>| #[trigger]
                r.deep_view().contains(x) <==> adj(self@.followers, user@).contains(x),
    {
        match self.followers.get(&user) {
            Some(s) => s.to_vec(),
            None => {
                let r: Vec<String> = Vec::new();
                proof {
                    assert(r.deep_view() =~= Seq::<Seq<char>>::empty());
                }
                r
            },
        }
    }

    /// The users `user` follows, duplicate-free; empty where `user` is
    /// unknown. Read-only.
    pub fn get_following(&self, user: String) -> (r: Vec<String>)
        ensures
            r.deep_view().no_duplicates(),
            forall|x: Seq<char>| #[trigger]
                r.deep_view().contains(x) <==> adj(self@.following, user@).contains(x),
    {
        match self.following.get(&user) {
            Some(s) => s.to_vec(),
            None => {
                let r: Vec<String> = Vec::new();
                proof {
                    assert(r.deep_view() =~= Seq::<Seq<char>>::empty());
                }
                r
            },
        }
    }
}

} // verus!
