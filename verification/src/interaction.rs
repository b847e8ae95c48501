//! The interaction service.
//!
//! Owns two keyed stores by post id: the set of users that like a post
//! and the ordered list of its comments. Liking is idempotent and
//! unliking an absent like is a no-op; comments are immutable, minted
//! like posts from the author and the instant, and appended in
//! submission order. Neither store checks the post against the post
//! service: an interaction may be attached to a post id that was never
//! stored.

use crate::ids::{mint_id, spec_minted_id};
use crate::set::StrSet;
use crate::store::entry_or;
use crate::store::StrMap;
use vstd::prelude::*;

verus! {

/// A stored comment.
#[derive(Debug)]
pub struct Comment {
    pub id: String,
    pub post_id: String,
    pub author: String,
    pub content: String,
    pub timestamp: u64,
}

/// The abstract value of a comment.
pub struct CommentView {
    pub id: Seq<char>,
    pub post_id: Seq<char>,
    pub author: Seq<char>,
    pub content: Seq<char>,
    pub timestamp: u64,
}

impl View for Comment {
    type V = CommentView;

    open spec fn view(&self) -> CommentView {
        CommentView {
            id: self.id@,
            post_id: self.post_id@,
            author: self.author@,
            content: self.content@,
            timestamp: self.timestamp,
        }
    }
}

impl DeepView for Comment {
    type V = CommentView;

    open spec fn deep_view(&self) -> CommentView {
        self.view()
    }
}

impl Clone for Comment {
    /// The copy equals the original.
    fn clone(&self) -> (res: Self)
        ensures
            res == *self,
    {
        Comment {
            id: self.id.clone(),
            post_id: self.post_id.clone(),
            author: self.author.clone(),
            content: self.content.clone(),
            timestamp: self.timestamp,
        }
    }
}

/// The users liking `p`: the stored set, or empty where `p` is
/// unknown.
pub open spec fn likes_of(m: Map<Seq<char>, Set<Seq<char>>>, p: Seq<char>) -> Set<Seq<char>> {
    entry_or(m, p, Set::empty())
}

/// The comments on `p` in submission order, or empty where `p` is
/// unknown.
pub open spec fn comments_of(m: Map<Seq<char>, Seq<CommentView>>, p: Seq<char>) -> Seq<
    CommentView,
> {
    entry_or(m, p, Seq::empty())
}

/// The like stores after `u` likes `p`.
pub open spec fn spec_like(
    m: Map<Seq<char>, Set<Seq<char>>>,
    u: Seq<char>,
    p: Seq<char>,
) -> Map<Seq<char>, Set<Seq<char>>> {
    m.insert(p, likes_of(m, p).insert(u))
}

/// The like stores after `u` unlikes `p`; an unknown post id stays as
/// it is.
pub open spec fn spec_unlike(
    m: Map<Seq<char>, Set<Seq<char>>>,
    u: Seq<char>,
    p: Seq<char>,
) -> Map<Seq<char>, Set<Seq<char>>> {
    if m.dom().contains(p) {
        m.insert(p, m[p].remove(u))
    } else {
        m
    }
}

/// The comment stores after `c` is appended to its post's list.
pub open spec fn spec_add_comment(
    m: Map<Seq<char>, Seq<CommentView>>,
    c: CommentView,
) -> Map<Seq<char>, Seq<CommentView>> {
    m.insert(c.post_id, comments_of(m, c.post_id).push(c))
}

/// Liking is idempotent: liking the same post twice as the same user
/// leaves exactly the state that liking it once leaves.
pub proof fn lemma_like_idempotent(m: Map<Seq<char>, Set<Seq<char>>>, u: Seq<char>, p: Seq<char>)
    ensures
        spec_like(spec_like(m, u, p), u, p) == spec_like(m, u, p),
{
    let m1 = spec_like(m, u, p);
    assert(likes_of(m1, p).insert(u) =~= likes_of(m1, p));
    assert(spec_like(m1, u, p) =~= m1);
}

/// Unliking a post the user does not like changes nothing, and in
/// particular unliking after zero likes is a no-op.
pub proof fn lemma_unlike_absent(m: Map<Seq<char>, Set<Seq<char>>>, u: Seq<char>, p: Seq<char>)
    requires
        !likes_of(m, p).contains(u),
    ensures
        spec_unlike(m, u, p) == m,
{
    if m.dom().contains(p) {
        assert(m[p].remove(u) =~= m[p]);
        assert(spec_unlike(m, u, p) =~= m);
    }
}

/// Comments on one post come back in submission order: two appended
/// comments extend the post's sequence in order, and its count grows
/// by exactly the number of calls.
pub proof fn lemma_comments_in_order(
    m: Map<Seq<char>, Seq<CommentView>>,
    c1: CommentView,
    c2: CommentView,
)
    requires
        c1.post_id == c2.post_id,
    ensures
        comments_of(spec_add_comment(spec_add_comment(m, c1), c2), c1.post_id) == comments_of(
            m,
            c1.post_id,
        ).push(c1).push(c2),
        comments_of(spec_add_comment(spec_add_comment(m, c1), c2), c1.post_id).len() == comments_of(
            m,
            c1.post_id,
        ).len() + 2,
{
}

/// The abstract value of the interaction service: both stores.
pub struct InteractionView {
    pub likes: Map<Seq<char>, Set<Seq<char>>>,
    pub comments: Map<Seq<char>, Seq<CommentView>>,
}

/// The interaction service and its two keyed stores.
pub struct InteractionService {
    likes: StrMap<StrSet>,
    comments: StrMap<Vec<Comment>>,
}

impl View for InteractionService {
    type V = InteractionView;

    /// Both stores.
    closed spec fn view(&self) -> InteractionView {
        InteractionView { likes: self.likes@, comments: self.comments@ }
    }
}

/// A copy of a comment list, element for element.
fn clone_comments(v: &Vec<Comment>) -> (r: Vec<Comment>)
    ensures
        r.deep_view() == v.deep_view(),
{
    let n = v.len();
    let mut r: Vec<Comment> = Vec::new();
    let mut i: usize = 0;
    while i < n
        invariant
            i <= n,
            n == v@.len(),
            r@.len() == i,
            r.deep_view() == v.deep_view().take(i as int),
        decreases n - i,
    {
        let ghost r0 = r;
        let c = v[i].clone();
        r.push(c);
        proof {
            assert forall|j: int| 0 <= j < r@.len() implies r.deep_view()[j] == v.deep_view().take(
                i as int + 1,
            )[j] by {
                assert(r.deep_view()[j] == r@[j]@);
                if j < i as int {
                    assert(r@[j] == r0@[j]);
                    assert(r0.deep_view()[j] == r0@[j]@);
                    assert(r0.deep_view()[j] == v.deep_view().take(i as int)[j]);
                } else {
                    assert(r@[j] == c);
                    assert(v.deep_view()[j] == v@[j]@);
                }
            }
            assert(r.deep_view() =~= v.deep_view().take(i as int + 1));
        }
        i += 1;
    }
    proof {
        assert(r.deep_view() =~= v.deep_view());
    }
    r
}

impl InteractionService {
    /// A service with no likes and no comments.
    pub fn new() -> (s: Self)
        ensures
            s@.likes == Map::<Seq<char>, Set<Seq<char>>>::empty(),
            s@.comments == Map::<Seq<char>, Seq<CommentView>>::empty(),
    {
        InteractionService { likes: StrMap::new(), comments: StrMap::new() }
    }

    /// Adds `user` to the post's like set. Idempotent; nothing checks
    /// that the post exists.
    pub fn like_post(&mut self, user: String, post_id: String)
        ensures
            final (self)@.likes == spec_like(old(self)@.likes, user@, post_id@),
            final (self)@.comments == old(self)@.comments,
    {
        let mut s: StrSet = match self.likes.get(&post_id) {
            Some(s) => s.clone(),
            None => StrSet::new(),
        };
        s.insert(user);
        self.likes.insert(post_id, s);
        proof {
            assert(self@.likes =~= spec_like(old(self)@.likes, user@, post_id@));
        }
    }

    /// Removes `user` from the post's like set; a no-op where the like
    /// or the post id is absent.
    pub fn unlike_post(&mut self, user: String, post_id: String)
        ensures
            final (self)@.likes == spec_unlike(old(self)@.likes, user@, post_id@),
            final (self)@.comments == old(self)@.comments,
    {
        let found: Option<StrSet> = match self.likes.get(&post_id) {
            Some(s) => Some(s.clone()),
            None => None,
        };
        match found {
            Some(mut s) => {
                s.remove(&user);
                self.likes.insert(post_id, s);
                proof {
                    assert(self@.likes =~= spec_unlike(old(self)@.likes, user@, post_id@));
                }
            },
            None => {},
        }
    }

    /// The users liking the post, duplicate-free; empty where the post
    /// id is unknown. Read-only.
    pub fn get_likes(&self, post_id: String) -> (r: Vec<String>)
        ensures
            r.deep_view().no_duplicates(),
            forall|x: Seq<char>| #[trigger]
                r.deep_view().contains(x) <==> likes_of(self@.likes, post_id@).contains(x),
    {
        match self.likes.get(&post_id) {
            Some(s) => s.to_vec(),
            None => {
                let r: Vec<String> = Vec::new();
                proof {
                    assert(r.deep_view() =~= Seq::<Seq<char>>::empty());
                }
                r
            },
        }
    }

    /// Appends a comment by `user` on the post at instant `now`, with
    /// an id minted like a post id, and returns it. Nothing checks that
    /// the post exists.
    pub fn add_comment(&mut self, user: String, post_id: String, content: String, now: u64) -> (c:
        Comment)
        ensures
            c@ == (CommentView {
                id: spec_minted_id(user@, now),
                post_id: post_id@,
                author: user@,
                content: content@,
                timestamp: now,
            }),
            final (self)@.comments == spec_add_comment(old(self)@.comments, c@),
            final (self)@.likes == old(self)@.likes,
    {
        let id = mint_id(&user, now);
        let comment = Comment { id, post_id: post_id.clone(), author: user, content, timestamp: now };
        let mut list: Vec<Comment> = match self.comments.get(&post_id) {
            Some(v) => clone_comments(v),
            None => Vec::new(),
        };
        let ghost list0 = list;
        let result = comment.clone();
        list.push(comment);
        proof {
            assert forall|j: int| 0 <= j < list@.len() implies list.deep_view()[j] == list0.deep_view().push(
                result@,
            )[j] by {
                assert(list.deep_view()[j] == list@[j]@);
                if j < list0@.len() {
                    assert(list@[j] == list0@[j]);
                    assert(list0.deep_view()[j] == list0@[j]@);
                }
            }
            assert(list.deep_view() =~= list0.deep_view().push(result@));
            assert(list0.deep_view() =~= comments_of(old(self)@.comments, post_id@));
        }
        self.comments.insert(post_id, list);
        proof {
            assert(self@.comments =~= spec_add_comment(old(self)@.comments, result@));
        }
        result
    }

    /// The post's comments in submission order; empty where the post
    /// id is unknown. Read-only.
    pub fn get_comments(&self, post_id: String) -> (r: Vec<Comment>)
        ensures
            r.deep_view() == comments_of(self@.comments, post_id@),
    {
        match self.comments.get(&post_id) {
            Some(v) => clone_comments(v),
            None => {
                let r: Vec<Comment> = Vec::new();
                proof {
                    assert(r.deep_view() =~= Seq::<CommentView>::empty());
                }
                r
            },
        }
    }
}

} // verus!
