//! The post service.
//!
//! Owns the post store, keyed by a post id minted from the author and
//! the creation timestamp. Creating a post is a check-then-act
//! protocol: the caller first asks the user service whether the author
//! exists and hands the outcome in, so the decision here is verified
//! for every outcome of that remote call. Two creations for the same
//! author at the same instant mint the same id; rather than silently
//! overwriting the first post, the collision is detected and rejected.
//! Posts are immutable once stored.

use crate::clone_opt;
use crate::ids::{mint_id, spec_minted_id};
use crate::store::StrMap;
use crate::SocialError;
use vstd::prelude::*;
use vstd::string::StringExecFns;

verus! {

/// A stored post.
#[derive(Debug)]
pub struct Post {
    pub id: String,
    pub author: String,
    pub content: String,
    pub timestamp: u64,
    pub version: u8,
}

/// The abstract value of a post.
pub struct PostView {
    pub id: Seq<char>,
    pub author: Seq<char>,
    pub content: Seq<char>,
    pub timestamp: u64,
    pub version: u8,
}

impl View for Post {
    type V = PostView;

    open spec fn view(&self) -> PostView {
        PostView {
            id: self.id@,
            author: self.author@,
            content: self.content@,
            timestamp: self.timestamp,
            version: self.version,
        }
    }
}

impl DeepView for Post {
    type V = PostView;

    open spec fn deep_view(&self) -> PostView {
        self.view()
    }
}

impl Clone for Post {
    /// The copy equals the original.
    fn clone(&self) -> (res: Self)
        ensures
            res == *self,
    {
        Post {
            id: self.id.clone(),
            author: self.author.clone(),
            content: self.content.clone(),
            timestamp: self.timestamp,
            version: self.version,
        }
    }
}

/// The profile record that the user service's existence check answers
/// with. Only its presence decides post creation.
#[derive(Debug)]
pub struct UserProfile {
    pub id: String,
    pub name: String,
    pub bio: String,
    pub avatar_url: Option<String>,
}

impl Clone for UserProfile {
    /// The copy equals the original.
    fn clone(&self) -> (res: Self)
        ensures
            res == *self,
    {
        UserProfile {
            id: self.id.clone(),
            name: self.name.clone(),
            bio: self.bio.clone(),
            avatar_url: clone_opt(&self.avatar_url),
        }
    }
}

/// The post created for `author` with `content` at instant `ts`.
pub open spec fn spec_new_post(author: Seq<char>, content: Seq<char>, ts: u64) -> PostView {
    PostView {
        id: spec_minted_id(author, ts),
        author: author,
        content: content,
        timestamp: ts,
        version: 1,
    }
}

/// Two creations for the same author at the same instant mint the same
/// id, and after the first one stores its post that id is taken: the
/// second must answer `DuplicatePostId` instead of silently
/// overwriting the first.
pub proof fn lemma_same_instant_post_collides(
    posts: Map<Seq<char>, PostView>,
    author: Seq<char>,
    now: u64,
    p: PostView,
)
    ensures
        posts.insert(spec_minted_id(author, now), p).dom().contains(spec_minted_id(author, now)),
{
}

/// The store after demo seeding: one post for each demo user at
/// successive instants and, for a caller that is not itself a demo
/// user, five more posts by the caller at the same instants.
pub open spec fn spec_seed_demo_posts(
    posts: Map<Seq<char>, PostView>,
    caller: Seq<char>,
    now: u64,
) -> Map<Seq<char>, PostView>
    recommends
        now + 4 <= u64::MAX,
{
    let seeded = posts.insert(
        spec_minted_id("demo-user-1"@, now),
        spec_new_post("demo-user-1"@, "Hello, this is Alice's first post!"@, now),
    ).insert(
        spec_minted_id("demo-user-2"@, (now + 1) as u64),
        spec_new_post("demo-user-2"@, "Bob here, excited to join!"@, (now + 1) as u64),
    ).insert(
        spec_minted_id("demo-user-3"@, (now + 2) as u64),
        spec_new_post("demo-user-3"@, "Charlie says hi to everyone!"@, (now + 2) as u64),
    );
    if caller == "demo-user-1"@ || caller == "demo-user-2"@ || caller == "demo-user-3"@ {
        seeded
    } else {
        seeded.insert(
            spec_minted_id(caller, now),
            spec_new_post(caller, "Hello, this is Alice's first post!"@, now),
        ).insert(
            spec_minted_id(caller, (now + 1) as u64),
            spec_new_post(caller, "Bob here, excited to join!"@, (now + 1) as u64),
        ).insert(
            spec_minted_id(caller, (now + 2) as u64),
            spec_new_post(caller, "Charlie says hi to everyone!"@, (now + 2) as u64),
        ).insert(
            spec_minted_id(caller, (now + 3) as u64),
            spec_new_post(caller, "Another day, another post."@, (now + 3) as u64),
        ).insert(
            spec_minted_id(caller, (now + 4) as u64),
            spec_new_post(caller, "ICP is awesome!"@, (now + 4) as u64),
        )
    }
}

/// The post service and its keyed store.
pub struct PostService {
    posts: StrMap<Post>,
}

impl View for PostService {
    type V = Map<Seq<char>, PostView>;

    /// The posts by post id.
    closed spec fn view(&self) -> Map<Seq<char>, PostView> {
        self.posts@
    }
}

impl PostService {
    /// The stored posts in store-iteration order, which is insertion
    /// order.
    pub closed spec fn post_seq(self) -> Seq<PostView> {
        self.posts.val_seq()
    }

    /// A service with no posts.
    pub fn new() -> (s: Self)
        ensures
            s@ == Map::<Seq<char>, PostView>::empty(),
            s.post_seq() == Seq::<PostView>::empty(),
    {
        PostService { posts: StrMap::new() }
    }

    /// Creates a post for `author` at instant `now`, gated on
    /// `user_lookup`, the outcome of the existence check against the
    /// user service. A transport failure aborts with
    /// `UpstreamUnavailable` carrying the failure detail; an absent
    /// author aborts with `UserNotFound`; an already-taken minted id
    /// aborts with `DuplicatePostId`. Each abort leaves the store
    /// untouched. Otherwise the post is stored under the minted id with
    /// schema version 1 and returned.
    pub fn add_post(
        &mut self,
        author: String,
        content: String,
        user_lookup: Result<Option<UserProfile>, String>,
        now: u64,
    ) -> (r: Result<Post, SocialError>)
        ensures
            user_lookup matches Err(e) ==> r == Err::<Post, SocialError>(
                SocialError::UpstreamUnavailable(e),
            ) && *final (self) == *old(self),
            user_lookup matches Ok(None) ==> r == Err::<Post, SocialError>(
                SocialError::UserNotFound,
            ) && *final (self) == *old(self),
            user_lookup matches Ok(Some(_)) && old(self)@.dom().contains(
                spec_minted_id(author@, now),
            ) ==> r == Err::<Post, SocialError>(SocialError::DuplicatePostId) && *final (self)
                == *old(self),
            user_lookup matches Ok(Some(_)) && !old(self)@.dom().contains(
                spec_minted_id(author@, now),
            ) ==> ({
                &&& r matches Ok(p)
                &&& p@ == spec_new_post(author@, content@, now)
                &&& final (self)@ == old(self)@.insert(spec_minted_id(author@, now), p@)
                &&& final (self).post_seq() == old(self).post_seq().push(p@)
            }),
    {
        match user_lookup {
            Err(e) => {
                return Err(SocialError::UpstreamUnavailable(e));
            },
            Ok(None) => {
                return Err(SocialError::UserNotFound);
            },
            Ok(Some(_)) => {},
        }
        let id = mint_id(&author, now);
        if self.posts.contains_key(&id) {
            return Err(SocialError::DuplicatePostId);
        }
        let post = Post { id: id.clone(), author, content, timestamp: now, version: 1 };
        let result = post.clone();
        self.posts.insert(id, post);
        Ok(result)
    }

    /// All posts, in store-iteration order. Read-only.
    pub fn fetch_posts(&self) -> (r: Vec<Post>)
        ensures
            r.deep_view() == self.post_seq(),
    {
        let n = self.posts.len();
        let mut r: Vec<Post> = Vec::new();
        let mut i: usize = 0;
        while i < n
            invariant
                i <= n,
                n == self.posts.val_seq().len(),
                r@.len() == i,
                r.deep_view() == self.posts.val_seq().take(i as int),
            decreases n - i,
        {
            let ghost r0 = r;
            let p = self.posts.val_at(i).clone();
            r.push(p);
            proof {
                assert forall|j: int| 0 <= j < r@.len() implies r.deep_view()[j]
                    == self.posts.val_seq().take(i as int + 1)[j] by {
                    assert(r.deep_view()[j] == r@[j]@);
                    if j < i as int {
                        assert(r@[j] == r0@[j]);
                        assert(r0.deep_view()[j] == r0@[j]@);
                        assert(r0.deep_view()[j] == self.posts.val_seq().take(i as int)[j]);
                    } else {
                        assert(r@[j] == p);
                    }
                }
                assert(r.deep_view() =~= self.posts.val_seq().take(i as int + 1));
            }
            i += 1;
        }
        proof {
            assert(r.deep_view() =~= self.posts.val_seq());
        }
        r
    }

    /// Looks a post up by id; `None` exactly where the id is absent.
    /// Read-only.
    pub fn get_post(&self, id: String) -> (r: Option<Post>)
        ensures
            match r {
                Some(p) => self@.dom().contains(id@) && p@ == self@[id@],
                None => !self@.dom().contains(id@),
            },
    {
        match self.posts.get(&id) {
            Some(p) => Some(p.clone()),
            None => None,
        }
    }

    /// Stores one post for `author` with `content` at instant `ts`,
    /// under the minted id.
    fn seed_post(&mut self, author: String, content: &str, ts: u64)
        ensures
            final (self)@ == old(self)@.insert(
                spec_minted_id(author@, ts),
                spec_new_post(author@, content@, ts),
            ),
    {
        let id = mint_id(&author, ts);
        let post = Post {
            id: id.clone(),
            author,
            content: String::from_str(content),
            timestamp: ts,
            version: 1,
        };
        self.posts.insert(id, post);
    }

    /// Stores one demo post for each demo user at successive instants
    /// and, where the caller is not itself a demo user, five more posts
    /// by the caller at the same instants.
    pub fn seed_demo_posts(&mut self, caller: String, now: u64)
        requires
            now + 4 <= u64::MAX,
        ensures
            final (self)@ == spec_seed_demo_posts(old(self)@, caller@, now),
    {
        self.seed_post(
            String::from_str("demo-user-1"),
            "Hello, this is Alice's first post!",
            now,
        );
        self.seed_post(String::from_str("demo-user-2"), "Bob here, excited to join!", now + 1);
        self.seed_post(
            String::from_str("demo-user-3"),
            "Charlie says hi to everyone!",
            now + 2,
        );
        let is_demo = caller == String::from_str("demo-user-1") || caller == String::from_str(
            "demo-user-2",
        ) || caller == String::from_str("demo-user-3");
        if !is_demo {
            self.seed_post(caller.clone(), "Hello, this is Alice's first post!", now);
            self.seed_post(caller.clone(), "Bob here, excited to join!", now + 1);
            self.seed_post(caller.clone(), "Charlie says hi to everyone!", now + 2);
            self.seed_post(caller.clone(), "Another day, another post.", now + 3);
            self.seed_post(caller, "ICP is awesome!", now + 4);
        }
    }
}

} // verus!
