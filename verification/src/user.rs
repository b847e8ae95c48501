//! The user-profile service.
//!
//! Owns the profile store, keyed by user id. Registration enforces
//! global username uniqueness by a linear scan; registering an existing
//! id again with a free username silently overwrites the prior profile
//! under that id. Profiles are never deleted.

use crate::clone_opt;
use crate::store::StrMap;
use crate::SocialError;
use vstd::prelude::*;
use vstd::string::StringExecFns;

verus! {

/// A stored user profile.
#[derive(Debug)]
pub struct UserProfile {
    pub id: String,
    pub username: String,
    pub name: String,
    pub bio: String,
    pub avatar_url: Option<String>,
    pub cover_url: Option<String>,
}

/// The abstract value of a profile.
pub struct UserProfileView {
    pub id: Seq<char>,
    pub username: Seq<char>,
    pub name: Seq<char>,
    pub bio: Seq<char>,
    pub avatar_url: Option<Seq<char>>,
    pub cover_url: Option<Seq<char>>,
}

impl View for UserProfile {
    type V = UserProfileView;

    open spec fn view(&self) -> UserProfileView {
        UserProfileView {
            id: self.id@,
            username: self.username@,
            name: self.name@,
            bio: self.bio@,
            avatar_url: self.avatar_url.deep_view(),
            cover_url: self.cover_url.deep_view(),
        }
    }
}

impl DeepView for UserProfile {
    type V = UserProfileView;

    open spec fn deep_view(&self) -> UserProfileView {
        self.view()
    }
}

impl Clone for UserProfile {
    /// The copy equals the original.
    fn clone(&self) -> (res: Self)
        ensures
            res == *self,
    {
        UserProfile {
            id: self.id.clone(),
            username: self.username.clone(),
            name: self.name.clone(),
            bio: self.bio.clone(),
            avatar_url: clone_opt(&self.avatar_url),
            cover_url: clone_opt(&self.cover_url),
        }
    }
}

/// Whether some stored profile already carries `username`.
pub open spec fn username_taken(
    users: Map<Seq<char>, UserProfileView>,
    username: Seq<char>,
) -> bool {
    exists|k: Seq<char>| #[trigger] users.dom().contains(k) && users[k].username == username
}

/// After a successful registration the username is taken: a later
/// `register_user` with the same username must fail with
/// `UsernameTaken`, whatever id it supplies.
pub proof fn lemma_register_makes_username_taken(
    users: Map<Seq<char>, UserProfileView>,
    id: Seq<char>,
    p: UserProfileView,
)
    ensures
        username_taken(users.insert(id, p), p.username),
{
    assert(users.insert(id, p).dom().contains(id));
}

/// The demo profile stored for `id`: the id doubles as the username,
/// the bio greets with the display name, and there is no cover picture.
pub open spec fn demo_user_view(id: Seq<char>, name: Seq<char>, avatar: Seq<char>) -> UserProfileView {
    UserProfileView {
        id: id,
        username: id,
        name: name,
        bio: "Hi, I'm "@ + name + "!"@,
        avatar_url: Some(avatar),
        cover_url: None,
    }
}

/// The user-profile service and its keyed store.
pub struct UserService {
    users: StrMap<UserProfile>,
}

impl View for UserService {
    type V = Map<Seq<char>, UserProfileView>;

    /// The profiles by user id.
    closed spec fn view(&self) -> Map<Seq<char>, UserProfileView> {
        self.users@
    }
}

impl UserService {
    /// A service with no profiles.
    pub fn new() -> (s: Self)
        ensures
            s@ == Map::<Seq<char>, UserProfileView>::empty(),
    {
        UserService { users: StrMap::new() }
    }

    /// Whether some stored profile already carries `username`.
    fn username_exists(&self, username: &String) -> (b: bool)
        ensures
            b == username_taken(self@, username@),
    {
        proof {
            use_type_invariant(&self.users);
            self.users.lemma_view_entries();
        }
        let n = self.users.len();
        let mut i: usize = 0;
        while i < n
            invariant
                i <= n,
                n == self.users.val_seq().len(),
                n == self.users.key_seq().len(),
                forall|j: int|
                    0 <= j < n ==> self@.dom().contains(#[trigger] self.users.key_seq()[j])
                        && self@[self.users.key_seq()[j]] == self.users.val_seq()[j],
                forall|j: int| 0 <= j < i ==> self.users.val_seq()[j].username != username@,
            decreases n - i,
        {
            if self.users.val_at(i).username == *username {
                proof {
                    assert(self@.dom().contains(self.users.key_seq()[i as int]));
                    assert(self@[self.users.key_seq()[i as int]].username == username@);
                }
                return true;
            }
            i += 1;
        }
        proof {
            assert forall|k: Seq<char>| #[trigger]
                self@.dom().contains(k) implies self@[k].username != username@ by {
                let j = choose|j: int|
                    0 <= j < self.users.val_seq().len() && #[trigger] self.users.key_seq()[j] == k
                        && self.users.val_seq()[j] == self@[k];
                assert(self.users.val_seq()[j].username != username@);
            }
        }
        false
    }

    /// Registers a profile under `id`. Rejected with `UsernameTaken`
    /// when any stored profile already carries the username, leaving the
    /// store unchanged; otherwise the profile is stored under `id`
    /// (overwriting whatever the id held) and returned.
    pub fn register_user(
        &mut self,
        id: String,
        username: String,
        name: String,
        bio: String,
        avatar_url: Option<String>,
        cover_url: Option<String>,
    ) -> (r: Result<UserProfile, SocialError>)
        ensures
            username_taken(old(self)@, username@) ==> r == Err::<UserProfile, SocialError>(
                SocialError::UsernameTaken,
            ) && final (self)@ == old(self)@,
            !username_taken(old(self)@, username@) ==> ({
                &&& r matches Ok(p)
                &&& p@ == (UserProfileView {
                    id: id@,
                    username: username@,
                    name: name@,
                    bio: bio@,
                    avatar_url: avatar_url.deep_view(),
                    cover_url: cover_url.deep_view(),
                })
                &&& final (self)@ == old(self)@.insert(id@, p@)
            }),
    {
        if self.username_exists(&username) {
            return Err(SocialError::UsernameTaken);
        }
        let profile = UserProfile { id: id.clone(), username, name, bio, avatar_url, cover_url };
        let result = profile.clone();
        self.users.insert(id, profile);
        Ok(result)
    }

    /// Updates the mutable fields of the profile under `id`, leaving id
    /// and username untouched, and returns the updated profile.
    /// Rejected with `NotFound` when the id is unknown, leaving the
    /// store unchanged.
    pub fn update_profile(
        &mut self,
        id: String,
        name: String,
        bio: String,
        avatar_url: Option<String>,
        cover_url: Option<String>,
    ) -> (r: Result<UserProfile, SocialError>)
        ensures
            !old(self)@.dom().contains(id@) ==> r == Err::<UserProfile, SocialError>(
                SocialError::NotFound,
            ) && final (self)@ == old(self)@,
            old(self)@.dom().contains(id@) ==> ({
                &&& r matches Ok(p)
                &&& p@ == (UserProfileView {
                    id: old(self)@[id@].id,
                    username: old(self)@[id@].username,
                    name: name@,
                    bio: bio@,
                    avatar_url: avatar_url.deep_view(),
                    cover_url: cover_url.deep_view(),
                })
                &&& final (self)@ == old(self)@.insert(id@, p@)
            }),
    {
        let updated = match self.users.get(&id) {
            None => {
                return Err(SocialError::NotFound);
            },
            Some(u) => {
                UserProfile {
                    id: u.id.clone(),
                    username: u.username.clone(),
                    name,
                    bio,
                    avatar_url,
                    cover_url,
                }
            },
        };
        let result = updated.clone();
        self.users.insert(id, updated);
        Ok(result)
    }

    /// Stores one demo profile: the id doubles as the username, the bio
    /// greets with the display name, and there is no cover picture.
    fn seed_one(&mut self, id: &str, name: &str, avatar: &str)
        ensures
            final (self)@ == old(self)@.insert(id@, demo_user_view(id@, name@, avatar@)),
    {
        let mut bio = String::from_str("Hi, I'm ");
        bio.append(name);
        bio.append("!");
        let key = String::from_str(id);
        let profile = UserProfile {
            id: String::from_str(id),
            username: String::from_str(id),
            name: String::from_str(name),
            bio,
            avatar_url: Some(String::from_str(avatar)),
            cover_url: None,
        };
        proof {
            reveal_strlit("!");
            assert(profile@ == demo_user_view(id@, name@, avatar@));
        }
        self.users.insert(key, profile);
    }

    /// Stores the three demo profiles under their fixed ids.
    pub fn seed_demo_users(&mut self)
        ensures
            final (self)@ == old(self)@.insert(
                "demo-user-1"@,
                demo_user_view(
                    "demo-user-1"@,
                    "Emma Watson"@,
                    "https://randomuser.me/api/portraits/women/65.jpg"@,
                ),
            ).insert(
                "demo-user-2"@,
                demo_user_view(
                    "demo-user-2"@,
                    "Scarlett Johansson"@,
                    "https://randomuser.me/api/portraits/women/68.jpg"@,
                ),
            ).insert(
                "demo-user-3"@,
                demo_user_view(
                    "demo-user-3"@,
                    "Zendaya"@,
                    "https://randomuser.me/api/portraits/women/69.jpg"@,
                ),
            ),
    {
        self.seed_one(
            "demo-user-1",
            "Emma Watson",
            "https://randomuser.me/api/portraits/women/65.jpg",
        );
        self.seed_one(
            "demo-user-2",
            "Scarlett Johansson",
            "https://randomuser.me/api/portraits/women/68.jpg",
        );
        self.seed_one(
            "demo-user-3",
            "Zendaya",
            "https://randomuser.me/api/portraits/women/69.jpg",
        );
    }

    /// Looks a profile up by id; `None` exactly where the id is absent.
    /// Read-only.
    pub fn get_user(&self, id: String) -> (r: Option<UserProfile>)
        ensures
            match r {
                Some(p) => self@.dom().contains(id@) && p@ == self@[id@],
                None => !self@.dom().contains(id@),
            },
    {
        match self.users.get(&id) {
            Some(u) => Some(u.clone()),
            None => None,
        }
    }
}

} // verus!
