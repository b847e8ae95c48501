use social_net::user::UserService;
use social_net::SocialError;

fn s(t: &str) -> String {
    String::from(t)
}

#[test]
fn register_and_get() {
    let mut users = UserService::new();
    let r = users
        .register_user(
            s("alice"),
            s("alice1"),
            s("Alice"),
            s("hello"),
            Some(s("http://a/avatar.png")),
            None,
        )
        .unwrap();
    assert_eq!(r.id, "alice");
    assert_eq!(r.username, "alice1");
    assert_eq!(r.name, "Alice");
    assert_eq!(r.bio, "hello");
    assert_eq!(r.avatar_url, Some(s("http://a/avatar.png")));
    assert_eq!(r.cover_url, None);
    let got = users.get_user(s("alice")).unwrap();
    assert_eq!(got.username, "alice1");
    assert_eq!(got.name, "Alice");
}

#[test]
fn get_unknown_user_is_absent() {
    let users = UserService::new();
    assert!(users.get_user(s("nobody")).is_none());
}

#[test]
fn duplicate_username_rejected_for_any_id() {
    let mut users = UserService::new();
    users
        .register_user(s("a"), s("shared"), s("A"), s(""), None, None)
        .unwrap();
    // Same username under another id.
    let r = users.register_user(s("b"), s("shared"), s("B"), s(""), None, None);
    assert_eq!(r.unwrap_err(), SocialError::UsernameTaken);
    // Same username under the same id.
    let r = users.register_user(s("a"), s("shared"), s("A2"), s(""), None, None);
    assert_eq!(r.unwrap_err(), SocialError::UsernameTaken);
    // The stored profile is untouched.
    assert_eq!(users.get_user(s("a")).unwrap().name, "A");
    assert!(users.get_user(s("b")).is_none());
}

#[test]
fn reregistering_id_with_free_username_overwrites() {
    let mut users = UserService::new();
    users
        .register_user(s("a"), s("first"), s("A"), s(""), None, None)
        .unwrap();
    let r = users.register_user(s("a"), s("second"), s("A!"), s("new bio"), None, None);
    assert!(r.is_ok());
    let got = users.get_user(s("a")).unwrap();
    assert_eq!(got.username, "second");
    assert_eq!(got.name, "A!");
    assert_eq!(got.bio, "new bio");
}

#[test]
fn update_profile_changes_mutable_fields_only() {
    let mut users = UserService::new();
    users
        .register_user(
            s("a"),
            s("u1"),
            s("Old Name"),
            s("old bio"),
            None,
            Some(s("http://a/old-cover.png")),
        )
        .unwrap();
    let r = users
        .update_profile(
            s("a"),
            s("New Name"),
            s("new bio"),
            Some(s("http://a/new-avatar.png")),
            None,
        )
        .unwrap();
    assert_eq!(r.id, "a");
    assert_eq!(r.username, "u1");
    assert_eq!(r.name, "New Name");
    assert_eq!(r.bio, "new bio");
    assert_eq!(r.avatar_url, Some(s("http://a/new-avatar.png")));
    assert_eq!(r.cover_url, None);
    let got = users.get_user(s("a")).unwrap();
    assert_eq!(got.username, "u1");
    assert_eq!(got.name, "New Name");
}

#[test]
fn update_missing_profile_not_found() {
    let mut users = UserService::new();
    let r = users.update_profile(s("ghost"), s("N"), s("b"), None, None);
    assert_eq!(r.unwrap_err(), SocialError::NotFound);
    assert!(users.get_user(s("ghost")).is_none());
}

#[test]
fn seed_demo_users_stores_three_profiles() {
    let mut users = UserService::new();
    users.seed_demo_users();
    let emma = users.get_user(s("demo-user-1")).unwrap();
    assert_eq!(emma.username, "demo-user-1");
    assert_eq!(emma.name, "Emma Watson");
    assert_eq!(emma.bio, "Hi, I'm Emma Watson!");
    assert_eq!(
        emma.avatar_url,
        Some(s("https://randomuser.me/api/portraits/women/65.jpg"))
    );
    assert_eq!(emma.cover_url, None);
    let scarlett = users.get_user(s("demo-user-2")).unwrap();
    assert_eq!(scarlett.name, "Scarlett Johansson");
    let zendaya = users.get_user(s("demo-user-3")).unwrap();
    assert_eq!(zendaya.bio, "Hi, I'm Zendaya!");
}
