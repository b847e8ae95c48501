use social_net::post::{PostService, UserProfile};
use social_net::user::UserService;
use social_net::SocialError;

fn s(t: &str) -> String {
    String::from(t)
}

/// How a caller turns the user service's answer into the record that
/// the post service's existence check expects.
fn lookup(users: &UserService, id: &str) -> Result<Option<UserProfile>, String> {
    Ok(users.get_user(s(id)).map(|u| UserProfile {
        id: u.id,
        name: u.name,
        bio: u.bio,
        avatar_url: u.avatar_url,
    }))
}

#[test]
fn end_to_end_scenario() {
    let mut users = UserService::new();
    let mut posts = PostService::new();
    users
        .register_user(s("alice"), s("alice1"), s("Alice"), s(""), None, None)
        .unwrap();
    let post = posts
        .add_post(s("alice"), s("hi"), lookup(&users, "alice"), 1700000000)
        .unwrap();
    assert_eq!(post.id, "alice-1700000000");
    assert_eq!(post.version, 1);
    let got = posts.get_post(s("alice-1700000000")).unwrap();
    assert_eq!(got.content, "hi");
    assert_eq!(got.author, "alice");
    assert_eq!(got.timestamp, 1700000000);
    assert_eq!(got.version, 1);
    // An unregistered author is rejected and leaves no trace.
    let r = posts.add_post(s("bob"), s("hi"), lookup(&users, "bob"), 1700000001);
    assert_eq!(r.unwrap_err(), SocialError::UserNotFound);
    let all = posts.fetch_posts();
    assert_eq!(all.len(), 1);
    assert!(all.iter().all(|p| p.author != "bob"));
}

#[test]
fn upstream_failure_aborts_with_detail() {
    let mut posts = PostService::new();
    let r = posts.add_post(s("alice"), s("hi"), Err(s("transport down")), 5);
    assert_eq!(
        r.unwrap_err(),
        SocialError::UpstreamUnavailable(s("transport down"))
    );
    assert!(posts.fetch_posts().is_empty());
}

#[test]
fn colliding_instant_is_rejected_not_overwritten() {
    let mut users = UserService::new();
    let mut posts = PostService::new();
    users
        .register_user(s("alice"), s("alice1"), s("Alice"), s(""), None, None)
        .unwrap();
    let first = posts
        .add_post(s("alice"), s("first"), lookup(&users, "alice"), 42)
        .unwrap();
    // A second creation for the same author at the same instant mints
    // the same id: it must fail rather than silently overwrite.
    let second = posts.add_post(s("alice"), s("second"), lookup(&users, "alice"), 42);
    assert_eq!(second.unwrap_err(), SocialError::DuplicatePostId);
    let all = posts.fetch_posts();
    assert_eq!(all.len(), 1);
    assert_eq!(all[0].id, first.id);
    assert_eq!(all[0].content, "first");
}

#[test]
fn distinct_instants_give_distinct_posts() {
    let mut users = UserService::new();
    let mut posts = PostService::new();
    users
        .register_user(s("alice"), s("alice1"), s("Alice"), s(""), None, None)
        .unwrap();
    let p1 = posts
        .add_post(s("alice"), s("one"), lookup(&users, "alice"), 10)
        .unwrap();
    let p2 = posts
        .add_post(s("alice"), s("two"), lookup(&users, "alice"), 11)
        .unwrap();
    assert_ne!(p1.id, p2.id);
    let all = posts.fetch_posts();
    assert_eq!(all.len(), 2);
    // Store-iteration order is insertion order.
    assert_eq!(all[0].content, "one");
    assert_eq!(all[1].content, "two");
}

#[test]
fn get_unknown_post_is_absent() {
    let posts = PostService::new();
    assert!(posts.get_post(s("nope-1")).is_none());
}

#[test]
fn seed_demo_posts_for_outside_caller() {
    let mut posts = PostService::new();
    posts.seed_demo_posts(s("visitor"), 100);
    let all = posts.fetch_posts();
    // Three demo posts and five for the caller.
    assert_eq!(all.len(), 8);
    let demo = posts.get_post(s("demo-user-1-100")).unwrap();
    assert_eq!(demo.content, "Hello, this is Alice's first post!");
    assert_eq!(demo.version, 1);
    let second = posts.get_post(s("demo-user-2-101")).unwrap();
    assert_eq!(second.content, "Bob here, excited to join!");
    let last = posts.get_post(s("visitor-104")).unwrap();
    assert_eq!(last.author, "visitor");
    assert_eq!(last.content, "ICP is awesome!");
    assert_eq!(last.timestamp, 104);
}

#[test]
fn seed_demo_posts_for_demo_caller() {
    let mut posts = PostService::new();
    posts.seed_demo_posts(s("demo-user-2"), 100);
    // A demo caller gets no extra posts.
    assert_eq!(posts.fetch_posts().len(), 3);
}
