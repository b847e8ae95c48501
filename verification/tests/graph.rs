use social_net::graph::SocialGraphService;

fn s(t: &str) -> String {
    String::from(t)
}

#[test]
fn follow_is_visible_on_both_sides() {
    let mut graph = SocialGraphService::new();
    graph.follow(s("a"), s("b"));
    assert!(graph.get_followers(s("b")).contains(&s("a")));
    assert!(graph.get_following(s("a")).contains(&s("b")));
    assert!(graph.get_followers(s("a")).is_empty());
    assert!(graph.get_following(s("b")).is_empty());
}

#[test]
fn unfollow_after_follow_restores_adjacency() {
    let mut graph = SocialGraphService::new();
    graph.follow(s("a"), s("b"));
    graph.unfollow(s("a"), s("b"));
    assert!(graph.get_followers(s("b")).is_empty());
    assert!(graph.get_following(s("a")).is_empty());
}

#[test]
fn unfollow_removes_both_sides_symmetrically() {
    let mut graph = SocialGraphService::new();
    graph.follow(s("a"), s("b"));
    graph.follow(s("c"), s("b"));
    graph.unfollow(s("a"), s("b"));
    let followers = graph.get_followers(s("b"));
    assert_eq!(followers, vec![s("c")]);
    assert!(graph.get_following(s("a")).is_empty());
    assert_eq!(graph.get_following(s("c")), vec![s("b")]);
}

#[test]
fn follow_is_idempotent() {
    let mut graph = SocialGraphService::new();
    graph.follow(s("a"), s("b"));
    graph.follow(s("a"), s("b"));
    assert_eq!(graph.get_followers(s("b")), vec![s("a")]);
    assert_eq!(graph.get_following(s("a")), vec![s("b")]);
}

#[test]
fn unfollow_without_follow_is_a_noop() {
    let mut graph = SocialGraphService::new();
    graph.unfollow(s("a"), s("b"));
    assert!(graph.get_followers(s("b")).is_empty());
    assert!(graph.get_following(s("a")).is_empty());
}

#[test]
fn self_follow_is_allowed() {
    let mut graph = SocialGraphService::new();
    graph.follow(s("a"), s("a"));
    assert_eq!(graph.get_followers(s("a")), vec![s("a")]);
    assert_eq!(graph.get_following(s("a")), vec![s("a")]);
}

#[test]
fn unknown_user_reads_empty() {
    let graph = SocialGraphService::new();
    assert!(graph.get_followers(s("nobody")).is_empty());
    assert!(graph.get_following(s("nobody")).is_empty());
}

#[test]
fn followers_accumulate_without_duplicates() {
    let mut graph = SocialGraphService::new();
    graph.follow(s("a"), s("c"));
    graph.follow(s("b"), s("c"));
    graph.follow(s("a"), s("c"));
    let followers = graph.get_followers(s("c"));
    assert_eq!(followers.len(), 2);
    assert!(followers.contains(&s("a")));
    assert!(followers.contains(&s("b")));
}
