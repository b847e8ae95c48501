use social_net::interaction::InteractionService;

fn s(t: &str) -> String {
    String::from(t)
}

#[test]
fn like_twice_is_like_once() {
    let mut interactions = InteractionService::new();
    interactions.like_post(s("u"), s("p"));
    interactions.like_post(s("u"), s("p"));
    assert_eq!(interactions.get_likes(s("p")), vec![s("u")]);
}

#[test]
fn unlike_without_like_is_a_noop() {
    let mut interactions = InteractionService::new();
    interactions.unlike_post(s("u"), s("p"));
    assert!(interactions.get_likes(s("p")).is_empty());
}

#[test]
fn unlike_removes_only_that_user() {
    let mut interactions = InteractionService::new();
    interactions.like_post(s("u1"), s("p"));
    interactions.like_post(s("u2"), s("p"));
    interactions.unlike_post(s("u1"), s("p"));
    assert_eq!(interactions.get_likes(s("p")), vec![s("u2")]);
}

#[test]
fn likes_are_per_post() {
    let mut interactions = InteractionService::new();
    interactions.like_post(s("u"), s("p1"));
    assert_eq!(interactions.get_likes(s("p1")).len(), 1);
    assert!(interactions.get_likes(s("p2")).is_empty());
}

#[test]
fn comments_come_back_in_submission_order() {
    let mut interactions = InteractionService::new();
    interactions.add_comment(s("u1"), s("p"), s("first"), 10);
    interactions.add_comment(s("u2"), s("p"), s("second"), 11);
    interactions.add_comment(s("u1"), s("p"), s("third"), 12);
    let comments = interactions.get_comments(s("p"));
    assert_eq!(comments.len(), 3);
    assert_eq!(comments[0].content, "first");
    assert_eq!(comments[1].content, "second");
    assert_eq!(comments[2].content, "third");
}

#[test]
fn comment_carries_minted_id_and_fields() {
    let mut interactions = InteractionService::new();
    let comment = interactions.add_comment(s("carol"), s("p1"), s("nice!"), 1700000005);
    assert_eq!(comment.id, "carol-1700000005");
    assert_eq!(comment.post_id, "p1");
    assert_eq!(comment.author, "carol");
    assert_eq!(comment.content, "nice!");
    assert_eq!(comment.timestamp, 1700000005);
    let stored = interactions.get_comments(s("p1"));
    assert_eq!(stored.len(), 1);
    assert_eq!(stored[0].id, "carol-1700000005");
}

#[test]
fn comments_of_unknown_post_are_empty() {
    let interactions = InteractionService::new();
    assert!(interactions.get_comments(s("nope")).is_empty());
}

#[test]
fn comments_are_per_post() {
    let mut interactions = InteractionService::new();
    interactions.add_comment(s("u"), s("p1"), s("on p1"), 1);
    interactions.add_comment(s("u"), s("p2"), s("on p2"), 2);
    let on_p1 = interactions.get_comments(s("p1"));
    assert_eq!(on_p1.len(), 1);
    assert_eq!(on_p1[0].content, "on p1");
}
