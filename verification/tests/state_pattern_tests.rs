use webweb::state_pattern::Post;

#[test]
fn post_goes_through_review_to_published() {
    let mut post = Post::new();

    post.add_text("I ate a salad for lunch today");
    assert_eq!("", post.content());

    post.request_review();
    assert_eq!("", post.content());

    post.reject();
    assert_eq!("", post.content());

    post.request_review();
    assert_eq!("", post.content());

    post.approve();
    assert_eq!("", post.content());

    post.approve();
    assert_eq!("I ate a salad for lunch today", post.content());

    post.add_text("pero la PUCHA");
    assert_eq!("I ate a salad for lunch today", post.content());
}

#[test]
fn rejected_post_needs_two_fresh_approvals() {
    let mut post = Post::new();
    post.add_text("draft text");
    post.request_review();
    post.approve();
    post.reject();
    post.request_review();
    post.approve();
    assert_eq!("", post.content());
    post.approve();
    assert_eq!("draft text", post.content());
}
