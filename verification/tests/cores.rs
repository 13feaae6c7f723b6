use blockverse_backend::error::ServiceError;
use blockverse_backend::identity::UserId;
use blockverse_backend::models::comment::{comment_id_for, Comment};
use blockverse_backend::models::post::{post_id_for, share_id_for, Post};
use blockverse_backend::models::user::User;
use blockverse_backend::services::comment_service::CommentService;
use blockverse_backend::services::payment_service::{tip_id_for, PaymentService};
use blockverse_backend::services::post_service::PostService;
use blockverse_backend::services::user_service::UserService;
use blockverse_backend::storage::state::State;

fn kid(n: u8) -> UserId {
    UserId::from_bytes(vec![n, 6]).unwrap()
}

fn profile(n: u8, name: &str) -> User {
    User::new(kid(n), name.to_string(), String::new(), String::new(), 1)
}

fn pair() -> State {
    let mut state = State::new(kid(9));
    UserService::register(&mut state, profile(1, "alice"), true, false).unwrap();
    UserService::register(&mut state, profile(2, "bob"), true, false).unwrap();
    state
}

#[test]
fn identifiers_join_their_parts() {
    assert_eq!(post_id_for("abc", 5), "abc_5");
    assert_eq!(post_id_for("", 0), "_0");
    assert_eq!(share_id_for("abc", 50), "share_abc_50");
    assert_eq!(comment_id_for("post_x", "abc", 7), "comment_post_x_abc_7");
    assert_eq!(tip_id_for("abc", 18446744073709551615), "tip_abc_18446744073709551615");
    assert_eq!(tip_id_for("x-y", 1000), "tip_x-y_1000");
}

#[test]
fn register_decides_on_the_given_facts() {
    let mut state = pair();
    let anonymous =
        User::new(UserId::anonymous(), "n".to_string(), String::new(), String::new(), 1);
    assert_eq!(
        UserService::register(&mut state, anonymous, false, true),
        Err(ServiceError::Unauthenticated)
    );
    assert_eq!(
        UserService::register(&mut state, profile(1, "x"), false, true),
        Err(ServiceError::InvalidInput)
    );
    assert_eq!(
        UserService::register(&mut state, profile(1, "x"), true, false),
        Err(ServiceError::AlreadyExists)
    );
    assert_eq!(
        UserService::register(&mut state, profile(3, "x"), true, true),
        Err(ServiceError::AlreadyExists)
    );
    assert_eq!(state.users.len(), 2);
    assert_eq!(UserService::register(&mut state, profile(3, "x"), true, false), Ok(()));
    assert_eq!(state.users.len(), 3);
    assert_eq!(state.users.key_at(2).as_bytes(), kid(3).as_bytes());
    assert_eq!(state.users.value_at(2).username, "x");
}

#[test]
fn names_in_use_are_found_whatever_the_case() {
    let mut state = State::new(kid(9));
    UserService::register(&mut state, profile(1, "Alice"), true, false).unwrap();
    assert!(UserService::username_in_use(&state, "alice"));
    assert!(UserService::username_in_use(&state, "ALICE"));
    assert!(!UserService::username_in_use(&state, "alic"));
    assert!(!UserService::username_in_use(&State::new(kid(9)), "alice"));
}

#[test]
fn publish_decides_on_the_given_facts() {
    let mut state = pair();
    let by_nobody = Post::new(UserId::anonymous(), "x".to_string(), None, 1);
    assert_eq!(
        PostService::publish(&mut state, by_nobody, true),
        Err(ServiceError::Unauthenticated)
    );
    let bare = Post::new(kid(1), "x".to_string(), None, 1);
    assert_eq!(PostService::publish(&mut state, bare, true), Err(ServiceError::InvalidInput));
    let stranger = Post::new(kid(5), "x".to_string(), None, 1);
    assert_eq!(PostService::publish(&mut state, stranger, false), Err(ServiceError::NotFound));
    assert_eq!(state.posts.len(), 0);
    let with_media = Post::new(kid(1), "x".to_string(), Some("m".to_string()), 1);
    assert_eq!(PostService::publish(&mut state, with_media, true), Ok(()));
    let plain = Post::new(kid(1), "y".to_string(), None, 2);
    assert_eq!(PostService::publish(&mut state, plain, false), Ok(()));
    assert_eq!(state.posts.len(), 2);
    assert_eq!(UserService::get_user(&state, kid(1)).unwrap().posts_count, 2);
    assert_eq!(PostService::get_user_posts(&state, kid(1)).len(), 2);
}

#[test]
fn publish_under_a_used_identifier_replaces_the_post() {
    let mut state = pair();
    PostService::publish(&mut state, Post::new(kid(1), "one".to_string(), None, 7), false).unwrap();
    PostService::publish(&mut state, Post::new(kid(1), "two".to_string(), None, 7), false).unwrap();
    assert_eq!(state.posts.len(), 1);
    assert_eq!(state.posts.value_at(0).content, "two");
    assert_eq!(UserService::get_user(&state, kid(1)).unwrap().posts_count, 2);
    assert_eq!(PostService::get_user_posts(&state, kid(1)).len(), 2);
}

#[test]
fn publish_share_needs_the_original() {
    let mut state = pair();
    let post = Post::new(kid(1), "x".to_string(), None, 1);
    let id = post.id.clone();
    PostService::publish(&mut state, post, false).unwrap();
    let lost = Post::new_share(kid(2), "nope".to_string(), None, 2);
    assert_eq!(PostService::publish_share(&mut state, lost), Err(ServiceError::NotFound));
    assert_eq!(state.posts.len(), 1);
    let share = Post::new_share(kid(2), id.clone(), None, 2);
    assert_eq!(PostService::publish_share(&mut state, share), Ok(()));
    assert_eq!(PostService::get_post(&state, id).unwrap().shares_count, 1);
    assert_eq!(state.posts.len(), 2);
}

#[test]
fn share_of_itself_counts_on_itself() {
    let mut state = pair();
    let first = Post::new_share(kid(2), "seed".to_string(), None, 2);
    let id = first.id.clone();
    state.posts.insert(id.clone(), first);
    let again = PostService::share_post(&mut state, kid(2), id.clone(), None, 2).unwrap();
    assert_eq!(again.id, id);
    assert_eq!(again.shares_count, 0);
    assert_eq!(state.posts.len(), 1);
    let stored = PostService::get_post(&state, id.clone()).unwrap();
    assert_eq!(stored.shares_count, 1);
    assert_eq!(stored.original_post_id, Some(id));
}

#[test]
fn attach_decides_on_the_given_facts() {
    let mut state = pair();
    let post = Post::new(kid(1), "x".to_string(), None, 1);
    let id = post.id.clone();
    PostService::publish(&mut state, post, false).unwrap();
    let by_nobody = Comment::new(id.clone(), UserId::anonymous(), "c".to_string(), 2);
    assert_eq!(
        CommentService::attach(&mut state, by_nobody, true),
        Err(ServiceError::Unauthenticated)
    );
    let blank = Comment::new("nope".to_string(), kid(1), "c".to_string(), 2);
    assert_eq!(CommentService::attach(&mut state, blank, true), Err(ServiceError::InvalidInput));
    let lost = Comment::new("nope".to_string(), kid(1), "c".to_string(), 2);
    assert_eq!(CommentService::attach(&mut state, lost, false), Err(ServiceError::NotFound));
    assert_eq!(state.comments.len(), 0);
    let good = Comment::new(id.clone(), kid(7), "c".to_string(), 2);
    assert_eq!(CommentService::attach(&mut state, good, false), Ok(()));
    assert_eq!(PostService::get_post(&state, id.clone()).unwrap().comments_count, 1);
    assert_eq!(CommentService::get_post_comments(&state, id).len(), 1);
}

#[test]
fn transfer_logs_under_the_given_identifier() {
    let mut state = pair();
    PaymentService::add_balance(&mut state, kid(1), 9).unwrap();
    assert_eq!(
        PaymentService::transfer(&mut state, kid(1), kid(2), 10, "t1".to_string(), 3),
        Err(ServiceError::InsufficientBalance)
    );
    assert_eq!(
        PaymentService::transfer(&mut state, kid(1), kid(2), 4, "t1".to_string(), 3),
        Ok(())
    );
    assert_eq!(PaymentService::get_user_balance(&state, kid(1)), 5);
    assert_eq!(PaymentService::get_user_balance(&state, kid(2)), 4);
    assert_eq!(state.transactions.len(), 1);
    assert_eq!(state.transactions[0].id, "t1");
    assert_eq!(state.transactions[0].timestamp, 3);
}
