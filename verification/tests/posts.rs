use blockverse_backend::error::ServiceError;
use blockverse_backend::identity::UserId;
use blockverse_backend::models::post::Post;
use blockverse_backend::remove_post;
use blockverse_backend::services::post_service::{sort_newest_first, PostService};
use blockverse_backend::services::user_service::UserService;
use blockverse_backend::storage::state::State;

fn uid(n: u8) -> UserId {
    UserId::from_bytes(vec![n, 2]).unwrap()
}

fn admin() -> UserId {
    UserId::from_bytes(vec![200]).unwrap()
}

fn world() -> State {
    let mut state = State::new(admin());
    for (n, name) in [(1u8, "alice"), (2, "bob"), (3, "carol")] {
        UserService::create_user(
            &mut state,
            uid(n),
            name.to_string(),
            String::new(),
            String::new(),
            1,
        )
        .unwrap();
    }
    state
}

fn post(state: &mut State, who: u8, text: &str, now: u64) -> Post {
    PostService::create_post(state, uid(who), text.to_string(), None, now).unwrap()
}

#[test]
fn new_post_has_the_author_text_and_time_as_identifier() {
    let p = Post::new(UserId::from_bytes(vec![]).unwrap(), "hi".to_string(), None, 1234567890);
    assert_eq!(p.id, "aaaaa-aa_1234567890");
    assert_eq!(p.content, "hi");
    assert_eq!(p.media_url, None);
    assert_eq!(p.likes.len(), 0);
    assert_eq!((p.likes_count, p.comments_count, p.shares_count), (0, 0, 0));
    assert!(!p.is_shared);
    assert_eq!(p.original_post_id, None);
    assert_eq!(p.share_comment, None);
    assert_eq!((p.created_at, p.updated_at), (1234567890, 1234567890));
    let zero = Post::new(uid(1), String::new(), Some("m".to_string()), 0);
    assert_eq!(zero.id, format!("{}_0", uid(1).to_text()));
    assert_eq!(zero.media_url.as_deref(), Some("m"));
}

#[test]
fn new_share_points_at_the_original() {
    let s = Post::new_share(UserId::anonymous(), "orig".to_string(), Some("look".to_string()), 7);
    assert_eq!(s.id, "share_2vxsx-fae_7");
    assert!(s.is_shared);
    assert_eq!(s.original_post_id.as_deref(), Some("orig"));
    assert_eq!(s.share_comment.as_deref(), Some("look"));
    assert_eq!(s.content, "");
    assert_eq!(s.media_url, None);
    assert_eq!((s.likes_count, s.comments_count, s.shares_count), (0, 0, 0));
    assert_eq!((s.created_at, s.updated_at), (7, 7));
}

#[test]
fn likes_on_a_post_count_each_liker_once() {
    let mut p = Post::new(uid(1), "x".to_string(), None, 1);
    assert!(p.add_like(uid(2)));
    assert!(!p.add_like(uid(2)));
    assert!(p.add_like(uid(3)));
    assert_eq!(p.likes_count, 2);
    assert_eq!(p.likes.len(), 2);
    assert!(p.remove_like(uid(2)));
    assert!(!p.remove_like(uid(2)));
    assert_eq!(p.likes_count, 1);
    assert_eq!(p.likes.len(), 1);
    assert_eq!(p.likes.get(0).as_bytes(), uid(3).as_bytes());
    assert!(p.remove_like(uid(3)));
    assert!(!p.remove_like(uid(3)));
    assert_eq!(p.likes_count, 0);
}

#[test]
fn create_post_indexes_and_counts_it() {
    let mut state = world();
    let p = post(&mut state, 1, "first", 10);
    let q = post(&mut state, 1, "second", 11);
    assert_eq!(p.id, format!("{}_10", uid(1).to_text()));
    assert_eq!(UserService::get_user(&state, uid(1)).unwrap().posts_count, 2);
    let mine = PostService::get_user_posts(&state, uid(1));
    assert_eq!(mine.len(), 2);
    assert_eq!(mine[0].id, p.id);
    assert_eq!(mine[1].id, q.id);
    assert_eq!(PostService::get_post(&state, p.id.clone()).unwrap().content, "first");
    assert!(PostService::get_post(&state, "nope".to_string()).is_none());
    assert!(PostService::get_user_posts(&state, uid(2)).is_empty());
}

#[test]
fn create_post_refusals_change_nothing() {
    let mut state = world();
    let r = PostService::create_post(&mut state, UserId::anonymous(), "x".to_string(), None, 1);
    assert_eq!(r.err(), Some(ServiceError::Unauthenticated));
    let r = PostService::create_post(&mut state, uid(1), "  \n ".to_string(), None, 1);
    assert_eq!(r.err(), Some(ServiceError::InvalidInput));
    let r = PostService::create_post(&mut state, uid(1), String::new(), None, 1);
    assert_eq!(r.err(), Some(ServiceError::InvalidInput));
    let r = PostService::create_post(&mut state, uid(9), "x".to_string(), None, 1);
    assert_eq!(r.err(), Some(ServiceError::NotFound));
    let r = PostService::create_post(&mut state, uid(9), " ".to_string(), None, 1);
    assert_eq!(r.err(), Some(ServiceError::InvalidInput));
    assert_eq!(state.posts.len(), 0);
    assert_eq!(state.user_posts.len(), 0);
    assert_eq!(UserService::get_user(&state, uid(1)).unwrap().posts_count, 0);
}

#[test]
fn blank_content_with_media_is_a_post() {
    let mut state = world();
    let p = PostService::create_post(
        &mut state,
        uid(1),
        "   ".to_string(),
        Some("http://m/1".to_string()),
        5,
    )
    .unwrap();
    assert_eq!(p.content, "   ");
    assert_eq!(state.posts.len(), 1);
}

#[test]
fn like_and_unlike_keep_the_counter_at_the_number_of_likers() {
    let mut state = world();
    let p = post(&mut state, 1, "x", 10);
    let calls: [(bool, u8, Result<(), ServiceError>); 9] = [
        (true, 2, Ok(())),
        (true, 2, Err(ServiceError::Conflict)),
        (false, 3, Err(ServiceError::Conflict)),
        (true, 3, Ok(())),
        (true, 1, Ok(())),
        (false, 2, Ok(())),
        (false, 2, Err(ServiceError::Conflict)),
        (true, 2, Ok(())),
        (false, 1, Ok(())),
    ];
    for (like, who, expected) in calls {
        let r = if like {
            PostService::like_post(&mut state, uid(who), p.id.clone())
        } else {
            PostService::unlike_post(&mut state, uid(who), p.id.clone())
        };
        assert_eq!(r, expected);
        let now = PostService::get_post(&state, p.id.clone()).unwrap();
        assert_eq!(now.likes_count as usize, now.likes.len());
    }
    let last = PostService::get_post(&state, p.id.clone()).unwrap();
    assert_eq!(last.likes_count, 2);
    assert_eq!(last.likes.get(0).as_bytes(), uid(3).as_bytes());
    assert_eq!(last.likes.get(1).as_bytes(), uid(2).as_bytes());
}

#[test]
fn liking_a_missing_post_is_not_found() {
    let mut state = world();
    assert_eq!(
        PostService::like_post(&mut state, uid(1), "nope".to_string()),
        Err(ServiceError::NotFound)
    );
    assert_eq!(
        PostService::unlike_post(&mut state, uid(1), "nope".to_string()),
        Err(ServiceError::NotFound)
    );
}

#[test]
fn share_counts_on_the_original_and_on_the_sharer() {
    let mut state = world();
    let p = post(&mut state, 1, "x", 10);
    let s = PostService::share_post(&mut state, uid(2), p.id.clone(), Some("see".to_string()), 20)
        .unwrap();
    assert_eq!(s.id, format!("share_{}_20", uid(2).to_text()));
    assert!(s.is_shared);
    assert_eq!(s.original_post_id.as_deref(), Some(p.id.as_str()));
    assert_eq!(s.share_comment.as_deref(), Some("see"));
    assert_eq!((s.likes_count, s.comments_count, s.shares_count), (0, 0, 0));
    assert_eq!(PostService::get_post(&state, p.id.clone()).unwrap().shares_count, 1);
    assert_eq!(PostService::get_post(&state, s.id.clone()).unwrap().shares_count, 0);
    assert_eq!(UserService::get_user(&state, uid(2)).unwrap().posts_count, 1);
    assert_eq!(UserService::get_user(&state, uid(1)).unwrap().posts_count, 1);
    let theirs = PostService::get_user_posts(&state, uid(2));
    assert_eq!(theirs.len(), 1);
    assert_eq!(theirs[0].id, s.id);
}

#[test]
fn share_of_a_missing_post_is_not_found() {
    let mut state = world();
    let r = PostService::share_post(&mut state, uid(2), "nope".to_string(), None, 20);
    assert_eq!(r.err(), Some(ServiceError::NotFound));
    assert_eq!(state.posts.len(), 0);
    assert_eq!(UserService::get_user(&state, uid(2)).unwrap().posts_count, 0);
}

#[test]
fn share_by_a_caller_without_profile_is_kept() {
    let mut state = world();
    let p = post(&mut state, 1, "x", 10);
    let s = PostService::share_post(&mut state, uid(9), p.id.clone(), None, 21).unwrap();
    assert_eq!(PostService::get_user_posts(&state, uid(9)).len(), 1);
    assert_eq!(PostService::get_post(&state, s.id).unwrap().author.as_bytes(), uid(9).as_bytes());
    assert_eq!(PostService::get_post(&state, p.id).unwrap().shares_count, 1);
    assert_eq!(state.users.len(), 3);
}

#[test]
fn search_posts_ignores_case() {
    let mut state = world();
    post(&mut state, 1, "Hello World", 10);
    post(&mut state, 2, "goodbye", 11);
    post(&mut state, 3, "say hello", 12);
    let hits = PostService::search_posts(&state, "HELLO".to_string());
    assert_eq!(hits.len(), 2);
    assert_eq!(hits[0].content, "Hello World");
    assert_eq!(hits[1].content, "say hello");
    assert!(PostService::search_posts(&state, "xyz".to_string()).is_empty());
}

#[test]
fn posts_since_are_strictly_later() {
    let mut state = world();
    post(&mut state, 1, "a", 10);
    post(&mut state, 2, "b", 20);
    post(&mut state, 3, "c", 30);
    let later = PostService::get_posts_since(&state, 20);
    assert_eq!(later.len(), 1);
    assert_eq!(later[0].content, "c");
    assert_eq!(PostService::get_posts_since(&state, 9).len(), 3);
    assert!(PostService::get_posts_since(&state, 30).is_empty());
}

#[test]
fn feed_is_newest_first_over_own_and_followed_posts() {
    let mut state = world();
    UserService::follow_user(&mut state, uid(1), uid(2)).unwrap();
    post(&mut state, 1, "own old", 100);
    post(&mut state, 2, "followee", 300);
    post(&mut state, 1, "own new", 200);
    post(&mut state, 3, "stranger", 400);
    let feed = PostService::get_feed(&state, uid(1), 2, 0);
    assert_eq!(feed.len(), 2);
    assert_eq!(feed[0].created_at, 300);
    assert_eq!(feed[1].created_at, 200);
    let all = PostService::get_feed(&state, uid(1), 10, 0);
    assert_eq!(all.len(), 3);
    assert_eq!(all[2].created_at, 100);
    let rest = PostService::get_feed(&state, uid(1), 10, 1);
    assert_eq!(rest.len(), 2);
    assert_eq!(rest[0].created_at, 200);
    assert_eq!(rest[1].created_at, 100);
    assert!(PostService::get_feed(&state, uid(1), 10, 3).is_empty());
    assert!(PostService::get_feed(&state, uid(1), 10, 99).is_empty());
    assert!(PostService::get_feed(&state, uid(1), 0, 0).is_empty());
    assert_eq!(PostService::get_feed(&state, uid(1), usize::MAX, 2).len(), 1);
}

#[test]
fn feed_does_not_follow_follows() {
    let mut state = world();
    UserService::follow_user(&mut state, uid(1), uid(2)).unwrap();
    UserService::follow_user(&mut state, uid(2), uid(3)).unwrap();
    post(&mut state, 3, "far", 5);
    post(&mut state, 2, "near", 6);
    let feed = PostService::get_feed(&state, uid(1), 10, 0);
    assert_eq!(feed.len(), 1);
    assert_eq!(feed[0].content, "near");
    assert!(PostService::get_feed(&state, uid(7), 10, 0).is_empty());
}

#[test]
fn sorting_keeps_the_order_of_posts_of_one_time() {
    let pool = vec![
        Post::new(uid(1), "a".to_string(), None, 5),
        Post::new(uid(1), "b".to_string(), None, 9),
        Post::new(uid(1), "c".to_string(), None, 5),
        Post::new(uid(1), "d".to_string(), None, 7),
        Post::new(uid(1), "e".to_string(), None, 9),
    ];
    let sorted = sort_newest_first(pool);
    let order: Vec<&str> = sorted.iter().map(|p| p.content.as_str()).collect();
    assert_eq!(order, vec!["b", "e", "d", "a", "c"]);
    assert!(sort_newest_first(Vec::new()).is_empty());
}

#[test]
fn only_the_admin_removes_posts() {
    let mut state = world();
    let p = post(&mut state, 1, "x", 10);
    let r = remove_post(&mut state, uid(1), p.id.clone());
    assert_eq!(r, Err(ServiceError::Unauthorized));
    assert!(PostService::get_post(&state, p.id.clone()).is_some());
    assert_eq!(PostService::get_user_posts(&state, uid(1)).len(), 1);
    assert_eq!(UserService::get_user(&state, uid(1)).unwrap().posts_count, 1);

    assert_eq!(remove_post(&mut state, admin(), p.id.clone()), Ok(()));
    assert!(PostService::get_post(&state, p.id.clone()).is_none());
    assert!(PostService::get_user_posts(&state, uid(1)).is_empty());
    assert_eq!(UserService::get_user(&state, uid(1)).unwrap().posts_count, 0);
    assert_eq!(remove_post(&mut state, admin(), p.id), Err(ServiceError::NotFound));
}

#[test]
fn removal_leaves_other_posts_and_shares_alone() {
    let mut state = world();
    let p = post(&mut state, 1, "x", 10);
    let q = post(&mut state, 1, "y", 11);
    let s = PostService::share_post(&mut state, uid(2), p.id.clone(), None, 12).unwrap();
    assert_eq!(PostService::remove_post(&mut state, p.id.clone()), Ok(()));
    let mine = PostService::get_user_posts(&state, uid(1));
    assert_eq!(mine.len(), 1);
    assert_eq!(mine[0].id, q.id);
    assert_eq!(UserService::get_user(&state, uid(1)).unwrap().posts_count, 1);
    let share = PostService::get_post(&state, s.id).unwrap();
    assert_eq!(share.original_post_id, Some(p.id));
    assert_eq!(UserService::get_user(&state, uid(2)).unwrap().posts_count, 1);
}

#[test]
fn removal_of_a_post_of_a_counter_at_zero_keeps_zero() {
    let mut state = world();
    let p = post(&mut state, 1, "x", 10);
    let row = state.users.find(&uid(1)).unwrap();
    state.users.value_at_mut(row).posts_count = 0;
    assert_eq!(PostService::remove_post(&mut state, p.id), Ok(()));
    assert_eq!(UserService::get_user(&state, uid(1)).unwrap().posts_count, 0);
}

#[test]
fn feed_passes_over_removed_posts() {
    let mut state = world();
    UserService::follow_user(&mut state, uid(1), uid(2)).unwrap();
    let p = post(&mut state, 2, "gone", 10);
    post(&mut state, 2, "stays", 11);
    PostService::remove_post(&mut state, p.id).unwrap();
    let feed = PostService::get_feed(&state, uid(1), 10, 0);
    assert_eq!(feed.len(), 1);
    assert_eq!(feed[0].content, "stays");
}
