use blockverse_backend::error::ServiceError;
use blockverse_backend::identity::UserId;
use blockverse_backend::services::user_service::UserService;
use blockverse_backend::storage::state::State;

fn id(n: u8) -> UserId {
    UserId::from_bytes(vec![n, 1]).unwrap()
}

fn store() -> State {
    State::new(id(99))
}

fn register(state: &mut State, who: u8, name: &str) {
    UserService::create_user(state, id(who), name.to_string(), String::new(), String::new(), 1)
        .unwrap();
}

#[test]
fn identities_over_29_bytes_are_refused() {
    assert!(UserId::from_bytes(vec![0; 29]).is_some());
    assert!(UserId::from_bytes(vec![0; 30]).is_none());
    assert_eq!(UserId::from_bytes(vec![7, 8]).unwrap().as_bytes(), &vec![7, 8]);
}

#[test]
fn anonymous_identity_is_the_byte_four() {
    assert_eq!(UserId::anonymous().as_bytes(), &vec![4u8]);
    assert!(UserId::anonymous().is_anonymous());
    assert!(!id(4).is_anonymous());
    assert!(UserId::from_bytes(vec![4]).unwrap().is_anonymous());
}

#[test]
fn identity_text_is_the_principal_text() {
    assert_eq!(UserId::anonymous().to_text(), "2vxsx-fae");
    assert_eq!(UserId::from_bytes(vec![]).unwrap().to_text(), "aaaaa-aa");
    let bytes = vec![0xef, 0xcd, 0xab, 0, 0, 0, 0, 0, 1];
    assert_eq!(UserId::from_bytes(bytes).unwrap().to_text(), "2chl6-4hpzw-vqaaa-aaaaa-c");
}

#[test]
fn registration_makes_a_blank_profile() {
    let mut state = store();
    let user = UserService::create_user(
        &mut state,
        id(1),
        "alice".to_string(),
        "hello".to_string(),
        "http://a/1.png".to_string(),
        42,
    )
    .unwrap();
    assert_eq!(user.id.as_bytes(), id(1).as_bytes());
    assert_eq!(user.username, "alice");
    assert_eq!(user.bio, "hello");
    assert_eq!(user.avatar_url, "http://a/1.png");
    assert_eq!(user.followers_count, 0);
    assert_eq!(user.following_count, 0);
    assert_eq!(user.posts_count, 0);
    assert_eq!(user.balance, 0);
    assert_eq!(user.created_at, 42);
    assert_eq!(user.updated_at, 42);
    let stored = UserService::get_user(&state, id(1)).unwrap();
    assert_eq!(stored.username, "alice");
    assert_eq!(state.users.len(), 1);
}

#[test]
fn registration_refuses_the_anonymous_caller() {
    let mut state = store();
    let r = UserService::create_user(
        &mut state,
        UserId::anonymous(),
        "alice".to_string(),
        String::new(),
        String::new(),
        1,
    );
    assert_eq!(r.err(), Some(ServiceError::Unauthenticated));
    assert_eq!(state.users.len(), 0);
}

#[test]
fn registration_refuses_a_malformed_name() {
    let mut state = store();
    for name in ["", "has space", "abcdefghijklmnopqrstu", "semi;colon"] {
        let r = UserService::create_user(
            &mut state,
            id(1),
            name.to_string(),
            String::new(),
            String::new(),
            1,
        );
        assert_eq!(r.err(), Some(ServiceError::InvalidInput));
    }
    assert_eq!(state.users.len(), 0);
}

#[test]
fn registration_refuses_a_second_profile() {
    let mut state = store();
    register(&mut state, 1, "alice");
    let r = UserService::create_user(
        &mut state,
        id(1),
        "other".to_string(),
        String::new(),
        String::new(),
        2,
    );
    assert_eq!(r.err(), Some(ServiceError::AlreadyExists));
    assert_eq!(UserService::get_user(&state, id(1)).unwrap().username, "alice");
}

#[test]
fn usernames_are_unique_whatever_the_case() {
    let mut state = store();
    register(&mut state, 1, "Alice");
    let r = UserService::create_user(
        &mut state,
        id(2),
        "alice".to_string(),
        String::new(),
        String::new(),
        2,
    );
    assert_eq!(r.err(), Some(ServiceError::AlreadyExists));
    assert!(UserService::get_user(&state, id(2)).is_none());
    assert_eq!(state.users.len(), 1);
}

#[test]
fn unknown_profile_is_absent() {
    let state = store();
    assert!(UserService::get_user(&state, id(5)).is_none());
}

#[test]
fn update_rewrites_bio_and_avatar() {
    let mut state = store();
    register(&mut state, 1, "alice");
    let user =
        UserService::update_user(&mut state, id(1), "new bio".to_string(), "pic".to_string(), 77)
            .unwrap();
    assert_eq!(user.bio, "new bio");
    assert_eq!(user.avatar_url, "pic");
    assert_eq!(user.updated_at, 77);
    assert_eq!(user.created_at, 1);
    assert_eq!(user.username, "alice");
    let stored = UserService::get_user(&state, id(1)).unwrap();
    assert_eq!(stored.bio, "new bio");
    assert_eq!(stored.updated_at, 77);
}

#[test]
fn update_without_profile_is_not_found() {
    let mut state = store();
    let r = UserService::update_user(&mut state, id(1), String::new(), String::new(), 2);
    assert_eq!(r.err(), Some(ServiceError::NotFound));
}

#[test]
fn follow_records_the_edge_in_both_indexes() {
    let mut state = store();
    register(&mut state, 1, "alice");
    register(&mut state, 2, "bob");
    assert_eq!(UserService::follow_user(&mut state, id(1), id(2)), Ok(()));
    let alice = UserService::get_user(&state, id(1)).unwrap();
    let bob = UserService::get_user(&state, id(2)).unwrap();
    assert_eq!((alice.following_count, alice.followers_count), (1, 0));
    assert_eq!((bob.following_count, bob.followers_count), (0, 1));
    let followers = UserService::get_user_followers(&state, id(2));
    assert_eq!(followers.len(), 1);
    assert_eq!(followers[0].as_bytes(), id(1).as_bytes());
    let following = UserService::get_user_following(&state, id(1));
    assert_eq!(following.len(), 1);
    assert_eq!(following[0].as_bytes(), id(2).as_bytes());
    assert!(UserService::get_user_followers(&state, id(1)).is_empty());
    assert!(UserService::get_user_following(&state, id(2)).is_empty());
}

#[test]
fn second_follow_changes_nothing() {
    let mut state = store();
    register(&mut state, 1, "alice");
    register(&mut state, 2, "bob");
    assert_eq!(UserService::follow_user(&mut state, id(1), id(2)), Ok(()));
    assert_eq!(UserService::follow_user(&mut state, id(1), id(2)), Ok(()));
    assert_eq!(UserService::get_user(&state, id(1)).unwrap().following_count, 1);
    assert_eq!(UserService::get_user(&state, id(2)).unwrap().followers_count, 1);
    assert_eq!(UserService::get_user_followers(&state, id(2)).len(), 1);
    assert_eq!(UserService::get_user_following(&state, id(1)).len(), 1);
}

#[test]
fn following_oneself_is_a_conflict() {
    let mut state = store();
    register(&mut state, 1, "alice");
    assert_eq!(
        UserService::follow_user(&mut state, id(1), id(1)),
        Err(ServiceError::Conflict)
    );
    assert_eq!(UserService::get_user(&state, id(1)).unwrap().following_count, 0);
}

#[test]
fn following_needs_both_profiles() {
    let mut state = store();
    register(&mut state, 1, "alice");
    assert_eq!(
        UserService::follow_user(&mut state, id(1), id(2)),
        Err(ServiceError::NotFound)
    );
    assert_eq!(
        UserService::follow_user(&mut state, id(2), id(1)),
        Err(ServiceError::NotFound)
    );
    assert_eq!(UserService::get_user(&state, id(1)).unwrap().following_count, 0);
    assert_eq!(UserService::get_user(&state, id(1)).unwrap().followers_count, 0);
    assert_eq!(state.user_following.len(), 0);
    assert_eq!(state.user_followers.len(), 0);
}

#[test]
fn unfollow_takes_the_edge_out_of_both_indexes() {
    let mut state = store();
    register(&mut state, 1, "alice");
    register(&mut state, 2, "bob");
    register(&mut state, 3, "carol");
    UserService::follow_user(&mut state, id(1), id(2)).unwrap();
    UserService::follow_user(&mut state, id(3), id(2)).unwrap();
    UserService::follow_user(&mut state, id(1), id(3)).unwrap();
    assert_eq!(UserService::unfollow_user(&mut state, id(1), id(2)), Ok(()));
    let alice = UserService::get_user(&state, id(1)).unwrap();
    let bob = UserService::get_user(&state, id(2)).unwrap();
    assert_eq!(alice.following_count, 1);
    assert_eq!(bob.followers_count, 1);
    let followers = UserService::get_user_followers(&state, id(2));
    assert_eq!(followers.len(), 1);
    assert_eq!(followers[0].as_bytes(), id(3).as_bytes());
    let following = UserService::get_user_following(&state, id(1));
    assert_eq!(following.len(), 1);
    assert_eq!(following[0].as_bytes(), id(3).as_bytes());
}

#[test]
fn unfollow_without_edge_changes_nothing() {
    let mut state = store();
    register(&mut state, 1, "alice");
    register(&mut state, 2, "bob");
    register(&mut state, 3, "carol");
    UserService::follow_user(&mut state, id(1), id(3)).unwrap();
    assert_eq!(UserService::unfollow_user(&mut state, id(1), id(2)), Ok(()));
    assert_eq!(UserService::unfollow_user(&mut state, id(2), id(1)), Ok(()));
    assert_eq!(UserService::unfollow_user(&mut state, id(7), id(8)), Ok(()));
    let alice = UserService::get_user(&state, id(1)).unwrap();
    let bob = UserService::get_user(&state, id(2)).unwrap();
    assert_eq!((alice.following_count, alice.followers_count), (1, 0));
    assert_eq!((bob.following_count, bob.followers_count), (0, 0));
    assert_eq!(UserService::get_user_following(&state, id(1)).len(), 1);
}

#[test]
fn follow_counters_match_the_lists_after_mixed_calls() {
    let mut state = store();
    for (n, name) in [(1, "a"), (2, "b"), (3, "c"), (4, "d")] {
        register(&mut state, n, name);
    }
    let calls: [(bool, u8, u8); 10] = [
        (true, 1, 2),
        (true, 1, 2),
        (true, 3, 2),
        (false, 1, 2),
        (false, 1, 2),
        (true, 4, 2),
        (true, 2, 1),
        (true, 1, 2),
        (false, 3, 2),
        (false, 3, 4),
    ];
    for (follow, a, b) in calls {
        if follow {
            UserService::follow_user(&mut state, id(a), id(b)).unwrap();
        } else {
            UserService::unfollow_user(&mut state, id(a), id(b)).unwrap();
        }
        for n in 1..=4u8 {
            let user = UserService::get_user(&state, id(n)).unwrap();
            let followers = UserService::get_user_followers(&state, id(n));
            let following = UserService::get_user_following(&state, id(n));
            assert_eq!(user.followers_count as usize, followers.len());
            assert_eq!(user.following_count as usize, following.len());
            for (i, f) in followers.iter().enumerate() {
                assert!(followers[..i].iter().all(|g| g.as_bytes() != f.as_bytes()));
            }
        }
    }
    let followers = UserService::get_user_followers(&state, id(2));
    assert_eq!(followers.len(), 2);
    assert_eq!(followers[0].as_bytes(), id(4).as_bytes());
    assert_eq!(followers[1].as_bytes(), id(1).as_bytes());
}

#[test]
fn search_looks_in_names_and_bios_whatever_the_case() {
    let mut state = store();
    UserService::create_user(
        &mut state,
        id(1),
        "Alice".to_string(),
        "Gardener".to_string(),
        String::new(),
        1,
    )
    .unwrap();
    UserService::create_user(
        &mut state,
        id(2),
        "bob".to_string(),
        "likes ALICE in wonderland".to_string(),
        String::new(),
        1,
    )
    .unwrap();
    UserService::create_user(
        &mut state,
        id(3),
        "carol".to_string(),
        "none".to_string(),
        String::new(),
        1,
    )
    .unwrap();
    let hits = UserService::search_users(&state, "aLiCe".to_string());
    assert_eq!(hits.len(), 2);
    assert_eq!(hits[0].username, "Alice");
    assert_eq!(hits[1].username, "bob");
    let hits = UserService::search_users(&state, "garden".to_string());
    assert_eq!(hits.len(), 1);
    assert_eq!(hits[0].username, "Alice");
    assert!(UserService::search_users(&state, "zzz".to_string()).is_empty());
    assert_eq!(UserService::search_users(&state, String::new()).len(), 3);
}
