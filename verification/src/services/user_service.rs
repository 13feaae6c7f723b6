//! The directory of profiles and the follow graph.

use vstd::prelude::*;
use crate::collections::{lemma_push, lemma_without, list_of, views, without, Dup, Key, Table};
use crate::error::ServiceError;
use crate::identity::{anonymous_bytes, UserId};
use crate::models::user::{fresh_user, User, UserView};
use crate::storage::state::{edge, graph_wf, lemma_no_edge_no_list, State};
use crate::text::{contains, is_substring, lowercase, to_lowercase};
use crate::utils::validation::{is_valid_username, valid_username};

verus! {

/// The operations on profiles and on the follow graph.
pub struct UserService;

/// Whether some profile has the user name `name`, letter case aside.
pub open spec fn username_taken(users: Map<Seq<u8>, UserView>, name: Seq<char>) -> bool {
    exists|k: Seq<u8>|
        users.dom().contains(k) && lowercase((#[trigger] users[k]).username) == lowercase(name)
}

/// Why the registration of `caller` is refused, if it is, given whether
/// the user name is well formed and whether it is taken. The checks are made
/// in this order.
pub open spec fn register_verdict(
    state: &State,
    caller: Seq<u8>,
    well_formed: bool,
    name_taken: bool,
) -> Option<ServiceError> {
    if caller == anonymous_bytes() {
        Some(ServiceError::Unauthenticated)
    } else if !well_formed {
        Some(ServiceError::InvalidInput)
    } else if state.users@.dom().contains(caller) {
        Some(ServiceError::AlreadyExists)
    } else if name_taken {
        Some(ServiceError::AlreadyExists)
    } else {
        None
    }
}

/// Why the registration of `caller` as `username` is refused, if it is.
pub open spec fn register_error(state: &State, caller: Seq<u8>, username: Seq<char>) -> Option<
    ServiceError,
> {
    register_verdict(
        state,
        caller,
        valid_username(username),
        username_taken(state.users@, username),
    )
}

/// Why `caller` may not follow `target`, if so.
pub open spec fn follow_error(state: &State, caller: Seq<u8>, target: Seq<u8>) -> Option<
    ServiceError,
> {
    if caller == target {
        Some(ServiceError::Conflict)
    } else if !state.users@.dom().contains(caller) || !state.users@.dom().contains(target) {
        Some(ServiceError::NotFound)
    } else {
        None
    }
}

/// A counter one lower, or zero where it is zero.
pub open spec fn one_less(n: u64) -> u64 {
    if n > 0 {
        (n - 1) as u64
    } else {
        0
    }
}

/// The profiles after `caller` began to follow `target`.
pub open spec fn users_after_follow(
    users: Map<Seq<u8>, UserView>,
    caller: Seq<u8>,
    target: Seq<u8>,
) -> Map<Seq<u8>, UserView> {
    users.insert(
        caller,
        UserView { following_count: (users[caller].following_count + 1) as u64, ..users[caller] },
    ).insert(
        target,
        UserView { followers_count: (users[target].followers_count + 1) as u64, ..users[target] },
    )
}

/// The profiles after `caller` ceased to follow `target`: the counters of
/// those of the two that have a profile go down by one.
pub open spec fn users_after_unfollow(
    users: Map<Seq<u8>, UserView>,
    caller: Seq<u8>,
    target: Seq<u8>,
) -> Map<Seq<u8>, UserView> {
    let first = if users.dom().contains(caller) {
        users.insert(
            caller,
            UserView { following_count: one_less(users[caller].following_count), ..users[caller] },
        )
    } else {
        users
    };
    if first.dom().contains(target) {
        first.insert(
            target,
            UserView { followers_count: one_less(first[target].followers_count), ..first[target] },
        )
    } else {
        first
    }
}

/// Whether the user name or the bio of `u` holds `query`, letter case aside.
pub open spec fn user_matches(u: UserView, query: Seq<char>) -> bool {
    is_substring(lowercase(query), lowercase(u.username)) || is_substring(
        lowercase(query),
        lowercase(u.bio),
    )
}

/// A new edge in both indexes keeps them in step.
pub proof fn lemma_edge_added(
    followers: Map<Seq<u8>, Seq<Seq<u8>>>,
    following: Map<Seq<u8>, Seq<Seq<u8>>>,
    a: Seq<u8>,
    b: Seq<u8>,
)
    requires
        graph_wf(followers, following),
        !edge(following, a, b),
    ensures
        graph_wf(
            followers.insert(b, list_of(followers, b).push(a)),
            following.insert(a, list_of(following, a).push(b)),
        ),
        forall|x: Seq<u8>, y: Seq<u8>| #[trigger]
            edge(following.insert(a, list_of(following, a).push(b)), x, y) <==> edge(
                following,
                x,
                y,
            ) || (x == a && y == b),
{
    let followers2 = followers.insert(b, list_of(followers, b).push(a));
    let following2 = following.insert(a, list_of(following, a).push(b));
    assert(!edge(followers, b, a));
    lemma_push(list_of(following, a), b);
    lemma_push(list_of(followers, b), a);
    assert forall|x: Seq<u8>, y: Seq<u8>| edge(following2, x, y) <==> edge(followers2, y, x) by {
        assert(edge(following, x, y) <==> edge(followers, y, x));
    }
    assert forall|x: Seq<u8>| (#[trigger] list_of(following2, x)).no_duplicates() by {
        assert(list_of(following, x).no_duplicates());
    }
    assert forall|x: Seq<u8>| (#[trigger] list_of(followers2, x)).no_duplicates() by {
        assert(list_of(followers, x).no_duplicates());
    }
}

/// An edge taken out of both indexes keeps them in step.
pub proof fn lemma_edge_removed(
    followers: Map<Seq<u8>, Seq<Seq<u8>>>,
    following: Map<Seq<u8>, Seq<Seq<u8>>>,
    a: Seq<u8>,
    b: Seq<u8>,
)
    requires
        graph_wf(followers, following),
        edge(following, a, b),
    ensures
        graph_wf(
            followers.insert(b, without(list_of(followers, b), a)),
            following.insert(a, without(list_of(following, a), b)),
        ),
        without(list_of(following, a), b).len() == list_of(following, a).len() - 1,
        without(list_of(followers, b), a).len() == list_of(followers, b).len() - 1,
        forall|x: Seq<u8>, y: Seq<u8>| #[trigger]
            edge(following.insert(a, without(list_of(following, a), b)), x, y) ==> edge(
                following,
                x,
                y,
            ),
{
    let followers2 = followers.insert(b, without(list_of(followers, b), a));
    let following2 = following.insert(a, without(list_of(following, a), b));
    assert(edge(followers, b, a));
    assert(list_of(following, a).no_duplicates());
    assert(list_of(followers, b).no_duplicates());
    let i = list_of(following, a).index_of(b);
    let j = list_of(followers, b).index_of(a);
    lemma_without(list_of(following, a), b, i);
    lemma_without(list_of(followers, b), a, j);
    assert forall|x: Seq<u8>, y: Seq<u8>| edge(following2, x, y) <==> edge(followers2, y, x) by {
        assert(edge(following, x, y) <==> edge(followers, y, x));
    }
    assert forall|x: Seq<u8>| (#[trigger] list_of(following2, x)).no_duplicates() by {
        assert(list_of(following, x).no_duplicates());
    }
    assert forall|x: Seq<u8>| (#[trigger] list_of(followers2, x)).no_duplicates() by {
        assert(list_of(followers, x).no_duplicates());
    }
}

impl UserService {
    /// Whether some profile has the user name `username`, letter case
    /// aside.
    pub fn username_in_use(state: &State, username: &str) -> (b: bool)
        requires
            state.wf(),
        ensures
            b == username_taken(state.users@, username@),
    {
        let wanted = to_lowercase(username);
        let n = state.users.len();
        let mut i: usize = 0;
        while i < n
            invariant
                i <= n,
                n == state.users.keys().len(),
                state.users.wf(),
                wanted@ == lowercase(username@),
                forall|j: int|
                    0 <= j < i ==> lowercase((#[trigger] state.users.vals()[j]).username)
                        != wanted@,
            decreases n - i,
        {
            let taken = to_lowercase(state.users.value_at(i).username.as_str());
            if taken.same(&wanted) {
                proof {
                    state.users.rows_are_entries();
                    let k = state.users.keys()[i as int];
                    assert(state.users@.dom().contains(k));
                    assert(lowercase(state.users@[k].username) == lowercase(username@));
                }
                return true;
            }
            i += 1;
        }
        proof {
            state.users.rows_are_entries();
            assert forall|k: Seq<u8>| state.users@.dom().contains(k) implies lowercase(
                (#[trigger] state.users@[k]).username,
            ) != lowercase(username@) by {
                let j = state.users.keys().index_of(k);
                assert(state.users.keys()[j] == k);
                assert(state.users@[k] == state.users.vals()[j]);
            }
        }
        false
    }

    /// Puts the new profile `user` in the store, given whether its user
    /// name is well formed and whether it is taken.
    ///
    /// A new profile follows nobody and has no followers.
    pub fn register(state: &mut State, user: User, well_formed: bool, name_taken: bool) -> (r:
        Result<(), ServiceError>)
        requires
            old(state).wf(),
            user@.followers_count == 0,
            user@.following_count == 0,
        ensures
            final(state).wf(),
            match register_verdict(old(state), user@.id, well_formed, name_taken) {
                Some(e) => r == Err::<(), ServiceError>(e) && *final(state) == *old(state),
                None => {
                    &&& r is Ok
                    &&& *final(state) == (State { users: final(state).users, ..*old(state) })
                    &&& final(state).users.is_put(&old(state).users, user@.id, user@)
                },
            },
    {
        if user.id.is_anonymous() {
            return Err(ServiceError::Unauthenticated);
        }
        if !well_formed {
            return Err(ServiceError::InvalidInput);
        }
        if state.users.contains_key(&user.id) {
            return Err(ServiceError::AlreadyExists);
        }
        if name_taken {
            return Err(ServiceError::AlreadyExists);
        }
        proof {
            let id = user@.id;
            assert forall|b: Seq<u8>| !edge(state.user_following@, id, b) by {}
            assert forall|b: Seq<u8>| !edge(state.user_followers@, id, b) by {
                assert(edge(state.user_followers@, id, b) == edge(state.user_following@, b, id));
            }
            lemma_no_edge_no_list(state.user_following@, id);
            lemma_no_edge_no_list(state.user_followers@, id);
        }
        state.users.insert(user.id.dup(), user);
        Ok(())
    }

    /// Registers `caller` under `username`.
    pub fn create_user(
        state: &mut State,
        caller: UserId,
        username: String,
        bio: String,
        avatar_url: String,
        now: u64,
    ) -> (r: Result<User, ServiceError>)
        requires
            old(state).wf(),
        ensures
            final(state).wf(),
            match register_error(old(state), caller@, username@) {
                Some(e) => r == Err::<User, ServiceError>(e) && *final(state) == *old(state),
                None => {
                    &&& r is Ok
                    &&& r->Ok_0@ == fresh_user(caller@, username@, bio@, avatar_url@, now)
                    &&& *final(state) == (State { users: final(state).users, ..*old(state) })
                    &&& final(state).users.is_put(&old(state).users, caller@, r->Ok_0@)
                },
            },
    {
        let well_formed = is_valid_username(username.as_str());
        let name_taken = Self::username_in_use(state, username.as_str());
        let user = User::new(caller, username, bio, avatar_url, now);
        let copy = user.dup();
        match Self::register(state, user, well_formed, name_taken) {
            Ok(()) => Ok(copy),
            Err(e) => Err(e),
        }
    }

    /// The profile of `user_id`, if there is one.
    pub fn get_user(state: &State, user_id: UserId) -> (r: Option<User>)
        requires
            state.wf(),
        ensures
            match r {
                Some(user) => state.users.lookup(user_id@) == Some(user@),
                None => state.users.lookup(user_id@) is None,
            },
    {
        match state.users.get(&user_id) {
            Some(user) => Some(user.dup()),
            None => None,
        }
    }

    /// Rewrites the bio and the avatar of the profile of `caller`.
    pub fn update_user(
        state: &mut State,
        caller: UserId,
        bio: String,
        avatar_url: String,
        now: u64,
    ) -> (r: Result<User, ServiceError>)
        requires
            old(state).wf(),
        ensures
            final(state).wf(),
            !old(state).users@.dom().contains(caller@) ==> r == Err::<User, ServiceError>(
                ServiceError::NotFound,
            ) && *final(state) == *old(state),
            old(state).users@.dom().contains(caller@) ==> {
                &&& r is Ok
                &&& r->Ok_0@ == (UserView {
                    bio: bio@,
                    avatar_url: avatar_url@,
                    updated_at: now,
                    ..old(state).users@[caller@]
                })
                &&& *final(state) == (State { users: final(state).users, ..*old(state) })
                &&& final(state).users.keys() == old(state).users.keys()
                &&& final(state).users@ == old(state).users@.insert(caller@, r->Ok_0@)
            },
    {
        match state.users.find(&caller) {
            Some(i) => {
                let user = state.users.value_at_mut(i);
                user.update(bio, avatar_url, now);
                let copy = user.dup();
                Ok(copy)
            },
            None => Err(ServiceError::NotFound),
        }
    }

    /// Makes `caller` a follower of `user_to_follow`. Where that is so
    /// already, nothing changes.
    pub fn follow_user(state: &mut State, caller: UserId, user_to_follow: UserId) -> (r: Result<
        (),
        ServiceError,
    >)
        requires
            old(state).wf(),
        ensures
            final(state).wf(),
            match follow_error(old(state), caller@, user_to_follow@) {
                Some(e) => r == Err::<(), ServiceError>(e) && *final(state) == *old(state),
                None => {
                    &&& r is Ok
                    &&& old(state).follows(caller@, user_to_follow@) ==> *final(state) == *old(
                        state,
                    )
                    &&& !old(state).follows(caller@, user_to_follow@) ==> {
                        &&& *final(state) == (State {
                            users: final(state).users,
                            user_followers: final(state).user_followers,
                            user_following: final(state).user_following,
                            ..*old(state)
                        })
                        &&& final(state).user_following.is_put(
                            &old(state).user_following,
                            caller@,
                            old(state).following_of(caller@).push(user_to_follow@),
                        )
                        &&& final(state).user_followers.is_put(
                            &old(state).user_followers,
                            user_to_follow@,
                            old(state).followers_of(user_to_follow@).push(caller@),
                        )
                        &&& final(state).users.keys() == old(state).users.keys()
                        &&& final(state).users@ == users_after_follow(
                            old(state).users@,
                            caller@,
                            user_to_follow@,
                        )
                    }
                },
            },
    {
        if caller.same(&user_to_follow) {
            return Err(ServiceError::Conflict);
        }
        let from = state.users.find(&caller);
        let to = state.users.find(&user_to_follow);
        if from.is_none() || to.is_none() {
            return Err(ServiceError::NotFound);
        }
        let i = from.unwrap();
        let j = to.unwrap();
        let already = match state.user_following.get(&caller) {
            Some(list) => list.contains(&user_to_follow),
            None => false,
        };
        if !already {
            proof {
                lemma_edge_added(
                    state.user_followers@,
                    state.user_following@,
                    caller@,
                    user_to_follow@,
                );
            }
            let _following = state.user_following.append_to(caller.dup(), user_to_follow.dup());
            let _followers = state.user_followers.append_to(user_to_follow, caller);
            let user = state.users.value_at_mut(i);
            user.following_count = user.following_count + 1;
            let user = state.users.value_at_mut(j);
            user.followers_count = user.followers_count + 1;
        }
        Ok(())
    }

    /// Ends the following of `user_to_unfollow` by `caller`. Where there is
    /// none, nothing changes.
    pub fn unfollow_user(state: &mut State, caller: UserId, user_to_unfollow: UserId) -> (r:
        Result<(), ServiceError>)
        requires
            old(state).wf(),
        ensures
            final(state).wf(),
            r is Ok,
            !old(state).follows(caller@, user_to_unfollow@) ==> *final(state) == *old(state),
            old(state).follows(caller@, user_to_unfollow@) ==> {
                &&& *final(state) == (State {
                    users: final(state).users,
                    user_followers: final(state).user_followers,
                    user_following: final(state).user_following,
                    ..*old(state)
                })
                &&& final(state).user_following.keys() == old(state).user_following.keys()
                &&& final(state).user_following@ == old(state).user_following@.insert(
                    caller@,
                    without(old(state).following_of(caller@), user_to_unfollow@),
                )
                &&& final(state).user_followers.keys() == old(state).user_followers.keys()
                &&& final(state).user_followers@ == old(state).user_followers@.insert(
                    user_to_unfollow@,
                    without(old(state).followers_of(user_to_unfollow@), caller@),
                )
                &&& final(state).users.keys() == old(state).users.keys()
                &&& final(state).users@ == users_after_unfollow(
                    old(state).users@,
                    caller@,
                    user_to_unfollow@,
                )
            },
    {
        let found = match state.user_following.find(&caller) {
            Some(row) => {
                match state.user_following.value_at(row).position(&user_to_unfollow) {
                    Some(pos) => Some((row, pos)),
                    None => None,
                }
            },
            None => None,
        };
        if let Some((row, pos)) = found {
            proof {
                state.user_following.rows_are_entries();
                lemma_edge_removed(
                    state.user_followers@,
                    state.user_following@,
                    caller@,
                    user_to_unfollow@,
                );
                lemma_without(state.following_of(caller@), user_to_unfollow@, pos as int);
            }
            let following = state.user_following.value_at_mut(row);
            let _gone = following.remove(pos);

            let back = state.user_followers.find(&user_to_unfollow);
            assert(back is Some);
            let back_row = back.unwrap();
            let back_pos = state.user_followers.value_at(back_row).position(&caller);
            assert(back_pos is Some);
            let back_at = back_pos.unwrap();
            proof {
                lemma_without(old(state).followers_of(user_to_unfollow@), caller@, back_at as int);
            }
            let followers = state.user_followers.value_at_mut(back_row);
            let _gone = followers.remove(back_at);

            if let Some(i) = state.users.find(&caller) {
                let user = state.users.value_at_mut(i);
                user.following_count = user.following_count.saturating_sub(1);
            }
            if let Some(j) = state.users.find(&user_to_unfollow) {
                let user = state.users.value_at_mut(j);
                user.followers_count = user.followers_count.saturating_sub(1);
            }
        }
        Ok(())
    }

    /// Those who follow `user_id`, in the order in which they began to.
    pub fn get_user_followers(state: &State, user_id: UserId) -> (r: Vec<UserId>)
        requires
            state.wf(),
        ensures
            views(r@) == state.followers_of(user_id@),
    {
        match state.user_followers.get(&user_id) {
            Some(list) => list.to_vec(),
            None => {
                let r: Vec<UserId> = Vec::new();
                assert(views(r@) =~= Seq::<Seq<u8>>::empty());
                r
            },
        }
    }

    /// Those whom `user_id` follows, in the order in which `user_id` began
    /// to.
    pub fn get_user_following(state: &State, user_id: UserId) -> (r: Vec<UserId>)
        requires
            state.wf(),
        ensures
            views(r@) == state.following_of(user_id@),
    {
        match state.user_following.get(&user_id) {
            Some(list) => list.to_vec(),
            None => {
                let r: Vec<UserId> = Vec::new();
                assert(views(r@) =~= Seq::<Seq<u8>>::empty());
                r
            },
        }
    }

    /// The profiles whose user name or bio holds `query`, letter case aside,
    /// in the order of the rows of the table.
    pub fn search_users(state: &State, query: String) -> (r: Vec<User>)
        requires
            state.wf(),
        ensures
            views(r@) == state.users.vals().filter(|u: UserView| user_matches(u, query@)),
    {
        let wanted = to_lowercase(query.as_str());
        let ghost hit = |u: UserView| user_matches(u, query@);
        let ghost all = state.users.vals();
        let mut found: Vec<User> = Vec::new();
        let n = state.users.len();
        let mut i: usize = 0;
        while i < n
            invariant
                i <= n,
                state.users.wf(),
                n == state.users.keys().len(),
                all == state.users.vals(),
                wanted@ == lowercase(query@),
                hit == (|u: UserView| user_matches(u, query@)),
                views(found@) == all.take(i as int).filter(hit),
            decreases n - i,
        {
            let ghost prev = found@;
            let user = state.users.value_at(i);
            let name = to_lowercase(user.username.as_str());
            let bio = to_lowercase(user.bio.as_str());
            proof {
                assert(all.take(i + 1).drop_last() =~= all.take(i as int));
                assert(all.take(i + 1).last() == all[i as int]);
                reveal(Seq::filter);
            }
            if contains(name.as_str(), wanted.as_str()) || contains(bio.as_str(), wanted.as_str()) {
                let copy = user.dup();
                found.push(copy);
                assert(views(found@) =~= views(prev).push(user@));
            }
            i += 1;
        }
        assert(all.take(n as int) =~= all);
        found
    }
}

} // verus!
