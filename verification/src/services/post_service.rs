//! Posts: their making, liking, sharing, searching and removal, and the feed.

use vstd::prelude::*;
use crate::collections::{found, list_of, views, Dup, Key, Table};
use crate::error::ServiceError;
use crate::identity::{anonymous_bytes, UserId};
use crate::models::post::{fresh_post, fresh_share, post_id, share_id, Post, PostView};
use crate::models::user::UserView;
use crate::services::user_service::one_less;
use crate::storage::state::State;
use crate::text::{blank, contains, is_blank, is_substring, lowercase, text_of, to_lowercase};

verus! {

/// The operations on posts.
pub struct PostService;

/// Why `author` may not put up a post, if so, given whether its content is
/// blank and whether it has media. The checks are made in this order.
pub open spec fn post_verdict(state: &State, author: Seq<u8>, blank: bool, has_media: bool) -> Option<
    ServiceError,
> {
    if author == anonymous_bytes() {
        Some(ServiceError::Unauthenticated)
    } else if blank && !has_media {
        Some(ServiceError::InvalidInput)
    } else if !state.users@.dom().contains(author) {
        Some(ServiceError::NotFound)
    } else {
        None
    }
}

/// Why `caller` may not post `content` with `media_url`, if so.
pub open spec fn post_error(
    state: &State,
    caller: Seq<u8>,
    content: Seq<char>,
    media_url: Option<Seq<char>>,
) -> Option<ServiceError> {
    post_verdict(state, caller, is_blank(content), media_url is Some)
}

/// Why `user` may not like the post `id`, if so.
pub open spec fn like_error(posts: Map<Seq<char>, PostView>, user: Seq<u8>, id: Seq<char>) -> Option<
    ServiceError,
> {
    if !posts.dom().contains(id) {
        Some(ServiceError::NotFound)
    } else if posts[id].likes.contains(user) {
        Some(ServiceError::Conflict)
    } else {
        None
    }
}

/// Why `user` may not take back a like of the post `id`, if so.
pub open spec fn unlike_error(posts: Map<Seq<char>, PostView>, user: Seq<u8>, id: Seq<char>) -> Option<
    ServiceError,
> {
    if !posts.dom().contains(id) {
        Some(ServiceError::NotFound)
    } else if !posts[id].likes.contains(user) {
        Some(ServiceError::Conflict)
    } else {
        None
    }
}

/// The profile `u` with one post more.
pub open spec fn with_post_counted(u: UserView) -> UserView {
    UserView { posts_count: (u.posts_count + 1) as u64, ..u }
}

/// The profile `u` with one post less, or none where it had none.
pub open spec fn with_post_dropped(u: UserView) -> UserView {
    UserView { posts_count: one_less(u.posts_count), ..u }
}

/// The profiles after `author` got one post more, where `author` has a
/// profile.
pub open spec fn users_after_post(users: Map<Seq<u8>, UserView>, author: Seq<u8>) -> Map<
    Seq<u8>,
    UserView,
> {
    if users.dom().contains(author) {
        users.insert(author, with_post_counted(users[author]))
    } else {
        users
    }
}

/// The profiles after `author` lost a post, where `author` has a profile.
pub open spec fn users_after_removal(users: Map<Seq<u8>, UserView>, author: Seq<u8>) -> Map<
    Seq<u8>,
    UserView,
> {
    if users.dom().contains(author) {
        users.insert(author, with_post_dropped(users[author]))
    } else {
        users
    }
}

/// The posts after `share`, a share of the post `original`, was put in:
/// the share stands under its identifier, and then the post under
/// `original` counts one share more.
pub open spec fn posts_after_share(
    posts: Map<Seq<char>, PostView>,
    share: PostView,
    original: Seq<char>,
) -> Map<Seq<char>, PostView> {
    let put = posts.insert(share.id, share);
    put.insert(
        original,
        PostView { shares_count: (put[original].shares_count + 1) as u64, ..put[original] },
    )
}

/// The index of posts after the post `id` of `author` was removed: the
/// list of `author`, where there is one, loses every `id`.
pub open spec fn index_after_removal(
    index: Map<Seq<u8>, Seq<Seq<char>>>,
    author: Seq<u8>,
    id: Seq<char>,
) -> Map<Seq<u8>, Seq<Seq<char>>> {
    if index.dom().contains(author) {
        index.insert(author, index[author].filter(|other: Seq<char>| other != id))
    } else {
        index
    }
}

/// Whether `after` is `before` with `post` filed: the record stands under
/// its identifier, the list of its author in the index of posts ends with
/// the identifier, and the author's profile, where there is one, counts one
/// post more.
pub open spec fn post_filed(before: &State, after: &State, post: PostView) -> bool {
    &&& *after == (State {
        users: after.users,
        posts: after.posts,
        user_posts: after.user_posts,
        ..*before
    })
    &&& after.posts.is_put(&before.posts, post.id, post)
    &&& after.user_posts.is_put(
        &before.user_posts,
        post.author,
        before.posts_of(post.author).push(post.id),
    )
    &&& after.users.keys() == before.users.keys()
    &&& after.users@ == users_after_post(before.users@, post.author)
}

/// Whether `after` is `before` with `share`, a share of the post
/// `original`, filed: as a post is, and the post under `original` counts
/// one share more.
pub open spec fn share_filed(before: &State, after: &State, share: PostView, original: Seq<char>) -> bool {
    &&& *after == (State {
        users: after.users,
        posts: after.posts,
        user_posts: after.user_posts,
        ..*before
    })
    &&& after.posts.keys() == before.posts.keys_with(share.id)
    &&& after.posts@ == posts_after_share(before.posts@, share, original)
    &&& after.user_posts.is_put(
        &before.user_posts,
        share.author,
        before.posts_of(share.author).push(share.id),
    )
    &&& after.users.keys() == before.users.keys()
    &&& after.users@ == users_after_post(before.users@, share.author)
}

/// Whether `after` is `before` with the post `id`, which `before` has,
/// removed: the record is gone, the list of its author in the index of posts
/// has lost the identifier, and the author's profile counts one post less.
pub open spec fn post_removed(before: &State, after: &State, id: Seq<char>) -> bool {
    let author = before.posts@[id].author;
    &&& *after == (State {
        users: after.users,
        posts: after.posts,
        user_posts: after.user_posts,
        ..*before
    })
    &&& after.posts.is_cut(&before.posts, id)
    &&& after.user_posts.keys() == before.user_posts.keys()
    &&& after.user_posts@ == index_after_removal(before.user_posts@, author, id)
    &&& after.users.keys() == before.users.keys()
    &&& after.users@ == users_after_removal(before.users@, author)
}

/// Whether the content of `p` holds `query`, letter case aside.
pub open spec fn post_matches(p: PostView, query: Seq<char>) -> bool {
    is_substring(lowercase(query), lowercase(p.content))
}

/// The posts of each of `authors` in turn, each author's oldest first.
pub open spec fn posts_by(
    posts: Map<Seq<char>, PostView>,
    index: Map<Seq<u8>, Seq<Seq<char>>>,
    authors: Seq<Seq<u8>>,
) -> Seq<PostView>
    decreases authors.len(),
{
    if authors.len() == 0 {
        Seq::empty()
    } else {
        posts_by(posts, index, authors.drop_last()) + found(posts, list_of(index, authors.last()))
    }
}

/// What the feed of `user` is drawn from: the posts of `user`, then those of
/// everyone whom `user` follows, before any ordering.
pub open spec fn feed_pool(state: &State, user: Seq<u8>) -> Seq<PostView> {
    found(state.posts@, state.posts_of(user)) + posts_by(
        state.posts@,
        state.user_posts@,
        state.following_of(user),
    )
}

/// Where a post made at `t` goes into `s`, which is ordered newest first:
/// behind every newer post and before the others.
pub open spec fn slot(s: Seq<PostView>, t: u64) -> int
    decreases s.len(),
{
    if s.len() == 0 || s.first().created_at <= t {
        0
    } else {
        1 + slot(s.drop_first(), t)
    }
}

/// `s` ordered newest first; posts of one time keep the order they have in
/// `s`.
pub open spec fn newest_first(s: Seq<PostView>) -> Seq<PostView>
    decreases s.len(),
{
    if s.len() == 0 {
        Seq::empty()
    } else {
        let rest = newest_first(s.drop_first());
        rest.insert(slot(rest, s.first().created_at), s.first())
    }
}

/// `s` without its first `offset` items, and of the rest no more than
/// `limit`.
pub open spec fn window<T>(s: Seq<T>, offset: usize, limit: usize) -> Seq<T> {
    let start = if offset <= s.len() {
        offset as int
    } else {
        s.len() as int
    };
    let end = if start + limit <= s.len() {
        start + limit
    } else {
        s.len() as int
    };
    s.subrange(start, end)
}

/// Whether no post of `s` is older than one before it.
pub open spec fn is_newest_first(s: Seq<PostView>) -> bool {
    forall|i: int, j: int| 0 <= i < j < s.len() ==> s[i].created_at >= s[j].created_at
}

/// The slot lies in the sequence, behind newer posts only and before a post
/// that is not newer.
pub proof fn lemma_slot(s: Seq<PostView>, t: u64)
    ensures
        0 <= slot(s, t) <= s.len(),
        forall|i: int| 0 <= i < slot(s, t) ==> s[i].created_at > t,
        slot(s, t) < s.len() ==> s[slot(s, t)].created_at <= t,
    decreases s.len(),
{
    if s.len() == 0 || s.first().created_at <= t {
    } else {
        lemma_slot(s.drop_first(), t);
        assert forall|i: int| 0 <= i < slot(s, t) implies s[i].created_at > t by {
            if i > 0 {
                assert(s.drop_first()[i - 1] == s[i]);
            }
        }
        if slot(s, t) < s.len() {
            assert(s.drop_first()[slot(s, t) - 1] == s[slot(s, t)]);
        }
    }
}

/// Ordering keeps every post, each as often as it stood, and leaves no post
/// behind a newer one.
pub proof fn lemma_newest_first(s: Seq<PostView>)
    ensures
        newest_first(s).len() == s.len(),
        newest_first(s).to_multiset() == s.to_multiset(),
        is_newest_first(newest_first(s)),
    decreases s.len(),
{
    broadcast use vstd::seq_lib::group_to_multiset_ensures;

    if s.len() == 0 {
        assert(newest_first(s).to_multiset() =~= s.to_multiset());
    } else {
        let rest = newest_first(s.drop_first());
        let p = s.first();
        let at = slot(rest, p.created_at);
        lemma_newest_first(s.drop_first());
        lemma_slot(rest, p.created_at);
        let r = rest.insert(at, p);
        vstd::seq_lib::to_multiset_insert(rest, at, p);
        assert(s =~= seq![p] + s.drop_first());
        vstd::seq_lib::lemma_seq_union_to_multiset_commutative(seq![p], s.drop_first());
        assert(s.drop_first().push(p) =~= s.drop_first() + seq![p]);
        assert(s.to_multiset() =~= s.drop_first().to_multiset().insert(p));
        assert forall|i: int, j: int| 0 <= i < j < r.len() implies r[i].created_at
            >= r[j].created_at by {
            if j < at {
                assert(r[i] == rest[i] && r[j] == rest[j]);
            } else if j == at {
                assert(r[i] == rest[i]);
            } else if i < at {
                assert(r[i] == rest[i] && r[j] == rest[j - 1]);
                assert(rest[at].created_at <= p.created_at);
                if j - 1 > at {
                    assert(rest[at].created_at >= rest[j - 1].created_at);
                }
            } else if i == at {
                assert(r[j] == rest[j - 1]);
                if j - 1 > at {
                    assert(rest[at].created_at >= rest[j - 1].created_at);
                }
            } else {
                assert(r[i] == rest[i - 1] && r[j] == rest[j - 1]);
            }
        }
    }
}

/// Orders `pool` newest first; posts of one time keep their order.
pub fn sort_newest_first(pool: Vec<Post>) -> (sorted: Vec<Post>)
    ensures
        views(sorted@) == newest_first(views(pool@)),
{
    let mut pool = pool;
    let ghost all = views(pool@);
    let mut sorted: Vec<Post> = Vec::new();
    assert(all.skip(all.len() as int) =~= Seq::<PostView>::empty());
    assert(views(sorted@) =~= Seq::<PostView>::empty());
    while pool.len() > 0
        invariant
            pool@.len() <= all.len(),
            views(pool@) == all.take(pool@.len() as int),
            views(sorted@) == newest_first(all.skip(pool@.len() as int)),
        decreases pool@.len(),
    {
        let ghost k = pool@.len() as int;
        let ghost before = views(sorted@);
        let post = pool.pop().unwrap();
        assert(post@ == all[k - 1]) by {
            assert(all.take(k)[k - 1] == all[k - 1]);
        }
        assert(views(pool@) =~= all.take(k - 1));
        let mut j: usize = 0;
        proof {
            assert(before.skip(0) =~= before);
        }
        while j < sorted.len() && sorted[j].created_at > post.created_at
            invariant
                j <= sorted@.len(),
                before == views(sorted@),
                slot(before, post.created_at) == j + slot(before.skip(j as int), post.created_at),
            decreases sorted@.len() - j,
        {
            proof {
                assert(before.skip(j as int).first() == sorted@[j as int]@);
                assert(before.skip(j as int).drop_first() =~= before.skip(j + 1));
            }
            j += 1;
        }
        proof {
            if j < sorted@.len() {
                assert(before.skip(j as int).first() == sorted@[j as int]@);
            }
            assert(slot(before, post.created_at) == j);
            assert(all.skip(k - 1).first() == all[k - 1]);
            assert(all.skip(k - 1).drop_first() =~= all.skip(k));
        }
        sorted.insert(j, post);
        assert(views(sorted@) =~= before.insert(j as int, post@));
    }
    assert(all.skip(0) =~= all);
    sorted
}

impl PostService {
    /// The feed of `user_id`: the posts of `user_id` and of everyone whom
    /// `user_id` follows, newest first, without the first `offset` of them
    /// and no more than `limit`. Posts of one time come in the order of the
    /// pool: own posts first, then by followee.
    pub fn get_feed(state: &State, user_id: UserId, limit: usize, offset: usize) -> (r: Vec<Post>)
        requires
            state.wf(),
        ensures
            views(r@) == window(newest_first(feed_pool(state, user_id@)), offset, limit),
    {
        let mut pool: Vec<Post> = Vec::new();
        assert(views(pool@) =~= Seq::<PostView>::empty());
        match state.user_posts.get(&user_id) {
            Some(ids) => {
                state.posts.collect(ids, &mut pool);
            },
            None => {},
        }
        assert(views(pool@) =~= found(state.posts@, state.posts_of(user_id@)));
        let ghost own = views(pool@);
        match state.user_following.get(&user_id) {
            Some(following) => {
                let n = following.len();
                let mut i: usize = 0;
                assert(views(pool@) =~= own + posts_by(
                    state.posts@,
                    state.user_posts@,
                    following@.take(0),
                ));
                while i < n
                    invariant
                        i <= n,
                        n == following@.len(),
                        state.wf(),
                        views(pool@) == own + posts_by(
                            state.posts@,
                            state.user_posts@,
                            following@.take(i as int),
                        ),
                    decreases n - i,
                {
                    proof {
                        assert(following@.take(i + 1).drop_last() =~= following@.take(i as int));
                        assert(following@.take(i + 1).last() == following@[i as int]);
                    }
                    let ghost so_far = views(pool@);
                    match state.user_posts.get(following.get(i)) {
                        Some(ids) => {
                            state.posts.collect(ids, &mut pool);
                        },
                        None => {
                            assert(so_far + Seq::<PostView>::empty() =~= so_far);
                        },
                    }
                    assert(views(pool@) =~= own + posts_by(
                        state.posts@,
                        state.user_posts@,
                        following@.take(i + 1),
                    ));
                    i += 1;
                }
                assert(following@.take(n as int) =~= following@);
            },
            None => {
                assert(own + Seq::<PostView>::empty() =~= own);
            },
        }
        assert(views(pool@) == feed_pool(state, user_id@));
        let mut sorted = sort_newest_first(pool);
        let len = sorted.len();
        let start = if offset <= len {
            offset
        } else {
            len
        };
        let end = if limit <= len - start {
            start + limit
        } else {
            len
        };
        sorted.truncate(end);
        let page = sorted.split_off(start);
        assert(views(page@) =~= window(newest_first(feed_pool(state, user_id@)), offset, limit));
        page
    }

    /// Files `post`: under its identifier, in the index of its author and
    /// on the counter of the author's profile, where there is one.
    fn file(state: &mut State, post: Post)
        requires
            old(state).wf(),
            post@.wf(),
            old(state).users@.dom().contains(post@.author) ==> old(
                state,
            ).users@[post@.author].posts_count < u64::MAX,
        ensures
            final(state).wf(),
            post_filed(old(state), final(state), post@),
    {
        let author = post.author.dup();
        let id = post.id.clone();
        state.posts.insert(post.id.clone(), post);
        let _n = state.user_posts.append_to(author.dup(), id);
        if let Some(row) = state.users.find(&author) {
            let user = state.users.value_at_mut(row);
            user.posts_count = user.posts_count + 1;
        }
    }

    /// Puts up `post`, given whether its content is blank.
    ///
    /// Nobody likes the post twice, its like counter is the number of its
    /// likers, and the post counter of its author has room for one more.
    pub fn publish(state: &mut State, post: Post, blank: bool) -> (r: Result<(), ServiceError>)
        requires
            old(state).wf(),
            post@.wf(),
            old(state).users@.dom().contains(post@.author) ==> old(
                state,
            ).users@[post@.author].posts_count < u64::MAX,
        ensures
            final(state).wf(),
            match post_verdict(old(state), post@.author, blank, post@.media_url is Some) {
                Some(e) => r == Err::<(), ServiceError>(e) && *final(state) == *old(state),
                None => r is Ok && post_filed(old(state), final(state), post@),
            },
    {
        if post.author.is_anonymous() {
            return Err(ServiceError::Unauthenticated);
        }
        if blank && post.media_url.is_none() {
            return Err(ServiceError::InvalidInput);
        }
        if !state.users.contains_key(&post.author) {
            return Err(ServiceError::NotFound);
        }
        Self::file(state, post);
        Ok(())
    }

    /// Makes a post by `caller`.
    ///
    /// The post counter of the caller must have room for one more.
    pub fn create_post(
        state: &mut State,
        caller: UserId,
        content: String,
        media_url: Option<String>,
        now: u64,
    ) -> (r: Result<Post, ServiceError>)
        requires
            old(state).wf(),
            old(state).users@.dom().contains(caller@) ==> old(state).users@[caller@].posts_count
                < u64::MAX,
        ensures
            final(state).wf(),
            match post_error(old(state), caller@, content@, text_of(media_url)) {
                Some(e) => r == Err::<Post, ServiceError>(e) && *final(state) == *old(state),
                None => {
                    &&& r is Ok
                    &&& r->Ok_0@ == fresh_post(caller@, content@, text_of(media_url), now)
                    &&& post_filed(old(state), final(state), r->Ok_0@)
                },
            },
    {
        let is_blank = blank(content.as_str());
        let post = Post::new(caller, content, media_url, now);
        let copy = post.dup();
        match Self::publish(state, post, is_blank) {
            Ok(()) => Ok(copy),
            Err(e) => Err(e),
        }
    }

    /// The post `post_id`, if there is one.
    pub fn get_post(state: &State, post_id: String) -> (r: Option<Post>)
        requires
            state.wf(),
        ensures
            match r {
                Some(post) => state.posts.lookup(post_id@) == Some(post@),
                None => state.posts.lookup(post_id@) is None,
            },
    {
        match state.posts.get(&post_id) {
            Some(post) => Some(post.dup()),
            None => None,
        }
    }

    /// The posts of `user_id`, oldest first. An identifier of the index
    /// under which no post stands is passed over.
    pub fn get_user_posts(state: &State, user_id: UserId) -> (r: Vec<Post>)
        requires
            state.wf(),
        ensures
            views(r@) == found(state.posts@, state.posts_of(user_id@)),
    {
        let mut posts: Vec<Post> = Vec::new();
        assert(views(posts@) =~= Seq::<PostView>::empty());
        match state.user_posts.get(&user_id) {
            Some(ids) => {
                state.posts.collect(ids, &mut posts);
                assert(views(posts@) =~= found(state.posts@, ids@));
            },
            None => {},
        }
        posts
    }

    /// Records that `caller` likes the post `post_id`.
    pub fn like_post(state: &mut State, caller: UserId, post_id: String) -> (r: Result<
        (),
        ServiceError,
    >)
        requires
            old(state).wf(),
        ensures
            final(state).wf(),
            match like_error(old(state).posts@, caller@, post_id@) {
                Some(e) => r == Err::<(), ServiceError>(e) && *final(state) == *old(state),
                None => {
                    &&& r is Ok
                    &&& *final(state) == (State { posts: final(state).posts, ..*old(state) })
                    &&& final(state).posts.keys() == old(state).posts.keys()
                    &&& final(state).posts@ == old(state).posts@.insert(
                        post_id@,
                        old(state).posts@[post_id@].liked_by(caller@),
                    )
                },
            },
    {
        match state.posts.find(&post_id) {
            Some(row) => {
                if state.posts.value_at(row).likes.contains(&caller) {
                    return Err(ServiceError::Conflict);
                }
                let post = state.posts.value_at_mut(row);
                let _added = post.add_like(caller);
                Ok(())
            },
            None => Err(ServiceError::NotFound),
        }
    }

    /// Takes back the like of `caller` for the post `post_id`.
    pub fn unlike_post(state: &mut State, caller: UserId, post_id: String) -> (r: Result<
        (),
        ServiceError,
    >)
        requires
            old(state).wf(),
        ensures
            final(state).wf(),
            match unlike_error(old(state).posts@, caller@, post_id@) {
                Some(e) => r == Err::<(), ServiceError>(e) && *final(state) == *old(state),
                None => {
                    &&& r is Ok
                    &&& *final(state) == (State { posts: final(state).posts, ..*old(state) })
                    &&& final(state).posts.keys() == old(state).posts.keys()
                    &&& final(state).posts@ == old(state).posts@.insert(
                        post_id@,
                        old(state).posts@[post_id@].unliked_by(caller@),
                    )
                },
            },
    {
        match state.posts.find(&post_id) {
            Some(row) => {
                if !state.posts.value_at(row).likes.contains(&caller) {
                    return Err(ServiceError::Conflict);
                }
                let post = state.posts.value_at_mut(row);
                let _removed = post.remove_like(caller);
                Ok(())
            },
            None => Err(ServiceError::NotFound),
        }
    }

    /// Puts up `share`, a share of the post that it names as its original,
    /// and counts it on that post and, where the author has a profile, on
    /// the author.
    ///
    /// The share names its original, nobody likes it twice, its like counter
    /// is the number of its likers, and the two counters have room for one
    /// more; so has its own share counter where it names itself.
    pub fn publish_share(state: &mut State, share: Post) -> (r: Result<(), ServiceError>)
        requires
            old(state).wf(),
            share@.wf(),
            share@.original_post_id is Some,
            share@.original_post_id == Some(share@.id) ==> share@.shares_count < u64::MAX,
            old(state).posts@.dom().contains(share@.original_post_id->0) ==> old(
                state,
            ).posts@[share@.original_post_id->0].shares_count < u64::MAX,
            old(state).users@.dom().contains(share@.author) ==> old(
                state,
            ).users@[share@.author].posts_count < u64::MAX,
        ensures
            final(state).wf(),
            !old(state).posts@.dom().contains(share@.original_post_id->0) ==> r == Err::<
                (),
                ServiceError,
            >(ServiceError::NotFound) && *final(state) == *old(state),
            old(state).posts@.dom().contains(share@.original_post_id->0) ==> r is Ok
                && share_filed(old(state), final(state), share@, share@.original_post_id->0),
    {
        let original = match &share.original_post_id {
            Some(id) => id.clone(),
            None => {
                return Err(ServiceError::NotFound);
            },
        };
        if !state.posts.contains_key(&original) {
            return Err(ServiceError::NotFound);
        }
        Self::file(state, share);
        if let Some(row) = state.posts.find(&original) {
            let post = state.posts.value_at_mut(row);
            post.shares_count = post.shares_count + 1;
        }
        Ok(())
    }

    /// Makes a share of the post `post_id` by `caller`, and counts it on
    /// that post and, where the caller has a profile, on the caller.
    ///
    /// The two counters must have room for one more.
    pub fn share_post(
        state: &mut State,
        caller: UserId,
        post_id: String,
        comment: Option<String>,
        now: u64,
    ) -> (r: Result<Post, ServiceError>)
        requires
            old(state).wf(),
            old(state).posts@.dom().contains(post_id@) ==> old(state).posts@[post_id@].shares_count
                < u64::MAX,
            old(state).users@.dom().contains(caller@) ==> old(state).users@[caller@].posts_count
                < u64::MAX,
        ensures
            final(state).wf(),
            !old(state).posts@.dom().contains(post_id@) ==> r == Err::<Post, ServiceError>(
                ServiceError::NotFound,
            ) && *final(state) == *old(state),
            old(state).posts@.dom().contains(post_id@) ==> {
                &&& r is Ok
                &&& r->Ok_0@ == fresh_share(caller@, post_id@, text_of(comment), now)
                &&& share_filed(old(state), final(state), r->Ok_0@, post_id@)
            },
    {
        let share = Post::new_share(caller, post_id, comment, now);
        let copy = share.dup();
        match Self::publish_share(state, share) {
            Ok(()) => Ok(copy),
            Err(e) => Err(e),
        }
    }

    /// The posts whose content holds `query`, letter case aside, in the
    /// order of the rows of the table.
    pub fn search_posts(state: &State, query: String) -> (r: Vec<Post>)
        requires
            state.wf(),
        ensures
            views(r@) == state.posts.vals().filter(|p: PostView| post_matches(p, query@)),
    {
        let wanted = to_lowercase(query.as_str());
        let ghost hit = |p: PostView| post_matches(p, query@);
        let ghost all = state.posts.vals();
        let mut posts: Vec<Post> = Vec::new();
        let n = state.posts.len();
        let mut i: usize = 0;
        while i < n
            invariant
                i <= n,
                state.posts.wf(),
                n == state.posts.keys().len(),
                all == state.posts.vals(),
                wanted@ == lowercase(query@),
                hit == (|p: PostView| post_matches(p, query@)),
                views(posts@) == all.take(i as int).filter(hit),
            decreases n - i,
        {
            let ghost prev = posts@;
            let post = state.posts.value_at(i);
            let text = to_lowercase(post.content.as_str());
            proof {
                assert(all.take(i + 1).drop_last() =~= all.take(i as int));
                assert(all.take(i + 1).last() == all[i as int]);
                reveal(Seq::filter);
            }
            if contains(text.as_str(), wanted.as_str()) {
                let copy = post.dup();
                posts.push(copy);
                assert(views(posts@) =~= views(prev).push(post@));
            }
            i += 1;
        }
        assert(all.take(n as int) =~= all);
        posts
    }

    /// The posts made after `timestamp`, in the order of the rows of the
    /// table.
    pub fn get_posts_since(state: &State, timestamp: u64) -> (r: Vec<Post>)
        requires
            state.wf(),
        ensures
            views(r@) == state.posts.vals().filter(|p: PostView| p.created_at > timestamp),
    {
        let ghost hit = |p: PostView| p.created_at > timestamp;
        let ghost all = state.posts.vals();
        let mut posts: Vec<Post> = Vec::new();
        let n = state.posts.len();
        let mut i: usize = 0;
        while i < n
            invariant
                i <= n,
                state.posts.wf(),
                n == state.posts.keys().len(),
                all == state.posts.vals(),
                hit == (|p: PostView| p.created_at > timestamp),
                views(posts@) == all.take(i as int).filter(hit),
            decreases n - i,
        {
            let ghost prev = posts@;
            let post = state.posts.value_at(i);
            proof {
                assert(all.take(i + 1).drop_last() =~= all.take(i as int));
                assert(all.take(i + 1).last() == all[i as int]);
                reveal(Seq::filter);
            }
            if post.created_at > timestamp {
                let copy = post.dup();
                posts.push(copy);
                assert(views(posts@) =~= views(prev).push(post@));
            }
            i += 1;
        }
        assert(all.take(n as int) =~= all);
        posts
    }

    /// Removes the post `post_id`: the record goes, the index of its author
    /// loses the identifier, and the author counts one post less. Comments
    /// on the post and shares of it stay as they are.
    pub fn remove_post(state: &mut State, post_id: String) -> (r: Result<(), ServiceError>)
        requires
            old(state).wf(),
        ensures
            final(state).wf(),
            !old(state).posts@.dom().contains(post_id@) ==> r == Err::<(), ServiceError>(
                ServiceError::NotFound,
            ) && *final(state) == *old(state),
            old(state).posts@.dom().contains(post_id@) ==> r is Ok && post_removed(
                old(state),
                final(state),
                post_id@,
            ),
    {
        match state.posts.remove(&post_id) {
            Some(post) => {
                if let Some(row) = state.user_posts.find(&post.author) {
                    let ids = state.user_posts.value_at_mut(row);
                    ids.retain_other(&post_id);
                }
                if let Some(row) = state.users.find(&post.author) {
                    let user = state.users.value_at_mut(row);
                    user.posts_count = user.posts_count.saturating_sub(1);
                }
                Ok(())
            },
            None => Err(ServiceError::NotFound),
        }
    }
}

} // verus!
