//! Checking a snapshot before it is taken for a store.

use vstd::prelude::*;
use crate::collections::{list_of, Key, List, Table};
use crate::identity::UserId;
use crate::models::comment::Comment;
use crate::models::post::Post;
use crate::models::user::User;
use crate::storage::state::{
    comments_sound, counts_wf, edge, edges_among, lists_distinct, mirrored, posts_sound, users_keyed,
    Snapshot,
};

verus! {

/// Whether every profile stands under its own identity.
pub fn check_users(users: &Table<UserId, User>) -> (b: bool)
    requires
        users.wf(),
    ensures
        b == users_keyed(users@),
{
    proof {
        users.rows_are_entries();
    }
    let n = users.len();
    let mut i: usize = 0;
    while i < n
        invariant
            i <= n,
            n == users.keys().len(),
            users.wf(),
            forall|j: int| 0 <= j < i ==> (#[trigger] users.vals()[j]).id == users.keys()[j],
        decreases n - i,
    {
        if !users.value_at(i).id.same(users.key_at(i)) {
            proof {
                users.rows_are_entries();
                let k = users.keys()[i as int];
                assert(users@[k] == users.vals()[i as int]);
            }
            return false;
        }
        i += 1;
    }
    proof {
        users.rows_are_entries();
        assert forall|k: Seq<u8>| users@.dom().contains(k) implies (#[trigger] users@[k]).id
            == k by {
            let j = users.keys().index_of(k);
            assert(users.keys()[j] == k);
            assert(users.vals()[j].id == users.keys()[j]);
        }
    }
    true
}

/// Whether every post stands under its own identifier and counts its likers.
pub fn check_posts(posts: &Table<String, Post>) -> (b: bool)
    requires
        posts.wf(),
    ensures
        b == posts_sound(posts@),
{
    let n = posts.len();
    let mut i: usize = 0;
    while i < n
        invariant
            i <= n,
            n == posts.keys().len(),
            posts.wf(),
            forall|j: int|
                0 <= j < i ==> (#[trigger] posts.vals()[j]).id == posts.keys()[j]
                    && posts.vals()[j].wf(),
        decreases n - i,
    {
        let post = posts.value_at(i);
        let sound = post.id.same(posts.key_at(i)) && post.likes.has_no_repeats() && post.likes.len()
            as u64 == post.likes_count;
        if !sound {
            proof {
                posts.rows_are_entries();
                let k = posts.keys()[i as int];
                assert(posts@[k] == posts.vals()[i as int]);
            }
            return false;
        }
        i += 1;
    }
    proof {
        posts.rows_are_entries();
        assert forall|k: Seq<char>| posts@.dom().contains(k) implies (#[trigger] posts@[k]).id == k
            && posts@[k].wf() by {
            let j = posts.keys().index_of(k);
            assert(posts.keys()[j] == k);
            assert(posts.vals()[j].id == posts.keys()[j]);
        }
    }
    true
}

/// Whether every comment stands under its own identifier and counts its
/// likers.
pub fn check_comments(comments: &Table<String, Comment>) -> (b: bool)
    requires
        comments.wf(),
    ensures
        b == comments_sound(comments@),
{
    let n = comments.len();
    let mut i: usize = 0;
    while i < n
        invariant
            i <= n,
            n == comments.keys().len(),
            comments.wf(),
            forall|j: int|
                0 <= j < i ==> (#[trigger] comments.vals()[j]).id == comments.keys()[j]
                    && comments.vals()[j].wf(),
        decreases n - i,
    {
        let comment = comments.value_at(i);
        let sound = comment.id.same(comments.key_at(i)) && comment.likes.has_no_repeats()
            && comment.likes.len() as u64 == comment.likes_count;
        if !sound {
            proof {
                comments.rows_are_entries();
                let k = comments.keys()[i as int];
                assert(comments@[k] == comments.vals()[i as int]);
            }
            return false;
        }
        i += 1;
    }
    proof {
        comments.rows_are_entries();
        assert forall|k: Seq<char>| comments@.dom().contains(k) implies (
        #[trigger] comments@[k]).id == k && comments@[k].wf() by {
            let j = comments.keys().index_of(k);
            assert(comments.keys()[j] == k);
            assert(comments.vals()[j].id == comments.keys()[j]);
        }
    }
    true
}

/// Whether no list of `index` holds an identity twice.
pub fn check_lists(index: &Table<UserId, List<UserId>>) -> (b: bool)
    requires
        index.wf(),
    ensures
        b == lists_distinct(index@),
{
    let n = index.len();
    let mut i: usize = 0;
    while i < n
        invariant
            i <= n,
            n == index.keys().len(),
            index.wf(),
            forall|j: int| 0 <= j < i ==> (#[trigger] index.vals()[j]).no_duplicates(),
        decreases n - i,
    {
        if !index.value_at(i).has_no_repeats() {
            proof {
                index.rows_are_entries();
                let k = index.keys()[i as int];
                assert(list_of(index@, k) == index.vals()[i as int]);
            }
            return false;
        }
        i += 1;
    }
    proof {
        index.rows_are_entries();
        assert forall|a: Seq<u8>| (#[trigger] list_of(index@, a)).no_duplicates() by {
            if index@.dom().contains(a) {
                let j = index.keys().index_of(a);
                assert(index.keys()[j] == a);
                assert(index.vals()[j].no_duplicates());
            }
        }
    }
    true
}

/// Whether every edge of `from` stands, turned round, in `to`.
pub fn check_mirrored(from: &Table<UserId, List<UserId>>, to: &Table<UserId, List<UserId>>) -> (b:
    bool)
    requires
        from.wf(),
        to.wf(),
    ensures
        b == mirrored(from@, to@),
{
    let n = from.len();
    let mut i: usize = 0;
    while i < n
        invariant
            i <= n,
            n == from.keys().len(),
            from.wf(),
            to.wf(),
            forall|j: int, p: int|
                0 <= j < i && 0 <= p < from.vals()[j].len() ==> edge(
                    to@,
                    #[trigger] from.vals()[j][p],
                    from.keys()[j],
                ),
        decreases n - i,
    {
        let a = from.key_at(i);
        let list = from.value_at(i);
        let m = list.len();
        let mut p: usize = 0;
        while p < m
            invariant
                p <= m,
                m == list@.len(),
                i < n,
                n == from.keys().len(),
                from.wf(),
                to.wf(),
                a@ == from.keys()[i as int],
                list@ == from.vals()[i as int],
                forall|q: int| 0 <= q < p ==> edge(to@, #[trigger] list@[q], a@),
            decreases m - p,
        {
            let b = list.get(p);
            let back = match to.get(b) {
                Some(others) => others.contains(a),
                None => false,
            };
            if !back {
                proof {
                    from.rows_are_entries();
                    assert(list_of(from@, a@) == list@);
                    assert(list@[p as int] == b@);
                    assert(edge(from@, a@, b@));
                    assert(!edge(to@, b@, a@));
                }
                return false;
            }
            p += 1;
        }
        assert forall|q: int| 0 <= q < from.vals()[i as int].len() implies edge(
            to@,
            #[trigger] from.vals()[i as int][q],
            from.keys()[i as int],
        ) by {
            assert(edge(to@, list@[q], a@));
        }
        i += 1;
    }
    proof {
        from.rows_are_entries();
        assert forall|a: Seq<u8>, b: Seq<u8>| #[trigger] edge(from@, a, b) implies edge(
            to@,
            b,
            a,
        ) by {
            let j = from.keys().index_of(a);
            assert(from.keys()[j] == a);
            let list = from.vals()[j];
            let p = list.index_of(b);
            assert(list[p] == b);
            assert(edge(to@, from.vals()[j][p], from.keys()[j]));
        }
    }
    true
}

/// Whether every edge of `following` runs between two profiles.
pub fn check_edges(users: &Table<UserId, User>, following: &Table<UserId, List<UserId>>) -> (b:
    bool)
    requires
        users.wf(),
        following.wf(),
    ensures
        b == edges_among(users@, following@),
{
    let n = following.len();
    let mut i: usize = 0;
    while i < n
        invariant
            i <= n,
            n == following.keys().len(),
            users.wf(),
            following.wf(),
            forall|j: int|
                0 <= j < i && (#[trigger] following.vals()[j]).len() > 0 ==> users@.dom().contains(
                    following.keys()[j],
                ),
            forall|j: int, p: int|
                0 <= j < i && 0 <= p < following.vals()[j].len() ==> users@.dom().contains(
                    #[trigger] following.vals()[j][p],
                ),
        decreases n - i,
    {
        let a = following.key_at(i);
        let list = following.value_at(i);
        let m = list.len();
        let known = users.contains_key(a);
        let mut p: usize = 0;
        while p < m
            invariant
                p <= m,
                m == list@.len(),
                i < n,
                n == following.keys().len(),
                users.wf(),
                following.wf(),
                a@ == following.keys()[i as int],
                list@ == following.vals()[i as int],
                known == users@.dom().contains(a@),
                p > 0 ==> known,
                forall|q: int| 0 <= q < p ==> users@.dom().contains(#[trigger] list@[q]),
            decreases m - p,
        {
            let b = list.get(p);
            if !known || !users.contains_key(b) {
                proof {
                    following.rows_are_entries();
                    assert(list_of(following@, a@) == list@);
                    assert(list@[p as int] == b@);
                    assert(edge(following@, a@, b@));
                }
                return false;
            }
            p += 1;
        }
        assert forall|q: int|
            0 <= q < following.vals()[i as int].len() implies users@.dom().contains(
            #[trigger] following.vals()[i as int][q],
        ) by {
            assert(users@.dom().contains(list@[q]));
        }
        i += 1;
    }
    proof {
        following.rows_are_entries();
        assert forall|a: Seq<u8>, b: Seq<u8>| #[trigger] edge(following@, a, b) implies users@.dom().contains(
        a) && users@.dom().contains(b) by {
            let j = following.keys().index_of(a);
            assert(following.keys()[j] == a);
            let list = following.vals()[j];
            let p = list.index_of(b);
            assert(list[p] == b);
            assert(list.len() > 0);
            assert(users@.dom().contains(following.vals()[j][p]));
        }
    }
    true
}

/// The length of the list under `key`, nothing where there is none.
pub fn list_len(index: &Table<UserId, List<UserId>>, key: &UserId) -> (n: usize)
    requires
        index.wf(),
    ensures
        n == list_of(index@, key@).len(),
{
    match index.get(key) {
        Some(list) => list.len(),
        None => 0,
    }
}

/// Whether the follow counters of every profile are the lengths of its two
/// lists.
pub fn check_counts(
    users: &Table<UserId, User>,
    followers: &Table<UserId, List<UserId>>,
    following: &Table<UserId, List<UserId>>,
) -> (b: bool)
    requires
        users.wf(),
        followers.wf(),
        following.wf(),
    ensures
        b == counts_wf(users@, followers@, following@),
{
    let n = users.len();
    let mut i: usize = 0;
    while i < n
        invariant
            i <= n,
            n == users.keys().len(),
            users.wf(),
            followers.wf(),
            following.wf(),
            forall|j: int|
                0 <= j < i ==> (#[trigger] users.vals()[j]).followers_count == list_of(
                    followers@,
                    users.keys()[j],
                ).len() && users.vals()[j].following_count == list_of(
                    following@,
                    users.keys()[j],
                ).len(),
        decreases n - i,
    {
        let key = users.key_at(i);
        let user = users.value_at(i);
        let fits = user.followers_count == list_len(followers, key) as u64 && user.following_count
            == list_len(following, key) as u64;
        if !fits {
            proof {
                users.rows_are_entries();
                let k = users.keys()[i as int];
                assert(users@[k] == users.vals()[i as int]);
            }
            return false;
        }
        i += 1;
    }
    proof {
        users.rows_are_entries();
        assert forall|u: Seq<u8>| users@.dom().contains(u) implies (
        #[trigger] users@[u]).followers_count == list_of(followers@, u).len()
            && users@[u].following_count == list_of(following@, u).len() by {
            let j = users.keys().index_of(u);
            assert(users.keys()[j] == u);
            assert(users.vals()[j].followers_count == list_of(followers@, users.keys()[j]).len());
        }
    }
    true
}

impl Snapshot {
    /// Whether the snapshot is that of a consistent store, so that a store
    /// may be restored from it.
    pub fn is_valid(&self) -> (b: bool)
        ensures
            b == self.wf(),
    {
        let tables = self.users.is_wf() && self.posts.is_wf() && self.comments.is_wf()
            && self.user_posts.is_wf() && self.user_followers.is_wf() && self.user_following.is_wf()
            && self.post_comments.is_wf();
        if !tables {
            return false;
        }
        let records = check_users(&self.users) && check_posts(&self.posts) && check_comments(
            &self.comments,
        );
        if !records {
            return false;
        }
        let graph = check_lists(&self.user_following) && check_lists(&self.user_followers)
            && check_mirrored(&self.user_following, &self.user_followers) && check_mirrored(
            &self.user_followers,
            &self.user_following,
        );
        if !graph {
            return false;
        }
        check_edges(&self.users, &self.user_following) && check_counts(
            &self.users,
            &self.user_followers,
            &self.user_following,
        )
    }
}

} // verus!
