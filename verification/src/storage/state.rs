//! The store: the tables, the indexes beside them, the log of transfers and
//! the admin.

use vstd::prelude::*;
use crate::collections::{list_of, views, Dup, List, Table};
use crate::identity::UserId;
use crate::models::comment::{Comment, CommentView};
use crate::models::post::{Post, PostView};
use crate::models::user::{User, UserView};
use crate::services::payment_service::Transaction;

verus! {

/// All that the service keeps. Every operation takes the store, and either
/// applies in full or leaves it as it was.
#[derive(Debug)]
pub struct State {
    pub users: Table<UserId, User>,
    pub posts: Table<String, Post>,
    pub comments: Table<String, Comment>,
    pub user_posts: Table<UserId, List<String>>,
    pub user_followers: Table<UserId, List<UserId>>,
    pub user_following: Table<UserId, List<UserId>>,
    pub post_comments: Table<String, List<String>>,
    pub transactions: Vec<Transaction>,
    pub admin: UserId,
}

/// Whether the index `lists` has `b` in the list of `a`.
pub open spec fn edge(lists: Map<Seq<u8>, Seq<Seq<u8>>>, a: Seq<u8>, b: Seq<u8>) -> bool {
    list_of(lists, a).contains(b)
}

/// Every profile stands under its own identity.
pub open spec fn users_keyed(users: Map<Seq<u8>, UserView>) -> bool {
    forall|k: Seq<u8>| users.dom().contains(k) ==> (#[trigger] users[k]).id == k
}

/// Every post stands under its own identifier and counts its likers.
pub open spec fn posts_sound(posts: Map<Seq<char>, PostView>) -> bool {
    forall|k: Seq<char>| posts.dom().contains(k) ==> (#[trigger] posts[k]).id == k && posts[k].wf()
}

/// Every comment stands under its own identifier and counts its likers.
pub open spec fn comments_sound(comments: Map<Seq<char>, CommentView>) -> bool {
    forall|k: Seq<char>|
        comments.dom().contains(k) ==> (#[trigger] comments[k]).id == k && comments[k].wf()
}

/// No list of `lists` holds an identity twice.
pub open spec fn lists_distinct(lists: Map<Seq<u8>, Seq<Seq<u8>>>) -> bool {
    forall|a: Seq<u8>| (#[trigger] list_of(lists, a)).no_duplicates()
}

/// Every edge of `from` stands, turned round, in `to`.
pub open spec fn mirrored(
    from: Map<Seq<u8>, Seq<Seq<u8>>>,
    to: Map<Seq<u8>, Seq<Seq<u8>>>,
) -> bool {
    forall|a: Seq<u8>, b: Seq<u8>| #[trigger] edge(from, a, b) ==> edge(to, b, a)
}

/// The two follow indexes record the same edges, each once.
pub open spec fn graph_wf(
    followers: Map<Seq<u8>, Seq<Seq<u8>>>,
    following: Map<Seq<u8>, Seq<Seq<u8>>>,
) -> bool {
    &&& mirrored(following, followers)
    &&& mirrored(followers, following)
    &&& lists_distinct(following)
    &&& lists_distinct(followers)
}

/// Every edge runs between two profiles.
pub open spec fn edges_among(
    users: Map<Seq<u8>, UserView>,
    following: Map<Seq<u8>, Seq<Seq<u8>>>,
) -> bool {
    forall|a: Seq<u8>, b: Seq<u8>| #[trigger]
        edge(following, a, b) ==> users.dom().contains(a) && users.dom().contains(b)
}

/// A list in which nothing stands is empty.
pub proof fn lemma_no_edge_no_list(lists: Map<Seq<u8>, Seq<Seq<u8>>>, a: Seq<u8>)
    requires
        forall|b: Seq<u8>| !edge(lists, a, b),
    ensures
        list_of(lists, a).len() == 0,
{
    if list_of(lists, a).len() > 0 {
        assert(edge(lists, a, list_of(lists, a)[0]));
    }
}

/// The follow counters of every profile are the lengths of its two lists.
pub open spec fn counts_wf(
    users: Map<Seq<u8>, UserView>,
    followers: Map<Seq<u8>, Seq<Seq<u8>>>,
    following: Map<Seq<u8>, Seq<Seq<u8>>>,
) -> bool {
    forall|u: Seq<u8>|
        users.dom().contains(u) ==> (#[trigger] users[u]).followers_count == list_of(
            followers,
            u,
        ).len() && users[u].following_count == list_of(following, u).len()
}

/// Every record stands under its own identifier, and every like counter is
/// the number of distinct likers.
pub open spec fn records_wf(
    users: Map<Seq<u8>, UserView>,
    posts: Map<Seq<char>, PostView>,
    comments: Map<Seq<char>, CommentView>,
) -> bool {
    &&& users_keyed(users)
    &&& posts_sound(posts)
    &&& comments_sound(comments)
}

/// The two follow indexes record the same edges, each once and between
/// profiles, and the counters of every profile are the lengths of its two
/// lists.
pub open spec fn follows_wf(
    users: Map<Seq<u8>, UserView>,
    followers: Map<Seq<u8>, Seq<Seq<u8>>>,
    following: Map<Seq<u8>, Seq<Seq<u8>>>,
) -> bool {
    &&& graph_wf(followers, following)
    &&& edges_among(users, following)
    &&& counts_wf(users, followers, following)
}

/// In a consistent store the like counter of every post and of every comment
/// is the number of those who like it, each counted once.
pub proof fn lemma_likes_counted(state: &State)
    requires
        state.wf(),
    ensures
        forall|id: Seq<char>|
            state.posts@.dom().contains(id) ==> (#[trigger] state.posts@[id]).likes_count
                == state.posts@[id].likes.to_set().len(),
        forall|id: Seq<char>|
            state.comments@.dom().contains(id) ==> (#[trigger] state.comments@[id]).likes_count
                == state.comments@[id].likes.to_set().len(),
{
    assert forall|id: Seq<char>| state.posts@.dom().contains(id) implies (
    #[trigger] state.posts@[id]).likes_count == state.posts@[id].likes.to_set().len() by {
        state.posts@[id].likes.unique_seq_to_set();
    }
    assert forall|id: Seq<char>| state.comments@.dom().contains(id) implies (
    #[trigger] state.comments@[id]).likes_count == state.comments@[id].likes.to_set().len() by {
        state.comments@[id].likes.unique_seq_to_set();
    }
}

/// In a consistent store the two follow counters of every profile are the
/// numbers of those who follow it and of those whom it follows, each counted
/// once, and the two indexes record the same followings.
pub proof fn lemma_follows_counted(state: &State, u: Seq<u8>)
    requires
        state.wf(),
        state.users@.dom().contains(u),
    ensures
        state.users@[u].followers_count == state.followers_of(u).to_set().len(),
        state.users@[u].following_count == state.following_of(u).to_set().len(),
        state.followers_of(u).to_set() == Set::new(|a: Seq<u8>| state.follows(a, u)),
        state.following_of(u).to_set() == Set::new(|b: Seq<u8>| state.followed_by(b, u)),
{
    state.followers_of(u).unique_seq_to_set();
    state.following_of(u).unique_seq_to_set();
    assert(state.users@[u].followers_count == state.followers_of(u).len());
    assert forall|a: Seq<u8>| state.followers_of(u).to_set().contains(a) == state.follows(a, u) by {
        assert(edge(state.user_following@, a, u) == edge(state.user_followers@, u, a));
    }
    assert(state.followers_of(u).to_set() =~= Set::new(|a: Seq<u8>| state.follows(a, u)));
    assert forall|b: Seq<u8>| state.following_of(u).to_set().contains(b) == state.followed_by(
        b,
        u,
    ) by {
        assert(edge(state.user_following@, u, b) == edge(state.user_followers@, b, u));
    }
    assert(state.following_of(u).to_set() =~= Set::new(|b: Seq<u8>| state.followed_by(b, u)));
}

/// All of a store but its log of transfers, to be kept over a restart.
#[derive(Debug)]
pub struct Snapshot {
    pub users: Table<UserId, User>,
    pub posts: Table<String, Post>,
    pub comments: Table<String, Comment>,
    pub user_posts: Table<UserId, List<String>>,
    pub user_followers: Table<UserId, List<UserId>>,
    pub user_following: Table<UserId, List<UserId>>,
    pub post_comments: Table<String, List<String>>,
    pub admin: UserId,
}

impl Snapshot {
    /// The snapshot is that of a consistent store.
    pub open spec fn wf(&self) -> bool {
        &&& self.users.wf()
        &&& self.posts.wf()
        &&& self.comments.wf()
        &&& self.user_posts.wf()
        &&& self.user_followers.wf()
        &&& self.user_following.wf()
        &&& self.post_comments.wf()
        &&& records_wf(self.users@, self.posts@, self.comments@)
        &&& follows_wf(self.users@, self.user_followers@, self.user_following@)
    }

    /// Whether the snapshot holds the tables, the indexes and the admin of
    /// `state`, row for row.
    pub open spec fn is_of(&self, state: &State) -> bool {
        &&& self.users.keys() == state.users.keys()
        &&& self.users.vals() == state.users.vals()
        &&& self.posts.keys() == state.posts.keys()
        &&& self.posts.vals() == state.posts.vals()
        &&& self.comments.keys() == state.comments.keys()
        &&& self.comments.vals() == state.comments.vals()
        &&& self.user_posts.keys() == state.user_posts.keys()
        &&& self.user_posts.vals() == state.user_posts.vals()
        &&& self.user_followers.keys() == state.user_followers.keys()
        &&& self.user_followers.vals() == state.user_followers.vals()
        &&& self.user_following.keys() == state.user_following.keys()
        &&& self.user_following.vals() == state.user_following.vals()
        &&& self.post_comments.keys() == state.post_comments.keys()
        &&& self.post_comments.vals() == state.post_comments.vals()
        &&& self.admin@ == state.admin@
    }
}

impl State {
    /// Those who follow `u`, in the order in which they began to.
    pub open spec fn followers_of(&self, u: Seq<u8>) -> Seq<Seq<u8>> {
        list_of(self.user_followers@, u)
    }

    /// Those whom `u` follows, in the order in which `u` began to.
    pub open spec fn following_of(&self, u: Seq<u8>) -> Seq<Seq<u8>> {
        list_of(self.user_following@, u)
    }

    /// The identifiers of the posts of `u`, oldest first.
    pub open spec fn posts_of(&self, u: Seq<u8>) -> Seq<Seq<char>> {
        list_of(self.user_posts@, u)
    }

    /// The identifiers of the comments on `post`, oldest first.
    pub open spec fn comments_of(&self, post: Seq<char>) -> Seq<Seq<char>> {
        list_of(self.post_comments@, post)
    }

    /// Whether `a` is recorded as following `b`.
    pub open spec fn follows(&self, a: Seq<u8>, b: Seq<u8>) -> bool {
        edge(self.user_following@, a, b)
    }

    /// Whether `b` has `a` recorded as a follower.
    pub open spec fn followed_by(&self, b: Seq<u8>, a: Seq<u8>) -> bool {
        edge(self.user_followers@, b, a)
    }

    /// The balance of `u`: nothing where `u` has no profile.
    pub open spec fn balance_of(&self, u: Seq<u8>) -> u64 {
        if self.users@.dom().contains(u) {
            self.users@[u].balance
        } else {
            0
        }
    }

    /// No table holds a key twice.
    pub open spec fn tables_wf(&self) -> bool {
        &&& self.users.wf()
        &&& self.posts.wf()
        &&& self.comments.wf()
        &&& self.user_posts.wf()
        &&& self.user_followers.wf()
        &&& self.user_following.wf()
        &&& self.post_comments.wf()
    }

    /// The store is consistent: no table holds a key twice, every record
    /// stands under its own identifier, every like counter is the number of
    /// distinct likers, and the follow graph agrees with itself and with the
    /// counters of the profiles.
    pub open spec fn wf(&self) -> bool {
        &&& self.tables_wf()
        &&& records_wf(self.users@, self.posts@, self.comments@)
        &&& follows_wf(self.users@, self.user_followers@, self.user_following@)
    }

    /// A snapshot of the store.
    pub fn export(&self) -> (snapshot: Snapshot)
        ensures
            snapshot.is_of(self),
            self.wf() ==> snapshot.wf(),
    {
        Snapshot {
            users: self.users.copy(),
            posts: self.posts.copy(),
            comments: self.comments.copy(),
            user_posts: self.user_posts.copy(),
            user_followers: self.user_followers.copy(),
            user_following: self.user_following.copy(),
            post_comments: self.post_comments.copy(),
            admin: self.admin.dup(),
        }
    }

    /// Puts the tables, the indexes and the admin of `snapshot` in the place
    /// of those of the store. The log of transfers stays.
    pub fn restore(&mut self, snapshot: Snapshot)
        requires
            snapshot.wf(),
        ensures
            final(self).wf(),
            *final(self) == (State {
                users: snapshot.users,
                posts: snapshot.posts,
                comments: snapshot.comments,
                user_posts: snapshot.user_posts,
                user_followers: snapshot.user_followers,
                user_following: snapshot.user_following,
                post_comments: snapshot.post_comments,
                transactions: old(self).transactions,
                admin: snapshot.admin,
            }),
    {
        self.users = snapshot.users;
        self.posts = snapshot.posts;
        self.comments = snapshot.comments;
        self.user_posts = snapshot.user_posts;
        self.user_followers = snapshot.user_followers;
        self.user_following = snapshot.user_following;
        self.post_comments = snapshot.post_comments;
        self.admin = snapshot.admin;
    }

    /// An empty store with `admin` as its admin.
    pub fn new(admin: UserId) -> (r: State)
        ensures
            r.wf(),
            r.admin@ == admin@,
            r.users@ == Map::<Seq<u8>, crate::models::user::UserView>::empty(),
            r.posts@ == Map::<Seq<char>, crate::models::post::PostView>::empty(),
            r.comments@ == Map::<Seq<char>, crate::models::comment::CommentView>::empty(),
            r.user_posts@ == Map::<Seq<u8>, Seq<Seq<char>>>::empty(),
            r.user_followers@ == Map::<Seq<u8>, Seq<Seq<u8>>>::empty(),
            r.user_following@ == Map::<Seq<u8>, Seq<Seq<u8>>>::empty(),
            r.post_comments@ == Map::<Seq<char>, Seq<Seq<char>>>::empty(),
            views(r.transactions@) == Seq::<crate::services::payment_service::TransactionView>::empty(),
    {
        let r = State {
            users: Table::new(),
            posts: Table::new(),
            comments: Table::new(),
            user_posts: Table::new(),
            user_followers: Table::new(),
            user_following: Table::new(),
            post_comments: Table::new(),
            transactions: Vec::new(),
            admin,
        };
        assert(views(r.transactions@) =~= Seq::empty());
        r
    }
}

} // verus!
