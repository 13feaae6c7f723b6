//! Posts and shares.

use vstd::prelude::*;
use vstd::string::StringExecFns;
use crate::collections::{lemma_push, lemma_without, without, Dup, List};
use crate::identity::{principal_text, UserId};
use crate::text::{decimal, decimal_string, dup_text, text_of};

verus! {

/// A post, or the share of one.
#[derive(Debug)]
pub struct Post {
    pub id: String,
    pub author: UserId,
    pub content: String,
    pub media_url: Option<String>,
    pub likes: List<UserId>,
    pub likes_count: u64,
    pub comments_count: u64,
    pub shares_count: u64,
    pub is_shared: bool,
    pub original_post_id: Option<String>,
    pub share_comment: Option<String>,
    pub created_at: u64,
    pub updated_at: u64,
}

/// What a post holds. `likes` has each liker once, in the order of the likes.
pub struct PostView {
    pub id: Seq<char>,
    pub author: Seq<u8>,
    pub content: Seq<char>,
    pub media_url: Option<Seq<char>>,
    pub likes: Seq<Seq<u8>>,
    pub likes_count: u64,
    pub comments_count: u64,
    pub shares_count: u64,
    pub is_shared: bool,
    pub original_post_id: Option<Seq<char>>,
    pub share_comment: Option<Seq<char>>,
    pub created_at: u64,
    pub updated_at: u64,
}

/// The identifier of a post made at `now` by the author whose identity has
/// the text `author`.
pub open spec fn post_id_of(author: Seq<char>, now: u64) -> Seq<char> {
    author + "_"@ + decimal(now as nat)
}

/// The identifier of a share made at `now` by the author whose identity has
/// the text `author`.
pub open spec fn share_id_of(author: Seq<char>, now: u64) -> Seq<char> {
    "share_"@ + author + "_"@ + decimal(now as nat)
}

/// The identifier of a post by `author` made at `now`.
pub open spec fn post_id(author: Seq<u8>, now: u64) -> Seq<char> {
    post_id_of(principal_text(author), now)
}

/// The identifier of a share by `author` made at `now`.
pub open spec fn share_id(author: Seq<u8>, now: u64) -> Seq<char> {
    share_id_of(principal_text(author), now)
}

/// The identifier of a post made at `now` by the author whose identity has
/// the text `author`.
pub fn post_id_for(author: &str, now: u64) -> (id: String)
    ensures
        id@ == post_id_of(author@, now),
{
    let mut id = author.to_owned();
    id.append("_");
    let stamp = decimal_string(now);
    id.append(stamp.as_str());
    id
}

/// The identifier of a share made at `now` by the author whose identity has
/// the text `author`.
pub fn share_id_for(author: &str, now: u64) -> (id: String)
    ensures
        id@ == share_id_of(author@, now),
{
    let mut id = "share_".to_owned();
    id.append(author);
    id.append("_");
    let stamp = decimal_string(now);
    id.append(stamp.as_str());
    id
}

/// The post that `author` makes at `now`.
pub open spec fn fresh_post(
    author: Seq<u8>,
    content: Seq<char>,
    media_url: Option<Seq<char>>,
    now: u64,
) -> PostView {
    PostView {
        id: post_id(author, now),
        author,
        content,
        media_url,
        likes: Seq::empty(),
        likes_count: 0,
        comments_count: 0,
        shares_count: 0,
        is_shared: false,
        original_post_id: None,
        share_comment: None,
        created_at: now,
        updated_at: now,
    }
}

/// The share of `original` that `author` makes at `now`.
pub open spec fn fresh_share(
    author: Seq<u8>,
    original: Seq<char>,
    comment: Option<Seq<char>>,
    now: u64,
) -> PostView {
    PostView {
        id: share_id(author, now),
        author,
        content: Seq::empty(),
        media_url: None,
        likes: Seq::empty(),
        likes_count: 0,
        comments_count: 0,
        shares_count: 0,
        is_shared: true,
        original_post_id: Some(original),
        share_comment: comment,
        created_at: now,
        updated_at: now,
    }
}

impl PostView {
    /// Nobody likes the post twice, and the counter is the number of likers.
    pub open spec fn wf(self) -> bool {
        &&& self.likes.no_duplicates()
        &&& self.likes_count == self.likes.len()
    }

    /// The post after `user` liked it.
    pub open spec fn liked_by(self, user: Seq<u8>) -> PostView {
        PostView {
            likes: self.likes.push(user),
            likes_count: (self.likes_count + 1) as u64,
            ..self
        }
    }

    /// The post after `user` took the like back.
    pub open spec fn unliked_by(self, user: Seq<u8>) -> PostView {
        PostView {
            likes: without(self.likes, user),
            likes_count: if self.likes_count > 0 {
                (self.likes_count - 1) as u64
            } else {
                0
            },
            ..self
        }
    }
}

impl View for Post {
    type V = PostView;

    open spec fn view(&self) -> PostView {
        PostView {
            id: self.id@,
            author: self.author@,
            content: self.content@,
            media_url: text_of(self.media_url),
            likes: self.likes@,
            likes_count: self.likes_count,
            comments_count: self.comments_count,
            shares_count: self.shares_count,
            is_shared: self.is_shared,
            original_post_id: text_of(self.original_post_id),
            share_comment: text_of(self.share_comment),
            created_at: self.created_at,
            updated_at: self.updated_at,
        }
    }
}

impl Post {
    /// A new post by `author`, made at `now`.
    pub fn new(author: UserId, content: String, media_url: Option<String>, now: u64) -> (r: Post)
        ensures
            r@ == fresh_post(author@, content@, text_of(media_url), now),
            r@.wf(),
    {
        let text = author.to_text();
        let id = post_id_for(text.as_str(), now);
        Post {
            id,
            author,
            content,
            media_url,
            likes: List::new(),
            likes_count: 0,
            comments_count: 0,
            shares_count: 0,
            is_shared: false,
            original_post_id: None,
            share_comment: None,
            created_at: now,
            updated_at: now,
        }
    }

    /// A share of the post `original_post_id` by `author`, made at `now`.
    pub fn new_share(
        author: UserId,
        original_post_id: String,
        comment: Option<String>,
        now: u64,
    ) -> (r: Post)
        ensures
            r@ == fresh_share(author@, original_post_id@, text_of(comment), now),
            r@.wf(),
    {
        let text = author.to_text();
        let id = share_id_for(text.as_str(), now);
        let content = String::new();
        Post {
            id,
            author,
            content,
            media_url: None,
            likes: List::new(),
            likes_count: 0,
            comments_count: 0,
            shares_count: 0,
            is_shared: true,
            original_post_id: Some(original_post_id),
            share_comment: comment,
            created_at: now,
            updated_at: now,
        }
    }

    /// Records that `user_id` likes the post, unless they do already.
    /// Returns whether the like is new.
    pub fn add_like(&mut self, user_id: UserId) -> (added: bool)
        requires
            old(self)@.wf(),
        ensures
            final(self)@.wf(),
            added == !old(self)@.likes.contains(user_id@),
            added ==> final(self)@ == old(self)@.liked_by(user_id@),
            !added ==> final(self)@ == old(self)@,
    {
        if self.likes.contains(&user_id) {
            false
        } else {
            proof {
                lemma_push(self.likes@, user_id@);
            }
            self.likes.push(user_id);
            let n = self.likes.len();
            assert(self.likes_count + 1 == n);
            self.likes_count = self.likes_count + 1;
            true
        }
    }

    /// Takes back the like of `user_id`, if there is one. Returns whether
    /// there was.
    pub fn remove_like(&mut self, user_id: UserId) -> (removed: bool)
        requires
            old(self)@.wf(),
        ensures
            final(self)@.wf(),
            removed == old(self)@.likes.contains(user_id@),
            removed ==> final(self)@ == old(self)@.unliked_by(user_id@),
            !removed ==> final(self)@ == old(self)@,
    {
        match self.likes.position(&user_id) {
            Some(i) => {
                proof {
                    lemma_without(self.likes@, user_id@, i as int);
                }
                let _gone = self.likes.remove(i);
                self.likes_count = self.likes_count.saturating_sub(1);
                true
            },
            None => false,
        }
    }
}

impl Dup for Post {
    fn dup(&self) -> (r: Post) {
        Post {
            id: self.id.clone(),
            author: self.author.dup(),
            content: self.content.clone(),
            media_url: dup_text(&self.media_url),
            likes: self.likes.dup(),
            likes_count: self.likes_count,
            comments_count: self.comments_count,
            shares_count: self.shares_count,
            is_shared: self.is_shared,
            original_post_id: dup_text(&self.original_post_id),
            share_comment: dup_text(&self.share_comment),
            created_at: self.created_at,
            updated_at: self.updated_at,
        }
    }
}

} // verus!
