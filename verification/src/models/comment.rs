//! Comments on posts.

use vstd::prelude::*;
use vstd::string::StringExecFns;
use crate::collections::{lemma_push, lemma_without, without, Dup, List};
use crate::identity::{principal_text, UserId};
use crate::text::{decimal, decimal_string};

verus! {

/// A comment on the post `post_id`.
#[derive(Debug)]
pub struct Comment {
    pub id: String,
    pub post_id: String,
    pub author: UserId,
    pub content: String,
    pub likes: List<UserId>,
    pub likes_count: u64,
    pub created_at: u64,
}

/// What a comment holds. `likes` has each liker once, in the order of the
/// likes.
pub struct CommentView {
    pub id: Seq<char>,
    pub post_id: Seq<char>,
    pub author: Seq<u8>,
    pub content: Seq<char>,
    pub likes: Seq<Seq<u8>>,
    pub likes_count: u64,
    pub created_at: u64,
}

/// The identifier of a comment on `post_id` made at `now` by the author
/// whose identity has the text `author`.
pub open spec fn comment_id_of(post_id: Seq<char>, author: Seq<char>, now: u64) -> Seq<char> {
    "comment_"@ + post_id + "_"@ + author + "_"@ + decimal(now as nat)
}

/// The identifier of a comment by `author` on `post_id`, made at `now`.
pub open spec fn comment_id(post_id: Seq<char>, author: Seq<u8>, now: u64) -> Seq<char> {
    comment_id_of(post_id, principal_text(author), now)
}

/// The identifier of a comment on `post_id` made at `now` by the author
/// whose identity has the text `author`.
pub fn comment_id_for(post_id: &str, author: &str, now: u64) -> (id: String)
    ensures
        id@ == comment_id_of(post_id@, author@, now),
{
    let mut id = "comment_".to_owned();
    id.append(post_id);
    id.append("_");
    id.append(author);
    id.append("_");
    let stamp = decimal_string(now);
    id.append(stamp.as_str());
    id
}

/// The comment that `author` makes on `post_id` at `now`.
pub open spec fn fresh_comment(
    post_id: Seq<char>,
    author: Seq<u8>,
    content: Seq<char>,
    now: u64,
) -> CommentView {
    CommentView {
        id: comment_id(post_id, author, now),
        post_id,
        author,
        content,
        likes: Seq::empty(),
        likes_count: 0,
        created_at: now,
    }
}

impl CommentView {
    /// Nobody likes the comment twice, and the counter is the number of
    /// likers.
    pub open spec fn wf(self) -> bool {
        &&& self.likes.no_duplicates()
        &&& self.likes_count == self.likes.len()
    }

    /// The comment after `user` liked it.
    pub open spec fn liked_by(self, user: Seq<u8>) -> CommentView {
        CommentView {
            likes: self.likes.push(user),
            likes_count: (self.likes_count + 1) as u64,
            ..self
        }
    }

    /// The comment after `user` took the like back.
    pub open spec fn unliked_by(self, user: Seq<u8>) -> CommentView {
        CommentView {
            likes: without(self.likes, user),
            likes_count: if self.likes_count > 0 {
                (self.likes_count - 1) as u64
            } else {
                0
            },
            ..self
        }
    }
}

impl View for Comment {
    type V = CommentView;

    open spec fn view(&self) -> CommentView {
        CommentView {
            id: self.id@,
            post_id: self.post_id@,
            author: self.author@,
            content: self.content@,
            likes: self.likes@,
            likes_count: self.likes_count,
            created_at: self.created_at,
        }
    }
}

impl Comment {
    /// A new comment by `author` on the post `post_id`, made at `now`.
    pub fn new(post_id: String, author: UserId, content: String, now: u64) -> (r: Comment)
        ensures
            r@ == fresh_comment(post_id@, author@, content@, now),
            r@.wf(),
    {
        let text = author.to_text();
        let id = comment_id_for(post_id.as_str(), text.as_str(), now);
        Comment {
            id,
            post_id,
            author,
            content,
            likes: List::new(),
            likes_count: 0,
            created_at: now,
        }
    }

    /// Records that `user_id` likes the comment, unless they do already.
    /// Returns whether the like is new.
    pub fn add_like(&mut self, user_id: UserId) -> (added: bool)
        requires
            old(self)@.wf(),
        ensures
            final(self)@.wf(),
            added == !old(self)@.likes.contains(user_id@),
            added ==> final(self)@ == old(self)@.liked_by(user_id@),
            !added ==> final(self)@ == old(self)@,
    {
        if self.likes.contains(&user_id) {
            false
        } else {
            proof {
                lemma_push(self.likes@, user_id@);
            }
            self.likes.push(user_id);
            let n = self.likes.len();
            assert(self.likes_count + 1 == n);
            self.likes_count = self.likes_count + 1;
            true
        }
    }

    /// Takes back the like of `user_id`, if there is one. Returns whether
    /// there was.
    pub fn remove_like(&mut self, user_id: UserId) -> (removed: bool)
        requires
            old(self)@.wf(),
        ensures
            final(self)@.wf(),
            removed == old(self)@.likes.contains(user_id@),
            removed ==> final(self)@ == old(self)@.unliked_by(user_id@),
            !removed ==> final(self)@ == old(self)@,
    {
        match self.likes.position(&user_id) {
            Some(i) => {
                proof {
                    lemma_without(self.likes@, user_id@, i as int);
                }
                let _gone = self.likes.remove(i);
                self.likes_count = self.likes_count.saturating_sub(1);
                true
            },
            None => false,
        }
    }
}

impl Dup for Comment {
    fn dup(&self) -> (r: Comment) {
        Comment {
            id: self.id.clone(),
            post_id: self.post_id.clone(),
            author: self.author.dup(),
            content: self.content.clone(),
            likes: self.likes.dup(),
            likes_count: self.likes_count,
            created_at: self.created_at,
        }
    }
}

} // verus!
