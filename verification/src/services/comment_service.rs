//! Comments: their making, listing and liking.

use vstd::prelude::*;
use crate::collections::{found, views, Dup, Table};
use crate::error::ServiceError;
use crate::identity::{anonymous_bytes, UserId};
use crate::models::comment::{fresh_comment, Comment, CommentView};
use crate::models::post::PostView;
use crate::storage::state::State;
use crate::text::{blank, is_blank};

verus! {

/// The operations on comments.
pub struct CommentService;

/// Why `author` may not comment on the post `post_id`, if so, given
/// whether the content is blank. The checks are made in this order.
pub open spec fn comment_verdict(
    state: &State,
    author: Seq<u8>,
    post_id: Seq<char>,
    blank: bool,
) -> Option<ServiceError> {
    if author == anonymous_bytes() {
        Some(ServiceError::Unauthenticated)
    } else if blank {
        Some(ServiceError::InvalidInput)
    } else if !state.posts@.dom().contains(post_id) {
        Some(ServiceError::NotFound)
    } else {
        None
    }
}

/// Why `caller` may not comment on the post `post_id` with `content`, if
/// so.
pub open spec fn comment_error(
    state: &State,
    caller: Seq<u8>,
    post_id: Seq<char>,
    content: Seq<char>,
) -> Option<ServiceError> {
    comment_verdict(state, caller, post_id, is_blank(content))
}

/// Whether `after` is `before` with `comment` filed: the record stands
/// under its identifier, the list of its post in the index of comments ends
/// with the identifier, and the post counts one comment more.
pub open spec fn comment_filed(before: &State, after: &State, comment: CommentView) -> bool {
    &&& *after == (State {
        posts: after.posts,
        comments: after.comments,
        post_comments: after.post_comments,
        ..*before
    })
    &&& after.comments.is_put(&before.comments, comment.id, comment)
    &&& after.post_comments.is_put(
        &before.post_comments,
        comment.post_id,
        before.comments_of(comment.post_id).push(comment.id),
    )
    &&& after.posts.keys() == before.posts.keys()
    &&& after.posts@ == before.posts@.insert(
        comment.post_id,
        with_comment_counted(before.posts@[comment.post_id]),
    )
}

/// Why `user` may not like the comment `id`, if so.
pub open spec fn comment_like_error(
    comments: Map<Seq<char>, CommentView>,
    user: Seq<u8>,
    id: Seq<char>,
) -> Option<ServiceError> {
    if !comments.dom().contains(id) {
        Some(ServiceError::NotFound)
    } else if comments[id].likes.contains(user) {
        Some(ServiceError::Conflict)
    } else {
        None
    }
}

/// The post `p` with one comment more.
pub open spec fn with_comment_counted(p: PostView) -> PostView {
    PostView { comments_count: (p.comments_count + 1) as u64, ..p }
}

impl CommentService {
    /// Puts `comment` on its post, given whether its content is blank.
    ///
    /// Nobody likes the comment twice, its like counter is the number of its
    /// likers, and the comment counter of the post has room for one more.
    pub fn attach(state: &mut State, comment: Comment, blank: bool) -> (r: Result<
        (),
        ServiceError,
    >)
        requires
            old(state).wf(),
            comment@.wf(),
            old(state).posts@.dom().contains(comment@.post_id) ==> old(
                state,
            ).posts@[comment@.post_id].comments_count < u64::MAX,
        ensures
            final(state).wf(),
            match comment_verdict(old(state), comment@.author, comment@.post_id, blank) {
                Some(e) => r == Err::<(), ServiceError>(e) && *final(state) == *old(state),
                None => r is Ok && comment_filed(old(state), final(state), comment@),
            },
    {
        if comment.author.is_anonymous() {
            return Err(ServiceError::Unauthenticated);
        }
        if blank {
            return Err(ServiceError::InvalidInput);
        }
        let row = match state.posts.find(&comment.post_id) {
            Some(row) => row,
            None => {
                return Err(ServiceError::NotFound);
            },
        };
        let id = comment.id.clone();
        let post_id = comment.post_id.clone();
        state.comments.insert(comment.id.clone(), comment);
        let _n = state.post_comments.append_to(post_id, id);
        let post = state.posts.value_at_mut(row);
        post.comments_count = post.comments_count + 1;
        Ok(())
    }

    /// Makes a comment by `caller` on the post `post_id`.
    ///
    /// The comment counter of the post must have room for one more.
    pub fn create_comment(
        state: &mut State,
        caller: UserId,
        post_id: String,
        content: String,
        now: u64,
    ) -> (r: Result<Comment, ServiceError>)
        requires
            old(state).wf(),
            old(state).posts@.dom().contains(post_id@) ==> old(
                state,
            ).posts@[post_id@].comments_count < u64::MAX,
        ensures
            final(state).wf(),
            match comment_error(old(state), caller@, post_id@, content@) {
                Some(e) => r == Err::<Comment, ServiceError>(e) && *final(state) == *old(state),
                None => {
                    &&& r is Ok
                    &&& r->Ok_0@ == fresh_comment(post_id@, caller@, content@, now)
                    &&& comment_filed(old(state), final(state), r->Ok_0@)
                },
            },
    {
        let is_blank = blank(content.as_str());
        let comment = Comment::new(post_id, caller, content, now);
        let copy = comment.dup();
        match Self::attach(state, comment, is_blank) {
            Ok(()) => Ok(copy),
            Err(e) => Err(e),
        }
    }

    /// The comments on the post `post_id`, oldest first. An identifier of
    /// the index under which no comment stands is passed over.
    pub fn get_post_comments(state: &State, post_id: String) -> (r: Vec<Comment>)
        requires
            state.wf(),
        ensures
            views(r@) == found(state.comments@, state.comments_of(post_id@)),
    {
        let mut comments: Vec<Comment> = Vec::new();
        assert(views(comments@) =~= Seq::<CommentView>::empty());
        match state.post_comments.get(&post_id) {
            Some(ids) => {
                state.comments.collect(ids, &mut comments);
                assert(views(comments@) =~= found(state.comments@, ids@));
            },
            None => {},
        }
        comments
    }

    /// Records that `caller` likes the comment `comment_id`.
    pub fn like_comment(state: &mut State, caller: UserId, comment_id: String) -> (r: Result<
        (),
        ServiceError,
    >)
        requires
            old(state).wf(),
        ensures
            final(state).wf(),
            match comment_like_error(old(state).comments@, caller@, comment_id@) {
                Some(e) => r == Err::<(), ServiceError>(e) && *final(state) == *old(state),
                None => {
                    &&& r is Ok
                    &&& *final(state) == (State { comments: final(state).comments, ..*old(state) })
                    &&& final(state).comments.keys() == old(state).comments.keys()
                    &&& final(state).comments@ == old(state).comments@.insert(
                        comment_id@,
                        old(state).comments@[comment_id@].liked_by(caller@),
                    )
                },
            },
    {
        match state.comments.find(&comment_id) {
            Some(row) => {
                if state.comments.value_at(row).likes.contains(&caller) {
                    return Err(ServiceError::Conflict);
                }
                let comment = state.comments.value_at_mut(row);
                let _added = comment.add_like(caller);
                Ok(())
            },
            None => Err(ServiceError::NotFound),
        }
    }
}

} // verus!
