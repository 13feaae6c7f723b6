//! State engine of a small social network: profiles, posts, comments, the
//! follow graph, likes, shares, a tipping ledger and a feed, kept in one
//! owned store whose counters and indexes move together.

pub mod collections;
pub mod error;
pub mod identity;
pub mod models;
pub mod services;
pub mod storage;
pub mod text;
pub mod utils;

use vstd::prelude::*;
use crate::collections::Key;
use crate::error::ServiceError;
use crate::identity::UserId;
use crate::services::post_service::{post_removed, PostService};
use crate::storage::state::State;

verus! {

/// What a store is started with.
#[derive(Debug)]
pub struct InitArgs {
    pub admin: UserId,
}

/// Makes the identity named in `args` the admin of the store.
pub fn init(state: &mut State, args: InitArgs)
    requires
        old(state).wf(),
    ensures
        final(state).wf(),
        *final(state) == (State { admin: args.admin, ..*old(state) }),
{
    state.admin = args.admin;
}

/// Removes the post `post_id` on behalf of `caller`, who must be the admin
/// of the store: anyone else is refused and the store stays as it was.
pub fn remove_post(state: &mut State, caller: UserId, post_id: String) -> (r: Result<
    (),
    ServiceError,
>)
    requires
        old(state).wf(),
    ensures
        final(state).wf(),
        caller@ != old(state).admin@ ==> r == Err::<(), ServiceError>(ServiceError::Unauthorized)
            && *final(state) == *old(state),
        caller@ == old(state).admin@ && !old(state).posts@.dom().contains(post_id@) ==> r == Err::<
            (),
            ServiceError,
        >(ServiceError::NotFound) && *final(state) == *old(state),
        caller@ == old(state).admin@ && old(state).posts@.dom().contains(post_id@) ==> r is Ok
            && post_removed(old(state), final(state), post_id@),
{
    if !caller.same(&state.admin) {
        return Err(ServiceError::Unauthorized);
    }
    PostService::remove_post(state, post_id)
}

} // verus!
