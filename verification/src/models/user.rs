//! Profiles.

use vstd::prelude::*;
use crate::identity::UserId;
use crate::collections::Dup;

verus! {

/// A profile. The counters and the balance are kept by the operations of the
/// store.
#[derive(Debug)]
pub struct User {
    pub id: UserId,
    pub username: String,
    pub bio: String,
    pub avatar_url: String,
    pub followers_count: u64,
    pub following_count: u64,
    pub posts_count: u64,
    pub balance: u64,
    pub created_at: u64,
    pub updated_at: u64,
}

/// What a profile holds.
pub struct UserView {
    pub id: Seq<u8>,
    pub username: Seq<char>,
    pub bio: Seq<char>,
    pub avatar_url: Seq<char>,
    pub followers_count: u64,
    pub following_count: u64,
    pub posts_count: u64,
    pub balance: u64,
    pub created_at: u64,
    pub updated_at: u64,
}

impl View for User {
    type V = UserView;

    open spec fn view(&self) -> UserView {
        UserView {
            id: self.id@,
            username: self.username@,
            bio: self.bio@,
            avatar_url: self.avatar_url@,
            followers_count: self.followers_count,
            following_count: self.following_count,
            posts_count: self.posts_count,
            balance: self.balance,
            created_at: self.created_at,
            updated_at: self.updated_at,
        }
    }
}

/// The profile that registration makes: no followers, nothing followed, no
/// posts, no balance.
pub open spec fn fresh_user(
    id: Seq<u8>,
    username: Seq<char>,
    bio: Seq<char>,
    avatar_url: Seq<char>,
    now: u64,
) -> UserView {
    UserView {
        id,
        username,
        bio,
        avatar_url,
        followers_count: 0,
        following_count: 0,
        posts_count: 0,
        balance: 0,
        created_at: now,
        updated_at: now,
    }
}

impl User {
    /// A new profile, made at `now`.
    pub fn new(id: UserId, username: String, bio: String, avatar_url: String, now: u64) -> (r:
        User)
        ensures
            r@ == fresh_user(id@, username@, bio@, avatar_url@, now),
    {
        User {
            id,
            username,
            bio,
            avatar_url,
            followers_count: 0,
            following_count: 0,
            posts_count: 0,
            balance: 0,
            created_at: now,
            updated_at: now,
        }
    }

    /// Rewrites the bio and the avatar, and notes when.
    pub fn update(&mut self, bio: String, avatar_url: String, now: u64)
        ensures
            final(self)@ == (UserView {
                bio: bio@,
                avatar_url: avatar_url@,
                updated_at: now,
                ..old(self)@
            }),
    {
        self.bio = bio;
        self.avatar_url = avatar_url;
        self.updated_at = now;
    }
}

impl Dup for User {
    fn dup(&self) -> (r: User) {
        User {
            id: self.id.dup(),
            username: self.username.clone(),
            bio: self.bio.clone(),
            avatar_url: self.avatar_url.clone(),
            followers_count: self.followers_count,
            following_count: self.following_count,
            posts_count: self.posts_count,
            balance: self.balance,
            created_at: self.created_at,
            updated_at: self.updated_at,
        }
    }
}

} // verus!
