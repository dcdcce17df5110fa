//! Users, the current user, and presences.
//!
//! A [`User`] stored in the cache's canonical user table is the single shared
//! representation of that account; member records and group recipients refer
//! to it by identifier. Message authors are the deliberate exception: they are
//! frozen snapshots taken at send time (see the message module).

use vstd::prelude::*;

verus! {

use crate::id::UserId;

/// A platform account, as mirrored by the cache.
pub struct User {
    /// The account's identifier.
    pub id: UserId,
    /// The account's display name.
    pub name: String,
    /// The account's discriminator tag.
    pub discriminator: u16,
    /// Whether the account is a bot.
    pub bot: bool,
    /// The account's avatar hash, when one is set.
    pub avatar: Option<String>,
}

impl View for User {
    type V = User;

    open spec fn view(&self) -> User {
        *self
    }
}

impl Clone for User {
    fn clone(&self) -> (r: Self)
        ensures
            r == *self,
    {
        User {
            id: self.id,
            name: self.name.clone(),
            discriminator: self.discriminator,
            bot: self.bot,
            avatar: match &self.avatar {
                Some(a) => Some(a.clone()),
                None => None,
            },
        }
    }
}

/// The account this cache receives events for.
///
/// Unlike a plain [`User`], the current user carries fields that only the
/// session owner can see.
pub struct CurrentUser {
    /// The account's identifier.
    pub id: UserId,
    /// The account's display name.
    pub name: String,
    /// Whether the account is a bot.
    pub bot: bool,
    /// Whether the account's email address has been verified.
    pub verified: bool,
}

impl View for CurrentUser {
    type V = CurrentUser;

    open spec fn view(&self) -> CurrentUser {
        *self
    }
}

impl Clone for CurrentUser {
    fn clone(&self) -> (r: Self)
        ensures
            r == *self,
    {
        CurrentUser { id: self.id, name: self.name.clone(), bot: self.bot, verified: self.verified }
    }
}

impl Default for CurrentUser {
    fn default() -> (r: Self)
        ensures
            r.id == UserId(0),
            r.name@ == Seq::<char>::empty(),
            !r.bot,
            !r.verified,
    {
        CurrentUser { id: UserId(0), name: String::new(), bot: false, verified: false }
    }
}

/// An online status carried by a presence.
#[derive(Clone, Copy, Debug, PartialEq, Eq, Hash, Structural)]
pub enum OnlineStatus {
    DoNotDisturb,
    Idle,
    Invisible,
    Offline,
    Online,
}

/// A user's online-status and activity snapshot.
///
/// Presences carry no history: each update replaces the previous snapshot
/// wholesale.
pub struct Presence {
    /// The user the presence belongs to.
    pub user_id: UserId,
    /// The user's current status.
    pub status: OnlineStatus,
    /// The name of the user's current activity, when one is set.
    pub activity: Option<String>,
}

impl View for Presence {
    type V = Presence;

    open spec fn view(&self) -> Presence {
        *self
    }
}

impl Clone for Presence {
    fn clone(&self) -> (r: Self)
        ensures
            r == *self,
    {
        Presence {
            user_id: self.user_id,
            status: self.status,
            activity: match &self.activity {
                Some(a) => Some(a.clone()),
                None => None,
            },
        }
    }
}

} // verus!
