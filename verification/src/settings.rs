//! Cache policy.
//!
//! All tunables of the store live behind this object, so the store's logic
//! never hardcodes policy.

use vstd::prelude::*;

verus! {

/// Policy settings for the cache.
pub struct Settings {
    /// The most messages the cache keeps per channel. Zero disables message
    /// caching entirely: no message is ever stored.
    pub max_messages: usize,
    /// Whether member-chunk deliveries may add users the store has never
    /// observed to the canonical user table. When off, a chunk only
    /// refreshes records that already exist.
    pub cache_all_unknown_users: bool,
}

impl View for Settings {
    type V = Settings;

    open spec fn view(&self) -> Settings {
        *self
    }
}

impl Clone for Settings {
    fn clone(&self) -> (r: Self)
        ensures
            r == *self,
    {
        Settings {
            max_messages: self.max_messages,
            cache_all_unknown_users: self.cache_all_unknown_users,
        }
    }
}

impl Default for Settings {
    /// By default no messages are cached, and chunked users are all cached.
    fn default() -> (r: Self)
        ensures
            r.max_messages == 0,
            r.cache_all_unknown_users,
    {
        Settings { max_messages: 0, cache_all_unknown_users: true }
    }
}

impl Settings {
    /// A settings object with the default policy.
    pub fn new() -> (r: Self)
        ensures
            r.max_messages == 0,
            r.cache_all_unknown_users,
    {
        Settings { max_messages: 0, cache_all_unknown_users: true }
    }

    /// Sets the per-channel message retention cap. Any count is accepted;
    /// zero disables message caching.
    pub fn max_messages(&mut self, n: usize)
        ensures
            *final(self) == (Settings { max_messages: n, ..*old(self) }),
    {
        self.max_messages = n;
    }

    /// Sets whether member-chunk deliveries may grow the canonical user
    /// table.
    pub fn cache_all_unknown_users(&mut self, b: bool)
        ensures
            *final(self) == (Settings { cache_all_unknown_users: b, ..*old(self) }),
    {
        self.cache_all_unknown_users = b;
    }
}

} // verus!
