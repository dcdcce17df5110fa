//! Plain value types shared with the REST layer.
//!
//! The REST transport itself — requests, rate limiting, response handling —
//! lives with the embedding application; what stands here is the data the
//! transport and the cache exchange as plain values.

use vstd::prelude::*;

verus! {

use vstd::string::StringSliceAdditionalSpecFns;

use crate::id::GuildId;

/// The error payload the remote API carries in an unsuccessful response.
pub struct DiscordJsonError {
    /// The error code the API reported.
    pub code: isize,
    /// The prose the API attached to the code.
    pub message: String,
}

impl Clone for DiscordJsonError {
    fn clone(&self) -> (r: Self)
        ensures
            r == *self,
    {
        DiscordJsonError { code: self.code, message: self.message.clone() }
    }
}

impl PartialEq for DiscordJsonError {
    fn eq(&self, other: &Self) -> (r: bool)
    {
        self.code == other.code && self.message == other.message
    }
}

impl vstd::std_specs::cmp::PartialEqSpecImpl for DiscordJsonError {
    open spec fn obeys_eq_spec() -> bool {
        true
    }

    open spec fn eq_spec(&self, other: &Self) -> bool {
        self.code == other.code && self.message@ == other.message@
    }
}

/// The method a rate-limited route is reached with.
#[derive(Clone, Copy, Debug, Eq, Hash, PartialEq, Structural)]
pub enum LightMethod {
    /// The route only deletes.
    Delete,
    /// The route only reads.
    Get,
    /// The route only patches.
    Patch,
    /// The route only posts.
    Post,
    /// The route only puts.
    Put,
}

/// The way a page of guilds is requested.
pub enum GuildPagination {
    /// Take the guilds after this one.
    After(GuildId),
    /// Take the guilds before this one.
    Before(GuildId),
}

/// Whether text names a remote image rather than a local file: it does
/// exactly when it opens with a web-protocol prefix.
pub fn is_remote_attachment_source(s: &str) -> (r: bool)
    ensures
        r == ("http://".spec_bytes().is_prefix_of(s.spec_bytes())
            || "https://".spec_bytes().is_prefix_of(s.spec_bytes())),
{
    crate::strutil::has_byte_prefix(s, "http://") || crate::strutil::has_byte_prefix(
        s,
        "https://",
    )
}

} // verus!
