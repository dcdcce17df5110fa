//! An in-memory cache of a chat platform's gateway state.
//!
//! The cache mirrors remote entities (channels, guilds, users, messages,
//! presences) as plain values keyed by their numeric identifiers, and folds a
//! stream of decoded gateway events into that state. Accessors never fail:
//! an entity that is not cached yields an empty result rather than an error.
//!
//! Every entity is held by value and every lookup hands out a borrow or a
//! clone, so a value obtained from the cache is a snapshot: it stays valid
//! after the underlying entity is updated or removed, but does not reflect
//! later mutations. Concurrent access is the embedding application's
//! concern; it wraps the cache in whatever lock its executor calls for.

pub mod cache;
pub mod channel;
pub mod event;
pub mod guild;
pub mod http;
pub mod id;
pub mod idmap;
pub mod law;
pub mod mention;
pub mod message;
pub mod settings;
pub mod strutil;
pub mod user;
