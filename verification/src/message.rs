//! Messages and the data attached to them.
//!
//! A cached [`Message`] embeds a frozen snapshot of its author rather than a
//! reference into the canonical user table: a message is meant to show the
//! author's identity as of send time. This is a deliberate divergence from
//! the sharing rule that every other user-bearing structure follows.

use vstd::prelude::*;

verus! {

use crate::id::{AttachmentId, ChannelId, GuildId, MessageId, RoleId};
use crate::user::User;

/// A file uploaded with a message.
pub struct Attachment {
    /// The unique identifier of the attachment.
    pub id: AttachmentId,
    /// The name the uploader's file had.
    pub filename: String,
    /// The image height in pixels, when the attachment is an image.
    pub height: Option<u64>,
    /// The proxied location of the file.
    pub proxy_url: String,
    /// The size of the file in bytes.
    pub size: u64,
    /// The location of the uploaded file.
    pub url: String,
    /// The image width in pixels, when the attachment is an image.
    pub width: Option<u64>,
}

impl View for Attachment {
    type V = Attachment;

    open spec fn view(&self) -> Attachment {
        *self
    }
}

impl Clone for Attachment {
    fn clone(&self) -> (r: Self)
        ensures
            r == *self,
    {
        Attachment {
            id: self.id,
            filename: self.filename.clone(),
            height: self.height,
            proxy_url: self.proxy_url.clone(),
            size: self.size,
            url: self.url.clone(),
            width: self.width,
        }
    }
}

impl Attachment {
    /// The width and height in pixels, when the attachment is an image.
    pub fn dimensions(&self) -> (r: Option<(u64, u64)>)
        ensures
            r == match (self.width, self.height) {
                (Some(w), Some(h)) => Some((w, h)),
                _ => None::<(u64, u64)>,
            },
    {
        match (self.width, self.height) {
            (Some(w), Some(h)) => Some((w, h)),
            _ => None,
        }
    }
}

/// Rich embedded content carried by a message.
pub struct Embed {
    /// The embed's title, when one is set.
    pub title: Option<String>,
    /// The embed's description, when one is set.
    pub description: Option<String>,
    /// The location the embed points at, when one is set.
    pub url: Option<String>,
}

impl View for Embed {
    type V = Embed;

    open spec fn view(&self) -> Embed {
        *self
    }
}

impl Clone for Embed {
    fn clone(&self) -> (r: Self)
        ensures
            r == *self,
    {
        Embed {
            title: match &self.title {
                Some(t) => Some(t.clone()),
                None => None,
            },
            description: match &self.description {
                Some(d) => Some(d.clone()),
                None => None,
            },
            url: match &self.url {
                Some(u) => Some(u.clone()),
                None => None,
            },
        }
    }
}

/// One reaction emoji on a message, with how often it was used.
pub struct MessageReaction {
    /// How many users reacted with this emoji.
    pub count: u64,
    /// Whether the current user is among them.
    pub me: bool,
    /// The emoji reacted with, by name.
    pub emoji: String,
}

impl View for MessageReaction {
    type V = MessageReaction;

    open spec fn view(&self) -> MessageReaction {
        *self
    }
}

impl Clone for MessageReaction {
    fn clone(&self) -> (r: Self)
        ensures
            r == *self,
    {
        MessageReaction { count: self.count, me: self.me, emoji: self.emoji.clone() }
    }
}

/// The kind of a message.
#[derive(Clone, Copy, Debug, PartialEq, Eq, Hash, Structural)]
pub enum MessageType {
    /// An ordinary text message.
    Regular,
    /// A message pinned to its channel.
    PinsAdd,
    /// A system notice that a member joined.
    MemberJoin,
}

/// A chat message, as mirrored by the cache.
pub struct Message {
    /// The message's identifier.
    pub id: MessageId,
    /// The files uploaded with the message.
    pub attachments: Vec<Attachment>,
    /// A snapshot of the author as of send time.
    pub author: User,
    /// The channel the message was sent in.
    pub channel_id: ChannelId,
    /// The guild the channel belongs to, when it is a guild channel.
    pub guild_id: Option<GuildId>,
    /// The text of the message.
    pub content: String,
    /// When the message was last edited, if ever.
    pub edited_timestamp: Option<String>,
    /// Rich content embedded in the message.
    pub embeds: Vec<Embed>,
    /// The kind of the message.
    pub kind: MessageType,
    /// Whether the message mentions everyone.
    pub mention_everyone: bool,
    /// The roles the message mentions.
    pub mention_roles: Vec<RoleId>,
    /// Snapshots of the users the message mentions.
    pub mentions: Vec<User>,
    /// Whether the message is pinned in its channel.
    pub pinned: bool,
    /// The reactions attached to the message.
    pub reactions: Vec<MessageReaction>,
    /// When the message was sent.
    pub timestamp: String,
    /// Whether the message was sent as text-to-speech.
    pub tts: bool,
}

/// The abstract value of a [`Message`]: its list fields become sequences.
#[verifier::ext_equal]
pub struct MessageView {
    pub id: MessageId,
    pub attachments: Seq<Attachment>,
    pub author: User,
    pub channel_id: ChannelId,
    pub guild_id: Option<GuildId>,
    pub content: String,
    pub edited_timestamp: Option<String>,
    pub embeds: Seq<Embed>,
    pub kind: MessageType,
    pub mention_everyone: bool,
    pub mention_roles: Seq<RoleId>,
    pub mentions: Seq<User>,
    pub pinned: bool,
    pub reactions: Seq<MessageReaction>,
    pub timestamp: String,
    pub tts: bool,
}

impl View for Message {
    type V = MessageView;

    open spec fn view(&self) -> MessageView {
        MessageView {
            id: self.id,
            attachments: self.attachments@,
            author: self.author,
            channel_id: self.channel_id,
            guild_id: self.guild_id,
            content: self.content,
            edited_timestamp: self.edited_timestamp,
            embeds: self.embeds@,
            kind: self.kind,
            mention_everyone: self.mention_everyone,
            mention_roles: self.mention_roles@,
            mentions: self.mentions@,
            pinned: self.pinned,
            reactions: self.reactions@,
            timestamp: self.timestamp,
            tts: self.tts,
        }
    }
}

/// Clones a list of attachments, keeping its abstract value.
pub(crate) fn clone_attachments(v: &Vec<Attachment>) -> (r: Vec<Attachment>)
    ensures
        r@ == v@,
{
    let mut r: Vec<Attachment> = Vec::new();
    let mut i: usize = 0;
    while i < v.len()
        invariant
            i <= v@.len(),
            r@ =~= v@.subrange(0, i as int),
        decreases v@.len() - i,
    {
        r.push(v[i].clone());
        i = i + 1;
    }
    proof {
        assert(r@ =~= v@);
    }
    r
}

/// Clones a list of embeds, keeping its abstract value.
pub(crate) fn clone_embeds(v: &Vec<Embed>) -> (r: Vec<Embed>)
    ensures
        r@ == v@,
{
    let mut r: Vec<Embed> = Vec::new();
    let mut i: usize = 0;
    while i < v.len()
        invariant
            i <= v@.len(),
            r@ =~= v@.subrange(0, i as int),
        decreases v@.len() - i,
    {
        r.push(v[i].clone());
        i = i + 1;
    }
    proof {
        assert(r@ =~= v@);
    }
    r
}

/// Clones a list of user snapshots, keeping its abstract value.
pub(crate) fn clone_users(v: &Vec<User>) -> (r: Vec<User>)
    ensures
        r@ == v@,
{
    let mut r: Vec<User> = Vec::new();
    let mut i: usize = 0;
    while i < v.len()
        invariant
            i <= v@.len(),
            r@ =~= v@.subrange(0, i as int),
        decreases v@.len() - i,
    {
        r.push(v[i].clone());
        i = i + 1;
    }
    proof {
        assert(r@ =~= v@);
    }
    r
}


/// Clones a list of reactions, keeping its abstract value.
pub(crate) fn clone_reactions(v: &Vec<MessageReaction>) -> (r: Vec<MessageReaction>)
    ensures
        r@ == v@,
{
    let mut r: Vec<MessageReaction> = Vec::new();
    let mut i: usize = 0;
    while i < v.len()
        invariant
            i <= v@.len(),
            r@ =~= v@.subrange(0, i as int),
        decreases v@.len() - i,
    {
        r.push(v[i].clone());
        i = i + 1;
    }
    proof {
        assert(r@ =~= v@);
    }
    r
}

/// Clones a list of role identifiers, keeping its abstract value.
pub(crate) fn clone_role_ids(v: &Vec<RoleId>) -> (r: Vec<RoleId>)
    ensures
        r@ == v@,
{
    let mut r: Vec<RoleId> = Vec::new();
    let mut i: usize = 0;
    while i < v.len()
        invariant
            i <= v@.len(),
            r@ =~= v@.subrange(0, i as int),
        decreases v@.len() - i,
    {
        r.push(v[i]);
        i = i + 1;
    }
    proof {
        assert(r@ =~= v@);
    }
    r
}

impl Clone for Message {
    fn clone(&self) -> (r: Self)
        ensures
            r@ == self@,
    {
        Message {
            id: self.id,
            attachments: clone_attachments(&self.attachments),
            author: self.author.clone(),
            channel_id: self.channel_id,
            guild_id: self.guild_id,
            content: self.content.clone(),
            edited_timestamp: match &self.edited_timestamp {
                Some(t) => Some(t.clone()),
                None => None,
            },
            embeds: clone_embeds(&self.embeds),
            kind: self.kind,
            mention_everyone: self.mention_everyone,
            mention_roles: clone_role_ids(&self.mention_roles),
            mentions: clone_users(&self.mentions),
            pinned: self.pinned,
            reactions: clone_reactions(&self.reactions),
            timestamp: self.timestamp.clone(),
            tts: self.tts,
        }
    }
}

} // verus!
