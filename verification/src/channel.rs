//! Channels of every kind, and the types attached to them.
//!
//! The cache keeps guild channels, private channels, groups and categories in
//! separate tables; the [`Channel`] enum tags a value with the table it came
//! from when a lookup has to range over several of them.

use vstd::prelude::*;

verus! {

use vstd::string::StringSliceAdditionalSpecFns;

use crate::id::{ChannelId, GuildId, MessageId, RoleId, UserId};

/// A representation of a type of channel.
#[derive(Clone, Copy, Debug, PartialEq, Eq, Hash, Structural)]
pub enum ChannelType {
    /// A text channel inside a guild.
    Text,
    /// A one-to-one channel to another user.
    Private,
    /// A voice channel inside a guild.
    Voice,
    /// The channel of a multi-user group.
    Group,
    /// A category grouping guild channels.
    Category,
    /// A news channel inside a guild.
    News,
    /// A store channel inside a guild.
    Store,
}

impl ChannelType {
    /// The wire number of each channel kind.
    pub open spec fn num_spec(self) -> u64 {
        match self {
            ChannelType::Text => 0,
            ChannelType::Private => 1,
            ChannelType::Voice => 2,
            ChannelType::Group => 3,
            ChannelType::Category => 4,
            ChannelType::News => 5,
            ChannelType::Store => 6,
        }
    }

    /// The lower-case name of the channel kind.
    pub fn name(&self) -> (r: &str)
        ensures
            r@ == self.name_spec(),
    {
        match *self {
            ChannelType::Group => "group",
            ChannelType::Private => "private",
            ChannelType::Text => "text",
            ChannelType::Voice => "voice",
            ChannelType::Category => "category",
            ChannelType::News => "news",
            ChannelType::Store => "store",
        }
    }

    /// The name `name` returns, as a character sequence.
    pub open spec fn name_spec(self) -> Seq<char> {
        match self {
            ChannelType::Group => "group"@,
            ChannelType::Private => "private"@,
            ChannelType::Text => "text"@,
            ChannelType::Voice => "voice"@,
            ChannelType::Category => "category"@,
            ChannelType::News => "news"@,
            ChannelType::Store => "store"@,
        }
    }

    /// The number the channel kind is carried as on the wire.
    pub fn num(self) -> (r: u64)
        ensures
            r == self.num_spec(),
    {
        match self {
            ChannelType::Text => 0,
            ChannelType::Private => 1,
            ChannelType::Voice => 2,
            ChannelType::Group => 3,
            ChannelType::Category => 4,
            ChannelType::News => 5,
            ChannelType::Store => 6,
        }
    }

    /// The channel kind a wire number stands for, if any.
    ///
    /// This is the inverse of `num`: a kind is returned exactly for the
    /// numbers that some kind maps to.
    pub fn from_num(n: u64) -> (r: Option<ChannelType>)
        ensures
            match r {
                Some(k) => k.num_spec() == n,
                None => forall|k: ChannelType| k.num_spec() != n,
            },
    {
        if n == 0 {
            Some(ChannelType::Text)
        } else if n == 1 {
            Some(ChannelType::Private)
        } else if n == 2 {
            Some(ChannelType::Voice)
        } else if n == 3 {
            Some(ChannelType::Group)
        } else if n == 4 {
            Some(ChannelType::Category)
        } else if n == 5 {
            Some(ChannelType::News)
        } else if n == 6 {
            Some(ChannelType::Store)
        } else {
            None
        }
    }
}

/// A set of permission bits.
#[derive(Clone, Copy, Debug, PartialEq, Eq, Hash, Structural)]
pub struct Permissions {
    /// The raw permission bits.
    pub bits: u64,
}

/// The subject of a channel permission overwrite.
#[derive(Clone, Copy, Debug, PartialEq, Eq, Structural)]
pub enum PermissionOverwriteType {
    /// A member whose permissions are overwritten.
    Member(UserId),
    /// A role whose permissions are overwritten.
    Role(RoleId),
}

/// A channel-specific permission overwrite for a member or role.
#[derive(Clone, Copy, Debug, PartialEq, Eq, Structural)]
pub struct PermissionOverwrite {
    /// The permissions granted by the overwrite.
    pub allow: Permissions,
    /// The permissions denied by the overwrite.
    pub deny: Permissions,
    /// Who the overwrite applies to.
    pub kind: PermissionOverwriteType,
}

impl PermissionOverwrite {
    /// Reads an overwrite out of its wire form, where the subject is carried
    /// as a bare identifier tagged `member` or `role`. Any other tag is
    /// rejected.
    pub fn from_wire(allow: Permissions, deny: Permissions, id: u64, kind: &str) -> (r: Option<
        PermissionOverwrite,
    >)
        ensures
            r == if kind.spec_bytes() == "member".spec_bytes() {
                Some(
                    PermissionOverwrite {
                        allow,
                        deny,
                        kind: PermissionOverwriteType::Member(UserId(id)),
                    },
                )
            } else if kind.spec_bytes() == "role".spec_bytes() {
                Some(
                    PermissionOverwrite {
                        allow,
                        deny,
                        kind: PermissionOverwriteType::Role(RoleId(id)),
                    },
                )
            } else {
                None::<PermissionOverwrite>
            },
    {
        if crate::strutil::bytes_eq(kind, "member") {
            Some(
                PermissionOverwrite { allow, deny, kind: PermissionOverwriteType::Member(UserId(id)) },
            )
        } else if crate::strutil::bytes_eq(kind, "role") {
            Some(PermissionOverwrite { allow, deny, kind: PermissionOverwriteType::Role(RoleId(id)) })
        } else {
            None
        }
    }

    /// The subject's bare identifier and tag, as the wire carries them.
    pub fn wire_parts(&self) -> (r: (u64, &str))
        ensures
            match self.kind {
                PermissionOverwriteType::Member(uid) => r.0 == uid.0 && r.1@ == "member"@,
                PermissionOverwriteType::Role(rid) => r.0 == rid.0 && r.1@ == "role"@,
            },
    {
        match self.kind {
            PermissionOverwriteType::Member(uid) => (uid.0, "member"),
            PermissionOverwriteType::Role(rid) => (rid.0, "role"),
        }
    }
}

/// A text or voice channel inside a guild.
pub struct GuildChannel {
    /// The channel's identifier.
    pub id: ChannelId,
    /// The bit rate of a voice channel.
    pub bitrate: Option<u64>,
    /// The category the channel sorts under, when one is set.
    pub category_id: Option<ChannelId>,
    /// The guild the channel belongs to.
    pub guild_id: GuildId,
    /// The kind of the channel.
    pub kind: ChannelType,
    /// The most recent message sent in the channel, when one is known.
    pub last_message_id: Option<MessageId>,
    /// When a message was last pinned, if ever.
    pub last_pin_timestamp: Option<String>,
    /// The channel's name.
    pub name: String,
    /// The permission overwrites applying to the channel.
    pub permission_overwrites: Vec<PermissionOverwrite>,
    /// The channel's sort position within the guild.
    pub position: i64,
    /// The channel's topic, when one is set.
    pub topic: Option<String>,
    /// The member limit of a voice channel.
    pub user_limit: Option<u64>,
    /// Whether the channel is marked as not safe for work.
    pub nsfw: bool,
    /// The slow-mode message rate, when one is set.
    pub slow_mode_rate: Option<u64>,
}

/// The abstract value of a [`GuildChannel`].
#[verifier::ext_equal]
pub struct GuildChannelView {
    pub id: ChannelId,
    pub bitrate: Option<u64>,
    pub category_id: Option<ChannelId>,
    pub guild_id: GuildId,
    pub kind: ChannelType,
    pub last_message_id: Option<MessageId>,
    pub last_pin_timestamp: Option<String>,
    pub name: String,
    pub permission_overwrites: Seq<PermissionOverwrite>,
    pub position: i64,
    pub topic: Option<String>,
    pub user_limit: Option<u64>,
    pub nsfw: bool,
    pub slow_mode_rate: Option<u64>,
}

impl View for GuildChannel {
    type V = GuildChannelView;

    open spec fn view(&self) -> GuildChannelView {
        GuildChannelView {
            id: self.id,
            bitrate: self.bitrate,
            category_id: self.category_id,
            guild_id: self.guild_id,
            kind: self.kind,
            last_message_id: self.last_message_id,
            last_pin_timestamp: self.last_pin_timestamp,
            name: self.name,
            permission_overwrites: self.permission_overwrites@,
            position: self.position,
            topic: self.topic,
            user_limit: self.user_limit,
            nsfw: self.nsfw,
            slow_mode_rate: self.slow_mode_rate,
        }
    }
}

/// Clones a list of permission overwrites, keeping its abstract value.
fn clone_overwrites(v: &Vec<PermissionOverwrite>) -> (r: Vec<PermissionOverwrite>)
    ensures
        r@ == v@,
{
    let mut r: Vec<PermissionOverwrite> = Vec::new();
    let mut i: usize = 0;
    while i < v.len()
        invariant
            i <= v@.len(),
            r@ =~= v@.subrange(0, i as int),
        decreases v@.len() - i,
    {
        r.push(v[i]);
        i = i + 1;
    }
    proof {
        assert(r@ =~= v@);
    }
    r
}

impl Clone for GuildChannel {
    fn clone(&self) -> (r: Self)
        ensures
            r@ == self@,
    {
        GuildChannel {
            id: self.id,
            bitrate: self.bitrate,
            category_id: self.category_id,
            guild_id: self.guild_id,
            kind: self.kind,
            last_message_id: self.last_message_id,
            last_pin_timestamp: match &self.last_pin_timestamp {
                Some(t) => Some(t.clone()),
                None => None,
            },
            name: self.name.clone(),
            permission_overwrites: clone_overwrites(&self.permission_overwrites),
            position: self.position,
            topic: match &self.topic {
                Some(t) => Some(t.clone()),
                None => None,
            },
            user_limit: self.user_limit,
            nsfw: self.nsfw,
            slow_mode_rate: self.slow_mode_rate,
        }
    }
}

impl GuildChannel {
    /// Whether the channel counts as not safe for work: only text channels
    /// carrying the explicit flag do.
    pub fn is_nsfw(&self) -> (r: bool)
        ensures
            r == (self.kind == ChannelType::Text && self.nsfw),
    {
        self.kind == ChannelType::Text && self.nsfw
    }
}

/// A category grouping guild channels.
pub struct ChannelCategory {
    /// The category's identifier.
    pub id: ChannelId,
    /// The guild the category belongs to, when it is known.
    pub guild_id: Option<GuildId>,
    /// The category a nested category sorts under, when one is set.
    pub category_id: Option<ChannelId>,
    /// The category's sort position within the guild.
    pub position: i64,
    /// The kind of the channel; always the category kind on well-formed input.
    pub kind: ChannelType,
    /// The category's name.
    pub name: String,
    /// Whether the category is marked as not safe for work.
    pub nsfw: bool,
}

impl View for ChannelCategory {
    type V = ChannelCategory;

    open spec fn view(&self) -> ChannelCategory {
        *self
    }
}

impl Clone for ChannelCategory {
    fn clone(&self) -> (r: Self)
        ensures
            r == *self,
    {
        ChannelCategory {
            id: self.id,
            guild_id: self.guild_id,
            category_id: self.category_id,
            position: self.position,
            kind: self.kind,
            name: self.name.clone(),
            nsfw: self.nsfw,
        }
    }
}

impl ChannelCategory {
    /// Whether the category is marked as not safe for work.
    pub fn is_nsfw(&self) -> (r: bool)
        ensures
            r == self.nsfw,
    {
        self.nsfw
    }
}

/// A multi-user direct-message channel.
pub struct Group {
    /// The identifier of the group's channel.
    pub channel_id: ChannelId,
    /// The group's icon hash, when one is set.
    pub icon: Option<String>,
    /// The most recent message sent in the group, when one is known.
    pub last_message_id: Option<MessageId>,
    /// When a message was last pinned, if ever.
    pub last_pin_timestamp: Option<String>,
    /// The group's name, when one is set.
    pub name: Option<String>,
    /// The user who owns the group.
    pub owner_id: UserId,
    /// The identifiers of the users in the group; their records live in the
    /// cache's canonical user table.
    pub recipient_ids: Vec<UserId>,
}

/// The abstract value of a [`Group`].
#[verifier::ext_equal]
pub struct GroupView {
    pub channel_id: ChannelId,
    pub icon: Option<String>,
    pub last_message_id: Option<MessageId>,
    pub last_pin_timestamp: Option<String>,
    pub name: Option<String>,
    pub owner_id: UserId,
    pub recipient_ids: Seq<UserId>,
}

impl View for Group {
    type V = GroupView;

    open spec fn view(&self) -> GroupView {
        GroupView {
            channel_id: self.channel_id,
            icon: self.icon,
            last_message_id: self.last_message_id,
            last_pin_timestamp: self.last_pin_timestamp,
            name: self.name,
            owner_id: self.owner_id,
            recipient_ids: self.recipient_ids@,
        }
    }
}

/// Clones a list of user identifiers, keeping its abstract value.
fn clone_user_ids(v: &Vec<UserId>) -> (r: Vec<UserId>)
    ensures
        r@ == v@,
{
    let mut r: Vec<UserId> = Vec::new();
    let mut i: usize = 0;
    while i < v.len()
        invariant
            i <= v@.len(),
            r@ =~= v@.subrange(0, i as int),
        decreases v@.len() - i,
    {
        r.push(v[i]);
        i = i + 1;
    }
    proof {
        assert(r@ =~= v@);
    }
    r
}

impl Clone for Group {
    fn clone(&self) -> (r: Self)
        ensures
            r@ == self@,
    {
        Group {
            channel_id: self.channel_id,
            icon: match &self.icon {
                Some(i) => Some(i.clone()),
                None => None,
            },
            last_message_id: self.last_message_id,
            last_pin_timestamp: match &self.last_pin_timestamp {
                Some(t) => Some(t.clone()),
                None => None,
            },
            name: match &self.name {
                Some(n) => Some(n.clone()),
                None => None,
            },
            owner_id: self.owner_id,
            recipient_ids: clone_user_ids(&self.recipient_ids),
        }
    }
}

impl Group {
    /// Whether the group counts as not safe for work; groups never do.
    pub fn is_nsfw(&self) -> (r: bool)
        ensures
            !r,
    {
        false
    }
}

/// A one-to-one direct-message channel.
pub struct PrivateChannel {
    /// The channel's identifier.
    pub id: ChannelId,
    /// The most recent message sent in the channel, when one is known.
    pub last_message_id: Option<MessageId>,
    /// When a message was last pinned, if ever.
    pub last_pin_timestamp: Option<String>,
    /// The kind of the channel; always the private kind on well-formed input.
    pub kind: ChannelType,
    /// The identifier of the other party; their record lives in the cache's
    /// canonical user table.
    pub recipient_id: UserId,
}

impl View for PrivateChannel {
    type V = PrivateChannel;

    open spec fn view(&self) -> PrivateChannel {
        *self
    }
}

impl Clone for PrivateChannel {
    fn clone(&self) -> (r: Self)
        ensures
            r == *self,
    {
        PrivateChannel {
            id: self.id,
            last_message_id: self.last_message_id,
            last_pin_timestamp: match &self.last_pin_timestamp {
                Some(t) => Some(t.clone()),
                None => None,
            },
            kind: self.kind,
            recipient_id: self.recipient_id,
        }
    }
}

impl PrivateChannel {
    /// Whether the channel counts as not safe for work; private channels
    /// never do.
    pub fn is_nsfw(&self) -> (r: bool)
        ensures
            !r,
    {
        false
    }
}

/// A container for a channel of any kind.
pub enum Channel {
    /// A multi-user group.
    Group(Group),
    /// A text or voice channel inside a guild.
    Guild(GuildChannel),
    /// A one-to-one channel to another user.
    Private(PrivateChannel),
    /// A category of guild channels.
    Category(ChannelCategory),
}

/// The abstract value of a [`Channel`].
#[verifier::ext_equal]
pub enum ChannelView {
    Group(GroupView),
    Guild(GuildChannelView),
    Private(PrivateChannel),
    Category(ChannelCategory),
}

impl View for Channel {
    type V = ChannelView;

    open spec fn view(&self) -> ChannelView {
        match self {
            Channel::Group(g) => ChannelView::Group(g@),
            Channel::Guild(c) => ChannelView::Guild(c@),
            Channel::Private(p) => ChannelView::Private(*p),
            Channel::Category(c) => ChannelView::Category(*c),
        }
    }
}

impl Clone for Channel {
    fn clone(&self) -> (r: Self)
        ensures
            r@ == self@,
    {
        match self {
            Channel::Group(g) => Channel::Group(g.clone()),
            Channel::Guild(c) => Channel::Guild(c.clone()),
            Channel::Private(p) => Channel::Private(p.clone()),
            Channel::Category(c) => Channel::Category(c.clone()),
        }
    }
}

impl ChannelView {
    /// The identifier of the carried channel.
    pub open spec fn id_spec(self) -> ChannelId {
        match self {
            ChannelView::Group(g) => g.channel_id,
            ChannelView::Guild(c) => c.id,
            ChannelView::Private(p) => p.id,
            ChannelView::Category(c) => c.id,
        }
    }
}

impl Channel {
    /// The carried group, discarding any other kind.
    pub fn group(self) -> (r: Option<Group>)
        ensures
            match r {
                Some(g) => self@ == ChannelView::Group(g@),
                None => !(self@ is Group),
            },
    {
        match self {
            Channel::Group(g) => Some(g),
            _ => None,
        }
    }

    /// The carried guild channel, discarding any other kind.
    pub fn guild(self) -> (r: Option<GuildChannel>)
        ensures
            match r {
                Some(c) => self@ == ChannelView::Guild(c@),
                None => !(self@ is Guild),
            },
    {
        match self {
            Channel::Guild(c) => Some(c),
            _ => None,
        }
    }

    /// The carried private channel, discarding any other kind.
    pub fn private(self) -> (r: Option<PrivateChannel>)
        ensures
            match r {
                Some(p) => self@ == ChannelView::Private(p),
                None => !(self@ is Private),
            },
    {
        match self {
            Channel::Private(p) => Some(p),
            _ => None,
        }
    }

    /// The carried category, discarding any other kind.
    pub fn category(self) -> (r: Option<ChannelCategory>)
        ensures
            match r {
                Some(c) => self@ == ChannelView::Category(c),
                None => !(self@ is Category),
            },
    {
        match self {
            Channel::Category(c) => Some(c),
            _ => None,
        }
    }

    /// Whether the carried channel counts as not safe for work.
    pub fn is_nsfw(&self) -> (r: bool)
        ensures
            r == match self@ {
                ChannelView::Guild(c) => c.kind == ChannelType::Text && c.nsfw,
                ChannelView::Category(c) => c.nsfw,
                ChannelView::Group(_) => false,
                ChannelView::Private(_) => false,
            },
    {
        match self {
            Channel::Guild(c) => c.is_nsfw(),
            Channel::Category(c) => c.is_nsfw(),
            Channel::Group(_) => false,
            Channel::Private(_) => false,
        }
    }

    /// The identifier of the carried channel.
    pub fn id(&self) -> (r: ChannelId)
        ensures
            r == self@.id_spec(),
    {
        match self {
            Channel::Group(g) => g.channel_id,
            Channel::Guild(c) => c.id,
            Channel::Private(p) => p.id,
            Channel::Category(c) => c.id,
        }
    }

    /// The sort position of the carried channel, for the kinds that have one.
    pub fn position(&self) -> (r: Option<i64>)
        ensures
            r == match self@ {
                ChannelView::Guild(c) => Some(c.position),
                ChannelView::Category(c) => Some(c.position),
                _ => None::<i64>,
            },
    {
        match self {
            Channel::Guild(c) => Some(c.position),
            Channel::Category(c) => Some(c.position),
            _ => None,
        }
    }
}

} // verus!
