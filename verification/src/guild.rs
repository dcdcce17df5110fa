//! Guilds and the records nested inside them.
//!
//! A [`Guild`] is the largest cached aggregate: it owns tables of members,
//! roles, channels, emojis and presences, and is updated piecemeal by many
//! event kinds.

use vstd::prelude::*;

verus! {

use crate::channel::{GuildChannel, GuildChannelView};
use crate::id::{ChannelId, EmojiId, GuildId, RoleId, UserId};
use crate::idmap::IdMap;
use crate::user::Presence;

/// A role granted to members of a guild.
pub struct Role {
    /// The role's identifier.
    pub id: RoleId,
    /// The role's name.
    pub name: String,
    /// The colour carried by the role, as a packed value.
    pub colour: u64,
    /// Whether members holding the role are listed apart.
    pub hoist: bool,
    /// Whether the role can be mentioned.
    pub mentionable: bool,
    /// The role's sort position.
    pub position: i64,
    /// The permissions granted by the role.
    pub permissions: crate::channel::Permissions,
}

impl View for Role {
    type V = Role;

    open spec fn view(&self) -> Role {
        *self
    }
}

impl Clone for Role {
    fn clone(&self) -> (r: Self)
        ensures
            r == *self,
    {
        Role {
            id: self.id,
            name: self.name.clone(),
            colour: self.colour,
            hoist: self.hoist,
            mentionable: self.mentionable,
            position: self.position,
            permissions: self.permissions,
        }
    }
}

/// A custom emoji belonging to a guild.
pub struct Emoji {
    /// The emoji's identifier.
    pub id: EmojiId,
    /// The emoji's name.
    pub name: String,
    /// Whether the emoji is animated.
    pub animated: bool,
}

impl View for Emoji {
    type V = Emoji;

    open spec fn view(&self) -> Emoji {
        *self
    }
}

impl Clone for Emoji {
    fn clone(&self) -> (r: Self)
        ensures
            r == *self,
    {
        Emoji { id: self.id, name: self.name.clone(), animated: self.animated }
    }
}

/// A member's voice connection inside a guild.
pub struct VoiceState {
    /// The voice channel the member sits in, or nothing while disconnecting.
    pub channel_id: Option<ChannelId>,
    /// Whether the guild has deafened the member.
    pub deaf: bool,
    /// Whether the guild has muted the member.
    pub mute: bool,
    /// Whether the member deafened themselves.
    pub self_deaf: bool,
    /// Whether the member muted themselves.
    pub self_mute: bool,
    /// The voice session's identifier.
    pub session_id: String,
    /// The member the state belongs to.
    pub user_id: UserId,
}

impl View for VoiceState {
    type V = VoiceState;

    open spec fn view(&self) -> VoiceState {
        *self
    }
}

impl Clone for VoiceState {
    fn clone(&self) -> (r: Self)
        ensures
            r == *self,
    {
        VoiceState {
            channel_id: self.channel_id,
            deaf: self.deaf,
            mute: self.mute,
            self_deaf: self.self_deaf,
            self_mute: self.self_mute,
            session_id: self.session_id.clone(),
            user_id: self.user_id,
        }
    }
}

/// A user's membership of one guild: the roles they hold there plus a
/// reference, by identifier, to their canonical user record.
pub struct Member {
    /// The guild the membership belongs to.
    pub guild_id: GuildId,
    /// The member's nickname within the guild, when one is set.
    pub nick: Option<String>,
    /// The roles the member holds.
    pub roles: Vec<RoleId>,
    /// The identifier of the member's canonical user record.
    pub user_id: UserId,
}

/// The abstract value of a [`Member`].
#[verifier::ext_equal]
pub struct MemberView {
    pub guild_id: GuildId,
    pub nick: Option<String>,
    pub roles: Seq<RoleId>,
    pub user_id: UserId,
}

impl View for Member {
    type V = MemberView;

    open spec fn view(&self) -> MemberView {
        MemberView {
            guild_id: self.guild_id,
            nick: self.nick,
            roles: self.roles@,
            user_id: self.user_id,
        }
    }
}

impl Clone for Member {
    fn clone(&self) -> (r: Self)
        ensures
            r@ == self@,
    {
        Member {
            guild_id: self.guild_id,
            nick: match &self.nick {
                Some(n) => Some(n.clone()),
                None => None,
            },
            roles: crate::message::clone_role_ids(&self.roles),
            user_id: self.user_id,
        }
    }
}

/// A server: the full aggregate of channels, members, roles, emojis and
/// presences the gateway has delivered for it.
pub struct Guild {
    /// The guild's identifier.
    pub id: GuildId,
    /// How long members may idle in voice before being moved away.
    pub afk_timeout: u64,
    /// The guild channels the guild owns, keyed by channel identifier.
    pub channels: IdMap<GuildChannel>,
    /// The guild's custom emojis, keyed by emoji identifier.
    pub emojis: IdMap<Emoji>,
    /// The guild's icon hash, when one is set.
    pub icon: Option<String>,
    /// When the current user joined the guild.
    pub joined_at: String,
    /// Whether the guild is flagged as large.
    pub large: bool,
    /// The number of members the gateway declared for the guild; may exceed
    /// the number of member records received so far.
    pub member_count: u64,
    /// The member records received so far, keyed by user identifier.
    pub members: IdMap<Member>,
    /// The guild's name.
    pub name: String,
    /// The user who owns the guild.
    pub owner_id: UserId,
    /// The presences of the guild's members, keyed by user identifier.
    pub presences: IdMap<Presence>,
    /// The voice region the guild is homed in.
    pub region: String,
    /// The guild's roles, keyed by role identifier.
    pub roles: IdMap<Role>,
    /// The guild's splash hash, when one is set.
    pub splash: Option<String>,
    /// The members' voice connections, keyed by user identifier.
    pub voice_states: IdMap<VoiceState>,
}

/// The abstract value of a [`Guild`]: its tables become maps.
#[verifier::ext_equal]
pub struct GuildView {
    pub id: GuildId,
    pub afk_timeout: u64,
    pub channels: Map<u64, GuildChannelView>,
    pub emojis: Map<u64, Emoji>,
    pub icon: Option<String>,
    pub joined_at: String,
    pub large: bool,
    pub member_count: u64,
    pub members: Map<u64, MemberView>,
    pub name: String,
    pub owner_id: UserId,
    pub presences: Map<u64, Presence>,
    pub region: String,
    pub roles: Map<u64, Role>,
    pub splash: Option<String>,
    pub voice_states: Map<u64, VoiceState>,
}

impl View for Guild {
    type V = GuildView;

    open spec fn view(&self) -> GuildView {
        GuildView {
            id: self.id,
            afk_timeout: self.afk_timeout,
            channels: self.channels@,
            emojis: self.emojis@,
            icon: self.icon,
            joined_at: self.joined_at,
            large: self.large,
            member_count: self.member_count,
            members: self.members@,
            name: self.name,
            owner_id: self.owner_id,
            presences: self.presences@,
            region: self.region,
            roles: self.roles@,
            splash: self.splash,
            voice_states: self.voice_states@,
        }
    }
}

/// The partial image of a guild carried by update and deletion events: the
/// guild's scalar fields, without its nested tables.
pub struct PartialGuild {
    /// The guild's identifier.
    pub id: GuildId,
    /// How long members may idle in voice before being moved away.
    pub afk_timeout: u64,
    /// The guild's icon hash, when one is set.
    pub icon: Option<String>,
    /// The guild's name.
    pub name: String,
    /// The user who owns the guild.
    pub owner_id: UserId,
    /// The voice region the guild is homed in.
    pub region: String,
    /// The guild's splash hash, when one is set.
    pub splash: Option<String>,
}

impl View for PartialGuild {
    type V = PartialGuild;

    open spec fn view(&self) -> PartialGuild {
        *self
    }
}

impl Clone for PartialGuild {
    fn clone(&self) -> (r: Self)
        ensures
            r == *self,
    {
        PartialGuild {
            id: self.id,
            afk_timeout: self.afk_timeout,
            icon: match &self.icon {
                Some(i) => Some(i.clone()),
                None => None,
            },
            name: self.name.clone(),
            owner_id: self.owner_id,
            region: self.region.clone(),
            splash: match &self.splash {
                Some(s) => Some(s.clone()),
                None => None,
            },
        }
    }
}

} // verus!
