//! The entity store: every cached entity, keyed by identifier.
//!
//! The store holds plain values; a lookup hands out a borrow or a clone, so
//! whatever a caller obtains is a snapshot that survives later removal of the
//! underlying entity without reflecting further mutations. Events are folded
//! in through the update protocol in the event module.
//!
//! The store's abstract value is a [`CacheView`]: each table becomes a
//! mathematical map, the unavailable-guild set a mathematical set. The
//! well-formedness predicate [`CacheView::wf`] records the structural
//! invariants every update preserves: the message tables and eviction queues
//! cover the same channels and agree per channel, a guild is never both
//! available and unavailable, the three channel tables a polymorphic lookup
//! searches are pairwise disjoint, and canonical user records carry the
//! identifier they are keyed under.

use vstd::prelude::*;

verus! {

use crate::channel::{Channel, ChannelCategory, ChannelView, Group, GroupView, GuildChannel,
    GuildChannelView, PrivateChannel};
use crate::guild::{Guild, GuildView, Member, Role};
use crate::id::{ChannelId, GuildId, MessageId, RoleId, UserId};
use crate::idmap::{IdMap, IdSet};
use crate::message::{Message, MessageView};
use crate::settings::Settings;
use crate::user::{CurrentUser, Presence, User};

/// The abstract value of a [`Cache`].
#[verifier::ext_equal]
pub struct CacheView {
    pub channels: Map<u64, GuildChannelView>,
    pub categories: Map<u64, ChannelCategory>,
    pub groups: Map<u64, GroupView>,
    pub guilds: Map<u64, GuildView>,
    pub messages: Map<u64, Map<u64, MessageView>>,
    pub notes: Map<u64, Seq<char>>,
    pub presences: Map<u64, Presence>,
    pub private_channels: Map<u64, PrivateChannel>,
    pub shard_count: u64,
    pub unavailable_guilds: Set<u64>,
    pub user: CurrentUser,
    pub users: Map<u64, User>,
    pub queues: Map<u64, Seq<u64>>,
    pub settings: Settings,
}

/// Agreement between one channel's message table and its eviction queue: the
/// queue holds each cached identifier exactly once, and every cached message
/// carries the identifier and channel it is filed under.
pub open spec fn channel_messages_wf(q: Seq<u64>, msgs: Map<u64, MessageView>, c: u64) -> bool {
    &&& q.no_duplicates()
    &&& forall|m: u64| #[trigger] q.contains(m) <==> msgs.contains_key(m)
    &&& forall|m: u64| #[trigger] msgs.contains_key(m) ==> msgs[m].id == MessageId(m)
        && msgs[m].channel_id == ChannelId(c)
}

impl CacheView {
    /// A freshly constructed store: every table empty, the unavailable set
    /// empty, one shard, and a blank current user. Only the policy is left
    /// open, since a store may be constructed under any policy.
    pub open spec fn is_empty(self) -> bool {
        &&& self.channels == Map::<u64, GuildChannelView>::empty()
        &&& self.categories == Map::<u64, ChannelCategory>::empty()
        &&& self.groups == Map::<u64, GroupView>::empty()
        &&& self.guilds == Map::<u64, GuildView>::empty()
        &&& self.messages == Map::<u64, Map<u64, MessageView>>::empty()
        &&& self.notes == Map::<u64, Seq<char>>::empty()
        &&& self.presences == Map::<u64, Presence>::empty()
        &&& self.private_channels == Map::<u64, PrivateChannel>::empty()
        &&& self.queues == Map::<u64, Seq<u64>>::empty()
        &&& self.users == Map::<u64, User>::empty()
        &&& self.unavailable_guilds == Set::<u64>::empty()
        &&& self.shard_count == 1
        &&& self.user.id == UserId(0)
        &&& self.user.name@ == Seq::<char>::empty()
        &&& !self.user.bot
        &&& !self.user.verified
    }

    /// The structural invariants of the store.
    pub open spec fn wf(self) -> bool {
        &&& forall|c: u64| #[trigger] self.messages.contains_key(c) <==> self.queues.contains_key(c)
        &&& forall|c: u64| #[trigger] self.messages.contains_key(c) ==> channel_messages_wf(
            self.queues[c],
            self.messages[c],
            c,
        )
        &&& forall|g: u64| #[trigger] self.guilds.contains_key(g)
            ==> !self.unavailable_guilds.contains(g)
        &&& forall|c: u64| #[trigger] self.channels.contains_key(c)
            ==> !self.private_channels.contains_key(c) && !self.groups.contains_key(c)
        &&& forall|c: u64| #[trigger] self.private_channels.contains_key(c)
            ==> !self.groups.contains_key(c)
        &&& forall|u: u64| #[trigger] self.users.contains_key(u) ==> self.users[u].id == UserId(u)
    }
}

/// The polymorphic channel lookup: the guild-channel table first, then the
/// private-channel table, then the group table.
pub open spec fn channel_lookup(s: CacheView, c: u64) -> Option<ChannelView> {
    if s.channels.contains_key(c) {
        Some(ChannelView::Guild(s.channels[c]))
    } else if s.private_channels.contains_key(c) {
        Some(ChannelView::Private(s.private_channels[c]))
    } else if s.groups.contains_key(c) {
        Some(ChannelView::Group(s.groups[c]))
    } else {
        None
    }
}

/// The number of members a guild has declared but not yet delivered.
pub open spec fn guild_unknown_members(g: GuildView) -> int {
    if g.member_count > g.members.dom().len() {
        g.member_count - g.members.dom().len()
    } else {
        0
    }
}

/// The sum of the undelivered-member counts of the guilds named by `ks`.
pub open spec fn sum_unknown_members(gs: Map<u64, GuildView>, ks: Seq<u64>) -> int
    decreases ks.len(),
{
    if ks.len() == 0 {
        0
    } else {
        sum_unknown_members(gs, ks.drop_last()) + guild_unknown_members(gs[ks.last()])
    }
}

/// A cache of the entities observed in the events received over the gateway.
///
/// All tables are public so that embedding code may inspect the stored data
/// freely; the update protocol keeps them consistent.
pub struct Cache {
    /// Guild channels, keyed by channel identifier. Removed when their guild
    /// is deleted or becomes unavailable.
    pub channels: IdMap<GuildChannel>,
    /// Channel categories, keyed by channel identifier.
    pub categories: IdMap<ChannelCategory>,
    /// Multi-user groups the current user is in, keyed by channel identifier.
    pub groups: IdMap<Group>,
    /// Guilds with full data available, keyed by guild identifier.
    pub guilds: IdMap<Guild>,
    /// Cached messages: a table per channel, keyed by message identifier.
    pub messages: IdMap<IdMap<Message>>,
    /// Notes the current user made about other users, keyed by user
    /// identifier.
    pub notes: IdMap<String>,
    /// The most recent presence of each observed user.
    pub presences: IdMap<Presence>,
    /// One-to-one channels the current user has open, keyed by channel
    /// identifier.
    pub private_channels: IdMap<PrivateChannel>,
    /// How many shards the connection is split over.
    pub shard_count: u64,
    /// Guilds currently known to be unavailable; disjoint from the guild
    /// table between event applications.
    pub unavailable_guilds: IdSet,
    /// The account events are being received for.
    pub user: CurrentUser,
    /// The canonical record of every observed user, keyed by user
    /// identifier and shared by everything but message author snapshots.
    pub users: IdMap<User>,
    /// The identifiers of each channel's cached messages in insertion order:
    /// the front is the oldest and the first to be evicted.
    pub message_queue: IdMap<Vec<u64>>,
    /// The policy this store runs under.
    pub settings: Settings,
}

impl View for Cache {
    type V = CacheView;

    open spec fn view(&self) -> CacheView {
        CacheView {
            channels: self.channels@,
            categories: self.categories@,
            groups: self.groups@,
            guilds: self.guilds@,
            messages: self.messages@,
            notes: self.notes@,
            presences: self.presences@,
            private_channels: self.private_channels@,
            shard_count: self.shard_count,
            unavailable_guilds: self.unavailable_guilds@,
            user: self.user,
            users: self.users@,
            queues: self.message_queue@,
            settings: self.settings,
        }
    }
}

impl Default for Cache {
    /// An empty store under the default policy, which keeps no messages.
    fn default() -> (r: Self)
        ensures
            r@.wf(),
            r@.is_empty(),
            r@.settings.max_messages == 0,
            r@.settings.cache_all_unknown_users,
    {
        Cache {
            channels: IdMap::new(),
            categories: IdMap::new(),
            groups: IdMap::new(),
            guilds: IdMap::new(),
            messages: IdMap::new(),
            notes: IdMap::new(),
            presences: IdMap::new(),
            private_channels: IdMap::new(),
            shard_count: 1,
            unavailable_guilds: IdSet::new(),
            user: CurrentUser::default(),
            users: IdMap::new(),
            message_queue: IdMap::new(),
            settings: Settings::new(),
        }
    }
}

impl Cache {
    /// A new, empty cache under the default policy, which keeps no messages.
    pub fn new() -> (r: Self)
        ensures
            r@.wf(),
            r@.is_empty(),
            r@.settings.max_messages == 0,
            r@.settings.cache_all_unknown_users,
    {
        Cache::default()
    }

    /// A new, empty cache under the given policy.
    pub fn new_with_settings(settings: Settings) -> (r: Self)
        ensures
            r@.wf(),
            r@.is_empty(),
            r@.settings == settings,
    {
        let mut r = Cache::default();
        r.settings = settings;
        r
    }

    /// The store's policy.
    pub fn settings(&self) -> (r: &Settings)
        ensures
            *r == self@.settings,
    {
        &self.settings
    }

    /// The store's policy, for mutation; a change takes effect on the next
    /// applicable update.
    pub fn settings_mut(&mut self) -> (r: &mut Settings)
        ensures
            *r == old(self)@.settings,
            final(self)@ == (CacheView { settings: *final(r), ..old(self)@ }),
    {
        &mut self.settings
    }

    /// The number of members that have been declared by cached guilds but
    /// whose records have not yet been received, saturating at the largest
    /// representable count.
    pub fn unknown_members(&self) -> (r: u64)
        ensures
            self.guilds.key_seq().no_duplicates(),
            self.guilds.key_seq().to_set() == self@.guilds.dom(),
            ({
                let total = sum_unknown_members(self@.guilds, self.guilds.key_seq());
                r == if total > u64::MAX { u64::MAX as int } else { total }
            }),
    {
        let ks = self.guilds.keys();
        let mut total: u64 = 0;
        let mut i: usize = 0;
        while i < ks.len()
            invariant
                i <= ks@.len(),
                ks@ == self.guilds.key_seq(),
                ks@.no_duplicates(),
                ks@.to_set() == self@.guilds.dom(),
                ({
                    let part = sum_unknown_members(self@.guilds, ks@.subrange(0, i as int));
                    total == if part > u64::MAX { u64::MAX as int } else { part }
                }),
            decreases ks@.len() - i,
        {
            proof {
                assert(ks@.to_set().contains(ks@[i as int]));
            }
            let g = match self.guilds.get(ks[i]) {
                Some(g) => g,
                None => {
                    proof {
                        assert(false);
                    }
                    return 0;
                },
            };
            let members = g.members.len() as u64;
            let d: u64 = if g.member_count > members {
                g.member_count - members
            } else {
                0
            };
            proof {
                assert(g@ == self@.guilds[ks@[i as int]]);
                assert(d == guild_unknown_members(self@.guilds[ks@[i as int]]));
                assert(ks@.subrange(0, i + 1 as int).drop_last() =~= ks@.subrange(0, i as int));
                assert(ks@.subrange(0, i + 1 as int).last() == ks@[i as int]);
            }
            total = if total > u64::MAX - d {
                u64::MAX
            } else {
                total + d
            };
            i = i + 1;
        }
        proof {
            assert(ks@.subrange(0, ks@.len() as int) =~= ks@);
        }
        total
    }

    /// The identifiers of every private channel and group in the cache, in no
    /// guaranteed order.
    pub fn all_private_channels(&self) -> (r: Vec<ChannelId>)
        requires
            self@.wf(),
        ensures
            r@.map_values(|c: ChannelId| c.0).to_set() == self@.groups.dom().union(
                self@.private_channels.dom(),
            ),
            r@.map_values(|c: ChannelId| c.0).no_duplicates(),
    {
        let gk = self.groups.keys();
        let pk = self.private_channels.keys();
        let mut r: Vec<ChannelId> = Vec::new();
        let mut i: usize = 0;
        while i < gk.len()
            invariant
                i <= gk@.len(),
                r@.len() == i,
                forall|l: int| 0 <= l < i ==> r@[l] == ChannelId(gk@[l]),
            decreases gk@.len() - i,
        {
            r.push(ChannelId(gk[i]));
            i = i + 1;
        }
        let mut j: usize = 0;
        while j < pk.len()
            invariant
                j <= pk@.len(),
                r@.len() == gk@.len() + j,
                forall|l: int| 0 <= l < gk@.len() ==> r@[l] == ChannelId(gk@[l]),
                forall|l: int| 0 <= l < j ==> r@[gk@.len() + l] == ChannelId(pk@[l]),
            decreases pk@.len() - j,
        {
            r.push(ChannelId(pk[j]));
            j = j + 1;
        }
        proof {
            let all = r@.map_values(|c: ChannelId| c.0);
            assert forall|l: int| 0 <= l < all.len() implies all[l] == r@[l].0 by {}
            assert(all =~= gk@ + pk@);
            assert forall|x: u64| all.to_set().contains(x) implies self@.groups.dom().union(
                self@.private_channels.dom(),
            ).contains(x) by {
                let ix = choose|ix: int| 0 <= ix < all.len() && all[ix] == x;
                if ix < gk@.len() {
                    assert(gk@[ix] == x);
                    assert(gk@.to_set().contains(x));
                } else {
                    assert(pk@[ix - gk@.len()] == x);
                    assert(pk@.to_set().contains(x));
                }
            }
            assert forall|x: u64| self@.groups.dom().union(self@.private_channels.dom()).contains(
                x,
            ) implies all.to_set().contains(x) by {
                if self@.groups.dom().contains(x) {
                    let ix = choose|ix: int| 0 <= ix < gk@.len() && gk@[ix] == x;
                    assert(all[ix] == x);
                } else {
                    assert(pk@.to_set().contains(x));
                    let ix = choose|ix: int| 0 <= ix < pk@.len() && pk@[ix] == x;
                    assert(all[gk@.len() + ix] == x);
                }
            }
            assert(all.to_set() =~= self@.groups.dom().union(self@.private_channels.dom()));
            assert forall|a: int, b: int| 0 <= a < b < all.len() implies all[a] != all[b] by {
                if b < gk@.len() {
                } else if a >= gk@.len() {
                } else {
                    assert(gk@.to_set().contains(all[a]));
                    if all[a] == all[b] {
                        assert(pk@.to_set().contains(all[a]));
                        assert(self@.groups.dom().contains(all[a]));
                        assert(self@.private_channels.dom().contains(all[a]));
                    }
                }
            }
        }
        r
    }

    /// The identifiers of every guild the cache knows of, available or not,
    /// in no guaranteed order.
    pub fn all_guilds(&self) -> (r: Vec<GuildId>)
        requires
            self@.wf(),
        ensures
            r@.map_values(|g: GuildId| g.0).to_set() == self@.guilds.dom().union(
                self@.unavailable_guilds,
            ),
            r@.map_values(|g: GuildId| g.0).no_duplicates(),
    {
        let gk = self.guilds.keys();
        let uk = self.unavailable_guilds.members();
        let mut r: Vec<GuildId> = Vec::new();
        let mut i: usize = 0;
        while i < gk.len()
            invariant
                i <= gk@.len(),
                r@.len() == i,
                forall|l: int| 0 <= l < i ==> r@[l] == GuildId(gk@[l]),
            decreases gk@.len() - i,
        {
            r.push(GuildId(gk[i]));
            i = i + 1;
        }
        let mut j: usize = 0;
        while j < uk.len()
            invariant
                j <= uk@.len(),
                r@.len() == gk@.len() + j,
                forall|l: int| 0 <= l < gk@.len() ==> r@[l] == GuildId(gk@[l]),
                forall|l: int| 0 <= l < j ==> r@[gk@.len() + l] == GuildId(uk@[l]),
            decreases uk@.len() - j,
        {
            r.push(GuildId(uk[j]));
            j = j + 1;
        }
        proof {
            let all = r@.map_values(|g: GuildId| g.0);
            assert forall|l: int| 0 <= l < all.len() implies all[l] == r@[l].0 by {}
            assert(all =~= gk@ + uk@);
            assert forall|x: u64| all.to_set().contains(x) implies self@.guilds.dom().union(
                self@.unavailable_guilds,
            ).contains(x) by {
                let ix = choose|ix: int| 0 <= ix < all.len() && all[ix] == x;
                if ix < gk@.len() {
                    assert(gk@[ix] == x);
                    assert(gk@.to_set().contains(x));
                } else {
                    assert(uk@[ix - gk@.len()] == x);
                    assert(uk@.to_set().contains(x));
                }
            }
            assert forall|x: u64| self@.guilds.dom().union(self@.unavailable_guilds).contains(
                x,
            ) implies all.to_set().contains(x) by {
                if self@.guilds.dom().contains(x) {
                    let ix = choose|ix: int| 0 <= ix < gk@.len() && gk@[ix] == x;
                    assert(all[ix] == x);
                } else {
                    assert(uk@.to_set().contains(x));
                    let ix = choose|ix: int| 0 <= ix < uk@.len() && uk@[ix] == x;
                    assert(all[gk@.len() + ix] == x);
                }
            }
            assert(all.to_set() =~= self@.guilds.dom().union(self@.unavailable_guilds));
            assert forall|a: int, b: int| 0 <= a < b < all.len() implies all[a] != all[b] by {
                if b < gk@.len() {
                } else if a >= gk@.len() {
                } else {
                    assert(gk@.to_set().contains(all[a]));
                    if all[a] == all[b] {
                        assert(uk@.to_set().contains(all[a]));
                        assert(self@.guilds.dom().contains(all[a]));
                        assert(self@.unavailable_guilds.contains(all[a]));
                    }
                }
            }
        }
        r
    }

    /// Resolves an identifier across the guild-channel, private-channel and
    /// group tables, in that precedence order, cloning the first match into
    /// its tagged container.
    pub fn channel(&self, id: ChannelId) -> (r: Option<Channel>)
        ensures
            match r {
                Some(ch) => channel_lookup(self@, id.0) == Some(ch@),
                None => channel_lookup(self@, id.0) is None,
            },
    {
        if let Some(c) = self.channels.get(id.0) {
            return Some(Channel::Guild(c.clone()));
        }
        if let Some(p) = self.private_channels.get(id.0) {
            return Some(Channel::Private(p.clone()));
        }
        if let Some(g) = self.groups.get(id.0) {
            return Some(Channel::Group(g.clone()));
        }
        None
    }

    /// The cached guild with the given identifier, if any.
    pub fn guild(&self, id: GuildId) -> (r: Option<&Guild>)
        ensures
            match r {
                Some(g) => self@.guilds.contains_key(id.0) && g@ == self@.guilds[id.0],
                None => !self@.guilds.contains_key(id.0),
            },
    {
        self.guilds.get(id.0)
    }

    /// The cached guild channel with the given identifier, if any.
    pub fn guild_channel(&self, id: ChannelId) -> (r: Option<&GuildChannel>)
        ensures
            match r {
                Some(c) => self@.channels.contains_key(id.0) && c@ == self@.channels[id.0],
                None => !self@.channels.contains_key(id.0),
            },
    {
        self.channels.get(id.0)
    }

    /// The cached group with the given channel identifier, if any.
    pub fn group(&self, id: ChannelId) -> (r: Option<&Group>)
        ensures
            match r {
                Some(g) => self@.groups.contains_key(id.0) && g@ == self@.groups[id.0],
                None => !self@.groups.contains_key(id.0),
            },
    {
        self.groups.get(id.0)
    }

    /// The cached private channel with the given identifier, if any.
    pub fn private_channel(&self, channel_id: ChannelId) -> (r: Option<&PrivateChannel>)
        ensures
            match r {
                Some(p) => self@.private_channels.contains_key(channel_id.0) && *p
                    == self@.private_channels[channel_id.0],
                None => !self@.private_channels.contains_key(channel_id.0),
            },
    {
        self.private_channels.get(channel_id.0)
    }

    /// The cached category with the given channel identifier, if any.
    pub fn categories(&self, channel_id: ChannelId) -> (r: Option<&ChannelCategory>)
        ensures
            match r {
                Some(c) => self@.categories.contains_key(channel_id.0) && *c
                    == self@.categories[channel_id.0],
                None => !self@.categories.contains_key(channel_id.0),
            },
    {
        self.categories.get(channel_id.0)
    }

    /// The canonical record of the user with the given identifier, if any.
    pub fn user(&self, user_id: UserId) -> (r: Option<&User>)
        ensures
            match r {
                Some(u) => self@.users.contains_key(user_id.0) && *u == self@.users[user_id.0],
                None => !self@.users.contains_key(user_id.0),
            },
    {
        self.users.get(user_id.0)
    }

    /// A clone of a guild's member record for the given user, if cached.
    pub fn member(&self, guild_id: GuildId, user_id: UserId) -> (r: Option<Member>)
        ensures
            match r {
                Some(m) => self@.guilds.contains_key(guild_id.0)
                    && self@.guilds[guild_id.0].members.contains_key(user_id.0) && m@
                    == self@.guilds[guild_id.0].members[user_id.0],
                None => !self@.guilds.contains_key(guild_id.0)
                    || !self@.guilds[guild_id.0].members.contains_key(user_id.0),
            },
    {
        match self.guilds.get(guild_id.0) {
            Some(g) => match g.members.get(user_id.0) {
                Some(m) => Some(m.clone()),
                None => None,
            },
            None => None,
        }
    }

    /// A clone of a guild's role record, if cached.
    pub fn role(&self, guild_id: GuildId, role_id: RoleId) -> (r: Option<Role>)
        ensures
            match r {
                Some(x) => self@.guilds.contains_key(guild_id.0)
                    && self@.guilds[guild_id.0].roles.contains_key(role_id.0) && x
                    == self@.guilds[guild_id.0].roles[role_id.0],
                None => !self@.guilds.contains_key(guild_id.0)
                    || !self@.guilds[guild_id.0].roles.contains_key(role_id.0),
            },
    {
        match self.guilds.get(guild_id.0) {
            Some(g) => match g.roles.get(role_id.0) {
                Some(x) => Some(x.clone()),
                None => None,
            },
            None => None,
        }
    }

    /// A clone of a channel's cached message, if cached.
    pub fn message(&self, channel_id: ChannelId, message_id: MessageId) -> (r: Option<Message>)
        ensures
            match r {
                Some(m) => self@.messages.contains_key(channel_id.0)
                    && self@.messages[channel_id.0].contains_key(message_id.0) && m@
                    == self@.messages[channel_id.0][message_id.0],
                None => !self@.messages.contains_key(channel_id.0)
                    || !self@.messages[channel_id.0].contains_key(message_id.0),
            },
    {
        match self.messages.get(channel_id.0) {
            Some(msgs) => match msgs.get(message_id.0) {
                Some(m) => Some(m.clone()),
                None => None,
            },
            None => None,
        }
    }

    /// Upserts the canonical record for a user. Called whenever an event
    /// carries embedded user data, so that every path that resolves the
    /// user's identifier observes the latest applied fields.
    pub(crate) fn update_user_entry(&mut self, user: &User)
        ensures
            final(self)@ == (CacheView {
                users: old(self)@.users.insert(user.id.0, *user),
                ..old(self)@
            }),
    {
        self.users.insert(user.id.0, user.clone());
    }
}

/// The display name an identifier resolves to: a guild channel's or
/// category's own name, the canonical name of a private channel's recipient,
/// or a group's name where one is set. Nothing where the channel is not
/// cached, the recipient's record is missing, or the group is unnamed.
pub open spec fn channel_display_name(s: CacheView, c: u64) -> Option<String> {
    match channel_lookup(s, c) {
        Some(ChannelView::Guild(ch)) => Some(ch.name),
        Some(ChannelView::Private(p)) => if s.users.contains_key(p.recipient_id.0) {
            Some(s.users[p.recipient_id.0].name)
        } else {
            None
        },
        Some(ChannelView::Group(g)) => g.name,
        Some(ChannelView::Category(ch)) => Some(ch.name),
        None => None,
    }
}

impl ChannelId {
    /// Resolves this identifier against a cache, exactly as the store's own
    /// polymorphic channel lookup does.
    pub fn to_channel_cached(self, cache: &Cache) -> (r: Option<Channel>)
        ensures
            match r {
                Some(ch) => channel_lookup(cache@, self.0) == Some(ch@),
                None => channel_lookup(cache@, self.0) is None,
            },
    {
        cache.channel(self)
    }

    /// The name of whatever channel this identifier resolves to in the
    /// cache, as `channel_display_name` says.
    pub fn name(self, cache: &Cache) -> (r: Option<String>)
        ensures
            r == channel_display_name(cache@, self.0),
    {
        if let Some(c) = cache.channels.get(self.0) {
            return Some(c.name.clone());
        }
        if let Some(p) = cache.private_channels.get(self.0) {
            return match cache.users.get(p.recipient_id.0) {
                Some(u) => Some(u.name.clone()),
                None => None,
            };
        }
        if let Some(g) = cache.groups.get(self.0) {
            return match &g.name {
                Some(n) => Some(n.clone()),
                None => None,
            };
        }
        None
    }
}

/// Parsing with the cache at hand: the cache-aware analogue of the standard
/// string-parsing trait, for types whose textual form names a cached entity.
pub trait FromStrAndCache: Sized {
    /// The error returned when the text does not resolve.
    type Err;

    /// Parses `s`, consulting `cache` to resolve identifiers.
    fn from_str(cache: &Cache, s: &str) -> Result<Self, Self::Err>;
}

/// An extension lending `parse_cached` to string slices.
pub trait StrExt {
    /// Parses this text with the cache at hand.
    fn parse_cached<F: FromStrAndCache>(&self, cache: &Cache) -> Result<F, F::Err>;
}

impl StrExt for str {
    fn parse_cached<F: FromStrAndCache>(&self, cache: &Cache) -> Result<F, F::Err> {
        F::from_str(cache, self)
    }
}

} // verus!
