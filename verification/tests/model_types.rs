use serenity::cache::Cache;
use serenity::channel::{
    Channel, ChannelType, Group, GuildChannel, PermissionOverwrite, PermissionOverwriteType,
    Permissions, PrivateChannel,
};
use serenity::event::{CacheUpdate, ChannelCreateEvent, ChannelRecipientAddEvent,
    ChannelRecipientRemoveEvent, GuildCreateEvent, GuildEmojisUpdateEvent, GuildMemberAddEvent,
    GuildRoleCreateEvent, GuildRoleDeleteEvent, GuildUpdateEvent, PresenceUpdateEvent, Ready,
    ReadyEvent};
use serenity::guild::{Emoji, Guild, Member, PartialGuild, Role};
use serenity::id::EmojiId;
use serenity::http::{is_remote_attachment_source, DiscordJsonError, LightMethod};
use serenity::id::{AttachmentId, ChannelId, GuildId, RoleId, UserId};
use serenity::idmap::IdMap;
use serenity::message::Attachment;
use serenity::settings::Settings;
use serenity::strutil::{bytes_eq, has_byte_prefix};
use serenity::user::{CurrentUser, OnlineStatus, Presence, User};

fn group() -> Group {
    Group {
        channel_id: ChannelId(1),
        icon: None,
        last_message_id: None,
        last_pin_timestamp: None,
        name: None,
        owner_id: UserId(2),
        recipient_ids: vec![],
    }
}

fn guild_channel() -> GuildChannel {
    GuildChannel {
        id: ChannelId(1),
        bitrate: None,
        category_id: None,
        guild_id: GuildId(2),
        kind: ChannelType::Text,
        last_message_id: None,
        last_pin_timestamp: None,
        name: "nsfw-stuff".to_string(),
        permission_overwrites: vec![],
        position: 0,
        topic: None,
        user_limit: None,
        nsfw: false,
        slow_mode_rate: Some(0),
    }
}

fn private_channel() -> PrivateChannel {
    PrivateChannel {
        id: ChannelId(1),
        last_message_id: None,
        last_pin_timestamp: None,
        kind: ChannelType::Private,
        recipient_id: UserId(2),
    }
}

#[test]
fn nsfw_checks() {
    let mut channel = guild_channel();
    assert!(!channel.is_nsfw());
    channel.kind = ChannelType::Voice;
    assert!(!channel.is_nsfw());

    channel.kind = ChannelType::Text;
    channel.name = "nsfw-".to_string();
    assert!(!channel.is_nsfw());

    channel.name = "nsfw".to_string();
    assert!(!channel.is_nsfw());
    channel.kind = ChannelType::Voice;
    assert!(!channel.is_nsfw());
    channel.kind = ChannelType::Text;

    channel.name = "nsf".to_string();
    channel.nsfw = true;
    assert!(channel.is_nsfw());
    channel.nsfw = false;
    assert!(!channel.is_nsfw());

    let channel = Channel::Guild(channel);
    assert!(!channel.is_nsfw());

    let group = group();
    assert!(!group.is_nsfw());

    let private_channel = private_channel();
    assert!(!private_channel.is_nsfw());
}

#[test]
fn channel_kind_numbers_round_trip() {
    let kinds = [
        ChannelType::Text,
        ChannelType::Private,
        ChannelType::Voice,
        ChannelType::Group,
        ChannelType::Category,
        ChannelType::News,
        ChannelType::Store,
    ];
    for (i, kind) in kinds.iter().enumerate() {
        assert_eq!(kind.num(), i as u64);
        assert_eq!(ChannelType::from_num(i as u64), Some(*kind));
    }
    assert_eq!(ChannelType::from_num(7), None);
    assert_eq!(ChannelType::Text.name(), "text");
    assert_eq!(ChannelType::Group.name(), "group");
    assert_eq!(ChannelType::Store.name(), "store");
}

#[test]
fn channel_container_accessors() {
    let ch = Channel::Guild(guild_channel());
    assert_eq!(ch.id(), ChannelId(1));
    assert_eq!(ch.position(), Some(0));
    assert!(ch.guild().is_some());

    let ch = Channel::Private(private_channel());
    assert_eq!(ch.position(), None);
    assert!(ch.clone().private().is_some());
    assert!(ch.group().is_none());

    let ch = Channel::Group(group());
    assert!(ch.clone().category().is_none());
    assert!(ch.group().is_some());
}

#[test]
fn attachment_dimensions() {
    let mut attachment = Attachment {
        id: AttachmentId(1),
        filename: "kona.png".to_owned(),
        height: Some(600),
        proxy_url: String::new(),
        size: 4096,
        url: String::new(),
        width: Some(800),
    };
    assert_eq!(attachment.dimensions(), Some((800, 600)));
    attachment.height = None;
    assert_eq!(attachment.dimensions(), None);
}

#[test]
fn permission_overwrite_wire_round_trip() {
    let allow = Permissions { bits: 0b1010 };
    let deny = Permissions { bits: 0b0101 };
    let member = PermissionOverwrite::from_wire(allow, deny, 7, "member").unwrap();
    assert_eq!(member.kind, PermissionOverwriteType::Member(UserId(7)));
    let role = PermissionOverwrite::from_wire(allow, deny, 9, "role").unwrap();
    assert_eq!(role.kind, PermissionOverwriteType::Role(RoleId(9)));
    assert!(PermissionOverwrite::from_wire(allow, deny, 7, "everyone").is_none());

    let (id, tag) = member.wire_parts();
    assert_eq!((id, tag), (7, "member"));
    let (id, tag) = role.wire_parts();
    assert_eq!((id, tag), (9, "role"));
    assert_eq!(
        PermissionOverwrite::from_wire(member.allow, member.deny, id, tag).unwrap().kind,
        role.kind
    );
}

#[test]
fn remote_attachment_sources() {
    assert!(is_remote_attachment_source("https://cdn.example/kona.png"));
    assert!(is_remote_attachment_source("http://cdn.example/kona.png"));
    assert!(!is_remote_attachment_source("./dogs/corgis/kona.png"));
    assert!(!is_remote_attachment_source("./cats/copycat.png"));
    assert!(!is_remote_attachment_source(""));
}

#[test]
fn byte_string_helpers() {
    assert!(has_byte_prefix("abcdef", "abc"));
    assert!(has_byte_prefix("abc", ""));
    assert!(!has_byte_prefix("ab", "abc"));
    assert!(bytes_eq("abc", "abc"));
    assert!(!bytes_eq("abc", "abd"));
    assert!(!bytes_eq("abc", "ab"));
}

#[test]
fn json_error_equality() {
    let a = DiscordJsonError {
        code: 40001,
        message: "no such entity".to_owned(),
    };
    let b = a.clone();
    assert!(a == b);
    let c = DiscordJsonError {
        code: 40001,
        message: "different words".to_owned(),
    };
    assert!(a != c);
    assert_eq!(LightMethod::Get, LightMethod::Get);
    assert_ne!(LightMethod::Get, LightMethod::Put);
}

#[test]
fn accessor_surface_misses_are_empty() {
    let cache = Cache::new();
    assert!(cache.channel(ChannelId(1)).is_none());
    assert!(cache.guild(GuildId(1)).is_none());
    assert!(cache.guild_channel(ChannelId(1)).is_none());
    assert!(cache.group(ChannelId(1)).is_none());
    assert!(cache.private_channel(ChannelId(1)).is_none());
    assert!(cache.categories(ChannelId(1)).is_none());
    assert!(cache.user(UserId(1)).is_none());
    assert!(cache.member(GuildId(1), UserId(1)).is_none());
    assert!(cache.role(GuildId(1), RoleId(1)).is_none());
    assert!(cache.message(ChannelId(1), serenity::id::MessageId(1)).is_none());
    assert!(cache.all_guilds().is_empty());
    assert!(cache.all_private_channels().is_empty());
    assert_eq!(cache.unknown_members(), 0);
    assert_eq!(cache.settings().max_messages, 0);
}

#[test]
fn channel_lookup_precedence_and_to_channel_cached() {
    let mut cache = Cache::new();
    let mut create = ChannelCreateEvent {
        channel: Channel::Private(private_channel()),
    };
    assert!(cache.update(&mut create).is_none());
    assert!(cache.private_channel(ChannelId(1)).is_some());

    // A guild channel delivered under the same identifier takes the slot
    // over, and the polymorphic lookup finds the guild channel first.
    let mut create = ChannelCreateEvent {
        channel: Channel::Guild(guild_channel()),
    };
    assert!(cache.update(&mut create).is_none());
    assert!(cache.private_channel(ChannelId(1)).is_none());
    match ChannelId(1).to_channel_cached(&cache) {
        Some(Channel::Guild(c)) => assert_eq!(c.id, ChannelId(1)),
        other => panic!("expected the guild channel, got {:?}", other.is_some()),
    }
}

#[test]
fn guild_nested_updates() {
    let mut cache = Cache::new();
    let mut guild_create = GuildCreateEvent {
        guild: Guild {
            id: GuildId(1),
            afk_timeout: 0,
            channels: IdMap::new(),
            emojis: IdMap::new(),
            icon: None,
            joined_at: String::new(),
            large: false,
            member_count: 5,
            members: IdMap::new(),
            name: "old guild".to_owned(),
            owner_id: UserId(3),
            presences: IdMap::new(),
            region: String::new(),
            roles: IdMap::new(),
            splash: None,
            voice_states: IdMap::new(),
        },
    };
    cache.update(&mut guild_create);

    // The declared member count exceeds the records received so far.
    assert_eq!(cache.unknown_members(), 5);

    let mut add = GuildMemberAddEvent {
        guild_id: GuildId(1),
        member: Member {
            guild_id: GuildId(1),
            nick: Some("kona".to_owned()),
            roles: vec![RoleId(9)],
            user_id: UserId(2),
        },
        user: User {
            id: UserId(2),
            avatar: None,
            bot: false,
            discriminator: 1,
            name: "user 1".to_owned(),
        },
    };
    cache.update(&mut add);
    assert_eq!(cache.unknown_members(), 5);
    let member = cache.member(GuildId(1), UserId(2)).unwrap();
    assert_eq!(member.nick.as_deref(), Some("kona"));
    assert_eq!(member.roles, vec![RoleId(9)]);

    let mut role_create = GuildRoleCreateEvent {
        guild_id: GuildId(1),
        role: Role {
            id: RoleId(9),
            name: "admin".to_owned(),
            colour: 0xAA_BB_CC,
            hoist: false,
            mentionable: true,
            position: 1,
            permissions: Permissions { bits: 8 },
        },
    };
    assert!(cache.update(&mut role_create).is_none());
    assert_eq!(cache.role(GuildId(1), RoleId(9)).unwrap().name, "admin");

    let mut role_delete = GuildRoleDeleteEvent {
        guild_id: GuildId(1),
        role_id: RoleId(9),
    };
    let removed = cache.update(&mut role_delete).unwrap();
    assert_eq!(removed.name, "admin");
    assert!(cache.role(GuildId(1), RoleId(9)).is_none());

    let mut guild_update = GuildUpdateEvent {
        guild: PartialGuild {
            id: GuildId(1),
            afk_timeout: 120,
            icon: None,
            name: "new guild".to_owned(),
            owner_id: UserId(4),
            region: "eu".to_owned(),
            splash: None,
        },
    };
    cache.update(&mut guild_update);
    let guild = cache.guild(GuildId(1)).unwrap();
    assert_eq!(guild.name, "new guild");
    assert_eq!(guild.owner_id, UserId(4));
    assert_eq!(guild.afk_timeout, 120);
    assert_eq!(guild.region, "eu");
    // The nested member table survived the merge.
    assert!(cache.member(GuildId(1), UserId(2)).is_some());

    // The emoji list is replaced wholesale.
    let mut emojis_update = GuildEmojisUpdateEvent {
        guild_id: GuildId(1),
        emojis: vec![Emoji {
            id: EmojiId(31),
            name: "blobcat".to_owned(),
            animated: false,
        }],
    };
    cache.update(&mut emojis_update);
    let guild = cache.guild(GuildId(1)).unwrap();
    assert_eq!(guild.emojis.len(), 1);
    assert_eq!(guild.emojis.get(31).unwrap().name, "blobcat");
    let mut emojis_update = GuildEmojisUpdateEvent {
        guild_id: GuildId(1),
        emojis: vec![],
    };
    cache.update(&mut emojis_update);
    assert_eq!(cache.guild(GuildId(1)).unwrap().emojis.len(), 0);
}

#[test]
fn group_recipients_follow_membership() {
    let mut cache = Cache::new();
    let mut create = ChannelCreateEvent {
        channel: Channel::Group(group()),
    };
    cache.update(&mut create);

    let user = User {
        id: UserId(5),
        avatar: None,
        bot: false,
        discriminator: 1,
        name: "user 5".to_owned(),
    };
    let mut add = ChannelRecipientAddEvent {
        channel_id: ChannelId(1),
        user: user.clone(),
    };
    cache.update(&mut add);
    // Re-delivery does not duplicate the recipient.
    cache.update(&mut add);
    let stored = cache.group(ChannelId(1)).unwrap();
    assert_eq!(stored.recipient_ids, vec![UserId(5)]);
    // The user's canonical record arrived with the event.
    assert_eq!(cache.user(UserId(5)).unwrap().name, "user 5");

    let mut remove = ChannelRecipientRemoveEvent {
        channel_id: ChannelId(1),
        user,
    };
    cache.update(&mut remove);
    let stored = cache.group(ChannelId(1)).unwrap();
    assert!(stored.recipient_ids.is_empty());
    // Removal keeps the canonical record: other structures may still
    // reference the user.
    assert!(cache.user(UserId(5)).is_some());
}

#[test]
fn presence_replaced_wholesale() {
    let mut cache = Cache::new();
    let mut update = PresenceUpdateEvent {
        presence: Presence {
            user_id: UserId(2),
            status: OnlineStatus::Online,
            activity: Some("painting".to_owned()),
        },
        guild_id: None,
    };
    cache.update(&mut update);
    let mut update = PresenceUpdateEvent {
        presence: Presence {
            user_id: UserId(2),
            status: OnlineStatus::Idle,
            activity: None,
        },
        guild_id: None,
    };
    cache.update(&mut update);
    let stored = cache.presences.get(2).unwrap();
    assert_eq!(stored.status, OnlineStatus::Idle);
    assert!(stored.activity.is_none());
}

#[test]
fn ready_seeds_the_store() {
    let mut cache = Cache::new();
    let mut ready = ReadyEvent {
        ready: Ready {
            guilds: vec![GuildId(1), GuildId(2)],
            shard: Some(4),
            user: CurrentUser {
                id: UserId(9),
                name: "the bot".to_owned(),
                bot: true,
                verified: true,
            },
        },
    };
    cache.update(&mut ready);
    assert_eq!(cache.shard_count, 4);
    assert_eq!(cache.user.id, UserId(9));
    assert!(cache.user.bot);
    let mut all: Vec<u64> = cache.all_guilds().iter().map(|g| g.0).collect();
    all.sort_unstable();
    assert_eq!(all, vec![1, 2]);
    assert!(cache.guild(GuildId(1)).is_none());
}

#[test]
fn settings_mutation_applies_to_later_updates() {
    let mut cache = Cache::new();
    cache.settings_mut().max_messages(10);
    assert_eq!(cache.settings().max_messages, 10);

    let mut settings = Settings::new();
    settings.max_messages(3);
    let cache = Cache::new_with_settings(settings);
    assert_eq!(cache.settings().max_messages, 3);
}

#[test]
fn id_map_basic_operations() {
    let mut m: IdMap<String> = IdMap::new();
    assert_eq!(m.len(), 0);
    assert!(m.insert(1, "one".to_owned()).is_none());
    assert!(m.insert(2, "two".to_owned()).is_none());
    assert_eq!(m.insert(1, "uno".to_owned()).as_deref(), Some("one"));
    assert_eq!(m.len(), 2);
    assert!(m.contains_key(1));
    assert_eq!(m.get(1).map(|s| s.as_str()), Some("uno"));
    let mut keys = m.keys();
    keys.sort_unstable();
    assert_eq!(keys, vec![1, 2]);
    assert_eq!(m.remove(2).as_deref(), Some("two"));
    assert!(m.remove(2).is_none());
    assert_eq!(m.len(), 1);
}
