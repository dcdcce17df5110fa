use serenity::cache::Cache;
use serenity::channel::{Channel, ChannelType, GuildChannel};
use serenity::event::{
    CacheUpdate, ChannelDeleteEvent, GuildCreateEvent, GuildDeleteEvent, GuildMemberAddEvent,
    GuildUnavailableEvent, MessageCreateEvent, MessageDeleteBulkEvent, MessageDeleteEvent,
    MessageUpdateEvent,
};
use serenity::guild::{Guild, Member, PartialGuild};
use serenity::id::{ChannelId, GuildId, MessageId, UserId};
use serenity::idmap::IdMap;
use serenity::message::{Embed, Message, MessageType};
use serenity::settings::Settings;
use serenity::user::User;

fn test_user(id: u64, name: &str) -> User {
    User {
        id: UserId(id),
        avatar: None,
        bot: false,
        discriminator: 1,
        name: name.to_owned(),
    }
}

fn test_message(id: u64, channel: u64, author: User) -> Message {
    Message {
        id: MessageId(id),
        attachments: vec![],
        author,
        channel_id: ChannelId(channel),
        guild_id: Some(GuildId(1)),
        content: String::new(),
        edited_timestamp: None,
        embeds: vec![],
        kind: MessageType::Regular,
        mention_everyone: false,
        mention_roles: vec![],
        mentions: vec![],
        pinned: false,
        reactions: vec![],
        timestamp: "1983 Apr 13 12:09:14.274 +0000".to_owned(),
        tts: false,
    }
}

fn test_guild_channel(id: u64, guild: u64) -> GuildChannel {
    GuildChannel {
        id: ChannelId(id),
        bitrate: None,
        category_id: None,
        guild_id: GuildId(guild),
        kind: ChannelType::Text,
        last_message_id: None,
        last_pin_timestamp: None,
        name: String::new(),
        permission_overwrites: vec![],
        position: 0,
        topic: None,
        user_limit: None,
        nsfw: false,
        slow_mode_rate: Some(0),
    }
}

fn test_guild(id: u64, channels: IdMap<GuildChannel>) -> Guild {
    Guild {
        id: GuildId(id),
        afk_timeout: 0,
        channels,
        emojis: IdMap::new(),
        icon: None,
        joined_at: "1983 Apr 13 12:09:14.274 +0000".to_owned(),
        large: false,
        member_count: 0,
        members: IdMap::new(),
        name: String::new(),
        owner_id: UserId(3),
        presences: IdMap::new(),
        region: String::new(),
        roles: IdMap::new(),
        splash: None,
        voice_states: IdMap::new(),
    }
}

#[test]
fn test_cache_messages() {
    let mut settings = Settings::new();
    settings.max_messages(2);
    let mut cache = Cache::new_with_settings(settings);

    let mut event = MessageCreateEvent {
        message: test_message(3, 2, test_user(2, "user 1")),
    };
    // The channel's message table does not exist yet.
    assert!(!cache.messages.contains_key(event.message.channel_id.0));
    // First insertion evicts nothing.
    assert!(event.update(&mut cache).is_none());
    // Re-delivery of the same identifier evicts nothing either.
    assert!(event.update(&mut cache).is_none());
    assert_eq!(cache.messages.get(event.message.channel_id.0).unwrap().len(), 1);

    // A second message fills the channel to its cap of two.
    event.message.id = MessageId(4);
    assert!(event.update(&mut cache).is_none());
    assert_eq!(cache.messages.get(event.message.channel_id.0).unwrap().len(), 2);

    // A third message evicts the oldest.
    event.message.id = MessageId(5);
    assert!(event.update(&mut cache).is_some());
    {
        let channel = cache.messages.get(event.message.channel_id.0).unwrap();
        assert_eq!(channel.len(), 2);
        assert!(!channel.contains_key(MessageId(3).0));
    }

    let guild_channel = test_guild_channel(2, 1);

    // Deleting the channel purges its message cache.
    let mut delete = ChannelDeleteEvent {
        channel: Channel::Guild(guild_channel.clone()),
    };
    assert!(cache.update(&mut delete).is_none());
    assert!(!cache.messages.contains_key(delete.channel.id().0));

    // Recreate the guild owning channel 2, cache a message there, and check
    // that deleting the guild tears the channel's message cache down.
    let mut channels = IdMap::new();
    channels.insert(2, guild_channel.clone());
    let mut guild_create = GuildCreateEvent {
        guild: test_guild(1, channels),
    };
    assert!(cache.update(&mut guild_create).is_none());
    assert!(cache.update(&mut event).is_none());

    let mut guild_delete = GuildDeleteEvent {
        guild: PartialGuild {
            id: GuildId(1),
            afk_timeout: 0,
            icon: None,
            name: String::new(),
            owner_id: UserId(3),
            region: String::new(),
            splash: None,
        },
    };
    // The guild existed in the cache, so the cached entity comes back.
    assert!(cache.update(&mut guild_delete).is_some());
    // The channel's message cache no longer exists.
    assert!(!cache.messages.contains_key(ChannelId(2).0));
}

#[test]
fn bounded_retention_keeps_most_recent() {
    let mut settings = Settings::new();
    settings.max_messages(2);
    let mut cache = Cache::new_with_settings(settings);

    // Creations 1, 2, 3, 2, 4 under a cap of two: the retained entries are
    // always the two most recently created distinct identifiers.
    for (id, expect_eviction) in [(1, false), (2, false), (3, true), (2, false), (4, true)] {
        let mut e = MessageCreateEvent {
            message: test_message(id, 7, test_user(2, "user 1")),
        };
        assert_eq!(e.update(&mut cache).is_some(), expect_eviction);
    }
    let channel = cache.messages.get(7).unwrap();
    assert_eq!(channel.len(), 2);
    assert!(channel.contains_key(2));
    assert!(channel.contains_key(4));
    assert!(!channel.contains_key(1));
    assert!(!channel.contains_key(3));
}

#[test]
fn zero_retention_stores_nothing() {
    let mut cache = Cache::new();
    let mut e = MessageCreateEvent {
        message: test_message(1, 7, test_user(2, "user 1")),
    };
    assert!(e.update(&mut cache).is_none());
    assert!(!cache.messages.contains_key(7));
    // The author's canonical record is still upserted.
    assert!(cache.user(UserId(2)).is_some());
}

#[test]
fn eviction_returns_prior_content() {
    let mut settings = Settings::new();
    settings.max_messages(1);
    let mut cache = Cache::new_with_settings(settings);

    let mut first = test_message(10, 7, test_user(2, "user 1"));
    first.content = "oldest words".to_owned();
    let mut e = MessageCreateEvent { message: first };
    assert!(e.update(&mut cache).is_none());

    e.message = test_message(11, 7, test_user(2, "user 1"));
    let evicted = e.update(&mut cache).expect("the cap of one forces an eviction");
    assert_eq!(evicted.id, MessageId(10));
    assert_eq!(evicted.content, "oldest words");
}

#[test]
fn idempotent_message_delete() {
    let mut settings = Settings::new();
    settings.max_messages(5);
    let mut cache = Cache::new_with_settings(settings);

    let mut create = MessageCreateEvent {
        message: test_message(10, 7, test_user(2, "user 1")),
    };
    assert!(create.update(&mut cache).is_none());

    // Deleting an identifier that is not cached is a no-op returning nothing.
    let mut miss = MessageDeleteEvent {
        channel_id: ChannelId(7),
        message_id: MessageId(99),
    };
    assert!(miss.update(&mut cache).is_none());
    assert_eq!(cache.messages.get(7).unwrap().len(), 1);

    // Deleting the cached identifier removes it; a lookup then yields
    // nothing, and a second delete is again a no-op.
    let mut hit = MessageDeleteEvent {
        channel_id: ChannelId(7),
        message_id: MessageId(10),
    };
    assert!(hit.update(&mut cache).is_none());
    assert!(cache.message(ChannelId(7), MessageId(10)).is_none());
    assert!(hit.update(&mut cache).is_none());
    assert_eq!(cache.messages.get(7).unwrap().len(), 0);
}

#[test]
fn bulk_delete_ignores_missing_ids() {
    let mut settings = Settings::new();
    settings.max_messages(5);
    let mut cache = Cache::new_with_settings(settings);

    for id in [10, 11, 12] {
        let mut e = MessageCreateEvent {
            message: test_message(id, 7, test_user(2, "user 1")),
        };
        e.update(&mut cache);
    }
    let mut bulk = MessageDeleteBulkEvent {
        channel_id: ChannelId(7),
        ids: vec![MessageId(10), MessageId(99), MessageId(12)],
    };
    assert!(bulk.update(&mut cache).is_none());
    let channel = cache.messages.get(7).unwrap();
    assert_eq!(channel.len(), 1);
    assert!(channel.contains_key(11));
}

#[test]
fn guild_teardown_cascades() {
    let mut settings = Settings::new();
    settings.max_messages(5);
    let mut cache = Cache::new_with_settings(settings);

    let mut channels = IdMap::new();
    channels.insert(21, test_guild_channel(21, 1));
    channels.insert(22, test_guild_channel(22, 1));
    let mut guild_create = GuildCreateEvent {
        guild: test_guild(1, channels),
    };
    assert!(cache.update(&mut guild_create).is_none());
    assert!(cache.guild(GuildId(1)).is_some());
    assert!(cache.guild_channel(ChannelId(21)).is_some());
    assert!(cache.guild_channel(ChannelId(22)).is_some());

    for ch in [21, 22] {
        let mut e = MessageCreateEvent {
            message: test_message(100 + ch, ch, test_user(2, "user 1")),
        };
        e.update(&mut cache);
        assert!(cache.messages.contains_key(ch));
    }

    let mut unavailable = GuildUnavailableEvent { guild_id: GuildId(1) };
    assert!(cache.update(&mut unavailable).is_some());
    // The guild entity, both channels and their message caches are gone, and
    // the identifier moved to the unavailable set.
    assert!(cache.guild(GuildId(1)).is_none());
    for ch in [21u64, 22u64] {
        assert!(cache.guild_channel(ChannelId(ch)).is_none());
        assert!(cache.channel(ChannelId(ch)).is_none());
        assert!(!cache.messages.contains_key(ch));
    }
    let all = cache.all_guilds();
    assert_eq!(all, vec![GuildId(1)]);

    // Tearing down a guild that is only unavailable hands nothing back.
    let mut guild_delete = GuildDeleteEvent {
        guild: PartialGuild {
            id: GuildId(1),
            afk_timeout: 0,
            icon: None,
            name: String::new(),
            owner_id: UserId(3),
            region: String::new(),
            splash: None,
        },
    };
    assert!(cache.update(&mut guild_delete).is_none());
    assert!(cache.all_guilds().is_empty());
}

#[test]
fn partial_update_preserves_unspecified_fields() {
    let mut settings = Settings::new();
    settings.max_messages(5);
    let mut cache = Cache::new_with_settings(settings);

    let mut sent = test_message(10, 7, test_user(2, "user 1"));
    sent.content = "first words".to_owned();
    sent.embeds = vec![Embed {
        title: Some("a title".to_owned()),
        description: None,
        url: None,
    }];
    sent.pinned = true;
    let mut create = MessageCreateEvent { message: sent };
    create.update(&mut cache);

    let mut update = MessageUpdateEvent {
        id: MessageId(10),
        channel_id: ChannelId(7),
        content: Some("new words".to_owned()),
        edited_timestamp: None,
        embeds: None,
        kind: None,
        mention_everyone: None,
        mention_roles: None,
        mentions: None,
        pinned: None,
        tts: None,
    };
    let prior = update.update(&mut cache).expect("the message is cached");
    assert_eq!(prior.content, "first words");

    let stored = cache.message(ChannelId(7), MessageId(10)).unwrap();
    assert_eq!(stored.content, "new words");
    // Everything the edit did not carry is exactly as it was.
    assert_eq!(stored.timestamp, "1983 Apr 13 12:09:14.274 +0000");
    assert_eq!(stored.author.name, "user 1");
    assert_eq!(stored.embeds.len(), 1);
    assert_eq!(stored.embeds[0].title.as_deref(), Some("a title"));
    assert!(stored.pinned);
    assert!(stored.edited_timestamp.is_none());
}

#[test]
fn update_missing_message_is_silent() {
    let mut cache = Cache::new();
    let mut update = MessageUpdateEvent {
        id: MessageId(10),
        channel_id: ChannelId(7),
        content: Some("new words".to_owned()),
        edited_timestamp: None,
        embeds: None,
        kind: None,
        mention_everyone: None,
        mention_roles: None,
        mentions: None,
        pinned: None,
        tts: None,
    };
    assert!(update.update(&mut cache).is_none());
    assert!(cache.message(ChannelId(7), MessageId(10)).is_none());
}

#[test]
fn canonical_user_is_shared() {
    let mut settings = Settings::new();
    settings.max_messages(5);
    let mut cache = Cache::new_with_settings(settings);

    let mut guild_create = GuildCreateEvent {
        guild: test_guild(1, IdMap::new()),
    };
    cache.update(&mut guild_create);

    // A member joins under one name.
    let mut add = GuildMemberAddEvent {
        guild_id: GuildId(1),
        member: Member {
            guild_id: GuildId(1),
            nick: None,
            roles: vec![],
            user_id: UserId(2),
        },
        user: test_user(2, "old name"),
    };
    cache.update(&mut add);
    assert_eq!(cache.user(UserId(2)).unwrap().name, "old name");

    // The same user then sends a message under a newer name.
    let mut create = MessageCreateEvent {
        message: test_message(10, 7, test_user(2, "new name")),
    };
    cache.update(&mut create);

    // Exactly one canonical record exists for the identifier, carrying the
    // latest-applied fields, and the member record resolves to it.
    assert_eq!(cache.user(UserId(2)).unwrap().name, "new name");
    let member = cache.member(GuildId(1), UserId(2)).unwrap();
    assert_eq!(member.user_id, UserId(2));
    assert_eq!(cache.user(member.user_id).unwrap().name, "new name");
    // The documented exception: the message keeps its author snapshot as of
    // send time rather than following the canonical record.
    let stored = cache.message(ChannelId(7), MessageId(10)).unwrap();
    assert_eq!(stored.author.name, "new name");
    let mut add_again = GuildMemberAddEvent {
        guild_id: GuildId(1),
        member: Member {
            guild_id: GuildId(1),
            nick: None,
            roles: vec![],
            user_id: UserId(2),
        },
        user: test_user(2, "renamed"),
    };
    cache.update(&mut add_again);
    assert_eq!(cache.user(UserId(2)).unwrap().name, "renamed");
    let stored = cache.message(ChannelId(7), MessageId(10)).unwrap();
    assert_eq!(stored.author.name, "new name");
}
