use serenity::cache::{Cache, FromStrAndCache, StrExt};
use serenity::channel::{Channel, ChannelType, Group, GuildChannel, PrivateChannel};
use serenity::event::{
    ChannelCreateEvent, ChunkedMember, GuildCreateEvent, GuildMemberAddEvent,
    GuildMembersChunkEvent, GuildMemberUpdateEvent, VoiceStateUpdateEvent,
};
use serenity::guild::{Guild, Member, VoiceState};
use serenity::id::{ChannelId, GuildId, RoleId, UserId};
use serenity::idmap::IdMap;
use serenity::mention::{parse_channel, ChannelParseError};
use serenity::settings::Settings;
use serenity::user::User;

fn plain_user(id: u64, name: &str) -> User {
    User {
        id: UserId(id),
        avatar: None,
        bot: false,
        discriminator: 1,
        name: name.to_owned(),
    }
}

fn plain_member(guild: u64, user: u64) -> Member {
    Member {
        guild_id: GuildId(guild),
        nick: None,
        roles: vec![],
        user_id: UserId(user),
    }
}

fn plain_guild(id: u64) -> Guild {
    Guild {
        id: GuildId(id),
        afk_timeout: 0,
        channels: IdMap::new(),
        emojis: IdMap::new(),
        icon: None,
        joined_at: String::new(),
        large: false,
        member_count: 0,
        members: IdMap::new(),
        name: String::new(),
        owner_id: UserId(3),
        presences: IdMap::new(),
        region: String::new(),
        roles: IdMap::new(),
        splash: None,
        voice_states: IdMap::new(),
    }
}

#[test]
fn member_update_replaces_nick_and_roles() {
    let mut cache = Cache::new();
    cache.update(&mut GuildCreateEvent { guild: plain_guild(1) });
    cache.update(&mut GuildMemberAddEvent {
        guild_id: GuildId(1),
        member: plain_member(1, 2),
        user: plain_user(2, "user 1"),
    });

    let prior = cache
        .update(&mut GuildMemberUpdateEvent {
            guild_id: GuildId(1),
            user: plain_user(2, "renamed"),
            nick: Some("kona".to_owned()),
            roles: vec![RoleId(9)],
        })
        .expect("the member is cached");
    assert!(prior.nick.is_none());
    assert!(prior.roles.is_empty());

    let member = cache.member(GuildId(1), UserId(2)).unwrap();
    assert_eq!(member.nick.as_deref(), Some("kona"));
    assert_eq!(member.roles, vec![RoleId(9)]);
    // The carried user record refreshed the canonical table.
    assert_eq!(cache.user(UserId(2)).unwrap().name, "renamed");

    // An update for a member never observed is dropped.
    assert!(cache
        .update(&mut GuildMemberUpdateEvent {
            guild_id: GuildId(1),
            user: plain_user(5, "stranger"),
            nick: None,
            roles: vec![],
        })
        .is_none());
    assert!(cache.member(GuildId(1), UserId(5)).is_none());
}

#[test]
fn members_chunk_respects_user_policy() {
    // Under the default policy a chunk installs every carried user.
    let mut cache = Cache::new();
    cache.update(&mut GuildCreateEvent { guild: plain_guild(1) });
    cache.update(&mut GuildMembersChunkEvent {
        guild_id: GuildId(1),
        members: vec![
            ChunkedMember { member: plain_member(1, 2), user: plain_user(2, "user 1") },
            ChunkedMember { member: plain_member(1, 5), user: plain_user(5, "user 5") },
        ],
    });
    assert!(cache.member(GuildId(1), UserId(2)).is_some());
    assert!(cache.member(GuildId(1), UserId(5)).is_some());
    assert_eq!(cache.user(UserId(2)).unwrap().name, "user 1");
    assert_eq!(cache.user(UserId(5)).unwrap().name, "user 5");

    // With the toggle off, a chunk refreshes known users but adds no new
    // ones; member records are installed either way.
    let mut settings = Settings::new();
    settings.cache_all_unknown_users(false);
    let mut cache = Cache::new_with_settings(settings);
    cache.update(&mut GuildCreateEvent { guild: plain_guild(1) });
    cache.update(&mut GuildMemberAddEvent {
        guild_id: GuildId(1),
        member: plain_member(1, 2),
        user: plain_user(2, "old name"),
    });
    cache.update(&mut GuildMembersChunkEvent {
        guild_id: GuildId(1),
        members: vec![
            ChunkedMember { member: plain_member(1, 2), user: plain_user(2, "fresh name") },
            ChunkedMember { member: plain_member(1, 5), user: plain_user(5, "user 5") },
        ],
    });
    assert_eq!(cache.user(UserId(2)).unwrap().name, "fresh name");
    assert!(cache.user(UserId(5)).is_none());
    assert!(cache.member(GuildId(1), UserId(5)).is_some());
}

#[test]
fn voice_states_follow_connections() {
    let mut cache = Cache::new();
    cache.update(&mut GuildCreateEvent { guild: plain_guild(1) });

    let connected = VoiceState {
        channel_id: Some(ChannelId(30)),
        deaf: false,
        mute: false,
        self_deaf: false,
        self_mute: true,
        session_id: "abc".to_owned(),
        user_id: UserId(2),
    };
    assert!(cache
        .update(&mut VoiceStateUpdateEvent {
            guild_id: Some(GuildId(1)),
            voice_state: connected.clone(),
        })
        .is_none());
    {
        let guild = cache.guild(GuildId(1)).unwrap();
        let stored = guild.voice_states.get(2).unwrap();
        assert_eq!(stored.channel_id, Some(ChannelId(30)));
        assert!(stored.self_mute);
    }

    // Disconnecting withdraws the entry and hands the old state back.
    let disconnected = VoiceState {
        channel_id: None,
        ..connected
    };
    let prior = cache
        .update(&mut VoiceStateUpdateEvent {
            guild_id: Some(GuildId(1)),
            voice_state: disconnected,
        })
        .expect("the member was connected");
    assert_eq!(prior.channel_id, Some(ChannelId(30)));
    assert!(cache.guild(GuildId(1)).unwrap().voice_states.get(2).is_none());
}

#[test]
fn channel_mentions_parse() {
    assert_eq!(parse_channel("<#123>"), Some(123));
    assert_eq!(parse_channel("<#0>"), Some(0));
    assert_eq!(parse_channel("<#18446744073709551615>"), Some(u64::MAX));
    assert_eq!(parse_channel("<#18446744073709551616>"), None);
    assert_eq!(parse_channel("<#>"), None);
    assert_eq!(parse_channel("<#12a3>"), None);
    assert_eq!(parse_channel("<@123>"), None);
    assert_eq!(parse_channel("123"), None);
    assert_eq!(parse_channel(""), None);
}

#[test]
fn from_str_resolves_cached_channels() {
    let mut cache = Cache::new();
    let channel = GuildChannel {
        id: ChannelId(123),
        bitrate: None,
        category_id: None,
        guild_id: GuildId(1),
        kind: ChannelType::Text,
        last_message_id: None,
        last_pin_timestamp: None,
        name: "general".to_owned(),
        permission_overwrites: vec![],
        position: 0,
        topic: None,
        user_limit: None,
        nsfw: false,
        slow_mode_rate: None,
    };
    cache.update(&mut ChannelCreateEvent { channel: Channel::Guild(channel) });

    match Channel::from_str(&cache, "<#123>") {
        Ok(Channel::Guild(c)) => assert_eq!(c.name, "general"),
        _ => panic!("the mentioned channel is cached"),
    }
    match Channel::from_str(&cache, "<#999>") {
        Err(e) => assert_eq!(e, ChannelParseError::NotPresentInCache),
        Ok(_) => panic!("channel 999 is not cached"),
    }
    match Channel::from_str(&cache, "general") {
        Err(e) => assert_eq!(e, ChannelParseError::InvalidChannel),
        Ok(_) => panic!("plain text is no mention"),
    }
    // The same parse through the string extension.
    let parsed: Result<Channel, ChannelParseError> = "<#123>".parse_cached(&cache);
    assert!(parsed.is_ok());
}

#[test]
fn channel_names_resolve_from_the_cache() {
    let mut cache = Cache::new();
    let channel = GuildChannel {
        id: ChannelId(20),
        bitrate: None,
        category_id: None,
        guild_id: GuildId(1),
        kind: ChannelType::Text,
        last_message_id: None,
        last_pin_timestamp: None,
        name: "general".to_owned(),
        permission_overwrites: vec![],
        position: 0,
        topic: None,
        user_limit: None,
        nsfw: false,
        slow_mode_rate: None,
    };
    cache.update(&mut ChannelCreateEvent { channel: Channel::Guild(channel) });
    assert_eq!(ChannelId(20).name(&cache).as_deref(), Some("general"));

    // A private channel takes the recipient's canonical name, once known.
    cache.update(&mut ChannelCreateEvent {
        channel: Channel::Private(PrivateChannel {
            id: ChannelId(21),
            last_message_id: None,
            last_pin_timestamp: None,
            kind: ChannelType::Private,
            recipient_id: UserId(2),
        }),
    });
    assert_eq!(ChannelId(21).name(&cache), None);
    cache.update(&mut GuildMemberAddEvent {
        guild_id: GuildId(9),
        member: plain_member(9, 2),
        user: plain_user(2, "user 1"),
    });
    assert_eq!(ChannelId(21).name(&cache).as_deref(), Some("user 1"));

    // A group resolves to its own name, where one is set.
    cache.update(&mut ChannelCreateEvent {
        channel: Channel::Group(Group {
            channel_id: ChannelId(22),
            icon: None,
            last_message_id: None,
            last_pin_timestamp: None,
            name: Some("the gang".to_owned()),
            owner_id: UserId(2),
            recipient_ids: vec![],
        }),
    });
    assert_eq!(ChannelId(22).name(&cache).as_deref(), Some("the gang"));
    assert_eq!(ChannelId(99).name(&cache), None);
}

#[test]
fn settings_policy_toggles() {
    let settings = Settings::new();
    assert_eq!(settings.max_messages, 0);
    assert!(settings.cache_all_unknown_users);

    let mut settings = Settings::new();
    settings.max_messages(7);
    settings.cache_all_unknown_users(false);
    assert_eq!(settings.max_messages, 7);
    assert!(!settings.cache_all_unknown_users);
}
