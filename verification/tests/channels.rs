use weecord::buffer::HotlistPriority;
use weecord::buffers::{
    create_buffer_from_channel, create_buffer_from_dm, create_buffer_from_group,
    create_pins_buffer, init,
};
use weecord::model::{
    Cache, Channel, ChannelCategory, ChannelKind, CurrentUser, Group, GuildChannel, OnlineStatus,
    Presence, PrivateChannel, ReadState, User,
};
use weecord::settings::Settings;
use weecord::unread::{has_unread, initial_hotlist, read_cursor};

const READ_MESSAGES: u64 = 0x400;
const READ_MESSAGE_HISTORY: u64 = 0x1_0000;

fn cache() -> Cache {
    Cache {
        user: CurrentUser { id: 1, name: String::from("me") },
        guilds: vec![],
        private_channels: vec![],
        groups: vec![],
        presences: vec![],
        read_state: vec![],
    }
}

fn channel(id: u64, kind: ChannelKind) -> GuildChannel {
    GuildChannel {
        id,
        guild_id: 10,
        name: String::from("general"),
        topic: None,
        kind,
        position: 0,
        last_message_id: None,
        permissions: Some(READ_MESSAGES | READ_MESSAGE_HISTORY),
    }
}

fn user(id: u64, name: &str) -> User {
    User { id, name: String::from(name), discriminator: 42, bot: false }
}

fn settings(use_presence: bool) -> Settings {
    Settings {
        use_presence,
        last_status: OnlineStatus::DoNotDisturb,
        crown_color: String::from("<214>"),
    }
}

#[test]
fn has_unread_compares_cursor_and_newest_message() {
    assert!(!has_unread(Some(5), Some(5)));
    assert!(has_unread(Some(4), Some(5)));
    assert!(has_unread(None, Some(5)));
    assert!(has_unread(Some(5), None));
    assert!(!has_unread(None, None));
}

#[test]
fn muted_always_suppresses_the_hotlist() {
    assert_eq!(initial_hotlist(true, true, HotlistPriority::Message), None);
    assert_eq!(initial_hotlist(false, true, HotlistPriority::Message), None);
    assert_eq!(initial_hotlist(false, false, HotlistPriority::Message), None);
    assert_eq!(
        initial_hotlist(true, false, HotlistPriority::Message),
        Some(HotlistPriority::Message)
    );
    assert_eq!(
        initial_hotlist(true, false, HotlistPriority::Private),
        Some(HotlistPriority::Private)
    );
}

#[test]
fn read_cursor_comes_from_the_cache() {
    let mut c = cache();
    c.read_state.push(ReadState { channel_id: 20, last_message_id: 7 });
    c.read_state.push(ReadState { channel_id: 21, last_message_id: 8 });
    assert_eq!(read_cursor(&c, 21), Some(8));
    assert_eq!(read_cursor(&c, 22), None);
}

#[test]
fn channel_without_read_history_never_yields_a_buffer() {
    let mut manager = init();
    let mut ch = channel(20, ChannelKind::Text);
    ch.permissions = Some(READ_MESSAGES);
    create_buffer_from_channel(&mut manager, &cache(), "Guild", &ch, "@me", false);
    assert_eq!(manager.len(), 0);
    ch.permissions = Some(0);
    create_buffer_from_channel(&mut manager, &cache(), "Guild", &ch, "@me", true);
    assert_eq!(manager.len(), 0);
    ch.permissions = Some(!READ_MESSAGE_HISTORY);
    create_buffer_from_channel(&mut manager, &cache(), "Guild", &ch, "@me", false);
    assert_eq!(manager.len(), 0);
}

#[test]
fn channel_with_read_history_yields_a_buffer() {
    let mut manager = init();
    let mut ch = channel(20, ChannelKind::Text);
    ch.permissions = Some(READ_MESSAGE_HISTORY);
    create_buffer_from_channel(&mut manager, &cache(), "Guild", &ch, "@me", false);
    assert_eq!(manager.len(), 1);
    assert!(manager.get_buffer("10.20").is_some());
}

#[test]
fn channel_with_unknown_permissions_yields_no_buffer() {
    let mut manager = init();
    for kind in [ChannelKind::Text, ChannelKind::News, ChannelKind::Private, ChannelKind::Voice] {
        let mut ch = channel(20, kind);
        ch.permissions = None;
        create_buffer_from_channel(&mut manager, &cache(), "Guild", &ch, "@me", false);
    }
    assert_eq!(manager.len(), 0);
    assert!(manager.get_buffer("10.20").is_none());
}

#[test]
fn category_voice_and_store_channels_are_never_materialized() {
    let mut manager = init();
    for kind in [ChannelKind::Category, ChannelKind::Voice, ChannelKind::Store] {
        create_buffer_from_channel(&mut manager, &cache(), "Guild", &channel(20, kind), "@me", false);
    }
    assert_eq!(manager.len(), 0);
}

#[test]
fn channel_view_holds_its_localvars() {
    let mut manager = init();
    let mut ch = channel(20, ChannelKind::Text);
    ch.topic = Some(String::from("all things"));
    create_buffer_from_channel(&mut manager, &cache(), "Guild", &ch, "@me", false);
    let view = manager.get_buffer("10.20").unwrap();
    assert_eq!(view.short_name().as_str(), "general");
    assert_eq!(view.title().as_str(), "general | all things");
    assert_eq!(view.get_localvar("channelid").unwrap().as_str(), "20");
    assert_eq!(view.get_localvar("guildid").unwrap().as_str(), "10");
    assert_eq!(view.get_localvar("channel").unwrap().as_str(), "general");
    assert_eq!(view.get_localvar("guild_name").unwrap().as_str(), "Guild");
    assert_eq!(view.get_localvar("server").unwrap().as_str(), "Guild");
    assert_eq!(view.get_localvar("type").unwrap().as_str(), "channel");
    assert_eq!(view.get_localvar("nick").unwrap().as_str(), "@me");
    assert_eq!(view.get_localvar("muted").unwrap().as_str(), "0");
    assert_eq!(view.localvars().len(), 8);
    assert_eq!(view.channel_id(), Some(20));
    assert_eq!(view.guild_id(), Some(10));
    assert_eq!(view.hotlist(), None);
}

#[test]
fn creating_a_channel_view_twice_changes_nothing() {
    let mut manager = init();
    let ch = channel(20, ChannelKind::News);
    create_buffer_from_channel(&mut manager, &cache(), "Guild", &ch, "@me", true);
    create_buffer_from_channel(&mut manager, &cache(), "Guild", &ch, "@me", true);
    assert_eq!(manager.len(), 1);
    let view = manager.get_buffer("10.20").unwrap();
    assert_eq!(view.localvars().len(), 8);
    assert_eq!(view.title().as_str(), "general (muted)");
    assert_eq!(view.get_localvar("muted").unwrap().as_str(), "1");
}

#[test]
fn channel_type_labels() {
    let mut manager = init();
    create_buffer_from_channel(&mut manager, &cache(), "G", &channel(1, ChannelKind::Text), "@me", false);
    create_buffer_from_channel(&mut manager, &cache(), "G", &channel(2, ChannelKind::News), "@me", false);
    create_buffer_from_channel(&mut manager, &cache(), "G", &channel(3, ChannelKind::Group), "@me", false);
    create_buffer_from_channel(&mut manager, &cache(), "G", &channel(4, ChannelKind::Private), "@me", false);
    assert_eq!(manager.get_buffer("10.1").unwrap().get_localvar("type").unwrap().as_str(), "channel");
    assert_eq!(manager.get_buffer("10.2").unwrap().get_localvar("type").unwrap().as_str(), "channel");
    assert_eq!(manager.get_buffer("10.3").unwrap().get_localvar("type").unwrap().as_str(), "channel");
    assert_eq!(manager.get_buffer("10.4").unwrap().get_localvar("type").unwrap().as_str(), "private");
}

#[test]
fn channel_titles() {
    let mut manager = init();
    let mut ch = channel(1, ChannelKind::Text);
    create_buffer_from_channel(&mut manager, &cache(), "G", &ch, "@me", false);
    assert_eq!(manager.get_buffer("10.1").unwrap().title().as_str(), "general");
    ch.topic = Some(String::new());
    create_buffer_from_channel(&mut manager, &cache(), "G", &ch, "@me", false);
    assert_eq!(manager.get_buffer("10.1").unwrap().title().as_str(), "general");
    ch.topic = Some(String::from("topic"));
    create_buffer_from_channel(&mut manager, &cache(), "G", &ch, "@me", true);
    assert_eq!(manager.get_buffer("10.1").unwrap().title().as_str(), "general | topic (muted)");
}

#[test]
fn unread_guild_channel_raises_message_tier_unless_muted() {
    let mut c = cache();
    c.read_state.push(ReadState { channel_id: 1, last_message_id: 5 });
    c.read_state.push(ReadState { channel_id: 2, last_message_id: 5 });
    c.read_state.push(ReadState { channel_id: 3, last_message_id: 9 });
    let mut manager = init();
    let mut unread = channel(1, ChannelKind::Text);
    unread.last_message_id = Some(9);
    let mut muted = channel(2, ChannelKind::Text);
    muted.last_message_id = Some(9);
    let mut read = channel(3, ChannelKind::Text);
    read.last_message_id = Some(9);
    let mut never_read = channel(4, ChannelKind::Text);
    never_read.last_message_id = Some(9);
    create_buffer_from_channel(&mut manager, &c, "G", &unread, "@me", false);
    create_buffer_from_channel(&mut manager, &c, "G", &muted, "@me", true);
    create_buffer_from_channel(&mut manager, &c, "G", &read, "@me", false);
    create_buffer_from_channel(&mut manager, &c, "G", &never_read, "@me", false);
    assert_eq!(manager.get_buffer("10.1").unwrap().hotlist(), Some(HotlistPriority::Message));
    assert_eq!(manager.get_buffer("10.2").unwrap().hotlist(), None);
    assert_eq!(manager.get_buffer("10.3").unwrap().hotlist(), None);
    assert_eq!(manager.get_buffer("10.4").unwrap().hotlist(), Some(HotlistPriority::Message));
}

#[test]
fn dm_view_is_filled_in() {
    let mut c = cache();
    c.presences.push(Presence { user_id: 2, status: OnlineStatus::Idle });
    let dm = Channel::Private(PrivateChannel {
        id: 30,
        last_message_id: Some(3),
        recipient: user(2, "Alice"),
    });
    let mut manager = init();
    create_buffer_from_dm(&mut manager, &c, &dm, "@me", true, &settings(true));
    assert_eq!(manager.len(), 1);
    assert_eq!(manager.current(), Some(0));
    let view = manager.get_buffer("Private.30").unwrap();
    assert_eq!(view.short_name().as_str(), "DM with Alice#0042");
    assert_eq!(view.title().as_str(), "DM with Alice");
    assert_eq!(view.get_localvar("channelid").unwrap().as_str(), "30");
    assert_eq!(view.get_localvar("nick").unwrap().as_str(), "@me");
    assert_eq!(view.hotlist(), Some(HotlistPriority::Private));
    assert!(view.nicks_loaded());
    assert!(view.nicklist_enabled());
    assert_eq!(view.nicks().len(), 2);
    assert_eq!(view.nicks()[0].name.as_str(), "Alice");
    assert_eq!(view.nicks()[0].status, Some(OnlineStatus::Idle));
    assert_eq!(view.nicks()[0].group, None);
    assert_eq!(view.nicks()[1].name.as_str(), "me");
    assert_eq!(view.nicks()[1].status, Some(OnlineStatus::DoNotDisturb));
}

#[test]
fn dm_view_without_presence_has_no_nicklist() {
    let mut c = cache();
    c.read_state.push(ReadState { channel_id: 30, last_message_id: 3 });
    let dm = Channel::Private(PrivateChannel {
        id: 30,
        last_message_id: Some(3),
        recipient: user(2, "Alice"),
    });
    let mut manager = init();
    create_buffer_from_dm(&mut manager, &c, &dm, "@me", false, &settings(false));
    assert_eq!(manager.current(), None);
    let view = manager.get_buffer("Private.30").unwrap();
    assert_eq!(view.hotlist(), None);
    assert!(!view.nicks_loaded());
    assert!(!view.nicklist_enabled());
    assert_eq!(view.nicks().len(), 0);
}

#[test]
fn dm_view_is_not_created_for_other_channels() {
    let mut manager = init();
    let guild = Channel::Guild(channel(1, ChannelKind::Text));
    let category = Channel::Category(ChannelCategory { id: 5, name: String::from("cat") });
    create_buffer_from_dm(&mut manager, &cache(), &guild, "@me", true, &settings(true));
    create_buffer_from_dm(&mut manager, &cache(), &category, "@me", true, &settings(true));
    create_buffer_from_group(&mut manager, &cache(), &guild, "@me");
    assert_eq!(manager.len(), 0);
    assert_eq!(manager.current(), None);
}

#[test]
fn group_view_is_filled_in() {
    let group = Channel::Group(Group {
        channel_id: 40,
        name: None,
        last_message_id: Some(8),
        recipients: vec![user(2, "Alice"), user(3, "Bob"), user(4, "Carol")],
    });
    let mut manager = init();
    create_buffer_from_group(&mut manager, &cache(), &group, "@me");
    let view = manager.get_buffer("Private.40").unwrap();
    assert_eq!(view.title().as_str(), "DM with Alice, Bob, Carol");
    assert_eq!(view.short_name().as_str(), "Alice, Bob, Carol");
    assert_eq!(view.get_localvar("channelid").unwrap().as_str(), "40");
    assert_eq!(view.get_localvar("nick").unwrap().as_str(), "@me");
    assert_eq!(view.hotlist(), Some(HotlistPriority::Private));
    assert_eq!(view.channel_id(), Some(40));
}

#[test]
fn group_names() {
    let named = Group {
        channel_id: 40,
        name: Some(String::from("friends")),
        last_message_id: None,
        recipients: vec![user(2, "Alice")],
    };
    assert_eq!(named.name().as_str(), "friends");
    assert_eq!(named.recipient_names().as_str(), "Alice");
    let empty = Group { channel_id: 41, name: None, last_message_id: None, recipients: vec![] };
    assert_eq!(empty.name().as_str(), "Empty Group");
    assert_eq!(empty.recipient_names().as_str(), "");
    let mut manager = init();
    create_buffer_from_group(&mut manager, &cache(), &Channel::Group(empty), "@me");
    let view = manager.get_buffer("Private.41").unwrap();
    assert_eq!(view.title().as_str(), "DM with ");
    assert_eq!(view.short_name().as_str(), "Empty Group");
    assert_eq!(view.hotlist(), None);
}

#[test]
fn user_tag_pads_the_discriminator() {
    assert_eq!(user(2, "Alice").tag().as_str(), "Alice#0042");
    let mut u = user(2, "Bob");
    u.discriminator = 1234;
    assert_eq!(u.tag().as_str(), "Bob#1234");
}

#[test]
fn pins_view_is_filled_in_and_shown() {
    let mut manager = init();
    manager.get_or_create_buffer("other");
    let ch = Channel::Guild(channel(20, ChannelKind::Text));
    create_pins_buffer(&mut manager, &ch);
    assert_eq!(manager.len(), 2);
    assert_eq!(manager.current(), Some(1));
    let view = manager.get_buffer("Pins.20").unwrap();
    assert_eq!(view.title().as_str(), "Pinned messages in #general");
    assert_eq!(view.full_name().as_str(), "Pinned messages in $general");
    assert_eq!(view.short_name().as_str(), "#general pins");
    assert_eq!(view.pins_channel(), Some(20));
    assert_eq!(view.get_localvar("pins_for_channel").unwrap().as_str(), "20");
    assert_eq!(view.channel_id(), None);
}

#[test]
fn channel_accessors() {
    let dm = Channel::Private(PrivateChannel {
        id: 30,
        last_message_id: Some(3),
        recipient: user(2, "Alice"),
    });
    assert_eq!(dm.id(), 30);
    assert_eq!(dm.name().as_str(), "DM with Alice#0042");
    assert_eq!(dm.last_message(), Some(3));
    let category = Channel::Category(ChannelCategory { id: 5, name: String::from("cat") });
    assert_eq!(category.id(), 5);
    assert_eq!(category.name().as_str(), "cat");
    assert_eq!(category.last_message(), None);
}
