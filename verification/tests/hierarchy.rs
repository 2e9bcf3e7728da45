use indexmap::IndexMap;
use weecord::autojoin::{autojoin_items, flatten_guilds};
use weecord::buffer::HotlistPriority;
use weecord::buffers::{create_autojoin_buffers, create_buffers, create_buffers_from_flat_items, init};
use weecord::hierarchy::{order_guilds, sort_channels};
use weecord::manager::BufferManager;
use weecord::model::{
    Cache, ChannelKind, ChannelOverride, CurrentUser, Group, Guild, GuildChannel, GuildListing,
    GuildOrChannel, GuildSettings, Member, OnlineStatus, PrivateChannel, ReadState, Ready, User,
};
use weecord::settings::Settings;

const READ_MESSAGE_HISTORY: u64 = 0x1_0000;

fn channel(guild_id: u64, id: u64, name: &str, position: i64) -> GuildChannel {
    GuildChannel {
        id,
        guild_id,
        name: String::from(name),
        topic: None,
        kind: ChannelKind::Text,
        position,
        last_message_id: None,
        permissions: Some(READ_MESSAGE_HISTORY),
    }
}

fn listing(id: u64, name: &str, channels: Option<Vec<GuildChannel>>) -> GuildListing {
    GuildListing { id, name: String::from(name), member: None, channels }
}

fn user(id: u64, name: &str) -> User {
    User { id, name: String::from(name), discriminator: 1, bot: false }
}

fn cache() -> Cache {
    Cache {
        user: CurrentUser { id: 1, name: String::from("me") },
        guilds: vec![],
        private_channels: vec![],
        groups: vec![],
        presences: vec![],
        read_state: vec![],
    }
}

fn settings() -> Settings {
    Settings { use_presence: false, last_status: OnlineStatus::Online, crown_color: String::new() }
}

fn ready(positions: Vec<u64>) -> Ready {
    Ready { guild_positions: positions, guild_settings: vec![] }
}

fn names(manager: &BufferManager) -> Vec<String> {
    (0..manager.len()).map(|i| manager.buffer(i).name().clone()).collect()
}

#[test]
fn unpositioned_guild_is_prepended() {
    let (a, b, c) = (1, 2, 3);
    let guilds = vec![listing(a, "A", None), listing(b, "B", None), listing(c, "C", None)];
    let order = order_guilds(&vec![a, b], &guilds);
    let ids: Vec<u64> = order.iter().map(|i| guilds[*i].id).collect();
    assert_eq!(ids, vec![c, a, b]);
}

#[test]
fn positioned_guilds_keep_the_arranged_order() {
    let guilds = vec![listing(1, "A", None), listing(2, "B", None), listing(3, "C", None)];
    assert_eq!(order_guilds(&vec![3, 1, 2], &guilds), vec![2, 0, 1]);
    assert_eq!(order_guilds(&vec![2, 9, 2, 1], &guilds), vec![2, 1, 0]);
}

#[test]
fn several_unpositioned_guilds_are_each_put_in_front() {
    let guilds = vec![
        listing(1, "A", None),
        listing(2, "B", None),
        listing(3, "C", None),
        listing(4, "D", None),
    ];
    assert_eq!(order_guilds(&vec![2], &guilds), vec![3, 2, 0, 1]);
    assert_eq!(order_guilds(&vec![], &guilds), vec![3, 2, 1, 0]);
    assert_eq!(order_guilds(&vec![1, 2], &vec![]), Vec::<usize>::new());
}

#[test]
fn channels_sort_ascending_by_position_and_stably() {
    let channels = vec![
        channel(1, 10, "c", 3),
        channel(1, 11, "a", 1),
        channel(1, 12, "b", 2),
        channel(1, 13, "a2", 1),
        channel(1, 14, "z", -5),
    ];
    assert_eq!(sort_channels(&channels), vec![4, 1, 3, 2, 0]);
    assert_eq!(sort_channels(&vec![]), Vec::<usize>::new());
}

#[test]
fn create_buffers_orders_guilds_and_channels() {
    let guilds = vec![
        listing(1, "A", Some(vec![channel(1, 12, "two", 2), channel(1, 11, "one", 1)])),
        listing(2, "B", Some(vec![channel(2, 21, "only", 0)])),
        listing(3, "C", Some(vec![])),
    ];
    let mut manager = init();
    create_buffers(&mut manager, &cache(), &ready(vec![1, 2]), &guilds);
    assert_eq!(names(&manager), vec!["3", "1", "1.11", "1.12", "2", "2.21"]);
    let view = manager.get_buffer("1.11").unwrap();
    assert_eq!(view.get_localvar("nick").unwrap().as_str(), "@me");
    assert_eq!(view.get_localvar("guild_name").unwrap().as_str(), "A");
    assert_eq!(manager.get_buffer("3").unwrap().get_localvar("type").unwrap().as_str(), "server");
}

#[test]
fn create_buffers_skips_a_guild_whose_channels_could_not_be_fetched() {
    let guilds = vec![
        listing(1, "A", None),
        listing(2, "B", Some(vec![channel(2, 21, "only", 0)])),
    ];
    let mut manager = init();
    create_buffers(&mut manager, &cache(), &ready(vec![1, 2]), &guilds);
    assert_eq!(names(&manager), vec!["1", "2", "2.21"]);
}

#[test]
fn create_buffers_filters_channels_and_uses_the_member_nick() {
    let mut hidden = channel(1, 12, "hidden", 0);
    hidden.permissions = Some(0);
    let mut voice = channel(1, 13, "voice", 1);
    voice.kind = ChannelKind::Voice;
    let mut me = Member { guild_id: 1, user: user(1, "me"), nick: None, roles: vec![] };
    me.nick = Some(String::from("Captain"));
    let guilds = vec![GuildListing {
        id: 1,
        name: String::from("A"),
        member: Some(me),
        channels: Some(vec![hidden, voice, channel(1, 11, "open", 5)]),
    }];
    let mut manager = init();
    create_buffers(&mut manager, &cache(), &ready(vec![]), &guilds);
    assert_eq!(names(&manager), vec!["1", "1.11"]);
    assert_eq!(manager.get_buffer("1.11").unwrap().get_localvar("nick").unwrap().as_str(), "@Captain");
}

#[test]
fn create_buffers_applies_guild_and_channel_mutes() {
    let mut c = cache();
    for id in [11, 12, 21, 22] {
        c.read_state.push(ReadState { channel_id: id, last_message_id: 1 });
    }
    let unread = |g: u64, id: u64| {
        let mut ch = channel(g, id, "ch", id as i64);
        ch.last_message_id = Some(2);
        ch
    };
    let guilds = vec![
        listing(1, "A", Some(vec![unread(1, 11), unread(1, 12)])),
        listing(2, "B", Some(vec![unread(2, 21), unread(2, 22)])),
        listing(3, "C", Some(vec![unread(3, 31)])),
    ];
    let r = Ready {
        guild_positions: vec![1, 2, 3],
        guild_settings: vec![
            GuildSettings { guild_id: 1, muted: true, channel_overrides: vec![] },
            GuildSettings {
                guild_id: 2,
                muted: false,
                channel_overrides: vec![
                    ChannelOverride { channel_id: 21, muted: true },
                    ChannelOverride { channel_id: 22, muted: false },
                ],
            },
        ],
    };
    assert!(r.is_muted(1, 11));
    assert!(r.is_muted(2, 21));
    assert!(!r.is_muted(2, 22));
    assert!(!r.is_muted(2, 23));
    assert!(!r.is_muted(3, 31));
    let mut manager = init();
    create_buffers(&mut manager, &c, &r, &guilds);
    assert_eq!(manager.get_buffer("1.11").unwrap().hotlist(), None);
    assert_eq!(manager.get_buffer("1.12").unwrap().title().as_str(), "ch (muted)");
    assert_eq!(manager.get_buffer("2.21").unwrap().hotlist(), None);
    assert_eq!(manager.get_buffer("2.21").unwrap().get_localvar("muted").unwrap().as_str(), "1");
    assert_eq!(manager.get_buffer("2.22").unwrap().hotlist(), Some(HotlistPriority::Message));
    assert_eq!(manager.get_buffer("3.31").unwrap().hotlist(), Some(HotlistPriority::Message));
}

fn full_cache() -> Cache {
    let mut c = cache();
    let mut captain = Member { guild_id: 1, user: user(1, "me"), nick: None, roles: vec![] };
    captain.nick = Some(String::from("Captain"));
    let mut second = channel(1, 12, "two", 2);
    second.last_message_id = Some(9);
    c.guilds.push(Guild {
        id: 1,
        name: String::from("A"),
        owner_id: 5,
        roles: vec![],
        channels: vec![second, channel(1, 11, "one", 1)],
        members: vec![captain],
        permissions: vec![],
    });
    c.guilds.push(Guild {
        id: 2,
        name: String::from("B"),
        owner_id: 5,
        roles: vec![],
        channels: vec![channel(2, 21, "only", 0)],
        members: vec![],
        permissions: vec![],
    });
    c.private_channels.push(PrivateChannel { id: 30, last_message_id: None, recipient: user(7, "Alice") });
    c.groups.push(Group {
        channel_id: 40,
        name: Some(String::from("friends")),
        last_message_id: None,
        recipients: vec![user(7, "Alice"), user(8, "Bob")],
    });
    c.read_state.push(ReadState { channel_id: 12, last_message_id: 8 });
    c.read_state.push(ReadState { channel_id: 21, last_message_id: 8 });
    c
}

fn entries(map: &IndexMap<Option<u64>, Vec<u64>>) -> Vec<(Option<u64>, Vec<u64>)> {
    map.iter().map(|(k, v)| (*k, v.clone())).collect()
}

#[test]
fn flatten_guilds_groups_channels_by_guild_in_first_named_order() {
    let c = full_cache();
    let items = vec![
        GuildOrChannel::Channel(Some(2), 21),
        GuildOrChannel::Channel(None, 30),
        GuildOrChannel::Guild(1),
        GuildOrChannel::Channel(Some(2), 99),
        GuildOrChannel::Channel(None, 40),
        GuildOrChannel::Guild(5),
    ];
    let map = flatten_guilds(&c, &items);
    assert_eq!(
        entries(&map),
        vec![
            (Some(2), vec![21, 99]),
            (None, vec![30, 40]),
            (Some(1), vec![11, 12]),
            (Some(5), vec![]),
        ]
    );
    assert_eq!(entries(&flatten_guilds(&c, &vec![])), vec![]);
}

#[test]
fn flat_items_create_guild_and_conversation_views() {
    let c = full_cache();
    let mut channels: IndexMap<Option<u64>, Vec<u64>> = IndexMap::new();
    channels.insert(Some(1), vec![12, 11, 99, 21]);
    channels.insert(None, vec![30, 11, 40, 77]);
    channels.insert(Some(9), vec![21]);
    let mut manager = init();
    create_buffers_from_flat_items(&mut manager, &c, &channels, &settings());
    assert_eq!(names(&manager), vec!["1", "1.12", "1.11", "2.21", "Private.30", "Private.40"]);
    let view = manager.get_buffer("1.12").unwrap();
    assert_eq!(view.get_localvar("nick").unwrap().as_str(), "@Captain");
    assert_eq!(view.get_localvar("muted").unwrap().as_str(), "0");
    assert_eq!(view.hotlist(), Some(HotlistPriority::Message));
    assert_eq!(manager.get_buffer("2.21").unwrap().get_localvar("guild_name").unwrap().as_str(), "A");
    assert_eq!(manager.get_buffer("Private.30").unwrap().get_localvar("nick").unwrap().as_str(), "@me");
    assert_eq!(manager.get_buffer("Private.40").unwrap().short_name().as_str(), "friends");
    assert_eq!(manager.current(), None);
}

#[test]
fn flat_items_in_map_order() {
    let c = full_cache();
    let mut channels: IndexMap<Option<u64>, Vec<u64>> = IndexMap::new();
    channels.insert(None, vec![40]);
    channels.insert(Some(2), vec![21]);
    channels.insert(Some(1), vec![]);
    let mut manager = init();
    create_buffers_from_flat_items(&mut manager, &c, &channels, &settings());
    assert_eq!(names(&manager), vec!["Private.40", "2", "2.21", "1"]);
    let empty: IndexMap<Option<u64>, Vec<u64>> = IndexMap::new();
    let mut untouched = init();
    create_buffers_from_flat_items(&mut untouched, &c, &empty, &settings());
    assert_eq!(untouched.len(), 0);
}

#[test]
fn watched_channels_join_only_when_unread() {
    let c = full_cache();
    let autojoin = vec![GuildOrChannel::Channel(None, 30)];
    let watched = vec![GuildOrChannel::Guild(1), GuildOrChannel::Guild(2), GuildOrChannel::Channel(None, 40)];
    let items = autojoin_items(&c, autojoin.clone(), &watched);
    assert_eq!(
        items,
        vec![GuildOrChannel::Channel(None, 30), GuildOrChannel::Channel(Some(1), 12)]
    );
    let mut manager = init();
    create_autojoin_buffers(&mut manager, &c, autojoin, &watched, &settings());
    assert_eq!(names(&manager), vec!["Private.30", "1", "1.12"]);
}

#[test]
fn of_two_listings_with_one_arranged_id_the_first_counts() {
    let guilds = vec![
        listing(1, "first", Some(vec![channel(1, 11, "a", 0)])),
        listing(2, "B", None),
        listing(1, "second", Some(vec![channel(1, 12, "b", 0)])),
    ];
    assert_eq!(order_guilds(&vec![1, 2], &guilds), vec![0, 1]);
    let mut manager = init();
    create_buffers(&mut manager, &cache(), &ready(vec![1, 2]), &guilds);
    assert_eq!(names(&manager), vec!["1", "1.11", "2"]);
    assert_eq!(manager.get_buffer("1").unwrap().short_name().as_str(), "first");
    assert_eq!(order_guilds(&vec![2], &guilds), vec![2, 0, 1]);
}

#[test]
fn lookups_take_the_first_entry_with_an_id() {
    let mut c = full_cache();
    c.read_state.push(ReadState { channel_id: 12, last_message_id: 99 });
    c.private_channels.push(PrivateChannel { id: 30, last_message_id: Some(5), recipient: user(9, "Zed") });
    assert_eq!(c.read_state(12).unwrap().last_message_id, 8);
    assert_eq!(c.private_channel(30).unwrap().recipient.name.as_str(), "Alice");
    assert_eq!(c.guild_channel(21).unwrap().guild_id, 2);
    assert!(c.guild_channel(99).is_none());
    assert_eq!(c.last_message(12), Some(9));
    assert_eq!(c.last_message(40), None);
}
