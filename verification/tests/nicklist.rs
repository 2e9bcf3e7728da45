use weecord::buffer::{Buffer, GroupColor};
use weecord::buffers::{
    add_member_to_nicklist, create_buffer_from_channel, guild_has_crown, init, load_dm_nicks,
    load_nicks, rename_due, update_member_nick, update_nick, user_online,
};
use weecord::model::{
    status_is_online, Cache, ChannelKind, ChannelPermissions, CurrentUser, Guild, GuildChannel,
    GuildListing, Member, OnlineStatus, Presence, PrivateChannel, Role, User,
};
use weecord::nicklist::{
    find_highest_roles, nicklist_name, placement, role_group_name, Placement, BOT_GROUP_NAME,
    OFFLINE_GROUP_NAME, ONLINE_GROUP_NAME,
};
use weecord::settings::Settings;

const READ_MESSAGES: u64 = 0x400;
const READ_MESSAGE_HISTORY: u64 = 0x1_0000;
const ADMINISTRATOR: u64 = 0x8;
const PARTICIPANT: u64 = READ_MESSAGES | READ_MESSAGE_HISTORY;

fn role(id: u64, name: &str, position: i64, hoist: bool, permissions: u64) -> Role {
    Role { id, name: String::from(name), colour: id as u32 * 100, hoist, position, permissions }
}

fn member(id: u64, name: &str, roles: Vec<u64>) -> Member {
    Member {
        guild_id: 10,
        user: User { id, name: String::from(name), discriminator: 1, bot: false },
        nick: None,
        roles,
    }
}

fn channel(id: u64) -> GuildChannel {
    GuildChannel {
        id,
        guild_id: 10,
        name: format!("chan{}", id),
        topic: None,
        kind: ChannelKind::Text,
        position: id as i64,
        last_message_id: None,
        permissions: Some(READ_MESSAGE_HISTORY),
    }
}

fn guild(roles: Vec<Role>, members: Vec<Member>) -> Guild {
    let mut permissions = vec![];
    for m in &members {
        for c in [20, 21] {
            permissions.push(ChannelPermissions { channel_id: c, user_id: m.user.id, bits: PARTICIPANT });
        }
    }
    Guild {
        id: 10,
        name: String::from("Guild"),
        owner_id: 2,
        roles,
        channels: vec![channel(20), channel(21), channel(22)],
        members,
        permissions,
    }
}

fn cache(guild: Guild) -> Cache {
    Cache {
        user: CurrentUser { id: 1, name: String::from("me") },
        guilds: vec![guild],
        private_channels: vec![],
        groups: vec![],
        presences: vec![
            Presence { user_id: 2, status: OnlineStatus::Online },
            Presence { user_id: 3, status: OnlineStatus::Offline },
            Presence { user_id: 4, status: OnlineStatus::Idle },
            Presence { user_id: 5, status: OnlineStatus::Invisible },
            Presence { user_id: 6, status: OnlineStatus::DoNotDisturb },
        ],
        read_state: vec![],
    }
}

fn settings(use_presence: bool) -> Settings {
    Settings { use_presence, last_status: OnlineStatus::Online, crown_color: String::from("<214>") }
}

fn group_of(p: Placement) -> Option<(String, GroupColor)> {
    match p {
        Placement::Flat => None,
        Placement::Group { name, color } => Some((name, color)),
    }
}

#[test]
fn online_statuses() {
    assert!(status_is_online(OnlineStatus::Online));
    assert!(status_is_online(OnlineStatus::Idle));
    assert!(status_is_online(OnlineStatus::DoNotDisturb));
    assert!(!status_is_online(OnlineStatus::Offline));
    assert!(!status_is_online(OnlineStatus::Invisible));
}

#[test]
fn current_user_is_always_online() {
    let c = cache(guild(vec![], vec![]));
    assert!(user_online(&c, 1));
    assert!(user_online(&c, 2));
    assert!(!user_online(&c, 3));
    assert!(user_online(&c, 4));
    assert!(!user_online(&c, 5));
    assert!(user_online(&c, 6));
    assert!(!user_online(&c, 99));
}

#[test]
fn roles_at_positions_10_and_5_order_role_10_first() {
    let high = role_group_name(&role(1, "Mods", 10, true, 0));
    let low = role_group_name(&role(2, "Helpers", 5, true, 0));
    assert_eq!(high.as_str(), "99989|Mods");
    assert_eq!(low.as_str(), "99994|Helpers");
    assert!(high < low);
    assert!(low.as_str() < ONLINE_GROUP_NAME);
}

#[test]
fn role_group_names_at_the_edges() {
    assert_eq!(role_group_name(&role(1, "r", 0, true, 0)).as_str(), "99999|r");
    assert_eq!(role_group_name(&role(1, "r", 99999, true, 0)).as_str(), "0|r");
    assert_eq!(role_group_name(&role(1, "r", 100000, true, 0)).as_str(), "-1|r");
    assert_eq!(role_group_name(&role(1, "r", -1, true, 0)).as_str(), "100000|r");
    assert_eq!(
        role_group_name(&role(1, "r", i64::MIN, true, 0)).as_str(),
        "9223372036854875807|r"
    );
    assert_eq!(
        role_group_name(&role(1, "r", i64::MAX, true, 0)).as_str(),
        "-9223372036854675808|r"
    );
}

#[test]
fn highest_roles_are_picked_by_position() {
    let roles = vec![
        role(1, "Admin", 30, false, 0),
        role(2, "Mods", 20, true, 0),
        role(3, "Helpers", 10, true, 0),
        role(4, "Twin", 20, true, 0),
    ];
    let c = cache(guild(roles, vec![]));
    let (hoisted, highest) = find_highest_roles(&c, &member(7, "x", vec![3, 2, 1, 4])).unwrap();
    assert_eq!(hoisted.id, 2);
    assert_eq!(highest.id, 1);
    let (hoisted, highest) = find_highest_roles(&c, &member(7, "x", vec![4, 2])).unwrap();
    assert_eq!(hoisted.id, 4);
    assert_eq!(highest.id, 4);
    assert!(find_highest_roles(&c, &member(7, "x", vec![1])).is_none());
    assert!(find_highest_roles(&c, &member(7, "x", vec![])).is_none());
    assert!(find_highest_roles(&c, &member(7, "x", vec![99])).is_none());
    let mut elsewhere = member(7, "x", vec![2]);
    elsewhere.guild_id = 11;
    assert!(find_highest_roles(&c, &elsewhere).is_none());
}

#[test]
fn placement_follows_the_priority_order() {
    let roles = vec![role(1, "Admin", 30, false, 0), role(2, "Mods", 20, true, 0)];
    let c = cache(guild(roles, vec![]));
    let mut bot = member(7, "bot", vec![2]);
    bot.user.bot = true;
    assert_eq!(
        group_of(placement(&c, &bot, true, true)),
        Some((String::from("99999|Bot"), GroupColor::Gray))
    );
    assert_eq!(
        group_of(placement(&c, &bot, false, false)),
        Some((String::from("99999|Bot"), GroupColor::Gray))
    );
    let moderator = member(8, "mod", vec![1, 2]);
    assert_eq!(
        group_of(placement(&c, &moderator, false, true)),
        Some((String::from("99998|Offline"), GroupColor::Grey))
    );
    assert_eq!(
        group_of(placement(&c, &moderator, true, true)),
        Some((String::from("99979|Mods"), GroupColor::Role(100)))
    );
    assert_eq!(
        group_of(placement(&c, &moderator, false, false)),
        Some((String::from("99979|Mods"), GroupColor::Role(100)))
    );
    let plain = member(9, "plain", vec![1]);
    assert_eq!(
        group_of(placement(&c, &plain, true, true)),
        Some((String::from("99997|Online"), GroupColor::Grey))
    );
    assert_eq!(group_of(placement(&c, &plain, false, false)), None);
    assert_eq!(group_of(placement(&c, &plain, true, false)), None);
}

#[test]
fn crown_only_without_hoisted_administrator_role() {
    let plain = guild(vec![role(1, "Admin", 30, false, ADMINISTRATOR), role(2, "Mods", 20, true, 0)], vec![]);
    assert!(guild_has_crown(&plain));
    let ruled = guild(
        vec![role(1, "Admin", 30, true, ADMINISTRATOR | READ_MESSAGES), role(2, "Mods", 20, true, 0)],
        vec![],
    );
    assert!(!guild_has_crown(&ruled));
    assert!(guild_has_crown(&guild(vec![], vec![])));
    let owner = member(2, "Olive", vec![]);
    let other = member(3, "Pat", vec![]);
    assert_eq!(nicklist_name(&plain, &owner, guild_has_crown(&plain), "<214>").as_str(), "Olive <214>\u{265b}");
    assert_eq!(nicklist_name(&plain, &other, guild_has_crown(&plain), "<214>").as_str(), "Pat");
    assert_eq!(nicklist_name(&ruled, &owner, guild_has_crown(&ruled), "<214>").as_str(), "Olive");
    assert_eq!(nicklist_name(&ruled, &other, guild_has_crown(&ruled), "<214>").as_str(), "Pat");
}

#[test]
fn members_who_cannot_read_the_channel_are_left_out() {
    let mut g = guild(vec![], vec![member(3, "Pat", vec![])]);
    g.permissions = vec![
        ChannelPermissions { channel_id: 20, user_id: 3, bits: READ_MESSAGES },
        ChannelPermissions { channel_id: 21, user_id: 3, bits: READ_MESSAGE_HISTORY },
        ChannelPermissions { channel_id: 22, user_id: 3, bits: PARTICIPANT },
    ];
    let c = cache(g.clone());
    let pat = member(3, "Pat", vec![]);
    let mut b = Buffer::new("x");
    add_member_to_nicklist(&mut b, &c, 20, &g, &pat, false, true, "");
    add_member_to_nicklist(&mut b, &c, 21, &g, &pat, false, true, "");
    add_member_to_nicklist(&mut b, &c, 23, &g, &pat, false, true, "");
    assert_eq!(b.nicks().len(), 0);
    add_member_to_nicklist(&mut b, &c, 22, &g, &pat, false, true, "");
    assert_eq!(b.nicks().len(), 1);
    assert_eq!(b.nicks()[0].name.as_str(), "Pat");
    assert_eq!(b.nicks()[0].group, None);
    assert_eq!(b.groups().len(), 0);
}

#[test]
fn members_share_one_group_node() {
    let roles = vec![role(2, "Mods", 20, true, 0)];
    let a = member(3, "Ann", vec![2]);
    let mut b_member = member(4, "Ben", vec![2]);
    b_member.nick = Some(String::from("Benny"));
    let g = guild(roles, vec![a.clone(), b_member.clone()]);
    let c = cache(g.clone());
    let mut b = Buffer::new("x");
    add_member_to_nicklist(&mut b, &c, 20, &g, &a, false, true, "<214>");
    add_member_to_nicklist(&mut b, &c, 20, &g, &b_member, false, true, "<214>");
    assert_eq!(b.groups().len(), 1);
    assert_eq!(b.groups()[0].name.as_str(), "99979|Mods");
    assert_eq!(b.groups()[0].color, GroupColor::Role(200));
    assert!(b.groups()[0].visible);
    assert_eq!(b.nicks().len(), 2);
    assert_eq!(b.nicks()[1].name.as_str(), "Benny");
    assert_eq!(b.nicks()[1].group.as_deref(), Some("99979|Mods"));
}

#[test]
fn load_nicks_fills_the_nicklist_once() {
    let roles = vec![role(2, "Mods", 20, true, 0)];
    let mut robot = member(5, "Robot", vec![]);
    robot.user.bot = true;
    let members = vec![
        member(2, "Olive", vec![2]),
        member(3, "Pat", vec![]),
        member(4, "Quinn", vec![]),
        robot,
    ];
    let g = guild(roles, members);
    let c = cache(g);
    let mut manager = init();
    create_buffer_from_channel(&mut manager, &c, "Guild", &channel(20), "@me", false);
    let view = manager.buffer_mut(0);
    load_nicks(view, &c, &settings(true));
    assert!(view.nicks_loaded());
    assert!(view.nicklist_enabled());
    let names: Vec<(&str, Option<&str>)> =
        view.nicks().iter().map(|n| (n.name.as_str(), n.group.as_deref())).collect();
    assert_eq!(
        names,
        vec![
            ("Olive <214>\u{265b}", Some("99979|Mods")),
            ("Pat", Some("99998|Offline")),
            ("Quinn", Some("99997|Online")),
            ("Robot", Some("99999|Bot")),
        ]
    );
    assert_eq!(view.groups().len(), 4);
    view.remove_nick("Pat");
    load_nicks(view, &c, &settings(true));
    assert_eq!(view.nicks().len(), 3);
}

#[test]
fn load_nicks_leaves_other_views_alone() {
    let c = cache(guild(vec![], vec![member(3, "Pat", vec![])]));
    let mut b = Buffer::new("42");
    load_nicks(&mut b, &c, &settings(false));
    assert!(!b.nicks_loaded());
    b.set_guild_id(10);
    load_nicks(&mut b, &c, &settings(false));
    assert!(!b.nicks_loaded());
    assert!(!b.nicklist_enabled());
    b.set_channel_id(20);
    load_nicks(&mut b, &c, &settings(false));
    assert!(b.nicks_loaded());
    assert_eq!(b.nicks().len(), 1);
}

#[test]
fn load_nicks_without_the_guild_only_sets_the_flags() {
    let c = cache(guild(vec![], vec![member(3, "Pat", vec![])]));
    let mut b = Buffer::new("11.20");
    b.set_guild_id(11);
    b.set_channel_id(20);
    load_nicks(&mut b, &c, &settings(false));
    assert!(b.nicks_loaded());
    assert!(b.nicklist_enabled());
    assert_eq!(b.nicks().len(), 0);
}

#[test]
fn load_dm_nicks_needs_presence() {
    let c = cache(guild(vec![], vec![]));
    let dm = PrivateChannel {
        id: 30,
        last_message_id: None,
        recipient: User { id: 4, name: String::from("Quinn"), discriminator: 7, bot: false },
    };
    let mut b = Buffer::new("Private.30");
    load_dm_nicks(&mut b, &c, &dm, &settings(false));
    assert!(!b.nicks_loaded());
    assert_eq!(b.nicks().len(), 0);
    load_dm_nicks(&mut b, &c, &dm, &settings(true));
    assert!(b.nicks_loaded());
    assert!(b.nicklist_enabled());
    assert_eq!(b.nicks().len(), 2);
    assert_eq!(b.nicks()[0].name.as_str(), "Quinn");
    assert_eq!(b.nicks()[0].status, Some(OnlineStatus::Idle));
    assert_eq!(b.nicks()[1].name.as_str(), "me");
    assert_eq!(b.nicks()[1].status, Some(OnlineStatus::Online));
}

#[test]
fn rename_replaces_the_entry_in_every_open_channel_view() {
    let roles = vec![role(2, "Mods", 20, true, 0)];
    let alice = member(3, "Alice", vec![2]);
    let g = guild(roles, vec![alice.clone(), member(4, "Quinn", vec![])]);
    let c = cache(g);
    let mut manager = init();
    create_buffer_from_channel(&mut manager, &c, "Guild", &channel(20), "@me", false);
    create_buffer_from_channel(&mut manager, &c, "Guild", &channel(21), "@me", false);
    load_nicks(manager.buffer_mut(0), &c, &settings(true));
    load_nicks(manager.buffer_mut(1), &c, &settings(true));
    assert_eq!(manager.buffer(0).nicks()[0].name.as_str(), "Alice");
    assert_eq!(manager.buffer(0).nicks()[0].group.as_deref(), Some("99998|Offline"));
    let mut alicia = alice.clone();
    alicia.nick = Some(String::from("Alicia"));
    update_member_nick(&mut manager, &c, &vec![20, 21, 22], &Some(alice), &alicia, "<214>");
    for at in [0, 1] {
        let view = manager.buffer(at);
        assert!(!view.search_nick("Alice"));
        assert!(view.search_nick("Alicia"));
        assert_eq!(view.nicks().len(), 2);
        let entry = view.nicks().iter().find(|n| n.name == "Alicia").unwrap();
        assert_eq!(entry.group.as_deref(), Some("99979|Mods"));
        assert_eq!(view.nicks()[0].name.as_str(), "Quinn");
    }
    assert_eq!(manager.len(), 2);
}

#[test]
fn rename_without_the_old_member_does_nothing() {
    let alice = member(3, "Alice", vec![]);
    let c = cache(guild(vec![], vec![alice.clone()]));
    let mut manager = init();
    create_buffer_from_channel(&mut manager, &c, "Guild", &channel(20), "@me", false);
    load_nicks(manager.buffer_mut(0), &c, &settings(false));
    let mut alicia = alice.clone();
    alicia.nick = Some(String::from("Alicia"));
    update_member_nick(&mut manager, &c, &vec![20], &None, &alicia, "");
    assert!(manager.buffer(0).search_nick("Alice"));
    assert!(!manager.buffer(0).search_nick("Alicia"));
    update_member_nick(&mut manager, &c, &vec![20], &Some(alice.clone()), &alice, "");
    assert!(manager.buffer(0).search_nick("Alice"));
}

#[test]
fn rename_skips_views_that_do_not_list_the_old_name() {
    let alice = member(3, "Alice", vec![]);
    let c = cache(guild(vec![], vec![alice.clone()]));
    let mut manager = init();
    create_buffer_from_channel(&mut manager, &c, "Guild", &channel(20), "@me", false);
    let mut alicia = alice.clone();
    alicia.nick = Some(String::from("Alicia"));
    update_member_nick(&mut manager, &c, &vec![20], &Some(alice), &alicia, "");
    assert_eq!(manager.buffer(0).nicks().len(), 0);
}

#[test]
fn rename_in_an_uncached_guild_only_removes() {
    let mut alice = member(3, "Alice", vec![]);
    alice.guild_id = 11;
    let c = cache(guild(vec![], vec![]));
    let mut manager = init();
    let at = manager.get_or_create_buffer("11.20");
    manager.buffer_mut(at).add_nick("Alice", None, None);
    let mut alicia = alice.clone();
    alicia.nick = Some(String::from("Alicia"));
    update_member_nick(&mut manager, &c, &vec![20], &Some(alice), &alicia, "");
    assert_eq!(manager.buffer(at).nicks().len(), 0);
}

#[test]
fn update_nick_writes_the_nick_to_open_channel_views() {
    let c = cache(guild(vec![], vec![]));
    let mut manager = init();
    create_buffer_from_channel(&mut manager, &c, "Guild", &channel(20), "@old", false);
    create_buffer_from_channel(&mut manager, &c, "Guild", &channel(21), "@old", false);
    let mut other = channel(30);
    other.guild_id = 11;
    create_buffer_from_channel(&mut manager, &c, "Other", &other, "@old", false);
    let mut me = member(1, "me", vec![]);
    me.nick = Some(String::from("Captain"));
    let listings = vec![
        GuildListing {
            id: 10,
            name: String::from("Guild"),
            member: Some(me),
            channels: Some(vec![channel(20), channel(22)]),
        },
        GuildListing { id: 11, name: String::from("Other"), member: None, channels: None },
    ];
    update_nick(&mut manager, &c, &listings);
    assert_eq!(manager.get_buffer("10.20").unwrap().get_localvar("nick").unwrap().as_str(), "@Captain");
    assert_eq!(manager.get_buffer("10.21").unwrap().get_localvar("nick").unwrap().as_str(), "@old");
    assert_eq!(manager.get_buffer("11.30").unwrap().get_localvar("nick").unwrap().as_str(), "@old");
    assert_eq!(manager.len(), 3);
    let fallback = vec![GuildListing {
        id: 11,
        name: String::from("Other"),
        member: None,
        channels: Some(vec![other]),
    }];
    update_nick(&mut manager, &c, &fallback);
    assert_eq!(manager.get_buffer("11.30").unwrap().get_localvar("nick").unwrap().as_str(), "@me");
}

#[test]
fn role_group_names_sort_by_position_only_among_keys_of_equal_length() {
    let low = role_group_name(&role(1, "r", 5, true, 0));
    let high = role_group_name(&role(2, "r", 90000, true, 0));
    assert_eq!(low.as_str(), "99994|r");
    assert_eq!(high.as_str(), "9999|r");
    assert!(low < high);
    let a = role_group_name(&role(1, "r", 90001, true, 0));
    let b = role_group_name(&role(2, "r", 90002, true, 0));
    assert_eq!(a.as_str(), "9998|r");
    assert_eq!(b.as_str(), "9997|r");
    assert!(b < a);
}

#[test]
fn buckets_sort_behind_roles_in_the_order_online_offline_bot() {
    assert_eq!(ONLINE_GROUP_NAME, "99997|Online");
    assert_eq!(OFFLINE_GROUP_NAME, "99998|Offline");
    assert_eq!(BOT_GROUP_NAME, "99999|Bot");
    assert!(ONLINE_GROUP_NAME < OFFLINE_GROUP_NAME);
    assert!(OFFLINE_GROUP_NAME < BOT_GROUP_NAME);
    for position in [3, 4, 10, 500, 89999] {
        let label = role_group_name(&role(1, "zzz", position, true, 0));
        assert!(label.as_str() < ONLINE_GROUP_NAME);
        assert!(label.as_str() < OFFLINE_GROUP_NAME);
        assert!(label.as_str() < BOT_GROUP_NAME);
    }
}

#[test]
fn rename_is_due_only_when_the_shown_name_changed() {
    let alice = member(3, "Alice", vec![]);
    let mut alicia = alice.clone();
    alicia.nick = Some(String::from("Alicia"));
    let mut same = alice.clone();
    same.nick = Some(String::from("Alice"));
    assert_eq!(rename_due(&Some(alice.clone()), &alicia), Some(String::from("Alice")));
    assert_eq!(rename_due(&Some(alicia.clone()), &alice), Some(String::from("Alicia")));
    assert_eq!(rename_due(&None, &alicia), None);
    assert_eq!(rename_due(&Some(alice.clone()), &alice), None);
    assert_eq!(rename_due(&Some(alice), &same), None);
}
