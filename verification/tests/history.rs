use weecord::buffer::{Buffer, HotlistPriority};
use weecord::buffers::{
    complete_history, complete_pin_history, create_buffer_from_channel, create_pins_buffer, init,
    load_history, load_pin_buffer_history, load_pin_buffer_history_for_id, trigger_history,
};
use weecord::history::{
    fetch_limit, fully_read, reconcile, unknown_authors, HistoryRequest, HistoryTrigger,
    PinRequest,
};
use weecord::model::{
    Cache, Channel, ChannelKind, CurrentUser, Guild, GuildChannel, Member, Message, ReadState,
    User,
};

fn member(id: u64, name: &str) -> Member {
    Member {
        guild_id: 10,
        user: User { id, name: String::from(name), discriminator: 1, bot: false },
        nick: None,
        roles: vec![],
    }
}

fn channel(id: u64, last: Option<u64>) -> GuildChannel {
    GuildChannel {
        id,
        guild_id: 10,
        name: String::from("general"),
        topic: None,
        kind: ChannelKind::Text,
        position: 0,
        last_message_id: last,
        permissions: Some(0x1_0000),
    }
}

fn cache(cursor: Option<u64>, last: Option<u64>) -> Cache {
    Cache {
        user: CurrentUser { id: 1, name: String::from("me") },
        guilds: vec![Guild {
            id: 10,
            name: String::from("Guild"),
            owner_id: 1,
            roles: vec![],
            channels: vec![channel(20, last)],
            members: vec![member(1, "me"), member(2, "Alice")],
            permissions: vec![],
        }],
        private_channels: vec![],
        groups: vec![],
        presences: vec![],
        read_state: match cursor {
            Some(c) => vec![ReadState { channel_id: 20, last_message_id: c }],
            None => vec![],
        },
    }
}

fn page(ids: &[u64]) -> Vec<Message> {
    ids.iter().map(|id| Message { id: *id, author_id: 2 }).collect()
}

fn raised() -> Buffer {
    let mut b = Buffer::new("10.20");
    b.set_hotlist(HotlistPriority::Message);
    b
}

#[test]
fn page_with_cursor_marks_backlog_read_and_keeps_newer_unread() {
    let mut b = raised();
    reconcile(&mut b, &page(&[105, 104, 103, 102, 101]), Some(103), false);
    assert_eq!(b.messages(), &vec![101, 102, 103, 104, 105]);
    assert_eq!(b.read_marker(), 3);
    assert_eq!(b.hotlist(), None);
}

#[test]
fn page_with_cursor_at_newest_message_is_all_read() {
    let mut b = raised();
    reconcile(&mut b, &page(&[105, 104, 103]), Some(105), false);
    assert_eq!(b.messages(), &vec![103, 104, 105]);
    assert_eq!(b.read_marker(), 3);
    assert_eq!(b.hotlist(), None);
}

#[test]
fn page_with_cursor_at_oldest_message_reads_only_that() {
    let mut b = raised();
    reconcile(&mut b, &page(&[105, 104, 103]), Some(103), true);
    assert_eq!(b.messages(), &vec![103, 104, 105]);
    assert_eq!(b.read_marker(), 1);
    assert_eq!(b.hotlist(), None);
}

#[test]
fn page_without_cursor_is_read_only_when_remote_says_fully_read() {
    let mut b = raised();
    reconcile(&mut b, &page(&[105, 104, 103]), Some(50), true);
    assert_eq!(b.messages(), &vec![103, 104, 105]);
    assert_eq!(b.read_marker(), 3);
    assert_eq!(b.hotlist(), None);
}

#[test]
fn page_without_cursor_stays_unread_otherwise() {
    let mut b = raised();
    reconcile(&mut b, &page(&[105, 104, 103]), Some(50), false);
    assert_eq!(b.messages(), &vec![103, 104, 105]);
    assert_eq!(b.read_marker(), 0);
    assert_eq!(b.hotlist(), Some(HotlistPriority::Message));
    let mut c = raised();
    reconcile(&mut c, &page(&[105, 104, 103]), None, false);
    assert_eq!(c.read_marker(), 0);
    assert_eq!(c.hotlist(), Some(HotlistPriority::Message));
}

#[test]
fn empty_page_adds_nothing() {
    let mut b = raised();
    reconcile(&mut b, &page(&[]), Some(50), false);
    assert_eq!(b.messages().len(), 0);
    assert_eq!(b.read_marker(), 0);
    assert_eq!(b.hotlist(), Some(HotlistPriority::Message));
}

#[test]
fn load_history_clears_flags_and_asks_for_a_page() {
    let mut manager = init();
    create_buffer_from_channel(&mut manager, &cache(None, None), "Guild", &channel(20, None), "@me", false);
    let b = manager.buffer_mut(0);
    b.add_message(1);
    let request = load_history(b, 25).unwrap();
    assert_eq!(
        request,
        HistoryRequest {
            buffer_name: String::from("10.20"),
            channel_id: 20,
            guild_id: Some(10),
            limit: 25,
        }
    );
    assert!(manager.buffer(0).history_loaded());
    assert_eq!(manager.buffer(0).messages().len(), 0);
    let again = load_history(manager.buffer_mut(0), 25);
    assert!(again.is_some());
    assert!(manager.buffer(0).history_loaded());
}

#[test]
fn load_history_leaves_a_view_without_channel_alone() {
    let mut b = Buffer::new("42");
    b.add_message(1);
    assert_eq!(load_history(&mut b, 25), None);
    assert!(!b.history_loaded());
    assert_eq!(b.messages(), &vec![1]);
}

#[test]
fn fetch_limit_reinterprets_the_count() {
    assert_eq!(fetch_limit(0), 0);
    assert_eq!(fetch_limit(100), 100);
    assert_eq!(fetch_limit(i32::MAX), i32::MAX as u64);
    assert_eq!(fetch_limit(-1), u64::MAX);
    assert_eq!(fetch_limit(-2), -2i32 as u64);
    assert_eq!(fetch_limit(i32::MIN), i32::MIN as u64);
}

#[test]
fn completed_history_is_reconciled_with_the_cache() {
    let c = cache(Some(102), Some(103));
    let mut manager = init();
    create_buffer_from_channel(&mut manager, &c, "Guild", &channel(20, Some(103)), "@me", false);
    assert_eq!(manager.buffer(0).hotlist(), Some(HotlistPriority::Message));
    let request = load_history(manager.buffer_mut(0), 3).unwrap();
    let outcome = complete_history(&mut manager, &c, &request, &page(&[103, 102, 101]));
    assert!(outcome.completed);
    let view = manager.get_buffer("10.20").unwrap();
    assert_eq!(view.messages(), &vec![101, 102, 103]);
    assert_eq!(view.read_marker(), 2);
    assert_eq!(view.hotlist(), None);
    assert!(view.history_loaded());
}

#[test]
fn completed_history_of_a_fully_read_channel_is_read() {
    let c = cache(Some(200), Some(200));
    let mut manager = init();
    create_buffer_from_channel(&mut manager, &c, "Guild", &channel(20, Some(200)), "@me", false);
    let request = load_history(manager.buffer_mut(0), 3).unwrap();
    complete_history(&mut manager, &c, &request, &page(&[103, 102, 101]));
    let view = manager.get_buffer("10.20").unwrap();
    assert_eq!(view.read_marker(), 3);
    assert_eq!(view.hotlist(), None);
}

#[test]
fn completed_history_with_an_old_cursor_stays_unread() {
    let c = cache(Some(50), Some(103));
    let mut manager = init();
    create_buffer_from_channel(&mut manager, &c, "Guild", &channel(20, Some(103)), "@me", false);
    let request = load_history(manager.buffer_mut(0), 3).unwrap();
    complete_history(&mut manager, &c, &request, &page(&[103, 102, 101]));
    let view = manager.get_buffer("10.20").unwrap();
    assert_eq!(view.read_marker(), 0);
    assert_eq!(view.hotlist(), Some(HotlistPriority::Message));
}

#[test]
fn completed_history_asks_for_unknown_authors_once_each() {
    let c = cache(None, None);
    let mut manager = init();
    create_buffer_from_channel(&mut manager, &c, "Guild", &channel(20, None), "@me", false);
    let request = load_history(manager.buffer_mut(0), 5).unwrap();
    let msgs = vec![
        Message { id: 105, author_id: 7 },
        Message { id: 104, author_id: 2 },
        Message { id: 103, author_id: 9 },
        Message { id: 102, author_id: 7 },
        Message { id: 101, author_id: 9 },
    ];
    let outcome = complete_history(&mut manager, &c, &request, &msgs);
    let lookup = outcome.lookup.unwrap();
    assert_eq!(lookup.op, 8);
    assert_eq!(lookup.guild_id, 10);
    assert_eq!(lookup.user_ids, vec![9, 7]);
    assert_eq!(lookup.nonce, 20);
    assert_eq!(unknown_authors(&c, 10, &msgs), vec![9, 7]);
    assert_eq!(unknown_authors(&c, 11, &msgs), vec![9, 7, 2]);
}

#[test]
fn completed_history_asks_even_when_every_author_is_known() {
    let c = cache(None, None);
    let mut manager = init();
    create_buffer_from_channel(&mut manager, &c, "Guild", &channel(20, None), "@me", false);
    let request = load_history(manager.buffer_mut(0), 5).unwrap();
    let outcome = complete_history(&mut manager, &c, &request, &page(&[101]));
    let lookup = outcome.lookup.unwrap();
    assert_eq!(lookup.user_ids, Vec::<u64>::new());
    assert_eq!(lookup.nonce, 20);
}

#[test]
fn completed_history_outside_a_guild_asks_for_nobody() {
    let c = cache(None, None);
    let mut manager = init();
    let at = manager.get_or_create_buffer("Private.30");
    manager.buffer_mut(at).set_channel_id(30);
    let request = load_history(manager.buffer_mut(at), 5).unwrap();
    assert_eq!(request.guild_id, None);
    let outcome = complete_history(&mut manager, &c, &request, &page(&[2, 1]));
    assert!(outcome.completed);
    assert_eq!(outcome.lookup, None);
    assert_eq!(manager.buffer(at).messages(), &vec![1, 2]);
}

#[test]
fn completed_history_for_a_vanished_view_does_nothing() {
    let c = cache(None, None);
    let mut manager = init();
    manager.get_or_create_buffer("other");
    let request = HistoryRequest {
        buffer_name: String::from("10.20"),
        channel_id: 20,
        guild_id: Some(10),
        limit: 5,
    };
    let outcome = complete_history(&mut manager, &c, &request, &page(&[2, 1]));
    assert!(!outcome.completed);
    assert_eq!(outcome.lookup, None);
    assert_eq!(manager.len(), 1);
    assert_eq!(manager.buffer(0).messages().len(), 0);
}

#[test]
fn pins_are_loaded_oldest_first() {
    let mut manager = init();
    create_pins_buffer(&mut manager, &Channel::Guild(channel(20, None)));
    manager.buffer_mut(0).add_message(99);
    let request = load_pin_buffer_history_for_id(&mut manager, 20).unwrap();
    assert_eq!(request, PinRequest { buffer_name: String::from("Pins.20"), channel_id: 20 });
    assert!(manager.buffer(0).history_loaded());
    assert_eq!(manager.buffer(0).messages().len(), 0);
    complete_pin_history(&mut manager, &request, &page(&[30, 20, 10]));
    assert_eq!(manager.buffer(0).messages(), &vec![10, 20, 30]);
    assert_eq!(manager.buffer(0).read_marker(), 0);
}

#[test]
fn pins_are_not_loaded_into_other_views() {
    let mut manager = init();
    assert_eq!(load_pin_buffer_history_for_id(&mut manager, 20), None);
    let mut b = Buffer::new("10.20");
    b.set_channel_id(20);
    b.add_message(1);
    assert_eq!(load_pin_buffer_history(&mut b), None);
    assert!(!b.history_loaded());
    assert_eq!(b.messages(), &vec![1]);
    let gone = PinRequest { buffer_name: String::from("Pins.20"), channel_id: 20 };
    complete_pin_history(&mut manager, &gone, &page(&[1]));
    assert_eq!(manager.len(), 0);
}

#[test]
fn redisplay_never_fetches_history_again() {
    let mut b = Buffer::new("10.20");
    b.set_channel_id(20);
    b.set_guild_id(10);
    let first = trigger_history(&mut b, HistoryTrigger::Displayed, 10);
    assert!(first.is_some());
    assert!(b.history_loaded());
    b.add_message(1);
    assert_eq!(trigger_history(&mut b, HistoryTrigger::Displayed, 10), None);
    assert_eq!(b.messages(), &vec![1]);
    let refreshed = trigger_history(&mut b, HistoryTrigger::Refresh, 10).unwrap();
    assert_eq!(refreshed.limit, 10);
    assert_eq!(b.messages().len(), 0);
    b.add_message(2);
    assert!(trigger_history(&mut b, HistoryTrigger::Resume, 10).is_some());
    assert!(b.history_loaded());
    assert_eq!(b.messages().len(), 0);
    let mut server = Buffer::new("10");
    assert_eq!(trigger_history(&mut server, HistoryTrigger::Displayed, 10), None);
    assert!(!server.history_loaded());
}

#[test]
fn page_without_read_cursor_is_never_marked() {
    let mut b = raised();
    reconcile(&mut b, &page(&[105, 104, 103]), None, true);
    assert_eq!(b.messages(), &vec![103, 104, 105]);
    assert_eq!(b.read_marker(), 0);
    assert_eq!(b.hotlist(), Some(HotlistPriority::Message));
}

#[test]
fn completed_history_without_read_state_stays_unread() {
    for last in [None, Some(103), Some(7)] {
        let c = cache(None, last);
        assert!(!fully_read(&c, 20));
        let mut manager = init();
        create_buffer_from_channel(&mut manager, &c, "Guild", &channel(20, last), "@me", false);
        manager.buffer_mut(0).set_hotlist(HotlistPriority::Message);
        let request = load_history(manager.buffer_mut(0), 3).unwrap();
        let outcome = complete_history(&mut manager, &c, &request, &page(&[103, 102, 101]));
        assert!(outcome.completed);
        let view = manager.get_buffer("10.20").unwrap();
        assert_eq!(view.messages(), &vec![101, 102, 103]);
        assert_eq!(view.read_marker(), 0);
        assert_eq!(view.hotlist(), Some(HotlistPriority::Message));
    }
}

#[test]
fn fully_read_needs_a_cursor_at_the_newest_message() {
    assert!(fully_read(&cache(Some(9), Some(9)), 20));
    assert!(!fully_read(&cache(Some(8), Some(9)), 20));
    assert!(!fully_read(&cache(Some(9), None), 20));
    assert!(!fully_read(&cache(None, Some(9)), 20));
    assert!(!fully_read(&cache(None, None), 20));
    assert!(!fully_read(&cache(Some(9), Some(9)), 21));
}
