use weecord::buffer::{Buffer, GroupColor, HotlistPriority};
use weecord::buffers::{create_guild_buffer, init};
use weecord::keys::{buffer_id_for_channel, buffer_id_for_guild, buffer_id_for_pins};
use weecord::manager::BufferManager;
use weecord::model::OnlineStatus;
use weecord::text::{padded4_to_string, signed_to_string, u64_to_string};

#[test]
fn init_holds_no_view() {
    let manager = init();
    assert_eq!(manager.len(), 0);
    assert_eq!(manager.current(), None);
    assert!(manager.get_buffer("1").is_none());
}

#[test]
fn get_or_create_twice_returns_the_same_view() {
    let mut manager = BufferManager::new();
    let first = manager.get_or_create_buffer("100.200");
    manager.buffer_mut(first).set_title("kept");
    let second = manager.get_or_create_buffer("100.200");
    assert_eq!(first, second);
    assert_eq!(manager.len(), 1);
    assert_eq!(manager.buffer(second).title().as_str(), "kept");
    assert_eq!(manager.find("100.200"), Some(0));
}

#[test]
fn get_or_create_keeps_creation_order() {
    let mut manager = BufferManager::new();
    assert_eq!(manager.get_or_create_buffer("a"), 0);
    assert_eq!(manager.get_or_create_buffer("b"), 1);
    assert_eq!(manager.get_or_create_buffer("a"), 0);
    assert_eq!(manager.get_or_create_buffer("c"), 2);
    assert_eq!(manager.len(), 3);
    assert_eq!(manager.find("b"), Some(1));
    assert_eq!(manager.find("d"), None);
    assert_eq!(manager.get_buffer("c").unwrap().name().as_str(), "c");
}

#[test]
fn creating_a_guild_view_twice_does_not_duplicate_localvars() {
    let mut manager = init();
    create_guild_buffer(&mut manager, 42, "Rustaceans");
    create_guild_buffer(&mut manager, 42, "Rustaceans");
    assert_eq!(manager.len(), 1);
    let view = manager.get_buffer("42").unwrap();
    assert_eq!(view.short_name().as_str(), "Rustaceans");
    assert_eq!(view.localvars().len(), 4);
    assert_eq!(view.get_localvar("guild_name").unwrap().as_str(), "Rustaceans");
    assert_eq!(view.get_localvar("server").unwrap().as_str(), "Rustaceans");
    assert_eq!(view.get_localvar("guildid").unwrap().as_str(), "42");
    assert_eq!(view.get_localvar("type").unwrap().as_str(), "server");
    assert_eq!(view.guild_id(), Some(42));
    assert_eq!(view.channel_id(), None);
}

#[test]
fn creating_a_guild_view_again_updates_its_name() {
    let mut manager = init();
    create_guild_buffer(&mut manager, 42, "Old");
    create_guild_buffer(&mut manager, 42, "New");
    let view = manager.get_buffer("42").unwrap();
    assert_eq!(view.localvars().len(), 4);
    assert_eq!(view.get_localvar("guild_name").unwrap().as_str(), "New");
    assert_eq!(view.short_name().as_str(), "New");
}

#[test]
fn set_localvar_replaces_in_place() {
    let mut b = Buffer::new("x");
    b.set_localvar("nick", "@a");
    b.set_localvar("type", "channel");
    b.set_localvar("nick", "@b");
    assert_eq!(b.localvars().len(), 2);
    assert_eq!(b.localvars()[0].name.as_str(), "nick");
    assert_eq!(b.localvars()[0].value.as_str(), "@b");
    assert_eq!(b.get_localvar("type").unwrap().as_str(), "channel");
    assert!(b.get_localvar("muted").is_none());
}

#[test]
fn fresh_view_is_empty() {
    let b = Buffer::new("key");
    assert_eq!(b.name().as_str(), "key");
    assert_eq!(b.title().as_str(), "");
    assert_eq!(b.short_name().as_str(), "");
    assert_eq!(b.full_name().as_str(), "");
    assert_eq!(b.hotlist(), None);
    assert!(!b.history_loaded());
    assert!(!b.nicks_loaded());
    assert!(!b.nicklist_enabled());
    assert_eq!(b.messages().len(), 0);
    assert_eq!(b.read_marker(), 0);
    assert_eq!(b.groups().len(), 0);
    assert_eq!(b.nicks().len(), 0);
    assert_eq!(b.pins_channel(), None);
}

#[test]
fn hotlist_is_raised_and_cleared() {
    let mut b = Buffer::new("x");
    b.set_hotlist(HotlistPriority::Private);
    assert_eq!(b.hotlist(), Some(HotlistPriority::Private));
    b.set_hotlist(HotlistPriority::Message);
    assert_eq!(b.hotlist(), Some(HotlistPriority::Message));
    b.clear_hotlist();
    assert_eq!(b.hotlist(), None);
}

#[test]
fn messages_and_read_marker() {
    let mut b = Buffer::new("x");
    b.add_message(1);
    b.add_message(2);
    b.mark_read();
    b.add_message(3);
    assert_eq!(b.messages(), &vec![1, 2, 3]);
    assert_eq!(b.read_marker(), 2);
    b.clear();
    assert_eq!(b.messages().len(), 0);
    assert_eq!(b.read_marker(), 0);
}

#[test]
fn nicklist_groups_are_shared_by_name() {
    let mut b = Buffer::new("x");
    assert!(!b.search_nicklist_group("99998|Online"));
    b.add_group("99998|Online", GroupColor::Grey, true);
    b.add_group("99998|Online", GroupColor::Gray, false);
    assert!(b.search_nicklist_group("99998|Online"));
    assert_eq!(b.groups().len(), 1);
    assert_eq!(b.groups()[0].color, GroupColor::Grey);
    assert!(b.groups()[0].visible);
}

#[test]
fn nicks_are_added_once_and_removed_by_exact_name() {
    let mut b = Buffer::new("x");
    b.add_nick("Alice", Some("99998|Online"), None);
    b.add_nick("Bob", None, Some(OnlineStatus::Idle));
    b.add_nick("Alice", None, None);
    assert_eq!(b.nicks().len(), 2);
    assert_eq!(b.nicks()[0].group.as_deref(), Some("99998|Online"));
    assert_eq!(b.nicks()[1].status, Some(OnlineStatus::Idle));
    assert!(b.search_nick("Alice"));
    assert!(!b.search_nick("alice"));
    assert!(!b.remove_nick("Ali"));
    assert!(b.remove_nick("Alice"));
    assert!(!b.search_nick("Alice"));
    assert_eq!(b.nicks().len(), 1);
    assert_eq!(b.nicks()[0].name.as_str(), "Bob");
}

#[test]
fn switch_to_records_the_view_shown() {
    let mut manager = BufferManager::new();
    let a = manager.get_or_create_buffer("a");
    let b = manager.get_or_create_buffer("b");
    manager.switch_to(b);
    assert_eq!(manager.current(), Some(b));
    manager.switch_to(a);
    assert_eq!(manager.current(), Some(a));
}

#[test]
fn keys_are_derived_from_ids() {
    assert_eq!(buffer_id_for_guild(0).as_str(), "0");
    assert_eq!(buffer_id_for_guild(81384788765712384).as_str(), "81384788765712384");
    assert_eq!(buffer_id_for_channel(Some(7), 9).as_str(), "7.9");
    assert_eq!(buffer_id_for_channel(None, 9).as_str(), "Private.9");
    assert_eq!(buffer_id_for_pins(381880193251409931).as_str(), "Pins.381880193251409931");
    assert_ne!(buffer_id_for_channel(Some(1), 23), buffer_id_for_channel(Some(12), 3));
}

#[test]
fn numbers_are_written_in_decimal() {
    assert_eq!(u64_to_string(0).as_str(), "0");
    assert_eq!(u64_to_string(9).as_str(), "9");
    assert_eq!(u64_to_string(10).as_str(), "10");
    assert_eq!(u64_to_string(1234567890).as_str(), "1234567890");
    assert_eq!(u64_to_string(u64::MAX), u64::MAX.to_string());
    assert_eq!(signed_to_string(0).as_str(), "0");
    assert_eq!(signed_to_string(-1).as_str(), "-1");
    assert_eq!(signed_to_string(99989).as_str(), "99989");
    assert_eq!(signed_to_string(i128::MIN), i128::MIN.to_string());
    assert_eq!(signed_to_string(i128::MAX), i128::MAX.to_string());
    assert_eq!(padded4_to_string(7).as_str(), "0007");
    assert_eq!(padded4_to_string(42).as_str(), "0042");
    assert_eq!(padded4_to_string(999).as_str(), "0999");
    assert_eq!(padded4_to_string(1000).as_str(), "1000");
    assert_eq!(padded4_to_string(65535).as_str(), "65535");
}

#[test]
fn registry_built_by_the_library_is_well_formed() {
    let mut manager = init();
    assert!(manager.is_well_formed());
    create_guild_buffer(&mut manager, 1, "A");
    create_guild_buffer(&mut manager, 2, "B");
    manager.switch_to(1);
    assert!(manager.is_well_formed());
    assert!(manager.buffer(0).is_well_formed());
}

#[test]
fn replacing_a_view_by_one_of_another_key_is_detected() {
    let mut manager = init();
    create_guild_buffer(&mut manager, 1, "A");
    create_guild_buffer(&mut manager, 2, "B");
    *manager.buffer_mut(1) = Buffer::new("1");
    assert!(!manager.is_well_formed());
    *manager.buffer_mut(1) = Buffer::new("3");
    assert!(manager.is_well_formed());
}
