//! Views for the channels the user asked to have opened or watched.

use crate::create::{
    create_buffer_from_channel, create_dm_buffer, create_group_buffer, create_guild_buffer,
    spec_create_buffer_from_channel, spec_create_dm_buffer, spec_create_group_buffer,
    spec_create_guild_buffer,
};
use crate::flat::{
    entry_at, entry_count, entry_keys, flat_entries, new_flat, position_of_key,
    put_entry,
};
use crate::hierarchy::{channel_order, places, sort_channels};
use crate::keyed::{index_of, lemma_index_of};
use crate::manager::{BufferManager, ManagerView};
use crate::model::{
    find_channel_in_guilds, find_group, find_guild, find_member, find_private_channel,
    spec_cached_last_message, Cache, GuildChannel, GuildOrChannel,
};
use crate::nicklist::{own_nick, spec_own_nick};
use crate::settings::Settings;
use crate::text::owned;
use crate::unread::{read_cursor, spec_read_cursor};
use indexmap::IndexMap;
use vstd::prelude::*;
use vstd::string::StringExecFns;

verus! {

/// The ids of the channels at the given places.
pub open spec fn ids_in_order(channels: Seq<GuildChannel>, order: Seq<int>) -> Seq<u64> {
    order.map_values(|j: int| channels[j].id)
}

/// The ids of a cached guild's channels by ascending position; none for a
/// guild that is not cached.
pub open spec fn spec_guild_channel_ids(cache: Cache, guild_id: u64) -> Seq<u64> {
    match find_guild(cache.guilds@, guild_id) {
        Some(guild) => ids_in_order(guild.channels@, channel_order(guild.channels@)),
        None => Seq::empty(),
    }
}

/// Entries with some channel ids added under a key: behind the ids the key
/// has already, or as a new entry at the end.
pub open spec fn entries_append(
    entries: Seq<(Option<u64>, Seq<u64>)>,
    key: Option<u64>,
    ids: Seq<u64>,
) -> Seq<(Option<u64>, Seq<u64>)> {
    match index_of(entry_keys(entries), key) {
        Some(i) => entries.update(i, (key, entries[i].1 + ids)),
        None => entries.push((key, ids)),
    }
}

/// Entries with one item added: a guild brings all its channels by position,
/// under the guild's id; a channel comes under the guild it was named with.
pub open spec fn entries_with_item(
    cache: Cache,
    entries: Seq<(Option<u64>, Seq<u64>)>,
    item: GuildOrChannel,
) -> Seq<(Option<u64>, Seq<u64>)> {
    match item {
        GuildOrChannel::Guild(guild_id) => entries_append(
            entries,
            Some(guild_id),
            spec_guild_channel_ids(cache, guild_id),
        ),
        GuildOrChannel::Channel(guild_id, channel_id) => entries_append(
            entries,
            guild_id,
            seq![channel_id],
        ),
    }
}

/// Some items flattened into channels grouped by guild, the groups in the
/// order they were first named.
pub open spec fn spec_flatten_guilds(cache: Cache, items: Seq<GuildOrChannel>) -> Seq<
    (Option<u64>, Seq<u64>),
>
    decreases items.len(),
{
    if items.len() == 0 {
        Seq::empty()
    } else {
        entries_with_item(cache, spec_flatten_guilds(cache, items.drop_last()), items.last())
    }
}

fn append_ids(map: &mut IndexMap<Option<u64>, Vec<u64>>, key: Option<u64>, ids: Vec<u64>)
    ensures
        flat_entries(*final(map)) == entries_append(flat_entries(*old(map)), key, ids@),
{
    let ghost entries = flat_entries(*map);
    proof {
        lemma_index_of(entry_keys(entries), key);
    }
    match position_of_key(map, key) {
        Some(i) => {
            let mut held = entry_at(map, i).unwrap().1;
            let mut k: usize = 0;
            while k < ids.len()
                invariant
                    k <= ids.len(),
                    held@ == entries[i as int].1 + ids@.take(k as int),
                decreases ids.len() - k,
            {
                held.push(ids[k]);
                assert(ids@.take(k as int + 1) =~= ids@.take(k as int).push(ids@[k as int]));
                k = k + 1;
            }
            assert(ids@.take(k as int) =~= ids@);
            put_entry(map, key, held);
        },
        None => {
            put_entry(map, key, ids);
        },
    }
}

fn guild_channel_ids(cache: &Cache, guild_id: u64) -> (ids: Vec<u64>)
    ensures
        ids@ == spec_guild_channel_ids(*cache, guild_id),
{
    let mut ids: Vec<u64> = Vec::new();
    if let Some(guild) = cache.guild(guild_id) {
        let order = sort_channels(&guild.channels);
        let mut k: usize = 0;
        while k < order.len()
            invariant
                k <= order.len(),
                forall|i: int| 0 <= i < order@.len() ==> #[trigger] order@[i] < guild.channels@.len(),
                ids@ == ids_in_order(guild.channels@, places(order@).take(k as int)),
            decreases order.len() - k,
        {
            ids.push(guild.channels[order[k]].id);
            assert(ids@ =~= ids_in_order(guild.channels@, places(order@).take(k as int + 1)));
            k = k + 1;
        }
        assert(places(order@).take(k as int) =~= places(order@));
    }
    ids
}

/// Flattens guilds and channels into channels grouped by guild.
pub fn flatten_guilds(cache: &Cache, items: &Vec<GuildOrChannel>) -> (map: IndexMap<
    Option<u64>,
    Vec<u64>,
>)
    ensures
        flat_entries(map) == spec_flatten_guilds(*cache, items@),
{
    let mut map = new_flat();
    let mut i: usize = 0;
    assert(items@.take(0) =~= Seq::<GuildOrChannel>::empty());
    while i < items.len()
        invariant
            i <= items.len(),
            flat_entries(map) == spec_flatten_guilds(*cache, items@.take(i as int)),
        decreases items.len() - i,
    {
        assert(items@.take(i as int + 1).drop_last() =~= items@.take(i as int));
        match items[i] {
            GuildOrChannel::Guild(guild_id) => {
                let ids = guild_channel_ids(cache, guild_id);
                append_ids(&mut map, Some(guild_id), ids);
            },
            GuildOrChannel::Channel(guild_id, channel_id) => {
                let mut ids: Vec<u64> = Vec::new();
                ids.push(channel_id);
                assert(ids@ =~= seq![channel_id]);
                append_ids(&mut map, guild_id, ids);
            },
        }
        i = i + 1;
    }
    assert(items@.take(i as int) =~= items@);
    map
}

/// The registry after some channels were considered for a view as channels
/// of a guild, one after the other: each that is cached as a guild channel is
/// handled as `spec_create_buffer_from_channel` says, unmuted; any other is
/// passed over.
pub open spec fn spec_create_flat_guild_channels(
    m: ManagerView,
    cache: Cache,
    guild_name: Seq<char>,
    channel_ids: Seq<u64>,
    nick: Seq<char>,
) -> ManagerView
    decreases channel_ids.len(),
{
    if channel_ids.len() == 0 {
        m
    } else {
        let before = spec_create_flat_guild_channels(
            m,
            cache,
            guild_name,
            channel_ids.drop_last(),
            nick,
        );
        match find_channel_in_guilds(cache.guilds@, channel_ids.last()) {
            Some(channel) => spec_create_buffer_from_channel(
                before,
                cache,
                guild_name,
                channel,
                nick,
                false,
            ),
            None => before,
        }
    }
}

/// The registry after a conversation outside any guild was considered for a
/// view: a cached private conversation or group conversation gets its view;
/// an id that is cached as a guild channel, or not at all, is passed over.
pub open spec fn spec_create_flat_conversation(
    m: ManagerView,
    cache: Cache,
    channel_id: u64,
    nick: Seq<char>,
    settings: Settings,
) -> ManagerView {
    if find_channel_in_guilds(cache.guilds@, channel_id) is Some {
        m
    } else {
        match find_private_channel(cache.private_channels@, channel_id) {
            Some(private) => spec_create_dm_buffer(m, cache, private, nick, false, settings),
            None => match find_group(cache.groups@, channel_id) {
                Some(group) => spec_create_group_buffer(m, cache, group, nick),
                None => m,
            },
        }
    }
}

/// The registry after some conversations outside any guild were considered
/// for a view, one after the other.
pub open spec fn spec_create_flat_conversations(
    m: ManagerView,
    cache: Cache,
    channel_ids: Seq<u64>,
    nick: Seq<char>,
    settings: Settings,
) -> ManagerView
    decreases channel_ids.len(),
{
    if channel_ids.len() == 0 {
        m
    } else {
        spec_create_flat_conversation(
            spec_create_flat_conversations(m, cache, channel_ids.drop_last(), nick, settings),
            cache,
            channel_ids.last(),
            nick,
            settings,
        )
    }
}

/// The registry after one group of channels was given its views. For a guild
/// that is cached: the guild's own view, then the channels. A guild that is
/// not cached is passed over. Conversations outside any guild get their views
/// under the user's own name.
pub open spec fn spec_create_flat_entry(
    m: ManagerView,
    cache: Cache,
    entry: (Option<u64>, Seq<u64>),
    settings: Settings,
) -> ManagerView {
    match entry.0 {
        Some(guild_id) => match find_guild(cache.guilds@, guild_id) {
            Some(guild) => spec_create_flat_guild_channels(
                spec_create_guild_buffer(m, guild.id, guild.name@),
                cache,
                guild.name@,
                entry.1,
                spec_own_nick(cache, find_member(guild.members@, cache.user.id)),
            ),
            None => m,
        },
        None => spec_create_flat_conversations(
            m,
            cache,
            entry.1,
            "@"@ + cache.user.name@,
            settings,
        ),
    }
}

/// The registry after some groups of channels were given their views, one
/// group after the other.
pub open spec fn spec_create_flat_entries(
    m: ManagerView,
    cache: Cache,
    entries: Seq<(Option<u64>, Seq<u64>)>,
    settings: Settings,
) -> ManagerView
    decreases entries.len(),
{
    if entries.len() == 0 {
        m
    } else {
        spec_create_flat_entry(
            spec_create_flat_entries(m, cache, entries.drop_last(), settings),
            cache,
            entries.last(),
            settings,
        )
    }
}

fn create_flat_guild_channels(
    manager: &mut BufferManager,
    cache: &Cache,
    guild_name: &str,
    channel_ids: &Vec<u64>,
    nick: &str,
)
    requires
        old(manager).wf(),
    ensures
        final(manager)@ == spec_create_flat_guild_channels(
            old(manager)@,
            *cache,
            guild_name@,
            channel_ids@,
            nick@,
        ),
        final(manager).wf(),
{
    let mut i: usize = 0;
    assert(channel_ids@.take(0) =~= Seq::<u64>::empty());
    while i < channel_ids.len()
        invariant
            i <= channel_ids.len(),
            manager.wf(),
            manager@ == spec_create_flat_guild_channels(
                old(manager)@,
                *cache,
                guild_name@,
                channel_ids@.take(i as int),
                nick@,
            ),
        decreases channel_ids.len() - i,
    {
        assert(channel_ids@.take(i as int + 1).drop_last() =~= channel_ids@.take(i as int));
        if let Some(channel) = cache.guild_channel(channel_ids[i]) {
            create_buffer_from_channel(manager, cache, guild_name, channel, nick, false);
        }
        i = i + 1;
    }
    assert(channel_ids@.take(i as int) =~= channel_ids@);
}

fn create_flat_conversations(
    manager: &mut BufferManager,
    cache: &Cache,
    channel_ids: &Vec<u64>,
    nick: &str,
    settings: &Settings,
)
    requires
        old(manager).wf(),
    ensures
        final(manager)@ == spec_create_flat_conversations(
            old(manager)@,
            *cache,
            channel_ids@,
            nick@,
            *settings,
        ),
        final(manager).wf(),
{
    let mut i: usize = 0;
    assert(channel_ids@.take(0) =~= Seq::<u64>::empty());
    while i < channel_ids.len()
        invariant
            i <= channel_ids.len(),
            manager.wf(),
            manager@ == spec_create_flat_conversations(
                old(manager)@,
                *cache,
                channel_ids@.take(i as int),
                nick@,
                *settings,
            ),
        decreases channel_ids.len() - i,
    {
        assert(channel_ids@.take(i as int + 1).drop_last() =~= channel_ids@.take(i as int));
        let id = channel_ids[i];
        if cache.guild_channel(id).is_none() {
            if let Some(private) = cache.private_channel(id) {
                create_dm_buffer(manager, cache, private, nick, false, settings);
            } else if let Some(group) = cache.group(id) {
                create_group_buffer(manager, cache, group, nick);
            }
        }
        i = i + 1;
    }
    assert(channel_ids@.take(i as int) =~= channel_ids@);
}

/// Gives the listed channels their views, group by group: for each guild its
/// own view and then its listed channels, and for conversations outside any
/// guild a view each.
pub fn create_buffers_from_flat_items(
    manager: &mut BufferManager,
    cache: &Cache,
    channels: &IndexMap<Option<u64>, Vec<u64>>,
    settings: &Settings,
)
    requires
        old(manager).wf(),
    ensures
        final(manager)@ == spec_create_flat_entries(
            old(manager)@,
            *cache,
            flat_entries(*channels),
            *settings,
        ),
        final(manager).wf(),
{
    let ghost entries = flat_entries(*channels);
    let n = entry_count(channels);
    let mut i: usize = 0;
    assert(entries.take(0) =~= Seq::<(Option<u64>, Seq<u64>)>::empty());
    while i < n
        invariant
            i <= n,
            n == entries.len(),
            entries == flat_entries(*channels),
            manager.wf(),
            manager@ == spec_create_flat_entries(
                old(manager)@,
                *cache,
                entries.take(i as int),
                *settings,
            ),
        decreases n - i,
    {
        assert(entries.take(i as int + 1).drop_last() =~= entries.take(i as int));
        let (key, channel_ids) = entry_at(channels, i).unwrap();
        assert(entries.take(i as int + 1).last() == (key, channel_ids@));
        match key {
            Some(guild_id) => {
                if let Some(guild) = cache.guild(guild_id) {
                    let nick = own_nick(cache, guild.member(cache.user.id));
                    create_guild_buffer(manager, guild.id, guild.name.as_str());
                    create_flat_guild_channels(
                        manager,
                        cache,
                        guild.name.as_str(),
                        &channel_ids,
                        nick.as_str(),
                    );
                }
            },
            None => {
                let mut nick = owned("@");
                nick.append(cache.user.name.as_str());
                create_flat_conversations(manager, cache, &channel_ids, nick.as_str(), settings);
            },
        }
        i = i + 1;
    }
    assert(entries.take(i as int) =~= entries);
}

/// Whether a watched channel has something new: the remote service holds a
/// read cursor for it, the channel is cached with a newest message, and the
/// cursor does not stand at that message.
pub open spec fn spec_watched_unread(cache: Cache, channel_id: u64) -> bool {
    match (spec_read_cursor(cache, channel_id), spec_cached_last_message(cache, channel_id)) {
        (Some(cursor), Some(last)) => cursor != last,
        _ => false,
    }
}

/// Items with each of some channels of one group added that has something
/// new.
pub open spec fn spec_add_unread_channels(
    cache: Cache,
    items: Seq<GuildOrChannel>,
    guild_id: Option<u64>,
    channel_ids: Seq<u64>,
) -> Seq<GuildOrChannel>
    decreases channel_ids.len(),
{
    if channel_ids.len() == 0 {
        items
    } else {
        let before = spec_add_unread_channels(cache, items, guild_id, channel_ids.drop_last());
        if spec_watched_unread(cache, channel_ids.last()) {
            before.push(GuildOrChannel::Channel(guild_id, channel_ids.last()))
        } else {
            before
        }
    }
}

/// Items with each watched channel added that has something new, group by
/// group.
pub open spec fn spec_add_unread_watched(
    cache: Cache,
    items: Seq<GuildOrChannel>,
    watched: Seq<(Option<u64>, Seq<u64>)>,
) -> Seq<GuildOrChannel>
    decreases watched.len(),
{
    if watched.len() == 0 {
        items
    } else {
        spec_add_unread_channels(
            cache,
            spec_add_unread_watched(cache, items, watched.drop_last()),
            watched.last().0,
            watched.last().1,
        )
    }
}

/// What is opened when a session starts: what the user asked to have
/// opened, and of what they asked to have watched the channels that have
/// something new.
pub open spec fn spec_autojoin_items(
    cache: Cache,
    autojoin: Seq<GuildOrChannel>,
    watched: Seq<GuildOrChannel>,
) -> Seq<GuildOrChannel> {
    spec_add_unread_watched(cache, autojoin, spec_flatten_guilds(cache, watched))
}

/// The registry after the views asked for at the start of a session were
/// created.
pub open spec fn spec_create_autojoin_buffers(
    m: ManagerView,
    cache: Cache,
    autojoin: Seq<GuildOrChannel>,
    watched: Seq<GuildOrChannel>,
    settings: Settings,
) -> ManagerView {
    spec_create_flat_entries(
        m,
        cache,
        spec_flatten_guilds(cache, spec_autojoin_items(cache, autojoin, watched)),
        settings,
    )
}

fn watched_unread(cache: &Cache, channel_id: u64) -> (unread: bool)
    ensures
        unread == spec_watched_unread(*cache, channel_id),
{
    let cursor = match read_cursor(cache, channel_id) {
        Some(cursor) => cursor,
        None => {
            return false;
        },
    };
    match cache.last_message(channel_id) {
        Some(last) => cursor != last,
        None => false,
    }
}

/// Works out what is opened when a session starts.
pub fn autojoin_items(
    cache: &Cache,
    autojoin: Vec<GuildOrChannel>,
    watched: &Vec<GuildOrChannel>,
) -> (items: Vec<GuildOrChannel>)
    ensures
        items@ == spec_autojoin_items(*cache, autojoin@, watched@),
{
    let mut items = autojoin;
    let watched_channels = flatten_guilds(cache, watched);
    let ghost entries = flat_entries(watched_channels);
    let n = entry_count(&watched_channels);
    let mut i: usize = 0;
    assert(entries.take(0) =~= Seq::<(Option<u64>, Seq<u64>)>::empty());
    while i < n
        invariant
            i <= n,
            n == entries.len(),
            entries == flat_entries(watched_channels),
            items@ == spec_add_unread_watched(*cache, autojoin@, entries.take(i as int)),
        decreases n - i,
    {
        assert(entries.take(i as int + 1).drop_last() =~= entries.take(i as int));
        let (guild_id, channel_ids) = entry_at(&watched_channels, i).unwrap();
        assert(entries.take(i as int + 1).last() == (guild_id, channel_ids@));
        let ghost before = items@;
        let mut k: usize = 0;
        assert(channel_ids@.take(0) =~= Seq::<u64>::empty());
        while k < channel_ids.len()
            invariant
                k <= channel_ids.len(),
                items@ == spec_add_unread_channels(
                    *cache,
                    before,
                    guild_id,
                    channel_ids@.take(k as int),
                ),
            decreases channel_ids.len() - k,
        {
            assert(channel_ids@.take(k as int + 1).drop_last() =~= channel_ids@.take(k as int));
            if watched_unread(cache, channel_ids[k]) {
                items.push(GuildOrChannel::Channel(guild_id, channel_ids[k]));
            }
            k = k + 1;
        }
        assert(channel_ids@.take(k as int) =~= channel_ids@);
        i = i + 1;
    }
    assert(entries.take(i as int) =~= entries);
    items
}

/// Creates the views asked for at the start of a session: for what the user
/// asked to have opened, and for the watched channels that have something
/// new.
pub fn create_autojoin_buffers(
    manager: &mut BufferManager,
    cache: &Cache,
    autojoin: Vec<GuildOrChannel>,
    watched: &Vec<GuildOrChannel>,
    settings: &Settings,
)
    requires
        old(manager).wf(),
    ensures
        final(manager)@ == spec_create_autojoin_buffers(
            old(manager)@,
            *cache,
            autojoin@,
            watched@,
            *settings,
        ),
        final(manager).wf(),
{
    let items = autojoin_items(cache, autojoin, watched);
    let channels = flatten_guilds(cache, &items);
    create_buffers_from_flat_items(manager, cache, &channels, settings);
}

} // verus!
