//! Creating the views for guilds, channels and conversations, and filling in
//! what they show.

use crate::buffer::{BufferView, HotlistPriority};
use crate::keys::{
    buffer_id_for_channel, buffer_id_for_guild, buffer_id_for_pins, channel_key, guild_key,
    pins_key,
};
use crate::manager::{lemma_put_keeps_wf, BufferManager, ManagerView};
use crate::model::{
    spec_channel_id, spec_channel_name, spec_group_name, spec_private_channel_name,
    spec_recipient_names, Cache, Channel, ChannelKind, GuildChannel,
};
use crate::nicklist::{load_dm_nicks, spec_load_dm_nicks};
use crate::permissions::{read_message_history, spec_read_message_history};
use crate::settings::Settings;
use crate::text::{decimal, owned, u64_to_string};
use crate::unread::{has_unread, read_cursor, spec_has_unread, spec_read_cursor};
use vstd::prelude::*;
use vstd::string::StringExecFns;

verus! {

/// What a guild's own view shows.
pub open spec fn guild_buffer(b: BufferView, id: u64, name: Seq<char>) -> BufferView {
    b.set_localvar("guild_name"@, name).set_localvar("server"@, name).set_short_name(
        name,
    ).set_localvar("guildid"@, decimal(id as nat)).set_localvar("type"@, "server"@).set_guild_id(
        id,
    )
}

/// The registry after a guild's view was created, or found, and filled in.
pub open spec fn spec_create_guild_buffer(m: ManagerView, id: u64, name: Seq<char>) -> ManagerView {
    let key = guild_key(id);
    let at = m.slot(key);
    let with_view = m.get_or_create(key);
    with_view.put(at, guild_buffer(with_view.buffers[at], id, name))
}

/// Creates the view of a guild, or finds it, and sets what it shows.
pub fn create_guild_buffer(manager: &mut BufferManager, id: u64, name: &str)
    requires
        old(manager).wf(),
    ensures
        final(manager)@ == spec_create_guild_buffer(old(manager)@, id, name@),
        final(manager).wf(),
{
    let key = buffer_id_for_guild(id);
    let at = manager.get_or_create_buffer(key.as_str());
    let ghost with_view = manager@;
    let id_text = u64_to_string(id);
    let buffer = manager.buffer_mut(at);
    buffer.set_localvar("guild_name", name);
    buffer.set_localvar("server", name);
    buffer.set_short_name(name);
    buffer.set_localvar("guildid", id_text.as_str());
    buffer.set_localvar("type", "server");
    buffer.set_guild_id(id);
    proof {
        lemma_put_keeps_wf(
            with_view,
            at as int,
            guild_buffer(with_view.buffers[at as int], id, name@),
        );
    }
}

/// The type a guild channel's view is labelled with; none for the kinds of
/// channel that get no view.
pub open spec fn spec_channel_type(kind: ChannelKind) -> Option<Seq<char>> {
    match kind {
        ChannelKind::Category | ChannelKind::Voice | ChannelKind::Store => None,
        ChannelKind::Private => Some("private"@),
        ChannelKind::Group | ChannelKind::Text | ChannelKind::News => Some("channel"@),
    }
}

/// Whether a guild channel gets a view: the current user is known to be
/// allowed to read its history, and it is of a kind that shows messages. A
/// channel whose permissions could not be determined gets none.
pub open spec fn channel_is_shown(channel: GuildChannel) -> bool {
    &&& channel.permissions matches Some(bits) && spec_read_message_history(bits)
    &&& spec_channel_type(channel.kind) is Some
}

/// The title of a guild channel's view: the name, then the topic behind a
/// bar if there is a topic that is not empty, then "(muted)" if muted.
pub open spec fn spec_channel_title(channel: GuildChannel, muted: bool) -> Seq<char> {
    let with_topic = match channel.topic {
        Some(topic) => if topic@.len() == 0 {
            channel.name@
        } else {
            channel.name@ + " | "@ + topic@
        },
        None => channel.name@,
    };
    if muted {
        with_topic + " (muted)"@
    } else {
        with_topic
    }
}

/// Whether the cache holds unread messages for a channel with the given
/// newest message.
pub open spec fn spec_channel_unread(
    cache: Cache,
    channel_id: u64,
    last_message_id: Option<u64>,
) -> bool {
    spec_has_unread(spec_read_cursor(cache, channel_id), last_message_id)
}

/// How a view records whether it is muted: "1" or "0".
pub open spec fn spec_muted_text(muted: bool) -> Seq<char> {
    if muted {
        "1"@
    } else {
        "0"@
    }
}

/// What a guild channel's view shows.
pub open spec fn channel_buffer(
    b: BufferView,
    cache: Cache,
    guild_name: Seq<char>,
    channel: GuildChannel,
    nick: Seq<char>,
    muted: bool,
) -> BufferView {
    let labelled = b.set_short_name(channel.name@).set_localvar(
        "channelid"@,
        decimal(channel.id as nat),
    ).set_localvar("guildid"@, decimal(channel.guild_id as nat)).set_localvar(
        "channel"@,
        channel.name@,
    ).set_localvar("guild_name"@, guild_name).set_localvar("server"@, guild_name).set_localvar(
        "type"@,
        spec_channel_type(channel.kind).unwrap(),
    ).set_localvar("nick"@, nick).set_channel_id(channel.id).set_guild_id(channel.guild_id);
    let raised = if spec_channel_unread(cache, channel.id, channel.last_message_id) && !muted {
        labelled.set_hotlist(HotlistPriority::Message)
    } else {
        labelled
    };
    raised.set_title(spec_channel_title(channel, muted)).set_localvar(
        "muted"@,
        spec_muted_text(muted),
    )
}

/// The registry after a guild channel was considered: unchanged when the
/// channel gets no view, else with the channel's view created, or found, and
/// filled in.
pub open spec fn spec_create_buffer_from_channel(
    m: ManagerView,
    cache: Cache,
    guild_name: Seq<char>,
    channel: GuildChannel,
    nick: Seq<char>,
    muted: bool,
) -> ManagerView {
    if !channel_is_shown(channel) {
        m
    } else {
        let key = channel_key(Some(channel.guild_id), channel.id);
        let at = m.slot(key);
        let with_view = m.get_or_create(key);
        with_view.put(
            at,
            channel_buffer(with_view.buffers[at], cache, guild_name, channel, nick, muted),
        )
    }
}

fn channel_type(kind: ChannelKind) -> (label: Option<&'static str>)
    ensures
        label matches Some(l) ==> spec_channel_type(kind) == Some(l@),
        label is None ==> spec_channel_type(kind) is None,
{
    match kind {
        ChannelKind::Category | ChannelKind::Voice | ChannelKind::Store => None,
        ChannelKind::Private => Some("private"),
        ChannelKind::Group | ChannelKind::Text | ChannelKind::News => Some("channel"),
    }
}

fn channel_title(channel: &GuildChannel, muted: bool) -> (title: String)
    ensures
        title@ == spec_channel_title(*channel, muted),
{
    let mut title = channel.name.clone();
    match &channel.topic {
        Some(topic) => {
            if !topic.as_str().is_empty() {
                title.append(" | ");
                title.append(topic.as_str());
            }
        },
        None => {},
    }
    if muted {
        title.append(" (muted)");
    }
    title
}

/// Creates the view of a guild channel, or finds it, and sets what it shows.
/// A channel whose history the user may not read or is not known to be
/// allowed to read, or that shows no messages, gets no view.
pub fn create_buffer_from_channel(
    manager: &mut BufferManager,
    cache: &Cache,
    guild_name: &str,
    channel: &GuildChannel,
    nick: &str,
    muted: bool,
)
    requires
        old(manager).wf(),
    ensures
        final(manager)@ == spec_create_buffer_from_channel(
            old(manager)@,
            *cache,
            guild_name@,
            *channel,
            nick@,
            muted,
        ),
        !channel_is_shown(*channel) ==> final(manager)@ == old(manager)@,
        final(manager).wf(),
{
    match channel.permissions {
        Some(bits) => {
            if !read_message_history(bits) {
                return ;
            }
        },
        None => {
            return ;
        },
    }
    let label = match channel_type(channel.kind) {
        Some(label) => label,
        None => {
            return ;
        },
    };
    let key = buffer_id_for_channel(Some(channel.guild_id), channel.id);
    let unread = has_unread(read_cursor(cache, channel.id), channel.last_message_id);
    let at = manager.get_or_create_buffer(key.as_str());
    let ghost with_view = manager@;
    let channel_id = u64_to_string(channel.id);
    let guild_id = u64_to_string(channel.guild_id);
    let title = channel_title(channel, muted);
    let buffer = manager.buffer_mut(at);
    buffer.set_short_name(channel.name.as_str());
    buffer.set_localvar("channelid", channel_id.as_str());
    buffer.set_localvar("guildid", guild_id.as_str());
    buffer.set_localvar("channel", channel.name.as_str());
    buffer.set_localvar("guild_name", guild_name);
    buffer.set_localvar("server", guild_name);
    buffer.set_localvar("type", label);
    buffer.set_localvar("nick", nick);
    buffer.set_channel_id(channel.id);
    buffer.set_guild_id(channel.guild_id);
    if unread && !muted {
        buffer.set_hotlist(HotlistPriority::Message);
    }
    buffer.set_title(title.as_str());
    buffer.set_localvar("muted", if muted { "1" } else { "0" });
    proof {
        lemma_put_keeps_wf(
            with_view,
            at as int,
            channel_buffer(with_view.buffers[at as int], *cache, guild_name@, *channel, nick@, muted),
        );
    }
}

/// What the view of a private conversation shows.
pub open spec fn dm_buffer(
    b: BufferView,
    cache: Cache,
    channel: crate::model::PrivateChannel,
    nick: Seq<char>,
    settings: Settings,
) -> BufferView {
    let labelled = b.set_short_name(spec_private_channel_name(channel)).set_localvar(
        "channelid"@,
        decimal(channel.id as nat),
    ).set_localvar("nick"@, nick).set_channel_id(channel.id);
    let raised = if spec_channel_unread(cache, channel.id, channel.last_message_id) {
        labelled.set_hotlist(HotlistPriority::Private)
    } else {
        labelled
    };
    spec_load_dm_nicks(
        raised.set_title("DM with "@ + channel.recipient.name@),
        cache,
        channel,
        settings,
    )
}

/// The registry after a private conversation was given its view: the view
/// is created, or found, and filled in, and shown if so asked.
pub open spec fn spec_create_dm_buffer(
    m: ManagerView,
    cache: Cache,
    private: crate::model::PrivateChannel,
    nick: Seq<char>,
    switch_to: bool,
    settings: Settings,
) -> ManagerView {
    let key = channel_key(None, private.id);
    let at = m.slot(key);
    let with_view = m.get_or_create(key);
    let filled = with_view.put(at, dm_buffer(with_view.buffers[at], cache, private, nick, settings));
    if switch_to {
        filled.switch_to(at)
    } else {
        filled
    }
}

/// The registry after a channel was given the view of a private
/// conversation; a channel that is no private conversation changes nothing.
pub open spec fn spec_create_buffer_from_dm(
    m: ManagerView,
    cache: Cache,
    channel: Channel,
    nick: Seq<char>,
    switch_to: bool,
    settings: Settings,
) -> ManagerView {
    match channel {
        Channel::Private(private) => spec_create_dm_buffer(
            m,
            cache,
            private,
            nick,
            switch_to,
            settings,
        ),
        _ => m,
    }
}

/// Creates the view of a private conversation, or finds it, sets what it
/// shows, and shows it if asked to.
pub fn create_buffer_from_dm(
    manager: &mut BufferManager,
    cache: &Cache,
    channel: &Channel,
    nick: &str,
    switch_to: bool,
    settings: &Settings,
)
    requires
        old(manager).wf(),
    ensures
        final(manager)@ == spec_create_buffer_from_dm(
            old(manager)@,
            *cache,
            *channel,
            nick@,
            switch_to,
            *settings,
        ),
        final(manager).wf(),
{
    match channel {
        Channel::Private(private) => create_dm_buffer(
            manager,
            cache,
            private,
            nick,
            switch_to,
            settings,
        ),
        _ => {},
    }
}

/// Creates the view of a private conversation, or finds it, sets what it
/// shows, and shows it if asked to.
pub fn create_dm_buffer(
    manager: &mut BufferManager,
    cache: &Cache,
    private: &crate::model::PrivateChannel,
    nick: &str,
    switch_to: bool,
    settings: &Settings,
)
    requires
        old(manager).wf(),
    ensures
        final(manager)@ == spec_create_dm_buffer(
            old(manager)@,
            *cache,
            *private,
            nick@,
            switch_to,
            *settings,
        ),
        final(manager).wf(),
{
    let key = buffer_id_for_channel(None, private.id);
    let at = manager.get_or_create_buffer(key.as_str());
    let ghost with_view = manager@;
    let short_name = private.name();
    let channel_id = u64_to_string(private.id);
    let unread = has_unread(read_cursor(cache, private.id), private.last_message_id);
    let mut title = owned("DM with ");
    title.append(private.recipient.name.as_str());
    let buffer = manager.buffer_mut(at);
    buffer.set_short_name(short_name.as_str());
    buffer.set_localvar("channelid", channel_id.as_str());
    buffer.set_localvar("nick", nick);
    buffer.set_channel_id(private.id);
    if unread {
        buffer.set_hotlist(HotlistPriority::Private);
    }
    buffer.set_title(title.as_str());
    load_dm_nicks(buffer, cache, private, settings);
    proof {
        lemma_put_keeps_wf(
            with_view,
            at as int,
            dm_buffer(with_view.buffers[at as int], *cache, *private, nick@, *settings),
        );
    }
    if switch_to {
        manager.switch_to(at);
    }
}

/// What the view of a group conversation shows.
pub open spec fn group_buffer(
    b: BufferView,
    cache: Cache,
    group: crate::model::Group,
    nick: Seq<char>,
) -> BufferView {
    let labelled = b.set_short_name(spec_group_name(group)).set_localvar(
        "channelid"@,
        decimal(group.channel_id as nat),
    ).set_localvar("nick"@, nick).set_channel_id(group.channel_id).set_title(
        "DM with "@ + spec_recipient_names(group),
    );
    if spec_channel_unread(cache, group.channel_id, group.last_message_id) {
        labelled.set_hotlist(HotlistPriority::Private)
    } else {
        labelled
    }
}

/// The registry after a group conversation was given its view: the view is
/// created, or found, and filled in.
pub open spec fn spec_create_group_buffer(
    m: ManagerView,
    cache: Cache,
    group: crate::model::Group,
    nick: Seq<char>,
) -> ManagerView {
    let key = channel_key(None, group.channel_id);
    let at = m.slot(key);
    let with_view = m.get_or_create(key);
    with_view.put(at, group_buffer(with_view.buffers[at], cache, group, nick))
}

/// The registry after a channel was given the view of a group conversation;
/// a channel that is no group conversation changes nothing.
pub open spec fn spec_create_buffer_from_group(
    m: ManagerView,
    cache: Cache,
    channel: Channel,
    nick: Seq<char>,
) -> ManagerView {
    match channel {
        Channel::Group(group) => spec_create_group_buffer(m, cache, group, nick),
        _ => m,
    }
}

/// Creates the view of a group conversation, or finds it, and sets what it
/// shows.
pub fn create_buffer_from_group(
    manager: &mut BufferManager,
    cache: &Cache,
    channel: &Channel,
    nick: &str,
)
    requires
        old(manager).wf(),
    ensures
        final(manager)@ == spec_create_buffer_from_group(old(manager)@, *cache, *channel, nick@),
        final(manager).wf(),
{
    match channel {
        Channel::Group(group) => create_group_buffer(manager, cache, group, nick),
        _ => {},
    }
}

/// Creates the view of a group conversation, or finds it, and sets what it
/// shows.
pub fn create_group_buffer(
    manager: &mut BufferManager,
    cache: &Cache,
    group: &crate::model::Group,
    nick: &str,
)
    requires
        old(manager).wf(),
    ensures
        final(manager)@ == spec_create_group_buffer(old(manager)@, *cache, *group, nick@),
        final(manager).wf(),
{
    let mut title = owned("DM with ");
    let names = group.recipient_names();
    title.append(names.as_str());
    let key = buffer_id_for_channel(None, group.channel_id);
    let at = manager.get_or_create_buffer(key.as_str());
    let ghost with_view = manager@;
    let short_name = group.name();
    let channel_id = u64_to_string(group.channel_id);
    let unread = has_unread(read_cursor(cache, group.channel_id), group.last_message_id);
    let buffer = manager.buffer_mut(at);
    buffer.set_short_name(short_name.as_str());
    buffer.set_localvar("channelid", channel_id.as_str());
    buffer.set_localvar("nick", nick);
    buffer.set_channel_id(group.channel_id);
    buffer.set_title(title.as_str());
    if unread {
        buffer.set_hotlist(HotlistPriority::Private);
    }
    proof {
        lemma_put_keeps_wf(
            with_view,
            at as int,
            group_buffer(with_view.buffers[at as int], *cache, *group, nick@),
        );
    }
}

/// What the view that lists a channel's pinned messages shows.
pub open spec fn pins_buffer(b: BufferView, channel: Channel) -> BufferView {
    let name = spec_channel_name(channel);
    b.set_title("Pinned messages in #"@ + name).set_full_name(
        "Pinned messages in $"@ + name,
    ).set_short_name("#"@ + name + " pins"@).set_localvar(
        "pins_for_channel"@,
        decimal(spec_channel_id(channel) as nat),
    ).set_pins_channel(spec_channel_id(channel))
}

/// The registry after the view of a channel's pinned messages was created,
/// or found, shown and filled in.
pub open spec fn spec_create_pins_buffer(m: ManagerView, channel: Channel) -> ManagerView {
    let key = pins_key(spec_channel_id(channel));
    let at = m.slot(key);
    let with_view = m.get_or_create(key).switch_to(at);
    with_view.put(at, pins_buffer(with_view.buffers[at], channel))
}

/// Creates the view that lists a channel's pinned messages, or finds it,
/// shows it and sets its texts.
pub fn create_pins_buffer(manager: &mut BufferManager, channel: &Channel)
    requires
        old(manager).wf(),
    ensures
        final(manager)@ == spec_create_pins_buffer(old(manager)@, *channel),
        final(manager).wf(),
{
    let id = channel.id();
    let key = buffer_id_for_pins(id);
    let at = manager.get_or_create_buffer(key.as_str());
    manager.switch_to(at);
    let ghost with_view = manager@;
    let name = channel.name();
    let mut title = owned("Pinned messages in #");
    title.append(name.as_str());
    let mut full_name = owned("Pinned messages in $");
    full_name.append(name.as_str());
    let mut short_name = owned("#");
    short_name.append(name.as_str());
    short_name.append(" pins");
    let id_text = u64_to_string(id);
    let buffer = manager.buffer_mut(at);
    buffer.set_title(title.as_str());
    buffer.set_full_name(full_name.as_str());
    buffer.set_short_name(short_name.as_str());
    buffer.set_localvar("pins_for_channel", id_text.as_str());
    buffer.set_pins_channel(id);
    proof {
        lemma_put_keeps_wf(with_view, at as int, pins_buffer(with_view.buffers[at as int], *channel));
    }
}

} // verus!
