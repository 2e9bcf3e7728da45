//! What holds of the views whatever the remote state and whatever was done
//! before.

use crate::buffer::{
    lemma_add_nick, lemma_remove_nick, lemma_set_localvar_idempotent,
    lemma_set_localvar_keeps_others, lemma_set_localvar_reads_back, BufferView, HotlistPriority,
};
use crate::create::{
    channel_buffer, channel_is_shown, dm_buffer, group_buffer, guild_buffer, pins_buffer,
    spec_channel_title, spec_channel_type, spec_channel_unread, spec_create_buffer_from_channel,
    spec_create_dm_buffer, spec_create_group_buffer, spec_create_guild_buffer,
    spec_create_pins_buffer, spec_muted_text,
};
use crate::hierarchy::{
    channel_order, guild_ids, guild_order, lemma_positioned_in_range, lemma_prepend_in_range,
    lemma_sorted_by_position, positioned, spec_create_buffers, spec_create_channel_buffers,
    spec_create_views_in_order,
};
use crate::history::{
    chronological, lemma_backfill, spec_add_all, spec_complete_history, spec_fully_read,
    spec_load_history, spec_load_pin_buffer_history, spec_reconcile, spec_wants_history,
    HistoryRequest, HistoryTrigger,
};
use crate::keyed::{index_of, lemma_index_of};
use crate::keys::{channel_key, guild_key, pins_key};
use crate::manager::{create_and_fill, lemma_create_and_fill_idempotent, ManagerView};
use crate::model::{
    spec_cached_last_message, spec_channel_id, spec_channel_name, spec_display_name,
    spec_group_name, spec_private_channel_name, spec_recipient_names, Cache, Channel, Group,
    Guild, GuildChannel, GuildListing, Member, Message, PrivateChannel, Ready, Role,
};
use crate::nicklist::{
    spec_add_member_to_nicklist, spec_add_members, spec_guild_has_crown, spec_is_participant,
    spec_load_dm_nicks, spec_load_nicks, spec_nicklist_name, spec_placement,
    spec_rename_in_channel, spec_role_group_name, spec_user_status, spec_wears_crown,
    PlacementView, BOT_GROUP_NAME, CROWN, OFFLINE_GROUP_NAME, ONLINE_GROUP_NAME,
};
use crate::permissions::{spec_administrator, spec_read_message_history};
use crate::settings::Settings;
use crate::text::{decimal, lemma_numeral_order, lex_less};
use crate::unread::{spec_has_unread, spec_initial_hotlist, spec_read_cursor};
use vstd::prelude::*;

verus! {

/// The names of the local variables a view is given differ from each other.
pub proof fn lemma_variable_names_differ()
    ensures
        "guild_name"@ != "server"@,
        "guild_name"@ != "guildid"@,
        "guild_name"@ != "type"@,
        "guild_name"@ != "channelid"@,
        "guild_name"@ != "channel"@,
        "guild_name"@ != "nick"@,
        "guild_name"@ != "muted"@,
        "server"@ != "guildid"@,
        "server"@ != "type"@,
        "server"@ != "channelid"@,
        "server"@ != "channel"@,
        "server"@ != "nick"@,
        "server"@ != "muted"@,
        "guildid"@ != "type"@,
        "guildid"@ != "channelid"@,
        "guildid"@ != "channel"@,
        "guildid"@ != "nick"@,
        "guildid"@ != "muted"@,
        "type"@ != "channelid"@,
        "type"@ != "channel"@,
        "type"@ != "nick"@,
        "type"@ != "muted"@,
        "channelid"@ != "channel"@,
        "channelid"@ != "nick"@,
        "channelid"@ != "muted"@,
        "channel"@ != "nick"@,
        "channel"@ != "muted"@,
        "nick"@ != "muted"@,
{
    reveal_strlit("guild_name");
    reveal_strlit("server");
    reveal_strlit("guildid");
    reveal_strlit("type");
    reveal_strlit("channelid");
    reveal_strlit("channel");
    reveal_strlit("nick");
    reveal_strlit("muted");
    assert("guild_name"@.len() == 10);
    assert("server"@.len() == 6);
    assert("guildid"@.len() == 7);
    assert("type"@.len() == 4);
    assert("channelid"@.len() == 9);
    assert("channel"@.len() == 7);
    assert("nick"@.len() == 4);
    assert("muted"@.len() == 5);
    assert("guildid"@[0] == 'g' && "channel"@[0] == 'c');
    assert("type"@[0] == 't' && "nick"@[0] == 'n');
}

/// Filling in a guild's view a second time changes nothing.
pub proof fn lemma_guild_buffer_idempotent(b: BufferView, id: u64, name: Seq<char>)
    ensures
        guild_buffer(guild_buffer(b, id, name), id, name) == guild_buffer(b, id, name),
        guild_buffer(b, id, name).name == b.name,
{
    lemma_variable_names_differ();
    let id_text = decimal(id as nat);
    let b1 = b.set_localvar("guild_name"@, name);
    let b2 = b1.set_localvar("server"@, name);
    let b3 = b2.set_short_name(name);
    let b4 = b3.set_localvar("guildid"@, id_text);
    let b5 = b4.set_localvar("type"@, "server"@);
    let b6 = b5.set_guild_id(id);
    lemma_set_localvar_reads_back(b, "guild_name"@, name);
    lemma_set_localvar_reads_back(b1, "server"@, name);
    lemma_set_localvar_reads_back(b3, "guildid"@, id_text);
    lemma_set_localvar_reads_back(b4, "type"@, "server"@);
    lemma_set_localvar_keeps_others(b1, "server"@, name, "guild_name"@);
    assert(b3.localvar("guild_name"@) == b2.localvar("guild_name"@));
    assert(b3.localvar("server"@) == b2.localvar("server"@));
    lemma_set_localvar_keeps_others(b3, "guildid"@, id_text, "guild_name"@);
    lemma_set_localvar_keeps_others(b3, "guildid"@, id_text, "server"@);
    lemma_set_localvar_keeps_others(b4, "type"@, "server"@, "guild_name"@);
    lemma_set_localvar_keeps_others(b4, "type"@, "server"@, "server"@);
    lemma_set_localvar_keeps_others(b4, "type"@, "server"@, "guildid"@);
    assert(b6.localvar("guild_name"@) == b5.localvar("guild_name"@));
    assert(b6.localvar("server"@) == b5.localvar("server"@));
    assert(b6.localvar("guildid"@) == b5.localvar("guildid"@));
    assert(b6.localvar("type"@) == b5.localvar("type"@));
    lemma_set_localvar_idempotent(b6, "guild_name"@, name);
    lemma_set_localvar_idempotent(b6, "server"@, name);
    lemma_set_localvar_idempotent(b6, "guildid"@, id_text);
    lemma_set_localvar_idempotent(b6, "type"@, "server"@);
    assert(b6.set_short_name(name) == b6);
    assert(b6.set_guild_id(id) == b6);
}

/// Creating a guild's view twice gives what creating it once gives: the same
/// views at the same places, with no local variable held twice.
pub proof fn law_create_guild_buffer_idempotent(m: ManagerView, id: u64, name: Seq<char>)
    ensures
        spec_create_guild_buffer(spec_create_guild_buffer(m, id, name), id, name)
            == spec_create_guild_buffer(m, id, name),
        spec_create_guild_buffer(m, id, name).buffers.len() == m.get_or_create(
            guild_key(id),
        ).buffers.len(),
{
    let fill = |b: BufferView| guild_buffer(b, id, name);
    assert forall|b: BufferView| (#[trigger] fill(b)).name == b.name && fill(fill(b)) == fill(
        b,
    ) by {
        lemma_guild_buffer_idempotent(b, id, name);
    }
    lemma_create_and_fill_idempotent(m, guild_key(id), fill);
    assert(spec_create_guild_buffer(m, id, name) == create_and_fill(m, guild_key(id), fill));
    let once = spec_create_guild_buffer(m, id, name);
    assert(spec_create_guild_buffer(once, id, name) == create_and_fill(once, guild_key(id), fill));
}

/// What a guild channel's view holds once it was filled in.
pub proof fn lemma_channel_buffer_holds(
    b: BufferView,
    cache: Cache,
    guild_name: Seq<char>,
    channel: GuildChannel,
    nick: Seq<char>,
    muted: bool,
)
    ensures
        channel_buffer(b, cache, guild_name, channel, nick, muted).localvar("channelid"@) == Some(
            decimal(channel.id as nat),
        ),
        channel_buffer(b, cache, guild_name, channel, nick, muted).localvar("guildid"@) == Some(
            decimal(channel.guild_id as nat),
        ),
        channel_buffer(b, cache, guild_name, channel, nick, muted).localvar("channel"@) == Some(
            channel.name@,
        ),
        channel_buffer(b, cache, guild_name, channel, nick, muted).localvar("guild_name"@) == Some(
            guild_name,
        ),
        channel_buffer(b, cache, guild_name, channel, nick, muted).localvar("server"@) == Some(
            guild_name,
        ),
        channel_buffer(b, cache, guild_name, channel, nick, muted).localvar("type"@) == Some(
            spec_channel_type(channel.kind).unwrap(),
        ),
        channel_buffer(b, cache, guild_name, channel, nick, muted).localvar("nick"@) == Some(
            nick,
        ),
        channel_buffer(b, cache, guild_name, channel, nick, muted).localvar("muted"@) == Some(
            spec_muted_text(muted),
        ),
        channel_buffer(b, cache, guild_name, channel, nick, muted).name == b.name,
        channel_buffer(b, cache, guild_name, channel, nick, muted).short_name == channel.name@,
        channel_buffer(b, cache, guild_name, channel, nick, muted).title == spec_channel_title(
            channel,
            muted,
        ),
        channel_buffer(b, cache, guild_name, channel, nick, muted).channel_id == Some(channel.id),
        channel_buffer(b, cache, guild_name, channel, nick, muted).guild_id == Some(
            channel.guild_id,
        ),
        channel_buffer(b, cache, guild_name, channel, nick, muted).hotlist == if spec_channel_unread(
            cache,
            channel.id,
            channel.last_message_id,
        ) && !muted {
            Some(HotlistPriority::Message)
        } else {
            b.hotlist
        },
{
    lemma_variable_names_differ();
    let c0 = b.set_short_name(channel.name@);
    let c1 = c0.set_localvar("channelid"@, decimal(channel.id as nat));
    let c2 = c1.set_localvar("guildid"@, decimal(channel.guild_id as nat));
    let c3 = c2.set_localvar("channel"@, channel.name@);
    let c4 = c3.set_localvar("guild_name"@, guild_name);
    let c5 = c4.set_localvar("server"@, guild_name);
    let c6 = c5.set_localvar("type"@, spec_channel_type(channel.kind).unwrap());
    let c7 = c6.set_localvar("nick"@, nick);
    let c8 = c7.set_channel_id(channel.id);
    let c9 = c8.set_guild_id(channel.guild_id);
    let c10 = if spec_channel_unread(cache, channel.id, channel.last_message_id) && !muted {
        c9.set_hotlist(HotlistPriority::Message)
    } else {
        c9
    };
    let c11 = c10.set_title(spec_channel_title(channel, muted));
    let muted_text = spec_muted_text(muted);
    let c12 = c11.set_localvar("muted"@, muted_text);
    assert(c12 == channel_buffer(b, cache, guild_name, channel, nick, muted));
    lemma_set_localvar_reads_back(c0, "channelid"@, decimal(channel.id as nat));
    lemma_set_localvar_keeps_others(c1, "guildid"@, decimal(channel.guild_id as nat), "channelid"@);
    lemma_set_localvar_keeps_others(c2, "channel"@, channel.name@, "channelid"@);
    lemma_set_localvar_keeps_others(c3, "guild_name"@, guild_name, "channelid"@);
    lemma_set_localvar_keeps_others(c4, "server"@, guild_name, "channelid"@);
    lemma_set_localvar_keeps_others(c5, "type"@, spec_channel_type(channel.kind).unwrap(), "channelid"@);
    lemma_set_localvar_keeps_others(c6, "nick"@, nick, "channelid"@);
    assert(c8.localvar("channelid"@) == c7.localvar("channelid"@));
    assert(c9.localvar("channelid"@) == c8.localvar("channelid"@));
    assert(c10.localvar("channelid"@) == c9.localvar("channelid"@));
    assert(c11.localvar("channelid"@) == c10.localvar("channelid"@));
    lemma_set_localvar_keeps_others(c11, "muted"@, spec_muted_text(muted), "channelid"@);
    lemma_set_localvar_reads_back(c1, "guildid"@, decimal(channel.guild_id as nat));
    lemma_set_localvar_keeps_others(c2, "channel"@, channel.name@, "guildid"@);
    lemma_set_localvar_keeps_others(c3, "guild_name"@, guild_name, "guildid"@);
    lemma_set_localvar_keeps_others(c4, "server"@, guild_name, "guildid"@);
    lemma_set_localvar_keeps_others(c5, "type"@, spec_channel_type(channel.kind).unwrap(), "guildid"@);
    lemma_set_localvar_keeps_others(c6, "nick"@, nick, "guildid"@);
    assert(c8.localvar("guildid"@) == c7.localvar("guildid"@));
    assert(c9.localvar("guildid"@) == c8.localvar("guildid"@));
    assert(c10.localvar("guildid"@) == c9.localvar("guildid"@));
    assert(c11.localvar("guildid"@) == c10.localvar("guildid"@));
    lemma_set_localvar_keeps_others(c11, "muted"@, spec_muted_text(muted), "guildid"@);
    lemma_set_localvar_reads_back(c2, "channel"@, channel.name@);
    lemma_set_localvar_keeps_others(c3, "guild_name"@, guild_name, "channel"@);
    lemma_set_localvar_keeps_others(c4, "server"@, guild_name, "channel"@);
    lemma_set_localvar_keeps_others(c5, "type"@, spec_channel_type(channel.kind).unwrap(), "channel"@);
    lemma_set_localvar_keeps_others(c6, "nick"@, nick, "channel"@);
    assert(c8.localvar("channel"@) == c7.localvar("channel"@));
    assert(c9.localvar("channel"@) == c8.localvar("channel"@));
    assert(c10.localvar("channel"@) == c9.localvar("channel"@));
    assert(c11.localvar("channel"@) == c10.localvar("channel"@));
    lemma_set_localvar_keeps_others(c11, "muted"@, spec_muted_text(muted), "channel"@);
    lemma_set_localvar_reads_back(c3, "guild_name"@, guild_name);
    lemma_set_localvar_keeps_others(c4, "server"@, guild_name, "guild_name"@);
    lemma_set_localvar_keeps_others(c5, "type"@, spec_channel_type(channel.kind).unwrap(), "guild_name"@);
    lemma_set_localvar_keeps_others(c6, "nick"@, nick, "guild_name"@);
    assert(c8.localvar("guild_name"@) == c7.localvar("guild_name"@));
    assert(c9.localvar("guild_name"@) == c8.localvar("guild_name"@));
    assert(c10.localvar("guild_name"@) == c9.localvar("guild_name"@));
    assert(c11.localvar("guild_name"@) == c10.localvar("guild_name"@));
    lemma_set_localvar_keeps_others(c11, "muted"@, spec_muted_text(muted), "guild_name"@);
    lemma_set_localvar_reads_back(c4, "server"@, guild_name);
    lemma_set_localvar_keeps_others(c5, "type"@, spec_channel_type(channel.kind).unwrap(), "server"@);
    lemma_set_localvar_keeps_others(c6, "nick"@, nick, "server"@);
    assert(c8.localvar("server"@) == c7.localvar("server"@));
    assert(c9.localvar("server"@) == c8.localvar("server"@));
    assert(c10.localvar("server"@) == c9.localvar("server"@));
    assert(c11.localvar("server"@) == c10.localvar("server"@));
    lemma_set_localvar_keeps_others(c11, "muted"@, spec_muted_text(muted), "server"@);
    lemma_set_localvar_reads_back(c5, "type"@, spec_channel_type(channel.kind).unwrap());
    lemma_set_localvar_keeps_others(c6, "nick"@, nick, "type"@);
    assert(c8.localvar("type"@) == c7.localvar("type"@));
    assert(c9.localvar("type"@) == c8.localvar("type"@));
    assert(c10.localvar("type"@) == c9.localvar("type"@));
    assert(c11.localvar("type"@) == c10.localvar("type"@));
    lemma_set_localvar_keeps_others(c11, "muted"@, spec_muted_text(muted), "type"@);
    lemma_set_localvar_reads_back(c6, "nick"@, nick);
    assert(c8.localvar("nick"@) == c7.localvar("nick"@));
    assert(c9.localvar("nick"@) == c8.localvar("nick"@));
    assert(c10.localvar("nick"@) == c9.localvar("nick"@));
    assert(c11.localvar("nick"@) == c10.localvar("nick"@));
    lemma_set_localvar_keeps_others(c11, "muted"@, spec_muted_text(muted), "nick"@);
    lemma_set_localvar_reads_back(c11, "muted"@, spec_muted_text(muted));
}

/// Filling in a guild channel's view a second time changes nothing.
pub proof fn lemma_channel_buffer_idempotent(
    b: BufferView,
    cache: Cache,
    guild_name: Seq<char>,
    channel: GuildChannel,
    nick: Seq<char>,
    muted: bool,
)
    ensures
        channel_buffer(
            channel_buffer(b, cache, guild_name, channel, nick, muted),
            cache,
            guild_name,
            channel,
            nick,
            muted,
        ) == channel_buffer(b, cache, guild_name, channel, nick, muted),
        channel_buffer(b, cache, guild_name, channel, nick, muted).name == b.name,
{
    lemma_channel_buffer_holds(b, cache, guild_name, channel, nick, muted);
    let f = channel_buffer(b, cache, guild_name, channel, nick, muted);
    assert(f.set_short_name(channel.name@) == f);
    lemma_set_localvar_idempotent(f, "channelid"@, decimal(channel.id as nat));
    lemma_set_localvar_idempotent(f, "guildid"@, decimal(channel.guild_id as nat));
    lemma_set_localvar_idempotent(f, "channel"@, channel.name@);
    lemma_set_localvar_idempotent(f, "guild_name"@, guild_name);
    lemma_set_localvar_idempotent(f, "server"@, guild_name);
    lemma_set_localvar_idempotent(f, "type"@, spec_channel_type(channel.kind).unwrap());
    lemma_set_localvar_idempotent(f, "nick"@, nick);
    lemma_set_localvar_idempotent(f, "muted"@, spec_muted_text(muted));
    assert(f.set_channel_id(channel.id) == f);
    assert(f.set_guild_id(channel.guild_id) == f);
    assert(f.set_title(spec_channel_title(channel, muted)) == f);
    if spec_channel_unread(cache, channel.id, channel.last_message_id) && !muted {
        assert(f.set_hotlist(HotlistPriority::Message) == f);
    }
}

/// Creating a guild channel's view twice gives what creating it once gives.
pub proof fn law_create_buffer_from_channel_idempotent(
    m: ManagerView,
    cache: Cache,
    guild_name: Seq<char>,
    channel: GuildChannel,
    nick: Seq<char>,
    muted: bool,
)
    ensures
        spec_create_buffer_from_channel(
            spec_create_buffer_from_channel(m, cache, guild_name, channel, nick, muted),
            cache,
            guild_name,
            channel,
            nick,
            muted,
        ) == spec_create_buffer_from_channel(m, cache, guild_name, channel, nick, muted),
{
    if channel_is_shown(channel) {
        let key = channel_key(Some(channel.guild_id), channel.id);
        let fill = |b: BufferView| channel_buffer(b, cache, guild_name, channel, nick, muted);
        assert forall|b: BufferView| (#[trigger] fill(b)).name == b.name && fill(fill(b)) == fill(
            b,
        ) by {
            lemma_channel_buffer_idempotent(b, cache, guild_name, channel, nick, muted);
        }
        lemma_create_and_fill_idempotent(m, key, fill);
        let once = spec_create_buffer_from_channel(m, cache, guild_name, channel, nick, muted);
        assert(once == create_and_fill(m, key, fill));
        assert(spec_create_buffer_from_channel(once, cache, guild_name, channel, nick, muted)
            == create_and_fill(once, key, fill));
    }
}

/// A channel gets a view only if the user is known to be allowed to read its
/// history: where the permission is lacking, and where the permissions could
/// not be determined, the registry stays as it is. So it does for a channel of
/// a kind that shows no messages.
pub proof fn law_unreadable_channel_gets_no_view(
    m: ManagerView,
    cache: Cache,
    guild_name: Seq<char>,
    channel: GuildChannel,
    nick: Seq<char>,
    muted: bool,
)
    ensures
        channel.permissions is None ==> spec_create_buffer_from_channel(
            m,
            cache,
            guild_name,
            channel,
            nick,
            muted,
        ) == m,
        channel.permissions matches Some(bits) && !spec_read_message_history(bits)
            ==> spec_create_buffer_from_channel(m, cache, guild_name, channel, nick, muted) == m,
        channel.kind is Category || channel.kind is Voice || channel.kind is Store
            ==> spec_create_buffer_from_channel(m, cache, guild_name, channel, nick, muted) == m,
        spec_create_buffer_from_channel(m, cache, guild_name, channel, nick, muted) != m ==> (
        channel.permissions matches Some(bits) && spec_read_message_history(bits)),
{
}

/// Creating the view of a muted channel never raises its hotlist entry,
/// whether or not the channel holds unread messages; that of a channel that
/// is not muted raises it exactly when there are unread messages.
pub proof fn law_muted_channel_raises_nothing(
    b: BufferView,
    cache: Cache,
    guild_name: Seq<char>,
    channel: GuildChannel,
    nick: Seq<char>,
    muted: bool,
)
    ensures
        muted ==> channel_buffer(b, cache, guild_name, channel, nick, muted).hotlist == b.hotlist,
        !muted && spec_channel_unread(cache, channel.id, channel.last_message_id)
            ==> channel_buffer(b, cache, guild_name, channel, nick, muted).hotlist == Some(
            HotlistPriority::Message,
        ),
        !spec_channel_unread(cache, channel.id, channel.last_message_id) ==> channel_buffer(
            b,
            cache,
            guild_name,
            channel,
            nick,
            muted,
        ).hotlist == b.hotlist,
{
    lemma_channel_buffer_holds(b, cache, guild_name, channel, nick, muted);
}

/// Whether some role of the guild is both hoisted and administrator-granting.
pub open spec fn has_hoisted_administrator(guild: Guild) -> bool {
    exists|i: int|
        0 <= i < guild.roles@.len() && guild.roles@[i].hoist && spec_administrator(
            #[trigger] guild.roles@[i].permissions,
        )
}

/// The owner's crown is in use in a guild exactly when no role of the guild
/// is both hoisted and administrator-granting. So a member is listed with
/// the crown exactly when they own the guild and the guild has no such role;
/// everyone else, and everyone in a guild with such a role, is listed under
/// the plain display name.
pub proof fn law_crown_only_without_hoisted_administrator(
    guild: Guild,
    member: Member,
    crown_color: Seq<char>,
)
    ensures
        spec_guild_has_crown(guild) <==> !has_hoisted_administrator(guild),
        spec_wears_crown(guild, member, spec_guild_has_crown(guild)) <==> guild.owner_id
            == member.user.id && !has_hoisted_administrator(guild),
        has_hoisted_administrator(guild) ==> spec_nicklist_name(
            guild,
            member,
            spec_guild_has_crown(guild),
            crown_color,
        ) == spec_display_name(member),
        guild.owner_id != member.user.id ==> spec_nicklist_name(
            guild,
            member,
            spec_guild_has_crown(guild),
            crown_color,
        ) == spec_display_name(member),
        guild.owner_id == member.user.id && !has_hoisted_administrator(guild)
            ==> spec_nicklist_name(guild, member, spec_guild_has_crown(guild), crown_color)
            == spec_display_name(member) + " "@ + crown_color + CROWN@,
{
}

/// A channel has unread messages exactly when its newest message is not the
/// one the read cursor stands at, and a view's hotlist entry is raised when
/// it is created exactly when there are unread messages and it is not muted.
pub proof fn law_unread_and_muting(
    cursor: Option<u64>,
    last_message_id: Option<u64>,
    muted: bool,
    tier: HotlistPriority,
)
    ensures
        spec_has_unread(cursor, last_message_id) <==> cursor != last_message_id,
        muted ==> spec_initial_hotlist(spec_has_unread(cursor, last_message_id), muted, tier)
            is None,
        spec_initial_hotlist(spec_has_unread(cursor, last_message_id), muted, tier) is Some
            <==> cursor != last_message_id && !muted,
{
}

/// A page of history that holds the message the read cursor stands at, put
/// into a view: every message at or before the cursor is read, every message
/// after it is unread, and the hotlist entry is cleared.
pub proof fn law_backfill_reads_up_to_cursor(
    b: BufferView,
    ids: Seq<u64>,
    cursor: u64,
    fully_read: bool,
)
    requires
        ids.contains(cursor),
        b.wf(),
    ensures
        index_of(ids, cursor) is Some,
        spec_reconcile(b, ids, Some(cursor), fully_read).messages == b.messages + ids,
        spec_reconcile(b, ids, Some(cursor), fully_read).read_marker == b.messages.len()
            + index_of(ids, cursor).unwrap() + 1,
        spec_reconcile(b, ids, Some(cursor), fully_read).unread_count() == ids.len() - (index_of(
            ids,
            cursor,
        ).unwrap() + 1),
        spec_reconcile(b, ids, Some(cursor), fully_read).hotlist is None,
        spec_reconcile(b, ids, Some(cursor), fully_read).wf(),
{
    lemma_index_of(ids, cursor);
    lemma_backfill(b, ids, cursor, ids.len());
    assert(ids.take(ids.len() as int) =~= ids);
}

/// A page of history that does not hold the message the read cursor stands
/// at, put into a view: all of it is read and the hotlist entry is cleared if
/// there is a read cursor and the remote service has the channel as fully
/// read; else the read marker and the hotlist entry stay as they were.
pub proof fn law_backfill_without_cursor(
    b: BufferView,
    ids: Seq<u64>,
    cursor: Option<u64>,
    fully_read: bool,
)
    requires
        cursor matches Some(c) ==> !ids.contains(c),
    ensures
        spec_reconcile(b, ids, cursor, fully_read).messages == b.messages + ids,
        cursor is Some && fully_read ==> spec_reconcile(b, ids, cursor, fully_read).unread_count()
            == 0 && spec_reconcile(b, ids, cursor, fully_read).hotlist is None,
        cursor is None || !fully_read ==> spec_reconcile(b, ids, cursor, fully_read).read_marker
            == b.read_marker && spec_reconcile(b, ids, cursor, fully_read).hotlist == b.hotlist,
{
}

/// A channel for which the remote service holds no read cursor is never
/// taken as read: a page of its history, put into its view, is added and
/// nothing else changes, whatever the cache holds of the channel.
pub proof fn law_no_read_state_marks_nothing(
    m: ManagerView,
    cache: Cache,
    request: HistoryRequest,
    page: Seq<Message>,
    at: int,
)
    requires
        spec_read_cursor(cache, request.channel_id) is None,
        m.position(request.buffer_name@) == Some(at),
    ensures
        !spec_fully_read(cache, request.channel_id),
        spec_complete_history(m, cache, request, page).buffers[at] == spec_add_all(
            m.buffers[at],
            chronological(page),
        ),
        spec_complete_history(m, cache, request, page).buffers[at].read_marker
            == m.buffers[at].read_marker,
        spec_complete_history(m, cache, request, page).buffers[at].hotlist == m.buffers[at].hotlist,
{
    lemma_index_of(m.names(), request.buffer_name@);
}

/// The remote service has a channel as fully read exactly when it holds a
/// read cursor for the channel and the cursor stands at the newest message the
/// cache holds of the channel.
pub proof fn law_fully_read(cache: Cache, channel_id: u64)
    ensures
        spec_fully_read(cache, channel_id) <==> spec_read_cursor(cache, channel_id) is Some
            && spec_cached_last_message(cache, channel_id) == spec_read_cursor(cache, channel_id),
        spec_fully_read(cache, channel_id) ==> !spec_has_unread(
            spec_read_cursor(cache, channel_id),
            spec_cached_last_message(cache, channel_id),
        ),
{
}

/// Considering a member for a nicklist touches the nicklist and nothing
/// else.
pub proof fn lemma_add_member_touches_nicklist_only(
    b: BufferView,
    cache: Cache,
    channel_id: u64,
    guild: Guild,
    member: Member,
    use_presence: bool,
    guild_has_crown: bool,
    crown_color: Seq<char>,
)
    ensures
        spec_add_member_to_nicklist(
            b,
            cache,
            channel_id,
            guild,
            member,
            use_presence,
            guild_has_crown,
            crown_color,
        ) == (BufferView {
            groups: spec_add_member_to_nicklist(
                b,
                cache,
                channel_id,
                guild,
                member,
                use_presence,
                guild_has_crown,
                crown_color,
            ).groups,
            nicks: spec_add_member_to_nicklist(
                b,
                cache,
                channel_id,
                guild,
                member,
                use_presence,
                guild_has_crown,
                crown_color,
            ).nicks,
            ..b
        }),
{
}

/// Considering some members for a nicklist touches the nicklist and nothing
/// else.
pub proof fn lemma_add_members_touches_nicklist_only(
    b: BufferView,
    cache: Cache,
    channel_id: u64,
    guild: Guild,
    members: Seq<Member>,
    use_presence: bool,
    guild_has_crown: bool,
    crown_color: Seq<char>,
)
    ensures
        spec_add_members(
            b,
            cache,
            channel_id,
            guild,
            members,
            use_presence,
            guild_has_crown,
            crown_color,
        ) == (BufferView {
            groups: spec_add_members(
                b,
                cache,
                channel_id,
                guild,
                members,
                use_presence,
                guild_has_crown,
                crown_color,
            ).groups,
            nicks: spec_add_members(
                b,
                cache,
                channel_id,
                guild,
                members,
                use_presence,
                guild_has_crown,
                crown_color,
            ).nicks,
            ..b
        }),
    decreases members.len(),
{
    if members.len() > 0 {
        lemma_add_members_touches_nicklist_only(
            b,
            cache,
            channel_id,
            guild,
            members.drop_last(),
            use_presence,
            guild_has_crown,
            crown_color,
        );
        lemma_add_member_touches_nicklist_only(
            spec_add_members(
                b,
                cache,
                channel_id,
                guild,
                members.drop_last(),
                use_presence,
                guild_has_crown,
                crown_color,
            ),
            cache,
            channel_id,
            guild,
            members.last(),
            use_presence,
            guild_has_crown,
            crown_color,
        );
    }
}

/// The flags that say a view's history and nicklist were loaded are set once
/// and stay set: loading history or a nicklist, and putting a page of history
/// in, never clear them. A view whose history was loaded does not ask for it
/// when it is shown again, and a nicklist that was loaded is not loaded again.
pub proof fn law_loaded_flags_stay_set(
    b: BufferView,
    cache: Cache,
    settings: Settings,
    ids: Seq<u64>,
    cursor: Option<u64>,
    fully_read: bool,
)
    ensures
        b.history_loaded ==> spec_load_history(b).history_loaded,
        b.nicks_loaded ==> spec_load_history(b).nicks_loaded,
        b.channel_id is Some ==> spec_load_history(b).history_loaded,
        b.history_loaded ==> spec_load_pin_buffer_history(b).history_loaded,
        b.nicks_loaded ==> spec_load_pin_buffer_history(b).nicks_loaded,
        b.channel_id is Some ==> !spec_wants_history(spec_load_history(b), HistoryTrigger::Displayed),
        b.history_loaded ==> !spec_wants_history(
            spec_reconcile(b, ids, cursor, fully_read),
            HistoryTrigger::Displayed,
        ),
        spec_reconcile(b, ids, cursor, fully_read).history_loaded == b.history_loaded,
        spec_reconcile(b, ids, cursor, fully_read).nicks_loaded == b.nicks_loaded,
        b.nicks_loaded ==> spec_load_nicks(b, cache, settings) == b,
        b.history_loaded ==> spec_load_nicks(b, cache, settings).history_loaded,
        b.guild_id is Some && b.channel_id is Some ==> spec_load_nicks(
            b,
            cache,
            settings,
        ).nicks_loaded,
{
    crate::history::lemma_reconcile_keeps_name(b, ids, cursor, fully_read);
    if !b.nicks_loaded && b.guild_id is Some && b.channel_id is Some {
        let flagged = b.set_nicks_loaded().enable_nicklist();
        match crate::model::find_guild(cache.guilds@, b.guild_id.unwrap()) {
            Some(guild) => {
                lemma_add_members_touches_nicklist_only(
                    flagged,
                    cache,
                    b.channel_id.unwrap(),
                    guild,
                    guild.members@,
                    settings.use_presence,
                    spec_guild_has_crown(guild),
                    settings.crown_color@,
                );
            },
            None => {},
        }
    }
}

/// Of two roles the one of higher position has the group name that comes
/// first when names are compared character by character, so that a nicklist
/// sorted by group name lists the higher role first. This holds where both
/// sort keys are written without a sign and with equally many digits, as
/// they are for any two positions from 0 to 89999.
pub proof fn law_role_groups_sort_by_position(higher: Role, lower: Role)
    requires
        lower.position < higher.position <= 99999,
        decimal((99999 - higher.position) as nat).len() == decimal(
            (99999 - lower.position) as nat,
        ).len(),
    ensures
        lex_less(spec_role_group_name(higher), spec_role_group_name(lower)),
{
    let high_key = (99999 - higher.position) as nat;
    let low_key = (99999 - lower.position) as nat;
    let high_rest = "|"@ + higher.name@;
    let low_rest = "|"@ + lower.name@;
    lemma_numeral_order(high_key, high_rest, low_key, low_rest);
    assert(spec_role_group_name(higher) =~= decimal(high_key) + high_rest);
    assert(spec_role_group_name(lower) =~= decimal(low_key) + low_rest);
}

/// Of two roles with positions from 0 to 89999 the one of higher position
/// has the group name that comes first: for such positions the sort key has
/// five digits.
pub proof fn law_role_groups_sort_by_common_position(higher: Role, lower: Role)
    requires
        0 <= lower.position < higher.position <= 89999,
    ensures
        lex_less(spec_role_group_name(higher), spec_role_group_name(lower)),
{
    reveal_with_fuel(decimal, 5);
    law_role_groups_sort_by_position(higher, lower);
}

/// Whether a key may come to stand in the registry when the listed guilds
/// are given their views: it stood there before, or it is the key of a listed
/// guild, or the key of a channel of a listed guild that gets a view.
pub open spec fn may_have_view(
    name: Seq<char>,
    before: ManagerView,
    guilds: Seq<GuildListing>,
) -> bool {
    ||| before.names().contains(name)
    ||| exists|g: int| 0 <= g < guilds.len() && name == guild_key(#[trigger] guilds[g].id)
    ||| exists|g: int, c: int|
        0 <= g < guilds.len() && guilds[g].channels is Some && 0 <= c
            < guilds[g].channels.unwrap()@.len() && channel_is_shown(
            #[trigger] guilds[g].channels.unwrap()@[c],
        ) && name == channel_key(
            Some(guilds[g].channels.unwrap()@[c].guild_id),
            guilds[g].channels.unwrap()@[c].id,
        )
}

/// The keys after a view was created, or found, and filled in: those from
/// before, and the key of the view if it is new.
pub proof fn lemma_names_after_fill(
    m: ManagerView,
    key: Seq<char>,
    fill: spec_fn(BufferView) -> BufferView,
)
    requires
        forall|b: BufferView| (#[trigger] fill(b)).name == b.name,
    ensures
        create_and_fill(m, key, fill).names() == m.get_or_create(key).names(),
        forall|name: Seq<char>|
            create_and_fill(m, key, fill).names().contains(name) ==> m.names().contains(name)
                || name == key,
{
    lemma_index_of(m.names(), key);
    let with_view = m.get_or_create(key);
    let after = create_and_fill(m, key, fill);
    assert(after.names() =~= with_view.names());
    assert forall|name: Seq<char>| after.names().contains(name) implies m.names().contains(name)
        || name == key by {
        let w = choose|w: int| 0 <= w < after.names().len() && after.names()[w] == name;
        if w < m.names().len() {
            assert(m.names()[w] == name);
        }
    }
}

proof fn lemma_channel_views_have_reason(
    m: ManagerView,
    cache: Cache,
    ready: Ready,
    guilds: Seq<GuildListing>,
    g: int,
    order: Seq<int>,
    nick: Seq<char>,
    before: ManagerView,
)
    requires
        0 <= g < guilds.len(),
        guilds[g].channels is Some,
        forall|k: int|
            0 <= k < order.len() ==> 0 <= #[trigger] order[k] < guilds[g].channels.unwrap()@.len(),
        forall|name: Seq<char>| m.names().contains(name) ==> may_have_view(name, before, guilds),
    ensures
        forall|name: Seq<char>|
            spec_create_channel_buffers(
                m,
                cache,
                ready,
                guilds[g],
                guilds[g].channels.unwrap()@,
                order,
                nick,
            ).names().contains(name) ==> may_have_view(name, before, guilds),
    decreases order.len(),
{
    if order.len() > 0 {
        let channels = guilds[g].channels.unwrap()@;
        let front = order.drop_last();
        assert forall|k: int| 0 <= k < front.len() implies 0 <= #[trigger] front[k]
            < channels.len() by {
            assert(front[k] == order[k]);
        }
        lemma_channel_views_have_reason(m, cache, ready, guilds, g, front, nick, before);
        let so_far = spec_create_channel_buffers(m, cache, ready, guilds[g], channels, front, nick);
        let c = order.last();
        let channel = channels[c];
        let muted = crate::model::spec_is_muted(ready.guild_settings@, guilds[g].id, channel.id);
        let after = spec_create_buffer_from_channel(
            so_far,
            cache,
            guilds[g].name@,
            channel,
            nick,
            muted,
        );
        if channel_is_shown(channel) {
            let key = channel_key(Some(channel.guild_id), channel.id);
            let fill = |b: BufferView|
                channel_buffer(b, cache, guilds[g].name@, channel, nick, muted);
            assert forall|b: BufferView| (#[trigger] fill(b)).name == b.name by {
                lemma_channel_buffer_holds(b, cache, guilds[g].name@, channel, nick, muted);
            }
            lemma_names_after_fill(so_far, key, fill);
            assert(after == create_and_fill(so_far, key, fill));
            assert(may_have_view(key, before, guilds)) by {
                assert(channel_is_shown(guilds[g].channels.unwrap()@[c]));
            }
        }
    }
}

proof fn lemma_ordered_views_have_reason(
    m: ManagerView,
    cache: Cache,
    ready: Ready,
    guilds: Seq<GuildListing>,
    order: Seq<int>,
)
    requires
        forall|k: int| 0 <= k < order.len() ==> 0 <= #[trigger] order[k] < guilds.len(),
    ensures
        forall|name: Seq<char>|
            spec_create_views_in_order(m, cache, ready, guilds, order).names().contains(name)
                ==> may_have_view(name, m, guilds),
    decreases order.len(),
{
    if order.len() > 0 {
        let front = order.drop_last();
        assert forall|k: int| 0 <= k < front.len() implies 0 <= #[trigger] front[k]
            < guilds.len() by {
            assert(front[k] == order[k]);
        }
        lemma_ordered_views_have_reason(m, cache, ready, guilds, front);
        let so_far = spec_create_views_in_order(m, cache, ready, guilds, front);
        let g = order.last();
        let guild = guilds[g];
        let fill = |b: BufferView| guild_buffer(b, guild.id, guild.name@);
        assert forall|b: BufferView| (#[trigger] fill(b)).name == b.name by {
            lemma_guild_buffer_idempotent(b, guild.id, guild.name@);
        }
        lemma_names_after_fill(so_far, guild_key(guild.id), fill);
        let with_guild = spec_create_guild_buffer(so_far, guild.id, guild.name@);
        assert(with_guild == create_and_fill(so_far, guild_key(guild.id), fill));
        assert(may_have_view(guild_key(guild.id), m, guilds)) by {
            assert(guild_key(guild.id) == guild_key(guilds[g].id));
        }
        match guild.channels {
            Some(channels) => {
                lemma_sorted_by_position(
                    crate::hierarchy::channel_positions(channels@),
                    channels@.len(),
                );
                lemma_channel_views_have_reason(
                    with_guild,
                    cache,
                    ready,
                    guilds,
                    g,
                    channel_order(channels@),
                    crate::nicklist::spec_own_nick(cache, guild.member),
                    m,
                );
            },
            None => {},
        }
    }
}

/// When a session starts, a view comes to stand in the registry only for a
/// listed guild or for a channel that gets a view: no key appears for a
/// channel whose history the user is not known to be allowed to read, or that
/// shows no messages, unless that key stood there before or belongs to
/// something else as well.
pub proof fn law_only_shown_channels_get_views(
    m: ManagerView,
    cache: Cache,
    ready: Ready,
    guilds: Seq<GuildListing>,
)
    ensures
        forall|name: Seq<char>|
            spec_create_buffers(m, cache, ready, guilds).names().contains(name) ==> may_have_view(
                name,
                m,
                guilds,
            ),
{
    let ids = guild_ids(guilds);
    lemma_positioned_in_range(ready.guild_positions@, ids);
    lemma_prepend_in_range(
        ready.guild_positions@,
        ids,
        ids.len(),
        positioned(ready.guild_positions@, ids),
    );
    lemma_ordered_views_have_reason(
        m,
        cache,
        ready,
        guilds,
        guild_order(ready.guild_positions@, ids),
    );
}

/// The generic buckets come behind the roles and in the order online,
/// offline, bot when group names are compared character by character: the
/// group of any role with a position from 3 to 89999 comes before the bucket
/// of those online, that before the bucket of those offline, and that before
/// the bucket of automated accounts.
pub proof fn law_buckets_sort_behind_roles(role: Role)
    requires
        3 <= role.position <= 89999,
    ensures
        lex_less(spec_role_group_name(role), ONLINE_GROUP_NAME@),
        lex_less(spec_role_group_name(role), OFFLINE_GROUP_NAME@),
        lex_less(spec_role_group_name(role), BOT_GROUP_NAME@),
        lex_less(ONLINE_GROUP_NAME@, OFFLINE_GROUP_NAME@),
        lex_less(OFFLINE_GROUP_NAME@, BOT_GROUP_NAME@),
        lex_less(ONLINE_GROUP_NAME@, BOT_GROUP_NAME@),
{
    reveal_with_fuel(decimal, 5);
    reveal_strlit("99997|Online");
    reveal_strlit("99998|Offline");
    reveal_strlit("99999|Bot");
    reveal_strlit("|Online");
    reveal_strlit("|Offline");
    reveal_strlit("|Bot");
    let key = (99999 - role.position) as nat;
    let rest = "|"@ + role.name@;
    let online = "|Online"@;
    let offline = "|Offline"@;
    let bot = "|Bot"@;
    assert(spec_role_group_name(role) =~= decimal(key) + rest);
    assert(ONLINE_GROUP_NAME@ =~= decimal(99997) + online);
    assert(OFFLINE_GROUP_NAME@ =~= decimal(99998) + offline);
    assert(BOT_GROUP_NAME@ =~= decimal(99999) + bot);
    lemma_numeral_order(key, rest, 99997, online);
    lemma_numeral_order(key, rest, 99998, offline);
    lemma_numeral_order(key, rest, 99999, bot);
    lemma_numeral_order(99997, online, 99998, offline);
    lemma_numeral_order(99998, offline, 99999, bot);
    lemma_numeral_order(99997, online, 99999, bot);
}

/// Filling in the view of a private conversation a second time changes
/// nothing.
pub proof fn lemma_dm_buffer_idempotent(
    b: BufferView,
    cache: Cache,
    private: PrivateChannel,
    nick: Seq<char>,
    settings: Settings,
)
    ensures
        dm_buffer(dm_buffer(b, cache, private, nick, settings), cache, private, nick, settings)
            == dm_buffer(b, cache, private, nick, settings),
        dm_buffer(b, cache, private, nick, settings).name == b.name,
{
    lemma_variable_names_differ();
    let id_text = decimal(private.id as nat);
    let title = "DM with "@ + private.recipient.name@;
    let unread = spec_channel_unread(cache, private.id, private.last_message_id);
    let c0 = b.set_short_name(spec_private_channel_name(private));
    let c1 = c0.set_localvar("channelid"@, id_text);
    let c2 = c1.set_localvar("nick"@, nick);
    let c3 = c2.set_channel_id(private.id);
    let c4 = if unread {
        c3.set_hotlist(HotlistPriority::Private)
    } else {
        c3
    };
    let c5 = c4.set_title(title);
    let f = spec_load_dm_nicks(c5, cache, private, settings);
    assert(f == dm_buffer(b, cache, private, nick, settings));
    lemma_set_localvar_reads_back(c0, "channelid"@, id_text);
    lemma_set_localvar_reads_back(c1, "nick"@, nick);
    lemma_set_localvar_keeps_others(c1, "nick"@, nick, "channelid"@);
    assert(f.localvars == c2.localvars);
    assert(f.localvar("channelid"@) == c2.localvar("channelid"@));
    assert(f.localvar("nick"@) == c2.localvar("nick"@));
    lemma_set_localvar_idempotent(f, "channelid"@, id_text);
    lemma_set_localvar_idempotent(f, "nick"@, nick);
    assert(f.set_short_name(spec_private_channel_name(private)) == f);
    assert(f.set_channel_id(private.id) == f);
    assert(f.set_title(title) == f);
    if unread {
        assert(f.set_hotlist(HotlistPriority::Private) == f);
    }
    if settings.use_presence {
        let flagged = c5.set_nicks_loaded().enable_nicklist();
        let status = spec_user_status(cache, private.recipient.id);
        let with_recipient = flagged.add_nick(private.recipient.name@, None, status);
        lemma_add_nick(flagged, private.recipient.name@, None, status, private.recipient.name@);
        lemma_add_nick(
            with_recipient,
            cache.user.name@,
            None,
            Some(settings.last_status),
            private.recipient.name@,
        );
        assert(f.set_nicks_loaded().enable_nicklist() == f);
        lemma_add_nick(f, private.recipient.name@, None, status, private.recipient.name@);
        lemma_add_nick(
            f,
            cache.user.name@,
            None,
            Some(settings.last_status),
            private.recipient.name@,
        );
    }
}

/// Creating the view of a private conversation twice gives what creating it
/// once gives.
pub proof fn law_create_dm_buffer_idempotent(
    m: ManagerView,
    cache: Cache,
    private: PrivateChannel,
    nick: Seq<char>,
    switch_to: bool,
    settings: Settings,
)
    ensures
        spec_create_dm_buffer(
            spec_create_dm_buffer(m, cache, private, nick, switch_to, settings),
            cache,
            private,
            nick,
            switch_to,
            settings,
        ) == spec_create_dm_buffer(m, cache, private, nick, switch_to, settings),
{
    let key = channel_key(None, private.id);
    let fill = |b: BufferView| dm_buffer(b, cache, private, nick, settings);
    assert forall|b: BufferView| (#[trigger] fill(b)).name == b.name && fill(fill(b)) == fill(
        b,
    ) by {
        lemma_dm_buffer_idempotent(b, cache, private, nick, settings);
    }
    lemma_create_and_fill_idempotent(m, key, fill);
    lemma_names_after_fill(m, key, fill);
    let filled = create_and_fill(m, key, fill);
    let once = spec_create_dm_buffer(m, cache, private, nick, switch_to, settings);
    if switch_to {
        let at = m.slot(key);
        assert(once == filled.switch_to(at));
        assert(once.names() =~= filled.names());
        assert(once.get_or_create(key) == once);
        assert(once.slot(key) == at);
        assert(once.put(at, fill(once.buffers[at])).buffers =~= once.buffers);
    } else {
        assert(once == filled);
        assert(spec_create_dm_buffer(once, cache, private, nick, switch_to, settings)
            == create_and_fill(once, key, fill));
    }
}

/// Filling in the view of a group conversation a second time changes
/// nothing.
pub proof fn lemma_group_buffer_idempotent(
    b: BufferView,
    cache: Cache,
    group: Group,
    nick: Seq<char>,
)
    ensures
        group_buffer(group_buffer(b, cache, group, nick), cache, group, nick) == group_buffer(
            b,
            cache,
            group,
            nick,
        ),
        group_buffer(b, cache, group, nick).name == b.name,
{
    lemma_variable_names_differ();
    let id_text = decimal(group.channel_id as nat);
    let title = "DM with "@ + spec_recipient_names(group);
    let c0 = b.set_short_name(spec_group_name(group));
    let c1 = c0.set_localvar("channelid"@, id_text);
    let c2 = c1.set_localvar("nick"@, nick);
    let f = group_buffer(b, cache, group, nick);
    lemma_set_localvar_reads_back(c0, "channelid"@, id_text);
    lemma_set_localvar_reads_back(c1, "nick"@, nick);
    lemma_set_localvar_keeps_others(c1, "nick"@, nick, "channelid"@);
    assert(f.localvars == c2.localvars);
    assert(f.localvar("channelid"@) == c2.localvar("channelid"@));
    assert(f.localvar("nick"@) == c2.localvar("nick"@));
    lemma_set_localvar_idempotent(f, "channelid"@, id_text);
    lemma_set_localvar_idempotent(f, "nick"@, nick);
    assert(f.set_short_name(spec_group_name(group)) == f);
    assert(f.set_channel_id(group.channel_id) == f);
    assert(f.set_title(title) == f);
    if spec_channel_unread(cache, group.channel_id, group.last_message_id) {
        assert(f.set_hotlist(HotlistPriority::Private) == f);
    }
}

/// Creating the view of a group conversation twice gives what creating it
/// once gives.
pub proof fn law_create_group_buffer_idempotent(
    m: ManagerView,
    cache: Cache,
    group: Group,
    nick: Seq<char>,
)
    ensures
        spec_create_group_buffer(spec_create_group_buffer(m, cache, group, nick), cache, group, nick)
            == spec_create_group_buffer(m, cache, group, nick),
{
    let key = channel_key(None, group.channel_id);
    let fill = |b: BufferView| group_buffer(b, cache, group, nick);
    assert forall|b: BufferView| (#[trigger] fill(b)).name == b.name && fill(fill(b)) == fill(
        b,
    ) by {
        lemma_group_buffer_idempotent(b, cache, group, nick);
    }
    lemma_create_and_fill_idempotent(m, key, fill);
    let once = spec_create_group_buffer(m, cache, group, nick);
    assert(once == create_and_fill(m, key, fill));
    assert(spec_create_group_buffer(once, cache, group, nick) == create_and_fill(once, key, fill));
}

/// Creating the view of a channel's pinned messages twice gives what
/// creating it once gives.
pub proof fn law_create_pins_buffer_idempotent(m: ManagerView, channel: Channel)
    ensures
        spec_create_pins_buffer(spec_create_pins_buffer(m, channel), channel)
            == spec_create_pins_buffer(m, channel),
{
    let id = spec_channel_id(channel);
    let key = pins_key(id);
    let name = spec_channel_name(channel);
    let fill = |b: BufferView| pins_buffer(b, channel);
    assert forall|b: BufferView| (#[trigger] fill(b)).name == b.name && fill(fill(b)) == fill(
        b,
    ) by {
        let c3 = b.set_title("Pinned messages in #"@ + name).set_full_name(
            "Pinned messages in $"@ + name,
        ).set_short_name("#"@ + name + " pins"@);
        let f = pins_buffer(b, channel);
        lemma_set_localvar_reads_back(c3, "pins_for_channel"@, decimal(id as nat));
        assert(f.localvar("pins_for_channel"@) == Some(decimal(id as nat)));
        lemma_set_localvar_idempotent(f, "pins_for_channel"@, decimal(id as nat));
        assert(f.set_title("Pinned messages in #"@ + name) == f);
        assert(f.set_full_name("Pinned messages in $"@ + name) == f);
        assert(f.set_short_name("#"@ + name + " pins"@) == f);
        assert(f.set_pins_channel(id) == f);
    }
    lemma_create_and_fill_idempotent(m, key, fill);
    lemma_names_after_fill(m, key, fill);
    let at = m.slot(key);
    let filled = create_and_fill(m, key, fill);
    let once = spec_create_pins_buffer(m, channel);
    assert(once == filled.switch_to(at));
    assert(once.names() =~= filled.names());
    assert(once.get_or_create(key) == once);
    assert(once.slot(key) == at);
    assert(once.put(at, fill(once.buffers[at])).buffers =~= once.buffers);
}

/// When the view of a conversation outside any guild is created, its
/// hotlist entry is raised to the private tier exactly when the conversation
/// holds unread messages; otherwise the entry stays as it was.
pub proof fn law_conversations_raise_private_tier(
    b: BufferView,
    cache: Cache,
    private: PrivateChannel,
    group: Group,
    nick: Seq<char>,
    settings: Settings,
)
    ensures
        dm_buffer(b, cache, private, nick, settings).hotlist == if spec_channel_unread(
            cache,
            private.id,
            private.last_message_id,
        ) {
            Some(HotlistPriority::Private)
        } else {
            b.hotlist
        },
        group_buffer(b, cache, group, nick).hotlist == if spec_channel_unread(
            cache,
            group.channel_id,
            group.last_message_id,
        ) {
            Some(HotlistPriority::Private)
        } else {
            b.hotlist
        },
{
}

/// The name a member is listed under when they are considered for a
/// nicklist without regard to presence: the plain display name where they
/// are listed under no group, the display name with the owner's crown, if they
/// wear it, where they are listed under a group.
pub open spec fn listed_name(cache: Cache, guild: Guild, member: Member, crown_color: Seq<char>) -> Seq<
    char,
> {
    match spec_placement(cache, member, false, false) {
        PlacementView::Flat => spec_display_name(member),
        PlacementView::Group { .. } => spec_nicklist_name(
            guild,
            member,
            spec_guild_has_crown(guild),
            crown_color,
        ),
    }
}

/// A member's changed name, brought to a channel's view that lists the old
/// name: the old name is listed no more, unless it is the very name the
/// member is listed under now; a member who takes part in the channel is
/// listed under the name they go by now; and every other nick that was
/// listed still is.
pub proof fn law_rename_replaces_the_entry(
    m: ManagerView,
    cache: Cache,
    channel_id: u64,
    old_nick: Seq<char>,
    member: Member,
    crown_color: Seq<char>,
    guild: Guild,
    at: int,
    other: Seq<char>,
)
    requires
        m.wf(),
        m.position(channel_key(Some(member.guild_id), channel_id)) == Some(at),
        index_of(m.buffers[at].nick_names(), old_nick) is Some,
        crate::model::find_guild(cache.guilds@, member.guild_id) == Some(guild),
    ensures
        0 <= at < m.buffers.len(),
        spec_rename_in_channel(m, cache, channel_id, old_nick, member, crown_color).buffers.len()
            == m.buffers.len(),
        old_nick != listed_name(cache, guild, member, crown_color) ==> index_of(
            spec_rename_in_channel(
                m,
                cache,
                channel_id,
                old_nick,
                member,
                crown_color,
            ).buffers[at].nick_names(),
            old_nick,
        ) is None,
        spec_is_participant(guild, channel_id, member) ==> index_of(
            spec_rename_in_channel(
                m,
                cache,
                channel_id,
                old_nick,
                member,
                crown_color,
            ).buffers[at].nick_names(),
            listed_name(cache, guild, member, crown_color),
        ) is Some,
        other != old_nick && index_of(m.buffers[at].nick_names(), other) is Some ==> index_of(
            spec_rename_in_channel(
                m,
                cache,
                channel_id,
                old_nick,
                member,
                crown_color,
            ).buffers[at].nick_names(),
            other,
        ) is Some,
{
    lemma_index_of(m.names(), channel_key(Some(member.guild_id), channel_id));
    let b = m.buffers[at];
    assert(b.wf());
    let removed = b.remove_nick(old_nick);
    lemma_remove_nick(b, old_nick, other);
    lemma_index_of(removed.nick_names(), old_nick);
    let name = listed_name(cache, guild, member, crown_color);
    let after = spec_add_member_to_nicklist(
        removed,
        cache,
        channel_id,
        guild,
        member,
        false,
        spec_guild_has_crown(guild),
        crown_color,
    );
    assert(spec_rename_in_channel(m, cache, channel_id, old_nick, member, crown_color).buffers[at]
        == after);
    if spec_is_participant(guild, channel_id, member) {
        match spec_placement(cache, member, false, false) {
            PlacementView::Flat => {
                lemma_add_nick(removed, name, None, None, other);
                lemma_add_nick(removed, name, None, None, old_nick);
                lemma_index_of(removed.nick_names(), name);
                lemma_index_of(after.nick_names(), old_nick);
                if index_of(removed.nick_names(), name) is None {
                    assert(after.nick_names() =~= removed.nick_names().push(name));
                    if index_of(after.nick_names(), old_nick) is Some {
                        let k = index_of(after.nick_names(), old_nick).unwrap();
                        if k < removed.nick_names().len() {
                            assert(removed.nick_names()[k] == old_nick);
                        }
                    }
                }
            },
            PlacementView::Group { name: group, color } => {
                let grouped = removed.add_group(group, color, true);
                assert(grouped.nick_names() == removed.nick_names());
                lemma_add_nick(grouped, name, Some(group), None, other);
                lemma_add_nick(grouped, name, Some(group), None, old_nick);
                lemma_index_of(grouped.nick_names(), name);
                lemma_index_of(after.nick_names(), old_nick);
                if index_of(grouped.nick_names(), name) is None {
                    assert(after.nick_names() =~= grouped.nick_names().push(name));
                    if index_of(after.nick_names(), old_nick) is Some {
                        let k = index_of(after.nick_names(), old_nick).unwrap();
                        if k < grouped.nick_names().len() {
                            assert(grouped.nick_names()[k] == old_nick);
                        }
                    }
                }
            },
        }
    }
}

} // verus!
