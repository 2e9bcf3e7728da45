//! Ids that occur once. The remote service names each guild, channel, role,
//! member and so on by an id of its own, and a snapshot taken from it holds
//! no id twice. The lookups of this library take the first entry with an id;
//! in a snapshot that holds each id once that is the only one, as it is in a
//! map from ids to entries.

use crate::hierarchy::{guild_ids, guild_order, law_guild_order};
use crate::keyed::{distinct, lemma_distinct_found_in_place};
use crate::model::{
    find_channel_in_guilds, find_group, find_guild, find_guild_channel, find_guild_settings,
    find_member, find_override, find_permissions, find_presence, find_private_channel,
    find_read_state, find_role, Cache, ChannelOverride, ChannelPermissions, Guild, GuildChannel,
    GuildListing, GuildSettings, Group, Member, Presence, PrivateChannel, ReadState, Ready, Role,
};
use vstd::prelude::*;

verus! {

/// The ids of some entries, in order.
pub open spec fn guild_ids_of(items: Seq<Guild>) -> Seq<u64> {
    items.map_values(|x: Guild| x.id)
}

/// The ids of some entries, in order.
pub open spec fn channel_ids_of(items: Seq<GuildChannel>) -> Seq<u64> {
    items.map_values(|x: GuildChannel| x.id)
}

/// The ids of some entries, in order.
pub open spec fn private_channel_ids_of(items: Seq<PrivateChannel>) -> Seq<u64> {
    items.map_values(|x: PrivateChannel| x.id)
}

/// The ids of some entries, in order.
pub open spec fn group_ids_of(items: Seq<Group>) -> Seq<u64> {
    items.map_values(|x: Group| x.channel_id)
}

/// The ids of some entries, in order.
pub open spec fn role_ids_of(items: Seq<Role>) -> Seq<u64> {
    items.map_values(|x: Role| x.id)
}

/// The ids of some entries, in order.
pub open spec fn member_ids_of(items: Seq<Member>) -> Seq<u64> {
    items.map_values(|x: Member| x.user.id)
}

/// The ids of some entries, in order.
pub open spec fn presence_ids_of(items: Seq<Presence>) -> Seq<u64> {
    items.map_values(|x: Presence| x.user_id)
}

/// The ids of some entries, in order.
pub open spec fn read_state_ids_of(items: Seq<ReadState>) -> Seq<u64> {
    items.map_values(|x: ReadState| x.channel_id)
}

/// The ids of some entries, in order.
pub open spec fn settings_ids_of(items: Seq<GuildSettings>) -> Seq<u64> {
    items.map_values(|x: GuildSettings| x.guild_id)
}

/// The ids of some entries, in order.
pub open spec fn override_ids_of(items: Seq<ChannelOverride>) -> Seq<u64> {
    items.map_values(|x: ChannelOverride| x.channel_id)
}

/// The channel and user each entry of a permission table stands for.
pub open spec fn permission_keys_of(items: Seq<ChannelPermissions>) -> Seq<(u64, u64)> {
    items.map_values(|x: ChannelPermissions| (x.channel_id, x.user_id))
}

impl Guild {
    /// No role, channel or member of the guild is held twice, and the
    /// permission table holds one entry at most for a channel and a user.
    pub open spec fn ids_unique(self) -> bool {
        &&& distinct(role_ids_of(self.roles@))
        &&& distinct(channel_ids_of(self.channels@))
        &&& distinct(member_ids_of(self.members@))
        &&& distinct(permission_keys_of(self.permissions@))
    }
}

impl GuildSettings {
    /// No channel has two overrides.
    pub open spec fn ids_unique(self) -> bool {
        distinct(override_ids_of(self.channel_overrides@))
    }
}

impl Ready {
    /// No guild is arranged twice or has two settings, and no settings hold
    /// two overrides for a channel.
    pub open spec fn ids_unique(self) -> bool {
        &&& distinct(self.guild_positions@)
        &&& distinct(settings_ids_of(self.guild_settings@))
        &&& forall|i: int|
            0 <= i < self.guild_settings@.len() ==> (
            #[trigger] self.guild_settings@[i]).ids_unique()
    }
}

/// No channel id occurs twice among the channels of some guilds, be it in
/// one guild or in two.
pub open spec fn channels_unique(guilds: Seq<Guild>) -> bool {
    forall|g: int, c: int, h: int, d: int|
        #![trigger guilds[g].channels@[c], guilds[h].channels@[d]]
        0 <= g < guilds.len() && 0 <= c < guilds[g].channels@.len() && 0 <= h < guilds.len() && 0
            <= d < guilds[h].channels@.len() && guilds[g].channels@[c].id
            == guilds[h].channels@[d].id ==> g == h && c == d
}

impl Cache {
    /// The snapshot holds each id once: no guild, conversation, presence or
    /// read cursor is held twice, every guild holds its own ids once, and no
    /// channel belongs to two guilds.
    pub open spec fn ids_unique(self) -> bool {
        &&& distinct(guild_ids_of(self.guilds@))
        &&& distinct(private_channel_ids_of(self.private_channels@))
        &&& distinct(group_ids_of(self.groups@))
        &&& distinct(presence_ids_of(self.presences@))
        &&& distinct(read_state_ids_of(self.read_state@))
        &&& forall|i: int| 0 <= i < self.guilds@.len() ==> (#[trigger] self.guilds@[i]).ids_unique()
        &&& channels_unique(self.guilds@)
    }
}

/// Where each id occurs once, looking an id up finds the entry that has it,
/// wherever it stands.
pub proof fn law_find_guild_unique(items: Seq<Guild>, i: int)
    requires
        0 <= i < items.len(),
        distinct(guild_ids_of(items)),
    ensures
        find_guild(items, items[i].id) == Some(items[i]),
    decreases items.len(),
{
    if i > 0 {
        let rest = items.drop_first();
        let ids = guild_ids_of(items);
        let rest_ids = guild_ids_of(rest);
        assert(ids[0] != ids[i]);
        assert forall|a: int, b: int| 0 <= a < b < rest.len() implies rest_ids[a]
            != rest_ids[b] by {
            assert(ids[a + 1] != ids[b + 1]);
        }
        law_find_guild_unique(rest, i - 1);
    }
}

/// Where each id occurs once, looking an id up finds the entry that has it,
/// wherever it stands.
pub proof fn law_find_guild_channel_unique(items: Seq<GuildChannel>, i: int)
    requires
        0 <= i < items.len(),
        distinct(channel_ids_of(items)),
    ensures
        find_guild_channel(items, items[i].id) == Some(items[i]),
    decreases items.len(),
{
    if i > 0 {
        let rest = items.drop_first();
        let ids = channel_ids_of(items);
        let rest_ids = channel_ids_of(rest);
        assert(ids[0] != ids[i]);
        assert forall|a: int, b: int| 0 <= a < b < rest.len() implies rest_ids[a]
            != rest_ids[b] by {
            assert(ids[a + 1] != ids[b + 1]);
        }
        law_find_guild_channel_unique(rest, i - 1);
    }
}

/// Where each id occurs once, looking an id up finds the entry that has it,
/// wherever it stands.
pub proof fn law_find_private_channel_unique(items: Seq<PrivateChannel>, i: int)
    requires
        0 <= i < items.len(),
        distinct(private_channel_ids_of(items)),
    ensures
        find_private_channel(items, items[i].id) == Some(items[i]),
    decreases items.len(),
{
    if i > 0 {
        let rest = items.drop_first();
        let ids = private_channel_ids_of(items);
        let rest_ids = private_channel_ids_of(rest);
        assert(ids[0] != ids[i]);
        assert forall|a: int, b: int| 0 <= a < b < rest.len() implies rest_ids[a]
            != rest_ids[b] by {
            assert(ids[a + 1] != ids[b + 1]);
        }
        law_find_private_channel_unique(rest, i - 1);
    }
}

/// Where each id occurs once, looking an id up finds the entry that has it,
/// wherever it stands.
pub proof fn law_find_group_unique(items: Seq<Group>, i: int)
    requires
        0 <= i < items.len(),
        distinct(group_ids_of(items)),
    ensures
        find_group(items, items[i].channel_id) == Some(items[i]),
    decreases items.len(),
{
    if i > 0 {
        let rest = items.drop_first();
        let ids = group_ids_of(items);
        let rest_ids = group_ids_of(rest);
        assert(ids[0] != ids[i]);
        assert forall|a: int, b: int| 0 <= a < b < rest.len() implies rest_ids[a]
            != rest_ids[b] by {
            assert(ids[a + 1] != ids[b + 1]);
        }
        law_find_group_unique(rest, i - 1);
    }
}

/// Where each id occurs once, looking an id up finds the entry that has it,
/// wherever it stands.
pub proof fn law_find_role_unique(items: Seq<Role>, i: int)
    requires
        0 <= i < items.len(),
        distinct(role_ids_of(items)),
    ensures
        find_role(items, items[i].id) == Some(items[i]),
    decreases items.len(),
{
    if i > 0 {
        let rest = items.drop_first();
        let ids = role_ids_of(items);
        let rest_ids = role_ids_of(rest);
        assert(ids[0] != ids[i]);
        assert forall|a: int, b: int| 0 <= a < b < rest.len() implies rest_ids[a]
            != rest_ids[b] by {
            assert(ids[a + 1] != ids[b + 1]);
        }
        law_find_role_unique(rest, i - 1);
    }
}

/// Where each id occurs once, looking an id up finds the entry that has it,
/// wherever it stands.
pub proof fn law_find_member_unique(items: Seq<Member>, i: int)
    requires
        0 <= i < items.len(),
        distinct(member_ids_of(items)),
    ensures
        find_member(items, items[i].user.id) == Some(items[i]),
    decreases items.len(),
{
    if i > 0 {
        let rest = items.drop_first();
        let ids = member_ids_of(items);
        let rest_ids = member_ids_of(rest);
        assert(ids[0] != ids[i]);
        assert forall|a: int, b: int| 0 <= a < b < rest.len() implies rest_ids[a]
            != rest_ids[b] by {
            assert(ids[a + 1] != ids[b + 1]);
        }
        law_find_member_unique(rest, i - 1);
    }
}

/// Where each id occurs once, looking an id up finds the entry that has it,
/// wherever it stands.
pub proof fn law_find_presence_unique(items: Seq<Presence>, i: int)
    requires
        0 <= i < items.len(),
        distinct(presence_ids_of(items)),
    ensures
        find_presence(items, items[i].user_id) == Some(items[i]),
    decreases items.len(),
{
    if i > 0 {
        let rest = items.drop_first();
        let ids = presence_ids_of(items);
        let rest_ids = presence_ids_of(rest);
        assert(ids[0] != ids[i]);
        assert forall|a: int, b: int| 0 <= a < b < rest.len() implies rest_ids[a]
            != rest_ids[b] by {
            assert(ids[a + 1] != ids[b + 1]);
        }
        law_find_presence_unique(rest, i - 1);
    }
}

/// Where each id occurs once, looking an id up finds the entry that has it,
/// wherever it stands.
pub proof fn law_find_read_state_unique(items: Seq<ReadState>, i: int)
    requires
        0 <= i < items.len(),
        distinct(read_state_ids_of(items)),
    ensures
        find_read_state(items, items[i].channel_id) == Some(items[i]),
    decreases items.len(),
{
    if i > 0 {
        let rest = items.drop_first();
        let ids = read_state_ids_of(items);
        let rest_ids = read_state_ids_of(rest);
        assert(ids[0] != ids[i]);
        assert forall|a: int, b: int| 0 <= a < b < rest.len() implies rest_ids[a]
            != rest_ids[b] by {
            assert(ids[a + 1] != ids[b + 1]);
        }
        law_find_read_state_unique(rest, i - 1);
    }
}

/// Where each id occurs once, looking an id up finds the entry that has it,
/// wherever it stands.
pub proof fn law_find_guild_settings_unique(items: Seq<GuildSettings>, i: int)
    requires
        0 <= i < items.len(),
        distinct(settings_ids_of(items)),
    ensures
        find_guild_settings(items, items[i].guild_id) == Some(items[i]),
    decreases items.len(),
{
    if i > 0 {
        let rest = items.drop_first();
        let ids = settings_ids_of(items);
        let rest_ids = settings_ids_of(rest);
        assert(ids[0] != ids[i]);
        assert forall|a: int, b: int| 0 <= a < b < rest.len() implies rest_ids[a]
            != rest_ids[b] by {
            assert(ids[a + 1] != ids[b + 1]);
        }
        law_find_guild_settings_unique(rest, i - 1);
    }
}

/// Where each id occurs once, looking an id up finds the entry that has it,
/// wherever it stands.
pub proof fn law_find_override_unique(items: Seq<ChannelOverride>, i: int)
    requires
        0 <= i < items.len(),
        distinct(override_ids_of(items)),
    ensures
        find_override(items, items[i].channel_id) == Some(items[i]),
    decreases items.len(),
{
    if i > 0 {
        let rest = items.drop_first();
        let ids = override_ids_of(items);
        let rest_ids = override_ids_of(rest);
        assert(ids[0] != ids[i]);
        assert forall|a: int, b: int| 0 <= a < b < rest.len() implies rest_ids[a]
            != rest_ids[b] by {
            assert(ids[a + 1] != ids[b + 1]);
        }
        law_find_override_unique(rest, i - 1);
    }
}

/// Where the table holds one entry at most for a channel and a user, the
/// permissions looked up for them are those of that entry.
pub proof fn law_find_permissions_unique(items: Seq<ChannelPermissions>, i: int)
    requires
        0 <= i < items.len(),
        distinct(permission_keys_of(items)),
    ensures
        find_permissions(items, items[i].channel_id, items[i].user_id) == items[i].bits,
    decreases items.len(),
{
    if i > 0 {
        let rest = items.drop_first();
        assert(permission_keys_of(items)[0] != permission_keys_of(items)[i]);
        assert forall|a: int, b: int| 0 <= a < b < rest.len() implies permission_keys_of(rest)[a]
            != permission_keys_of(rest)[b] by {
            assert(permission_keys_of(items)[a + 1] != permission_keys_of(items)[b + 1]);
        }
        law_find_permissions_unique(rest, i - 1);
    }
}

/// A channel id that no channel of a guild has is not found in the guild.
pub proof fn lemma_find_guild_channel_absent(items: Seq<GuildChannel>, id: u64)
    requires
        forall|c: int| 0 <= c < items.len() ==> (#[trigger] items[c]).id != id,
    ensures
        find_guild_channel(items, id) is None,
    decreases items.len(),
{
    if items.len() > 0 {
        let rest = items.drop_first();
        assert(items[0].id != id);
        assert forall|c: int| 0 <= c < rest.len() implies (#[trigger] rest[c]).id != id by {
            assert(rest[c] == items[c + 1]);
        }
        lemma_find_guild_channel_absent(rest, id);
    }
}

/// Where no channel id occurs twice, looking a channel up among the guilds
/// finds the channel that has the id, whichever guild holds it.
pub proof fn law_find_channel_in_guilds_unique(guilds: Seq<Guild>, g: int, c: int)
    requires
        0 <= g < guilds.len(),
        0 <= c < guilds[g].channels@.len(),
        channels_unique(guilds),
    ensures
        find_channel_in_guilds(guilds, guilds[g].channels@[c].id) == Some(guilds[g].channels@[c]),
    decreases guilds.len(),
{
    let id = guilds[g].channels@[c].id;
    if g == 0 {
        let items = guilds[0].channels@;
        assert forall|a: int, b: int| 0 <= a < b < items.len() implies channel_ids_of(items)[a]
            != channel_ids_of(items)[b] by {
            if guilds[0].channels@[a].id == guilds[0].channels@[b].id {
                assert(a == b);
            }
        }
        law_find_guild_channel_unique(items, c);
    } else {
        let rest = guilds.drop_first();
        assert forall|d: int| 0 <= d < guilds[0].channels@.len() implies (
        #[trigger] guilds[0].channels@[d]).id != id by {
            if guilds[0].channels@[d].id == guilds[g].channels@[c].id {
                assert(g == 0);
            }
        }
        lemma_find_guild_channel_absent(guilds[0].channels@, id);
        assert forall|p: int, q: int, r: int, s: int|
            #![trigger rest[p].channels@[q], rest[r].channels@[s]]
            0 <= p < rest.len() && 0 <= q < rest[p].channels@.len() && 0 <= r < rest.len() && 0
                <= s < rest[r].channels@.len() && rest[p].channels@[q].id
                == rest[r].channels@[s].id implies p == r && q == s by {
            assert(rest[p] == guilds[p + 1] && rest[r] == guilds[r + 1]);
            if guilds[p + 1].channels@[q].id == guilds[r + 1].channels@[s].id {
                assert(p + 1 == r + 1 && q == s);
            }
        }
        assert(rest[g - 1] == guilds[g]);
        law_find_channel_in_guilds_unique(rest, g - 1, c);
    }
}

/// Where no two listed guilds share an id, every listed guild is given its
/// views exactly once when a session starts: the order of guilds holds each
/// of them, and none twice. Of two listings that share an id and are
/// arranged, only the first is given views.
pub proof fn law_every_guild_once(positions: Seq<u64>, guilds: Seq<GuildListing>)
    requires
        distinct(guild_ids(guilds)),
    ensures
        forall|j: int|
            0 <= j < guilds.len() ==> guild_order(positions, guild_ids(guilds)).contains(j),
        forall|a: int, b: int|
            0 <= a < b < guild_order(positions, guild_ids(guilds)).len() ==> #[trigger] guild_order(
                positions,
                guild_ids(guilds),
            )[a] != #[trigger] guild_order(positions, guild_ids(guilds))[b],
{
    let ids = guild_ids(guilds);
    law_guild_order(positions, ids);
    lemma_distinct_found_in_place(ids);
    assert forall|j: int| 0 <= j < guilds.len() implies guild_order(positions, ids).contains(j) by {
        assert(crate::keyed::index_of(ids, ids[j]) == Some(j));
    }
}

} // verus!
