//! A point-in-time snapshot of the remote service's state: guilds, channels,
//! members, roles, presences and read cursors, as plain values.

use crate::text::{join, padded4, padded4_to_string};
use vstd::prelude::*;
use vstd::string::StringExecFns;

verus! {

/// What sort of channel a guild channel is.
#[derive(Clone, Copy, Debug, PartialEq, Eq, Structural)]
pub enum ChannelKind {
    Text,
    Private,
    Voice,
    Group,
    Category,
    News,
    Store,
}

/// A user's presence status.
#[derive(Clone, Copy, Debug, PartialEq, Eq, Structural)]
pub enum OnlineStatus {
    DoNotDisturb,
    Idle,
    Invisible,
    Offline,
    Online,
}

#[derive(Clone, Debug, PartialEq, Eq)]
pub struct User {
    pub id: u64,
    pub name: String,
    pub discriminator: u16,
    pub bot: bool,
}

/// The account this client is logged in as.
#[derive(Clone, Debug, PartialEq, Eq)]
pub struct CurrentUser {
    pub id: u64,
    pub name: String,
}

#[derive(Clone, Debug, PartialEq, Eq)]
pub struct Role {
    pub id: u64,
    pub name: String,
    pub colour: u32,
    /// Members holding a hoisted role are listed under it, apart from others.
    pub hoist: bool,
    pub position: i64,
    /// The permission bits the role grants.
    pub permissions: u64,
}

#[derive(Clone, Debug, PartialEq, Eq)]
pub struct Member {
    pub guild_id: u64,
    pub user: User,
    /// The nickname override, if the member has one in this guild.
    pub nick: Option<String>,
    /// Ids of the member's roles, in the order the guild lists them.
    pub roles: Vec<u64>,
}

#[derive(Clone, Debug, PartialEq, Eq)]
pub struct GuildChannel {
    pub id: u64,
    pub guild_id: u64,
    pub name: String,
    pub topic: Option<String>,
    pub kind: ChannelKind,
    pub position: i64,
    pub last_message_id: Option<u64>,
    /// The current user's permission bits in this channel; `None` when they
    /// could not be determined.
    pub permissions: Option<u64>,
}

/// A direct conversation with one other user.
#[derive(Clone, Debug, PartialEq, Eq)]
pub struct PrivateChannel {
    pub id: u64,
    pub last_message_id: Option<u64>,
    pub recipient: User,
}

/// A direct conversation among several users.
#[derive(Clone, Debug, PartialEq, Eq)]
pub struct Group {
    pub channel_id: u64,
    pub name: Option<String>,
    pub last_message_id: Option<u64>,
    pub recipients: Vec<User>,
}

#[derive(Clone, Debug, PartialEq, Eq)]
pub struct ChannelCategory {
    pub id: u64,
    pub name: String,
}

/// Any channel, tagged by what it is.
#[derive(Clone, Debug, PartialEq, Eq)]
pub enum Channel {
    Group(Group),
    Guild(GuildChannel),
    Private(PrivateChannel),
    Category(ChannelCategory),
}

/// The permission bits one user has in one channel of a guild.
#[derive(Clone, Copy, Debug, PartialEq, Eq)]
pub struct ChannelPermissions {
    pub channel_id: u64,
    pub user_id: u64,
    pub bits: u64,
}

#[derive(Clone, Debug, PartialEq, Eq)]
pub struct Guild {
    pub id: u64,
    pub name: String,
    pub owner_id: u64,
    pub roles: Vec<Role>,
    pub channels: Vec<GuildChannel>,
    pub members: Vec<Member>,
    /// Per channel and user, the permissions in effect.
    pub permissions: Vec<ChannelPermissions>,
}

#[derive(Clone, Copy, Debug, PartialEq, Eq)]
pub struct Presence {
    pub user_id: u64,
    pub status: OnlineStatus,
}

/// The newest message of a channel that the remote service recorded as read.
#[derive(Clone, Copy, Debug, PartialEq, Eq)]
pub struct ReadState {
    pub channel_id: u64,
    pub last_message_id: u64,
}

#[derive(Clone, Copy, Debug, PartialEq, Eq)]
pub struct Message {
    pub id: u64,
    pub author_id: u64,
}

/// What is known of the remote service at one moment. The service gives each
/// guild, channel and user an id of its own, so a snapshot taken from it holds
/// each id once (`ids_unique`); where one does not, the entry that stands
/// first under an id is the one that counts.
#[derive(Clone, Debug, PartialEq, Eq)]
pub struct Cache {
    pub user: CurrentUser,
    pub guilds: Vec<Guild>,
    pub private_channels: Vec<PrivateChannel>,
    pub groups: Vec<Group>,
    pub presences: Vec<Presence>,
    pub read_state: Vec<ReadState>,
}

/// One guild of the user as the remote service lists it, with what could be
/// fetched about it.
#[derive(Clone, Debug, PartialEq, Eq)]
pub struct GuildListing {
    pub id: u64,
    pub name: String,
    /// The user's own member entry in the guild, if it could be had.
    pub member: Option<Member>,
    /// The guild's channels; `None` when they could not be fetched.
    pub channels: Option<Vec<GuildChannel>>,
}

/// Whether one channel of a guild is muted, overriding the guild's setting.
#[derive(Clone, Copy, Debug, PartialEq, Eq)]
pub struct ChannelOverride {
    pub channel_id: u64,
    pub muted: bool,
}

/// The user's settings for one guild.
#[derive(Clone, Debug, PartialEq, Eq)]
pub struct GuildSettings {
    pub guild_id: u64,
    pub muted: bool,
    pub channel_overrides: Vec<ChannelOverride>,
}

/// What the remote service says when a session starts, as far as the views
/// depend on it.
#[derive(Clone, Debug, PartialEq, Eq)]
pub struct Ready {
    /// The ids of the guilds in the order the user arranged them.
    pub guild_positions: Vec<u64>,
    pub guild_settings: Vec<GuildSettings>,
}

/// A whole guild, or one channel of a guild or of none.
#[derive(Clone, Copy, Debug, PartialEq, Eq)]
pub enum GuildOrChannel {
    Guild(u64),
    Channel(Option<u64>, u64),
}

/// The first guild with the given id.
pub open spec fn find_guild(items: Seq<Guild>, id: u64) -> Option<Guild>
    decreases items.len(),
{
    if items.len() == 0 {
        None
    } else if items[0].id == id {
        Some(items[0])
    } else {
        find_guild(items.drop_first(), id)
    }
}

/// The first guild channel with the given id.
pub open spec fn find_guild_channel(items: Seq<GuildChannel>, id: u64) -> Option<GuildChannel>
    decreases items.len(),
{
    if items.len() == 0 {
        None
    } else if items[0].id == id {
        Some(items[0])
    } else {
        find_guild_channel(items.drop_first(), id)
    }
}

/// The first private channel with the given id.
pub open spec fn find_private_channel(items: Seq<PrivateChannel>, id: u64) -> Option<PrivateChannel>
    decreases items.len(),
{
    if items.len() == 0 {
        None
    } else if items[0].id == id {
        Some(items[0])
    } else {
        find_private_channel(items.drop_first(), id)
    }
}

/// The first group conversation with the given channel id.
pub open spec fn find_group(items: Seq<Group>, id: u64) -> Option<Group>
    decreases items.len(),
{
    if items.len() == 0 {
        None
    } else if items[0].channel_id == id {
        Some(items[0])
    } else {
        find_group(items.drop_first(), id)
    }
}

/// The first role with the given id.
pub open spec fn find_role(items: Seq<Role>, id: u64) -> Option<Role>
    decreases items.len(),
{
    if items.len() == 0 {
        None
    } else if items[0].id == id {
        Some(items[0])
    } else {
        find_role(items.drop_first(), id)
    }
}

/// The first member whose user has the given id.
pub open spec fn find_member(items: Seq<Member>, id: u64) -> Option<Member>
    decreases items.len(),
{
    if items.len() == 0 {
        None
    } else if items[0].user.id == id {
        Some(items[0])
    } else {
        find_member(items.drop_first(), id)
    }
}

/// The first presence recorded for the given user.
pub open spec fn find_presence(items: Seq<Presence>, id: u64) -> Option<Presence>
    decreases items.len(),
{
    if items.len() == 0 {
        None
    } else if items[0].user_id == id {
        Some(items[0])
    } else {
        find_presence(items.drop_first(), id)
    }
}

/// The first read cursor recorded for the given channel.
pub open spec fn find_read_state(items: Seq<ReadState>, id: u64) -> Option<ReadState>
    decreases items.len(),
{
    if items.len() == 0 {
        None
    } else if items[0].channel_id == id {
        Some(items[0])
    } else {
        find_read_state(items.drop_first(), id)
    }
}

/// The first settings held for the given guild.
pub open spec fn find_guild_settings(items: Seq<GuildSettings>, id: u64) -> Option<GuildSettings>
    decreases items.len(),
{
    if items.len() == 0 {
        None
    } else if items[0].guild_id == id {
        Some(items[0])
    } else {
        find_guild_settings(items.drop_first(), id)
    }
}

/// The first override held for the given channel.
pub open spec fn find_override(items: Seq<ChannelOverride>, id: u64) -> Option<ChannelOverride>
    decreases items.len(),
{
    if items.len() == 0 {
        None
    } else if items[0].channel_id == id {
        Some(items[0])
    } else {
        find_override(items.drop_first(), id)
    }
}

/// Whether a channel of a guild is muted: the guild is, or the channel's own
/// override says so. Without settings for the guild nothing is muted.
pub open spec fn spec_is_muted(
    settings: Seq<GuildSettings>,
    guild_id: u64,
    channel_id: u64,
) -> bool {
    match find_guild_settings(settings, guild_id) {
        Some(guild) => guild.muted || (match find_override(guild.channel_overrides@, channel_id) {
            Some(o) => o.muted,
            None => false,
        }),
        None => false,
    }
}

/// The permission bits recorded for a user in a channel; none at all when
/// nothing is recorded.
pub open spec fn find_permissions(
    items: Seq<ChannelPermissions>,
    channel_id: u64,
    user_id: u64,
) -> u64
    decreases items.len(),
{
    if items.len() == 0 {
        0
    } else if items[0].channel_id == channel_id && items[0].user_id == user_id {
        items[0].bits
    } else {
        find_permissions(items.drop_first(), channel_id, user_id)
    }
}

/// The first guild channel with the given id among all the guilds' channels.
pub open spec fn find_channel_in_guilds(guilds: Seq<Guild>, id: u64) -> Option<GuildChannel>
    decreases guilds.len(),
{
    if guilds.len() == 0 {
        None
    } else {
        match find_guild_channel(guilds[0].channels@, id) {
            Some(c) => Some(c),
            None => find_channel_in_guilds(guilds.drop_first(), id),
        }
    }
}

/// The newest message of the cached channel with the given id: a guild
/// channel if there is one of that id, else a private channel, else a group
/// conversation. None when no such channel is cached or it holds no message.
pub open spec fn spec_cached_last_message(cache: Cache, id: u64) -> Option<u64> {
    match find_channel_in_guilds(cache.guilds@, id) {
        Some(c) => c.last_message_id,
        None => match find_private_channel(cache.private_channels@, id) {
            Some(p) => p.last_message_id,
            None => match find_group(cache.groups@, id) {
                Some(g) => g.last_message_id,
                None => None,
            },
        },
    }
}

/// Whether a presence status counts as being online.
pub open spec fn spec_status_is_online(status: OnlineStatus) -> bool {
    status is Online || status is Idle || status is DoNotDisturb
}

pub fn status_is_online(status: OnlineStatus) -> (r: bool)
    ensures
        r == spec_status_is_online(status),
{
    match status {
        OnlineStatus::Online | OnlineStatus::Idle | OnlineStatus::DoNotDisturb => true,
        OnlineStatus::Offline | OnlineStatus::Invisible => false,
    }
}

impl Guild {
    /// The guild's channel with the given id; the first, should the id occur
    /// more than once.
    pub fn channel(&self, id: u64) -> (r: Option<&GuildChannel>)
        ensures
            r matches Some(found) ==> find_guild_channel(self.channels@, id) == Some(*found),
            r is None ==> find_guild_channel(self.channels@, id) is None,
    {
        let mut i: usize = 0;
        assert(self.channels@.skip(0) =~= self.channels@);
        while i < self.channels.len()
            invariant
                i <= self.channels.len(),
                find_guild_channel(self.channels@, id) == find_guild_channel(self.channels@.skip(i as int), id),
            decreases self.channels.len() - i,
        {
            if self.channels[i].id == id {
                return Some(&self.channels[i]);
            }
            assert(self.channels@.skip(i as int).drop_first() =~= self.channels@.skip(i as int + 1));
            i = i + 1;
        }
        None
    }

    /// The guild's role with the given id; the first, should the id occur more
    /// than once.
    pub fn role(&self, id: u64) -> (r: Option<&Role>)
        ensures
            r matches Some(found) ==> find_role(self.roles@, id) == Some(*found),
            r is None ==> find_role(self.roles@, id) is None,
    {
        let mut i: usize = 0;
        assert(self.roles@.skip(0) =~= self.roles@);
        while i < self.roles.len()
            invariant
                i <= self.roles.len(),
                find_role(self.roles@, id) == find_role(self.roles@.skip(i as int), id),
            decreases self.roles.len() - i,
        {
            if self.roles[i].id == id {
                return Some(&self.roles[i]);
            }
            assert(self.roles@.skip(i as int).drop_first() =~= self.roles@.skip(i as int + 1));
            i = i + 1;
        }
        None
    }

    /// The guild's member entry for the given user; the first, should there be
    /// more than one.
    pub fn member(&self, id: u64) -> (r: Option<&Member>)
        ensures
            r matches Some(found) ==> find_member(self.members@, id) == Some(*found),
            r is None ==> find_member(self.members@, id) is None,
    {
        let mut i: usize = 0;
        assert(self.members@.skip(0) =~= self.members@);
        while i < self.members.len()
            invariant
                i <= self.members.len(),
                find_member(self.members@, id) == find_member(self.members@.skip(i as int), id),
            decreases self.members.len() - i,
        {
            if self.members[i].user.id == id {
                return Some(&self.members[i]);
            }
            assert(self.members@.skip(i as int).drop_first() =~= self.members@.skip(i as int + 1));
            i = i + 1;
        }
        None
    }

    /// The permissions a user has in one of the guild's channels: those of the
    /// first entry the table holds for the two, and none where it holds no
    /// entry.
    pub fn user_permissions_in(&self, channel_id: u64, user_id: u64) -> (bits: u64)
        ensures
            bits == find_permissions(self.permissions@, channel_id, user_id),
    {
        let mut i: usize = 0;
        assert(self.permissions@.skip(0) =~= self.permissions@);
        while i < self.permissions.len()
            invariant
                i <= self.permissions.len(),
                find_permissions(self.permissions@, channel_id, user_id) == find_permissions(
                    self.permissions@.skip(i as int),
                    channel_id,
                    user_id,
                ),
            decreases self.permissions.len() - i,
        {
            if self.permissions[i].channel_id == channel_id && self.permissions[i].user_id
                == user_id {
                return self.permissions[i].bits;
            }
            assert(self.permissions@.skip(i as int).drop_first() =~= self.permissions@.skip(
                i as int + 1,
            ));
            i = i + 1;
        }
        0
    }
}

impl Cache {
    /// The cached guild with the given id; the first, should the id occur more
    /// than once.
    pub fn guild(&self, id: u64) -> (r: Option<&Guild>)
        ensures
            r matches Some(found) ==> find_guild(self.guilds@, id) == Some(*found),
            r is None ==> find_guild(self.guilds@, id) is None,
    {
        let mut i: usize = 0;
        assert(self.guilds@.skip(0) =~= self.guilds@);
        while i < self.guilds.len()
            invariant
                i <= self.guilds.len(),
                find_guild(self.guilds@, id) == find_guild(self.guilds@.skip(i as int), id),
            decreases self.guilds.len() - i,
        {
            if self.guilds[i].id == id {
                return Some(&self.guilds[i]);
            }
            assert(self.guilds@.skip(i as int).drop_first() =~= self.guilds@.skip(i as int + 1));
            i = i + 1;
        }
        None
    }

    /// The cached private channel with the given id; the first, should the id
    /// occur more than once.
    pub fn private_channel(&self, id: u64) -> (r: Option<&PrivateChannel>)
        ensures
            r matches Some(found) ==> find_private_channel(self.private_channels@, id) == Some(*found),
            r is None ==> find_private_channel(self.private_channels@, id) is None,
    {
        let mut i: usize = 0;
        assert(self.private_channels@.skip(0) =~= self.private_channels@);
        while i < self.private_channels.len()
            invariant
                i <= self.private_channels.len(),
                find_private_channel(self.private_channels@, id) == find_private_channel(
                    self.private_channels@.skip(i as int),
                    id,
                ),
            decreases self.private_channels.len() - i,
        {
            if self.private_channels[i].id == id {
                return Some(&self.private_channels[i]);
            }
            assert(self.private_channels@.skip(i as int).drop_first()
                =~= self.private_channels@.skip(i as int + 1));
            i = i + 1;
        }
        None
    }

    /// The cached group conversation with the given channel id; the first,
    /// should the id occur more than once.
    pub fn group(&self, id: u64) -> (r: Option<&Group>)
        ensures
            r matches Some(found) ==> find_group(self.groups@, id) == Some(*found),
            r is None ==> find_group(self.groups@, id) is None,
    {
        let mut i: usize = 0;
        assert(self.groups@.skip(0) =~= self.groups@);
        while i < self.groups.len()
            invariant
                i <= self.groups.len(),
                find_group(self.groups@, id) == find_group(self.groups@.skip(i as int), id),
            decreases self.groups.len() - i,
        {
            if self.groups[i].channel_id == id {
                return Some(&self.groups[i]);
            }
            assert(self.groups@.skip(i as int).drop_first() =~= self.groups@.skip(i as int + 1));
            i = i + 1;
        }
        None
    }

    /// The presence recorded for the given user; the first, should there be
    /// more than one.
    pub fn presence(&self, id: u64) -> (r: Option<&Presence>)
        ensures
            r matches Some(found) ==> find_presence(self.presences@, id) == Some(*found),
            r is None ==> find_presence(self.presences@, id) is None,
    {
        let mut i: usize = 0;
        assert(self.presences@.skip(0) =~= self.presences@);
        while i < self.presences.len()
            invariant
                i <= self.presences.len(),
                find_presence(self.presences@, id) == find_presence(self.presences@.skip(i as int), id),
            decreases self.presences.len() - i,
        {
            if self.presences[i].user_id == id {
                return Some(&self.presences[i]);
            }
            assert(self.presences@.skip(i as int).drop_first() =~= self.presences@.skip(i as int + 1));
            i = i + 1;
        }
        None
    }

    /// The read cursor recorded for the given channel; the first, should there
    /// be more than one.
    pub fn read_state(&self, id: u64) -> (r: Option<&ReadState>)
        ensures
            r matches Some(found) ==> find_read_state(self.read_state@, id) == Some(*found),
            r is None ==> find_read_state(self.read_state@, id) is None,
    {
        let mut i: usize = 0;
        assert(self.read_state@.skip(0) =~= self.read_state@);
        while i < self.read_state.len()
            invariant
                i <= self.read_state.len(),
                find_read_state(self.read_state@, id) == find_read_state(self.read_state@.skip(i as int), id),
            decreases self.read_state.len() - i,
        {
            if self.read_state[i].channel_id == id {
                return Some(&self.read_state[i]);
            }
            assert(self.read_state@.skip(i as int).drop_first() =~= self.read_state@.skip(i as int + 1));
            i = i + 1;
        }
        None
    }

    /// The newest message of the cached channel with the given id.
    pub fn last_message(&self, id: u64) -> (r: Option<u64>)
        ensures
            r == spec_cached_last_message(*self, id),
    {
        match self.guild_channel(id) {
            Some(c) => c.last_message_id,
            None => match self.private_channel(id) {
                Some(p) => p.last_message_id,
                None => match self.group(id) {
                    Some(g) => g.last_message_id,
                    None => None,
                },
            },
        }
    }

    /// The cached guild channel with the given id, whichever guild holds it;
    /// that of the guild listed first, should the id occur in more than one.
    pub fn guild_channel(&self, id: u64) -> (r: Option<&GuildChannel>)
        ensures
            r matches Some(found) ==> find_channel_in_guilds(self.guilds@, id) == Some(*found),
            r is None ==> find_channel_in_guilds(self.guilds@, id) is None,
    {
        let mut i: usize = 0;
        assert(self.guilds@.skip(0) =~= self.guilds@);
        while i < self.guilds.len()
            invariant
                i <= self.guilds.len(),
                find_channel_in_guilds(self.guilds@, id) == find_channel_in_guilds(
                    self.guilds@.skip(i as int),
                    id,
                ),
            decreases self.guilds.len() - i,
        {
            let found = self.guilds[i].channel(id);
            if found.is_some() {
                return found;
            }
            assert(self.guilds@.skip(i as int).drop_first() =~= self.guilds@.skip(i as int + 1));
            i = i + 1;
        }
        None
    }
}

/// A user's tag: the name, a hash sign and the four-digit discriminator.
pub open spec fn spec_user_tag(user: User) -> Seq<char> {
    user.name@ + "#"@ + padded4(user.discriminator as nat)
}

/// The name a private channel goes by: "DM with" and the recipient's tag.
pub open spec fn spec_private_channel_name(channel: PrivateChannel) -> Seq<char> {
    "DM with "@ + spec_user_tag(channel.recipient)
}

/// The names of some users, in order.
pub open spec fn user_names(users: Seq<User>) -> Seq<Seq<char>> {
    users.map_values(|u: User| u.name@)
}

/// The recipients' names, separated by a comma and a space.
pub open spec fn spec_recipient_names(group: Group) -> Seq<char> {
    join(user_names(group.recipients@), ", "@)
}

/// The name a group conversation goes by: the one it was given, else the
/// recipients' names, else "Empty Group".
pub open spec fn spec_group_name(group: Group) -> Seq<char> {
    match group.name {
        Some(name) => name@,
        None => if group.recipients@.len() == 0 {
            "Empty Group"@
        } else {
            spec_recipient_names(group)
        },
    }
}

pub open spec fn spec_channel_id(channel: Channel) -> u64 {
    match channel {
        Channel::Group(g) => g.channel_id,
        Channel::Guild(c) => c.id,
        Channel::Private(p) => p.id,
        Channel::Category(c) => c.id,
    }
}

pub open spec fn spec_channel_name(channel: Channel) -> Seq<char> {
    match channel {
        Channel::Group(g) => spec_group_name(g),
        Channel::Guild(c) => c.name@,
        Channel::Private(p) => spec_private_channel_name(p),
        Channel::Category(c) => c.name@,
    }
}

/// The newest message of a channel; a category holds none.
pub open spec fn spec_channel_last_message(channel: Channel) -> Option<u64> {
    match channel {
        Channel::Group(g) => g.last_message_id,
        Channel::Guild(c) => c.last_message_id,
        Channel::Private(p) => p.last_message_id,
        Channel::Category(_) => None,
    }
}

/// The name a member is shown under: the nickname where there is one, else
/// the user's name.
pub open spec fn spec_display_name(member: Member) -> Seq<char> {
    match member.nick {
        Some(nick) => nick@,
        None => member.user.name@,
    }
}

impl User {
    pub fn tag(&self) -> (r: String)
        ensures
            r@ == spec_user_tag(*self),
    {
        let mut r = self.name.clone();
        r.append("#");
        let digits = padded4_to_string(self.discriminator);
        r.append(digits.as_str());
        r
    }
}

impl PrivateChannel {
    pub fn name(&self) -> (r: String)
        ensures
            r@ == spec_private_channel_name(*self),
    {
        let mut r = String::new();
        r.append("DM with ");
        let tag = self.recipient.tag();
        r.append(tag.as_str());
        assert(r@ =~= spec_private_channel_name(*self));
        r
    }
}

impl Group {
    /// The recipients' names, separated by a comma and a space.
    pub fn recipient_names(&self) -> (r: String)
        ensures
            r@ == spec_recipient_names(*self),
    {
        let ghost names = user_names(self.recipients@);
        let mut r = String::new();
        let mut i: usize = 0;
        while i < self.recipients.len()
            invariant
                i <= self.recipients.len(),
                names == user_names(self.recipients@),
                r@ == join(names.take(i as int), ", "@),
            decreases self.recipients.len() - i,
        {
            if i > 0 {
                r.append(", ");
            }
            r.append(self.recipients[i].name.as_str());
            proof {
                let next = names.take(i as int + 1);
                assert(next.drop_last() =~= names.take(i as int));
                assert(next.last() == self.recipients@[i as int].name@);
                if i == 0 {
                    assert(r@ =~= next[0]);
                }
            }
            i = i + 1;
        }
        assert(names.take(i as int) =~= names);
        r
    }

    pub fn name(&self) -> (r: String)
        ensures
            r@ == spec_group_name(*self),
    {
        match &self.name {
            Some(name) => name.clone(),
            None => {
                if self.recipients.len() == 0 {
                    crate::text::owned("Empty Group")
                } else {
                    self.recipient_names()
                }
            },
        }
    }
}

impl Channel {
    pub fn id(&self) -> (r: u64)
        ensures
            r == spec_channel_id(*self),
    {
        match self {
            Channel::Group(g) => g.channel_id,
            Channel::Guild(c) => c.id,
            Channel::Private(p) => p.id,
            Channel::Category(c) => c.id,
        }
    }

    pub fn name(&self) -> (r: String)
        ensures
            r@ == spec_channel_name(*self),
    {
        match self {
            Channel::Group(g) => g.name(),
            Channel::Guild(c) => c.name.clone(),
            Channel::Private(p) => p.name(),
            Channel::Category(c) => c.name.clone(),
        }
    }

    pub fn last_message(&self) -> (r: Option<u64>)
        ensures
            r == spec_channel_last_message(*self),
    {
        match self {
            Channel::Group(g) => g.last_message_id,
            Channel::Guild(c) => c.last_message_id,
            Channel::Private(p) => p.last_message_id,
            Channel::Category(_) => None,
        }
    }
}

impl Member {
    pub fn display_name(&self) -> (r: String)
        ensures
            r@ == spec_display_name(*self),
    {
        match &self.nick {
            Some(nick) => nick.clone(),
            None => self.user.name.clone(),
        }
    }
}

impl GuildSettings {
    /// The override held for the given channel; the first, should there be
    /// more than one.
    pub fn channel_override(&self, id: u64) -> (r: Option<&ChannelOverride>)
        ensures
            r matches Some(found) ==> find_override(self.channel_overrides@, id) == Some(*found),
            r is None ==> find_override(self.channel_overrides@, id) is None,
    {
        let mut i: usize = 0;
        assert(self.channel_overrides@.skip(0) =~= self.channel_overrides@);
        while i < self.channel_overrides.len()
            invariant
                i <= self.channel_overrides.len(),
                find_override(self.channel_overrides@, id) == find_override(
                    self.channel_overrides@.skip(i as int),
                    id,
                ),
            decreases self.channel_overrides.len() - i,
        {
            if self.channel_overrides[i].channel_id == id {
                return Some(&self.channel_overrides[i]);
            }
            assert(self.channel_overrides@.skip(i as int).drop_first()
                =~= self.channel_overrides@.skip(i as int + 1));
            i = i + 1;
        }
        None
    }
}

impl Ready {
    /// The settings held for the given guild; the first, should there be more
    /// than one.
    pub fn settings_for(&self, id: u64) -> (r: Option<&GuildSettings>)
        ensures
            r matches Some(found) ==> find_guild_settings(self.guild_settings@, id) == Some(*found),
            r is None ==> find_guild_settings(self.guild_settings@, id) is None,
    {
        let mut i: usize = 0;
        assert(self.guild_settings@.skip(0) =~= self.guild_settings@);
        while i < self.guild_settings.len()
            invariant
                i <= self.guild_settings.len(),
                find_guild_settings(self.guild_settings@, id) == find_guild_settings(
                    self.guild_settings@.skip(i as int),
                    id,
                ),
            decreases self.guild_settings.len() - i,
        {
            if self.guild_settings[i].guild_id == id {
                return Some(&self.guild_settings[i]);
            }
            assert(self.guild_settings@.skip(i as int).drop_first() =~= self.guild_settings@.skip(
                i as int + 1,
            ));
            i = i + 1;
        }
        None
    }

    /// Whether a channel of a guild is muted.
    pub fn is_muted(&self, guild_id: u64, channel_id: u64) -> (muted: bool)
        ensures
            muted == spec_is_muted(self.guild_settings@, guild_id, channel_id),
    {
        match self.settings_for(guild_id) {
            Some(guild) => guild.muted || (match guild.channel_override(channel_id) {
                Some(o) => o.muted,
                None => false,
            }),
            None => false,
        }
    }
}

} // verus!
