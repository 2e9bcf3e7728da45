//! The participant list of a view: who is listed, under which group, and
//! under what name.

use crate::buffer::{Buffer, BufferView, GroupColor};
use crate::keyed::index_of;
use crate::keys::{buffer_id_for_channel, channel_key};
use crate::manager::{lemma_put_keeps_wf, BufferManager, ManagerView};
use crate::model::{
    find_guild, find_permissions, find_presence, find_role, spec_display_name,
    spec_status_is_online, status_is_online, Cache, Guild, GuildListing, Member, OnlineStatus,
    PrivateChannel, Role,
};
use crate::permissions::{
    administrator, read_message_history, read_messages, spec_administrator,
    spec_read_message_history, spec_read_messages,
};
use crate::settings::Settings;
use crate::text::{owned, signed_decimal, signed_to_string};
use vstd::prelude::*;
use vstd::string::StringExecFns;

verus! {

/// Whether a user counts as online: the current user always does, anyone
/// else by the presence recorded for them, and not without one.
pub open spec fn spec_user_online(cache: Cache, user_id: u64) -> bool {
    if user_id == cache.user.id {
        true
    } else {
        match find_presence(cache.presences@, user_id) {
            Some(p) => spec_status_is_online(p.status),
            None => false,
        }
    }
}

pub fn user_online(cache: &Cache, user_id: u64) -> (online: bool)
    ensures
        online == spec_user_online(*cache, user_id),
{
    if user_id == cache.user.id {
        true
    } else {
        match cache.presence(user_id) {
            Some(p) => status_is_online(p.status),
            None => false,
        }
    }
}

/// The status recorded for a user, if any.
pub open spec fn spec_user_status(cache: Cache, user_id: u64) -> Option<OnlineStatus> {
    match find_presence(cache.presences@, user_id) {
        Some(p) => Some(p.status),
        None => None,
    }
}

pub fn user_status(cache: &Cache, user_id: u64) -> (status: Option<OnlineStatus>)
    ensures
        status == spec_user_status(*cache, user_id),
{
    match cache.presence(user_id) {
        Some(p) => Some(p.status),
        None => None,
    }
}

/// The owner's crown is shown only in a guild none of whose roles is both
/// hoisted and administrator-granting.
pub open spec fn spec_guild_has_crown(guild: Guild) -> bool {
    forall|i: int|
        0 <= i < guild.roles@.len() ==> !(guild.roles@[i].hoist && spec_administrator(
            #[trigger] guild.roles@[i].permissions,
        ))
}

pub fn guild_has_crown(guild: &Guild) -> (crown: bool)
    ensures
        crown == spec_guild_has_crown(*guild),
{
    let mut i: usize = 0;
    while i < guild.roles.len()
        invariant
            i <= guild.roles.len(),
            forall|j: int|
                0 <= j < i ==> !(guild.roles@[j].hoist && spec_administrator(
                    #[trigger] guild.roles@[j].permissions,
                )),
        decreases guild.roles.len() - i,
    {
        if guild.roles[i].hoist && administrator(guild.roles[i].permissions) {
            return false;
        }
        i = i + 1;
    }
    true
}

/// The nicklist of a private conversation: when presence is tracked, the
/// recipient with their recorded status and the user with the status they
/// last set; nothing at all otherwise.
pub open spec fn spec_load_dm_nicks(
    b: BufferView,
    cache: Cache,
    channel: PrivateChannel,
    settings: Settings,
) -> BufferView {
    if settings.use_presence {
        b.set_nicks_loaded().enable_nicklist().add_nick(
            channel.recipient.name@,
            None,
            spec_user_status(cache, channel.recipient.id),
        ).add_nick(cache.user.name@, None, Some(settings.last_status))
    } else {
        b
    }
}

/// Fills the nicklist of a private conversation.
pub fn load_dm_nicks(
    buffer: &mut Buffer,
    cache: &Cache,
    channel: &PrivateChannel,
    settings: &Settings,
)
    requires
        old(buffer).wf(),
    ensures
        final(buffer)@ == spec_load_dm_nicks(old(buffer)@, *cache, *channel, *settings),
        final(buffer).wf(),
{
    if settings.use_presence {
        buffer.set_nicks_loaded();
        buffer.enable_nicklist();
        buffer.add_nick(
            channel.recipient.name.as_str(),
            None,
            user_status(cache, channel.recipient.id),
        );
        buffer.add_nick(cache.user.name.as_str(), None, Some(settings.last_status));
    }
}

/// The name of the bucket for members who are online and hold no hoisted
/// role. The keys of the three buckets put them behind the roles, in the order
/// online, offline, bot.
pub const ONLINE_GROUP_NAME: &'static str = "99997|Online";

/// The name of the bucket for members who are offline.
pub const OFFLINE_GROUP_NAME: &'static str = "99998|Offline";

/// The name of the bucket for automated accounts.
pub const BOT_GROUP_NAME: &'static str = "99999|Bot";

/// The higher of the best role so far and a candidate; the earlier one stays
/// when the positions are equal.
pub open spec fn pick_higher(best: Option<Role>, candidate: Role) -> Option<Role> {
    match best {
        Some(b) => if candidate.position > b.position {
            Some(candidate)
        } else {
            Some(b)
        },
        None => Some(candidate),
    }
}

/// Among the roles a member holds that the guild knows, the one of highest
/// position; among the hoisted ones only, if so asked.
pub open spec fn highest_role(guild_roles: Seq<Role>, held: Seq<u64>, hoisted_only: bool) -> Option<
    Role,
>
    decreases held.len(),
{
    if held.len() == 0 {
        None
    } else {
        let before = highest_role(guild_roles, held.drop_last(), hoisted_only);
        match find_role(guild_roles, held.last()) {
            Some(role) => if !hoisted_only || role.hoist {
                pick_higher(before, role)
            } else {
                before
            },
            None => before,
        }
    }
}

/// The member's highest hoisted role and highest role of all, in the guild
/// the member belongs to; none unless the member holds a hoisted role.
pub open spec fn spec_find_highest_roles(cache: Cache, member: Member) -> Option<(Role, Role)> {
    match find_guild(cache.guilds@, member.guild_id) {
        Some(guild) => match (
            highest_role(guild.roles@, member.roles@, true),
            highest_role(guild.roles@, member.roles@, false),
        ) {
            (Some(hoisted), Some(highest)) => Some((hoisted, highest)),
            _ => None,
        },
        None => None,
    }
}

/// What `highest_role` picks is a role the guild knows, one that the member
/// holds, hoisted if only such were asked for, and no qualifying role of the
/// member stands higher.
pub proof fn lemma_highest_role(guild_roles: Seq<Role>, held: Seq<u64>, hoisted_only: bool)
    ensures
        match highest_role(guild_roles, held, hoisted_only) {
            Some(best) => {
                &&& exists|k: int|
                    0 <= k < held.len() && find_role(guild_roles, #[trigger] held[k]) == Some(best)
                &&& hoisted_only ==> best.hoist
                &&& forall|k: int|
                    0 <= k < held.len() ==> (match find_role(guild_roles, #[trigger] held[k]) {
                        Some(r) => (!hoisted_only || r.hoist) ==> r.position <= best.position,
                        None => true,
                    })
            },
            None => forall|k: int|
                0 <= k < held.len() ==> (match find_role(guild_roles, #[trigger] held[k]) {
                    Some(r) => hoisted_only && !r.hoist,
                    None => true,
                }),
        },
    decreases held.len(),
{
    if held.len() > 0 {
        let front = held.drop_last();
        lemma_highest_role(guild_roles, front, hoisted_only);
        assert forall|k: int| 0 <= k < front.len() implies front[k] == held[k] by {}
        match highest_role(guild_roles, held, hoisted_only) {
            Some(best) => {
                match highest_role(guild_roles, front, hoisted_only) {
                    Some(before) => {
                        if best == before {
                            let k = choose|k: int|
                                0 <= k < front.len() && find_role(guild_roles, #[trigger] front[k])
                                    == Some(before);
                            assert(find_role(guild_roles, held[k]) == Some(best));
                        } else {
                            assert(find_role(guild_roles, held[held.len() - 1]) == Some(best));
                        }
                    },
                    None => {
                        assert(find_role(guild_roles, held[held.len() - 1]) == Some(best));
                    },
                }
                assert forall|k: int| 0 <= k < held.len() implies (match find_role(
                    guild_roles,
                    #[trigger] held[k],
                ) {
                    Some(r) => (!hoisted_only || r.hoist) ==> r.position <= best.position,
                    None => true,
                }) by {
                    if k < front.len() {
                        assert(front[k] == held[k]);
                    }
                }
            },
            None => {
                assert forall|k: int| 0 <= k < held.len() implies (match find_role(
                    guild_roles,
                    #[trigger] held[k],
                ) {
                    Some(r) => hoisted_only && !r.hoist,
                    None => true,
                }) by {
                    if k < front.len() {
                        assert(front[k] == held[k]);
                    }
                }
            },
        }
    }
}

fn higher<'a>(best: Option<&'a Role>, candidate: &'a Role) -> (r: Option<&'a Role>)
    ensures
        r matches Some(picked) && pick_higher(
            match best {
                Some(b) => Some(*b),
                None => None,
            },
            *candidate,
        ) == Some(*picked),
{
    match best {
        Some(b) => if candidate.position > b.position {
            Some(candidate)
        } else {
            Some(b)
        },
        None => Some(candidate),
    }
}

pub open spec fn deref_role(r: Option<&Role>) -> Option<Role> {
    match r {
        Some(role) => Some(*role),
        None => None,
    }
}

/// The member's highest hoisted role and highest role of all.
pub fn find_highest_roles<'a>(cache: &'a Cache, member: &Member) -> (r: Option<
    (&'a Role, &'a Role),
>)
    ensures
        r matches Some(pair) ==> spec_find_highest_roles(*cache, *member) == Some(
            (*pair.0, *pair.1),
        ),
        r is None ==> spec_find_highest_roles(*cache, *member) is None,
{
    let guild = match cache.guild(member.guild_id) {
        Some(guild) => guild,
        None => {
            return None;
        },
    };
    let mut hoisted: Option<&Role> = None;
    let mut highest: Option<&Role> = None;
    let mut i: usize = 0;
    assert(member.roles@.take(0) =~= Seq::<u64>::empty());
    while i < member.roles.len()
        invariant
            i <= member.roles.len(),
            deref_role(hoisted) == highest_role(guild.roles@, member.roles@.take(i as int), true),
            deref_role(highest) == highest_role(guild.roles@, member.roles@.take(i as int), false),
        decreases member.roles.len() - i,
    {
        assert(member.roles@.take(i as int + 1).drop_last() =~= member.roles@.take(i as int));
        if let Some(role) = guild.role(member.roles[i]) {
            if role.hoist {
                hoisted = higher(hoisted, role);
            }
            highest = higher(highest, role);
        }
        i = i + 1;
    }
    assert(member.roles@.take(i as int) =~= member.roles@);
    match (hoisted, highest) {
        (Some(h), Some(top)) => Some((h, top)),
        _ => None,
    }
}

/// Where a participant is listed.
pub enum Placement {
    /// At the top level, under no group.
    Flat,
    /// Under the group of the given name, which is shown in the given colour.
    Group { name: String, color: GroupColor },
}

pub enum PlacementView {
    Flat,
    Group { name: Seq<char>, color: GroupColor },
}

impl View for Placement {
    type V = PlacementView;

    open spec fn view(&self) -> PlacementView {
        match self {
            Placement::Flat => PlacementView::Flat,
            Placement::Group { name, color } => PlacementView::Group { name: name@, color: *color },
        }
    }
}

/// The name of a role's group: a sort key, a bar and the role's name. The
/// key is 99999 less the role's position, so that a role of higher position
/// gets the lesser key.
pub open spec fn spec_role_group_name(role: Role) -> Seq<char> {
    signed_decimal(99999 - role.position) + "|"@ + role.name@
}

pub fn role_group_name(role: &Role) -> (name: String)
    ensures
        name@ == spec_role_group_name(*role),
{
    let key: i128 = 99999 - (role.position as i128);
    let mut name = signed_to_string(key);
    name.append("|");
    name.append(role.name.as_str());
    name
}

/// Where a participant is listed, in order of priority: an automated account
/// among the bots; one who is not online, when presence is tracked, among
/// the offline; one who holds a hoisted role under the highest such role, in
/// the colour of their highest role of all; anyone else among the online when
/// presence is tracked, and under no group when it is not.
pub open spec fn spec_placement(
    cache: Cache,
    member: Member,
    online: bool,
    use_presence: bool,
) -> PlacementView {
    if member.user.bot {
        PlacementView::Group { name: BOT_GROUP_NAME@, color: GroupColor::Gray }
    } else if !online && use_presence {
        PlacementView::Group { name: OFFLINE_GROUP_NAME@, color: GroupColor::Grey }
    } else {
        match spec_find_highest_roles(cache, member) {
            Some((hoisted, highest)) => PlacementView::Group {
                name: spec_role_group_name(hoisted),
                color: GroupColor::Role(highest.colour),
            },
            None => if use_presence {
                PlacementView::Group {
                    name: if online {
                        ONLINE_GROUP_NAME@
                    } else {
                        OFFLINE_GROUP_NAME@
                    },
                    color: GroupColor::Grey,
                }
            } else {
                PlacementView::Flat
            },
        }
    }
}

pub fn placement(cache: &Cache, member: &Member, online: bool, use_presence: bool) -> (p: Placement)
    ensures
        p@ == spec_placement(*cache, *member, online, use_presence),
{
    if member.user.bot {
        Placement::Group { name: owned(BOT_GROUP_NAME), color: GroupColor::Gray }
    } else if !online && use_presence {
        Placement::Group { name: owned(OFFLINE_GROUP_NAME), color: GroupColor::Grey }
    } else {
        match find_highest_roles(cache, member) {
            Some((hoisted, highest)) => Placement::Group {
                name: role_group_name(hoisted),
                color: GroupColor::Role(highest.colour),
            },
            None => if use_presence {
                Placement::Group {
                    name: if online {
                        owned(ONLINE_GROUP_NAME)
                    } else {
                        owned(OFFLINE_GROUP_NAME)
                    },
                    color: GroupColor::Grey,
                }
            } else {
                Placement::Flat
            },
        }
    }
}

/// The sign that marks a guild's owner.
pub const CROWN: &'static str = "\u{265b}";

/// Whether a member is shown with the owner's crown: only the guild's owner,
/// and only where the crown is in use.
pub open spec fn spec_wears_crown(guild: Guild, member: Member, guild_has_crown: bool) -> bool {
    guild_has_crown && guild.owner_id == member.user.id
}

/// The name a member is listed under in a group: the display name, followed
/// for a crowned owner by a space, the crown's colour code and the crown.
pub open spec fn spec_nicklist_name(
    guild: Guild,
    member: Member,
    guild_has_crown: bool,
    crown_color: Seq<char>,
) -> Seq<char> {
    if spec_wears_crown(guild, member, guild_has_crown) {
        spec_display_name(member) + " "@ + crown_color + CROWN@
    } else {
        spec_display_name(member)
    }
}

pub fn nicklist_name(
    guild: &Guild,
    member: &Member,
    guild_has_crown: bool,
    crown_color: &str,
) -> (name:
    String)
    ensures
        name@ == spec_nicklist_name(*guild, *member, guild_has_crown, crown_color@),
{
    let mut name = member.display_name();
    if guild_has_crown && guild.owner_id == member.user.id {
        name.append(" ");
        name.append(crown_color);
        name.append(CROWN);
    }
    name
}

/// Whether a member takes part in a channel: they may read its messages and
/// its history.
pub open spec fn spec_is_participant(guild: Guild, channel_id: u64, member: Member) -> bool {
    let bits = find_permissions(guild.permissions@, channel_id, member.user.id);
    spec_read_message_history(bits) && spec_read_messages(bits)
}

/// A view's nicklist after a member of the guild was considered for it: one
/// who does not take part in the channel is left out; anyone else is listed
/// where `spec_placement` puts them, the group being added if it is missing.
pub open spec fn spec_add_member_to_nicklist(
    b: BufferView,
    cache: Cache,
    channel_id: u64,
    guild: Guild,
    member: Member,
    use_presence: bool,
    guild_has_crown: bool,
    crown_color: Seq<char>,
) -> BufferView {
    let online = use_presence && spec_user_online(cache, member.user.id);
    if !spec_is_participant(guild, channel_id, member) {
        b
    } else {
        match spec_placement(cache, member, online, use_presence) {
            PlacementView::Flat => b.add_nick(spec_display_name(member), None, None),
            PlacementView::Group { name, color } => b.add_group(name, color, true).add_nick(
                spec_nicklist_name(guild, member, guild_has_crown, crown_color),
                Some(name),
                None,
            ),
        }
    }
}

/// Lists a member of the guild in a channel's view, if they take part in the
/// channel.
pub fn add_member_to_nicklist(
    buffer: &mut Buffer,
    cache: &Cache,
    channel_id: u64,
    guild: &Guild,
    member: &Member,
    use_presence: bool,
    guild_has_crown: bool,
    crown_color: &str,
)
    requires
        old(buffer).wf(),
    ensures
        final(buffer)@ == spec_add_member_to_nicklist(
            old(buffer)@,
            *cache,
            channel_id,
            *guild,
            *member,
            use_presence,
            guild_has_crown,
            crown_color@,
        ),
        final(buffer).wf(),
{
    let online = if use_presence {
        user_online(cache, member.user.id)
    } else {
        false
    };
    let bits = guild.user_permissions_in(channel_id, member.user.id);
    if !read_message_history(bits) || !read_messages(bits) {
        return ;
    }
    match placement(cache, member, online, use_presence) {
        Placement::Flat => {
            let name = member.display_name();
            buffer.add_nick(name.as_str(), None, None);
        },
        Placement::Group { name, color } => {
            if !buffer.search_nicklist_group(name.as_str()) {
                buffer.add_group(name.as_str(), color, true);
            }
            let listed = nicklist_name(guild, member, guild_has_crown, crown_color);
            buffer.add_nick(listed.as_str(), Some(name.as_str()), None);
        },
    }
}

/// A view's nicklist after some members were considered for it, one after
/// the other.
pub open spec fn spec_add_members(
    b: BufferView,
    cache: Cache,
    channel_id: u64,
    guild: Guild,
    members: Seq<Member>,
    use_presence: bool,
    guild_has_crown: bool,
    crown_color: Seq<char>,
) -> BufferView
    decreases members.len(),
{
    if members.len() == 0 {
        b
    } else {
        spec_add_member_to_nicklist(
            spec_add_members(
                b,
                cache,
                channel_id,
                guild,
                members.drop_last(),
                use_presence,
                guild_has_crown,
                crown_color,
            ),
            cache,
            channel_id,
            guild,
            members.last(),
            use_presence,
            guild_has_crown,
            crown_color,
        )
    }
}

/// A guild channel's view after its nicklist was asked for: unchanged when
/// the nicklist was loaded before or the view stands for no guild channel;
/// else flagged as loaded, with the nicklist switched on and, if the guild is
/// cached, every member of it considered in turn.
pub open spec fn spec_load_nicks(b: BufferView, cache: Cache, settings: Settings) -> BufferView {
    if b.nicks_loaded {
        b
    } else {
        match (b.guild_id, b.channel_id) {
            (Some(guild_id), Some(channel_id)) => {
                let flagged = b.set_nicks_loaded().enable_nicklist();
                match find_guild(cache.guilds@, guild_id) {
                    Some(guild) => spec_add_members(
                        flagged,
                        cache,
                        channel_id,
                        guild,
                        guild.members@,
                        settings.use_presence,
                        spec_guild_has_crown(guild),
                        settings.crown_color@,
                    ),
                    None => flagged,
                }
            },
            _ => b,
        }
    }
}

/// Loads the nicklist of a guild channel's view, once.
pub fn load_nicks(buffer: &mut Buffer, cache: &Cache, settings: &Settings)
    requires
        old(buffer).wf(),
    ensures
        final(buffer)@ == spec_load_nicks(old(buffer)@, *cache, *settings),
        old(buffer)@.nicks_loaded ==> final(buffer)@ == old(buffer)@,
        final(buffer).wf(),
{
    if buffer.nicks_loaded() {
        return ;
    }
    let guild_id = match buffer.guild_id() {
        Some(id) => id,
        None => {
            return ;
        },
    };
    let channel_id = match buffer.channel_id() {
        Some(id) => id,
        None => {
            return ;
        },
    };
    buffer.set_nicks_loaded();
    buffer.enable_nicklist();
    let guild = match cache.guild(guild_id) {
        Some(guild) => guild,
        None => {
            return ;
        },
    };
    let has_crown = guild_has_crown(guild);
    let ghost flagged = buffer@;
    let mut i: usize = 0;
    assert(guild.members@.take(0) =~= Seq::<Member>::empty());
    while i < guild.members.len()
        invariant
            i <= guild.members.len(),
            buffer.wf(),
            buffer@ == spec_add_members(
                flagged,
                *cache,
                channel_id,
                *guild,
                guild.members@.take(i as int),
                settings.use_presence,
                has_crown,
                settings.crown_color@,
            ),
        decreases guild.members.len() - i,
    {
        assert(guild.members@.take(i as int + 1).drop_last() =~= guild.members@.take(i as int));
        add_member_to_nicklist(
            buffer,
            cache,
            channel_id,
            guild,
            &guild.members[i],
            settings.use_presence,
            has_crown,
            settings.crown_color.as_str(),
        );
        i = i + 1;
    }
    assert(guild.members@.take(i as int) =~= guild.members@);
}

/// The registry after a member's new name was brought to one channel's
/// view: unchanged when the channel has no view or the view does not list
/// the old name; else the old entry is removed and the member is considered
/// anew, without regard to presence, if the guild is cached.
pub open spec fn spec_rename_in_channel(
    m: ManagerView,
    cache: Cache,
    channel_id: u64,
    old_nick: Seq<char>,
    member: Member,
    crown_color: Seq<char>,
) -> ManagerView {
    match m.position(channel_key(Some(member.guild_id), channel_id)) {
        Some(at) => {
            let b = m.buffers[at];
            if index_of(b.nick_names(), old_nick) is None {
                m
            } else {
                let removed = b.remove_nick(old_nick);
                m.put(
                    at,
                    match find_guild(cache.guilds@, member.guild_id) {
                        Some(guild) => spec_add_member_to_nicklist(
                            removed,
                            cache,
                            channel_id,
                            guild,
                            member,
                            false,
                            spec_guild_has_crown(guild),
                            crown_color,
                        ),
                        None => removed,
                    },
                )
            }
        },
        None => m,
    }
}

/// The registry after a member's new name was brought to the views of some
/// channels, one after the other.
pub open spec fn spec_rename_in_channels(
    m: ManagerView,
    cache: Cache,
    channel_ids: Seq<u64>,
    old_nick: Seq<char>,
    member: Member,
    crown_color: Seq<char>,
) -> ManagerView
    decreases channel_ids.len(),
{
    if channel_ids.len() == 0 {
        m
    } else {
        spec_rename_in_channel(
            spec_rename_in_channels(
                m,
                cache,
                channel_ids.drop_last(),
                old_nick,
                member,
                crown_color,
            ),
            cache,
            channel_ids.last(),
            old_nick,
            member,
            crown_color,
        )
    }
}

/// The name to take out of the nicklists when a member of a guild changed:
/// the name the member was shown under before, if the member as it was before
/// is known and is shown under another name now. Otherwise no rename is due.
pub open spec fn spec_rename_due(old: Option<Member>, new: Member) -> Option<Seq<char>> {
    match old {
        Some(before) => if spec_display_name(before) == spec_display_name(new) {
            None
        } else {
            Some(spec_display_name(before))
        },
        None => None,
    }
}

/// Says whether a change of a member calls for a rename in the nicklists,
/// and if so which name is to be taken out. Nothing needs to be fetched, and
/// nothing is to be done, where no rename is due.
pub fn rename_due(previous: &Option<Member>, current: &Member) -> (old_nick: Option<String>)
    ensures
        match old_nick {
            Some(name) => spec_rename_due(*previous, *current) == Some(name@),
            None => spec_rename_due(*previous, *current) is None,
        },
        *previous is None ==> old_nick is None,
{
    let old_nick = match previous {
        Some(before) => before.display_name(),
        None => {
            return None;
        },
    };
    let new_nick = current.display_name();
    if crate::text::same_text(&old_nick, &new_nick) {
        None
    } else {
        Some(old_nick)
    }
}

/// The registry after a member of a guild changed: nothing happens where no
/// rename is due; else the new name is brought to the view of each of the
/// guild's channels.
pub open spec fn spec_update_member_nick(
    m: ManagerView,
    cache: Cache,
    channel_ids: Seq<u64>,
    old: Option<Member>,
    new: Member,
    crown_color: Seq<char>,
) -> ManagerView {
    match spec_rename_due(old, new) {
        Some(old_nick) => spec_rename_in_channels(m, cache, channel_ids, old_nick, new, crown_color),
        None => m,
    }
}

fn rename_in_channel(
    manager: &mut BufferManager,
    cache: &Cache,
    channel_id: u64,
    old_nick: &String,
    member: &Member,
    crown_color: &str,
)
    requires
        old(manager).wf(),
    ensures
        final(manager)@ == spec_rename_in_channel(
            old(manager)@,
            *cache,
            channel_id,
            old_nick@,
            *member,
            crown_color@,
        ),
        final(manager).wf(),
{
    let key = buffer_id_for_channel(Some(member.guild_id), channel_id);
    let at = match manager.find(key.as_str()) {
        Some(at) => at,
        None => {
            return ;
        },
    };
    let ghost before = manager@;
    let buffer = manager.buffer_mut(at);
    if buffer.remove_nick(old_nick.as_str()) {
        if let Some(guild) = cache.guild(member.guild_id) {
            add_member_to_nicklist(
                buffer,
                cache,
                channel_id,
                guild,
                member,
                false,
                guild_has_crown(guild),
                crown_color,
            );
        }
        proof {
            lemma_put_keeps_wf(before, at as int, buffer@);
        }
    } else {
        assert(buffer@ == before.buffers[at as int]);
        assert(before.put(at as int, buffer@).buffers =~= before.buffers);
    }
}

/// Brings a member's changed name to the nicklists of the guild's channels.
/// `channel_ids` are the guild's channels as the remote service lists them.
pub fn update_member_nick(
    manager: &mut BufferManager,
    cache: &Cache,
    channel_ids: &Vec<u64>,
    previous: &Option<Member>,
    current: &Member,
    crown_color: &str,
)
    requires
        old(manager).wf(),
    ensures
        final(manager)@ == spec_update_member_nick(
            old(manager)@,
            *cache,
            channel_ids@,
            *previous,
            *current,
            crown_color@,
        ),
        *previous is None ==> final(manager)@ == old(manager)@,
        final(manager).wf(),
{
    let old_nick = match rename_due(previous, current) {
        Some(name) => name,
        None => {
            return ;
        },
    };
    let mut i: usize = 0;
    assert(channel_ids@.take(0) =~= Seq::<u64>::empty());
    while i < channel_ids.len()
        invariant
            i <= channel_ids.len(),
            manager.wf(),
            manager@ == spec_rename_in_channels(
                old(manager)@,
                *cache,
                channel_ids@.take(i as int),
                old_nick@,
                *current,
                crown_color@,
            ),
        decreases channel_ids.len() - i,
    {
        assert(channel_ids@.take(i as int + 1).drop_last() =~= channel_ids@.take(i as int));
        rename_in_channel(manager, cache, channel_ids[i], &old_nick, current, crown_color);
        i = i + 1;
    }
    assert(channel_ids@.take(i as int) =~= channel_ids@);
}

/// The nick the user goes by in a guild: an at sign and the name their
/// member entry is shown under, or their user name where they have none.
pub open spec fn spec_own_nick(cache: Cache, member: Option<Member>) -> Seq<char> {
    match member {
        Some(me) => "@"@ + spec_display_name(me),
        None => "@"@ + cache.user.name@,
    }
}

pub open spec fn deref_member(member: Option<&Member>) -> Option<Member> {
    match member {
        Some(me) => Some(*me),
        None => None,
    }
}

pub fn own_nick(cache: &Cache, member: Option<&Member>) -> (nick: String)
    ensures
        nick@ == spec_own_nick(*cache, deref_member(member)),
{
    let mut nick = owned("@");
    match member {
        Some(me) => {
            let name = me.display_name();
            nick.append(name.as_str());
        },
        None => {
            nick.append(cache.user.name.as_str());
        },
    }
    nick
}

/// The registry after the user's nick was written to the views, if any, of
/// some channels of a guild.
pub open spec fn spec_set_nick_in_channels(
    m: ManagerView,
    guild_id: u64,
    channels: Seq<crate::model::GuildChannel>,
    nick: Seq<char>,
) -> ManagerView
    decreases channels.len(),
{
    if channels.len() == 0 {
        m
    } else {
        let before = spec_set_nick_in_channels(m, guild_id, channels.drop_last(), nick);
        match before.position(channel_key(Some(guild_id), channels.last().id)) {
            Some(at) => before.put(at, before.buffers[at].set_localvar("nick"@, nick)),
            None => before,
        }
    }
}

/// The registry after the user's nick was refreshed for one guild; a guild
/// whose channels could not be fetched is passed over.
pub open spec fn spec_update_nick_in_guild(
    m: ManagerView,
    cache: Cache,
    guild: GuildListing,
) -> ManagerView {
    match guild.channels {
        Some(channels) => spec_set_nick_in_channels(
            m,
            guild.id,
            channels@,
            spec_own_nick(cache, guild.member),
        ),
        None => m,
    }
}

/// The registry after the user's nick was refreshed for some guilds, one
/// after the other.
pub open spec fn spec_update_nick(
    m: ManagerView,
    cache: Cache,
    guilds: Seq<GuildListing>,
) -> ManagerView
    decreases guilds.len(),
{
    if guilds.len() == 0 {
        m
    } else {
        spec_update_nick_in_guild(spec_update_nick(m, cache, guilds.drop_last()), cache, guilds.last())
    }
}

fn update_nick_in_guild(manager: &mut BufferManager, cache: &Cache, guild: &GuildListing)
    requires
        old(manager).wf(),
    ensures
        final(manager)@ == spec_update_nick_in_guild(old(manager)@, *cache, *guild),
        final(manager).wf(),
{
    let channels = match &guild.channels {
        Some(channels) => channels,
        None => {
            return ;
        },
    };
    let nick = own_nick(cache, guild.member.as_ref());
    let mut i: usize = 0;
    assert(channels@.take(0) =~= Seq::<crate::model::GuildChannel>::empty());
    while i < channels.len()
        invariant
            i <= channels.len(),
            manager.wf(),
            manager@ == spec_set_nick_in_channels(
                old(manager)@,
                guild.id,
                channels@.take(i as int),
                nick@,
            ),
        decreases channels.len() - i,
    {
        assert(channels@.take(i as int + 1).drop_last() =~= channels@.take(i as int));
        let key = buffer_id_for_channel(Some(guild.id), channels[i].id);
        if let Some(at) = manager.find(key.as_str()) {
            let ghost before = manager@;
            let buffer = manager.buffer_mut(at);
            buffer.set_localvar("nick", nick.as_str());
            proof {
                lemma_put_keeps_wf(before, at as int, buffer@);
            }
        }
        i = i + 1;
    }
    assert(channels@.take(i as int) =~= channels@);
}

/// Writes the nick the user goes by in each guild to the views of the
/// guild's channels.
pub fn update_nick(manager: &mut BufferManager, cache: &Cache, guilds: &Vec<GuildListing>)
    requires
        old(manager).wf(),
    ensures
        final(manager)@ == spec_update_nick(old(manager)@, *cache, guilds@),
        final(manager).wf(),
{
    let mut i: usize = 0;
    assert(guilds@.take(0) =~= Seq::<GuildListing>::empty());
    while i < guilds.len()
        invariant
            i <= guilds.len(),
            manager.wf(),
            manager@ == spec_update_nick(old(manager)@, *cache, guilds@.take(i as int)),
        decreases guilds.len() - i,
    {
        assert(guilds@.take(i as int + 1).drop_last() =~= guilds@.take(i as int));
        update_nick_in_guild(manager, cache, &guilds[i]);
        i = i + 1;
    }
    assert(guilds@.take(i as int) =~= guilds@);
}

} // verus!
