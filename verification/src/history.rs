//! Loading a view's past messages: what is asked of the remote service, and
//! how the page that comes back is put into the view and squared with the
//! read cursor.

use crate::buffer::{Buffer, BufferView};
use crate::keyed::{index_of, lemma_index_of};
use crate::keys::{buffer_id_for_pins, pins_key};
use crate::manager::{lemma_put_keeps_wf, BufferManager, ManagerView};
use crate::model::{find_guild, find_member, spec_cached_last_message, Cache, Message};
use crate::unread::{read_cursor, spec_read_cursor};
use vstd::prelude::*;

verus! {

/// A page of messages to fetch for a view.
#[derive(Clone, Debug, PartialEq, Eq)]
pub struct HistoryRequest {
    /// The key of the view the page is for.
    pub buffer_name: String,
    pub channel_id: u64,
    /// The guild the channel belongs to, if it belongs to one.
    pub guild_id: Option<u64>,
    /// How many messages to fetch at most, the most recent first.
    pub limit: u64,
}

/// The pinned messages to fetch for a view.
#[derive(Clone, Debug, PartialEq, Eq)]
pub struct PinRequest {
    /// The key of the view the messages are for.
    pub buffer_name: String,
    pub channel_id: u64,
}

/// A request to the remote service for the members of a guild with the given
/// user ids, tagged so that the answer can be told apart.
#[derive(Clone, Debug, PartialEq, Eq)]
pub struct MemberLookup {
    /// The operation code of the request.
    pub op: u64,
    pub guild_id: u64,
    pub user_ids: Vec<u64>,
    pub nonce: u64,
}

/// What follows from a page of history that was put into a view.
#[derive(Clone, Debug, PartialEq, Eq)]
pub struct HistoryOutcome {
    /// Whether whoever waits for the history is to be told that it is there.
    pub completed: bool,
    /// The members to ask the remote service for, if any are to be asked for.
    pub lookup: Option<MemberLookup>,
}

/// The operation code by which members of a guild are requested.
pub const GET_GUILD_MEMBERS: u64 = 8;

/// Calls serenity's `OpCode::num` on `OpCode::GetGuildMembers`. The contract
/// claims that the number is 8.
#[verifier::external_body]
fn get_guild_members_opcode() -> (op: u64)
    ensures
        op == GET_GUILD_MEMBERS,
{
    serenity::constants::OpCode::GetGuildMembers.num()
}

/// The count of messages to fetch as the remote service is given it: the
/// configured count, reinterpreted as unsigned.
pub open spec fn spec_fetch_limit(fetch_count: i32) -> u64 {
    if fetch_count >= 0 {
        fetch_count as u64
    } else {
        (fetch_count + 0x1_0000_0000_0000_0000) as u64
    }
}

pub fn fetch_limit(fetch_count: i32) -> (limit: u64)
    ensures
        limit == spec_fetch_limit(fetch_count),
{
    if fetch_count >= 0 {
        fetch_count as u64
    } else {
        u64::MAX - ((-(fetch_count as i64) - 1) as u64)
    }
}

/// A view after its history was asked for: untouched when it stands for no
/// channel, else emptied and flagged as loaded.
pub open spec fn spec_load_history(b: BufferView) -> BufferView {
    match b.channel_id {
        Some(_) => b.clear().set_history_loaded(),
        None => b,
    }
}

/// Starts loading a view's history: empties the view, flags the history as
/// loaded so that it is not asked for again, and says what to fetch. A view
/// that stands for no channel is left alone and nothing is to be fetched.
pub fn load_history(buffer: &mut Buffer, fetch_count: i32) -> (request: Option<HistoryRequest>)
    ensures
        final(buffer)@ == spec_load_history(old(buffer)@),
        old(buffer)@.history_loaded ==> final(buffer)@.history_loaded,
        match request {
            Some(r) => old(buffer)@.channel_id == Some(r.channel_id) && r.guild_id == old(
                buffer,
            )@.guild_id && r.buffer_name@ == old(buffer)@.name && r.limit == spec_fetch_limit(
                fetch_count,
            ),
            None => old(buffer)@.channel_id is None,
        },
{
    let channel_id = match buffer.channel_id() {
        Some(id) => id,
        None => {
            return None;
        },
    };
    let guild_id = buffer.guild_id();
    buffer.clear();
    buffer.set_history_loaded();
    Some(
        HistoryRequest {
            buffer_name: buffer.name().clone(),
            channel_id,
            guild_id,
            limit: fetch_limit(fetch_count),
        },
    )
}

/// What makes a view ask for its history.
#[derive(Clone, Copy, Debug, PartialEq, Eq, Structural)]
pub enum HistoryTrigger {
    /// The view came to be shown.
    Displayed,
    /// The user asked for the history anew.
    Refresh,
    /// The connection was taken up again.
    Resume,
}

/// Whether a trigger makes a view load its history: being shown does so only
/// as long as the history was never loaded; a refresh or a resume always
/// does.
pub open spec fn spec_wants_history(b: BufferView, trigger: HistoryTrigger) -> bool {
    match trigger {
        HistoryTrigger::Displayed => !b.history_loaded,
        HistoryTrigger::Refresh | HistoryTrigger::Resume => true,
    }
}

/// Loads a view's history if the trigger calls for it: a view that is merely
/// shown again after its history was loaded is left alone and nothing is to
/// be fetched.
pub fn trigger_history(buffer: &mut Buffer, trigger: HistoryTrigger, fetch_count: i32) -> (request:
    Option<HistoryRequest>)
    ensures
        final(buffer)@ == if spec_wants_history(old(buffer)@, trigger) {
            spec_load_history(old(buffer)@)
        } else {
            old(buffer)@
        },
        old(buffer)@.history_loaded ==> final(buffer)@.history_loaded,
        match request {
            Some(r) => spec_wants_history(old(buffer)@, trigger) && old(buffer)@.channel_id == Some(
                r.channel_id,
            ) && r.guild_id == old(buffer)@.guild_id && r.buffer_name@ == old(buffer)@.name
                && r.limit == spec_fetch_limit(fetch_count),
            None => !spec_wants_history(old(buffer)@, trigger) || old(buffer)@.channel_id is None,
        },
{
    let wanted = match trigger {
        HistoryTrigger::Displayed => !buffer.history_loaded(),
        HistoryTrigger::Refresh | HistoryTrigger::Resume => true,
    };
    if wanted {
        load_history(buffer, fetch_count)
    } else {
        None
    }
}

/// The ids of a page's messages, oldest first; the page itself comes most
/// recent first.
pub open spec fn chronological(page: Seq<Message>) -> Seq<u64> {
    Seq::new(page.len(), |i: int| page[page.len() - 1 - i].id)
}

/// A view with some messages added at the end.
pub open spec fn spec_add_all(b: BufferView, ids: Seq<u64>) -> BufferView {
    BufferView { messages: b.messages + ids, ..b }
}

/// Whether the read cursor has not been met among the first `n` messages.
pub open spec fn backlog_open(ids: Seq<u64>, cursor: u64, n: int) -> bool {
    !ids.take(n).contains(cursor)
}

/// One message put into a view while a page is gone through: the message is
/// added, and as long as the read cursor has not been passed the view is
/// marked read and its hotlist entry cleared.
pub open spec fn spec_backfill_step(b: BufferView, id: u64, backlog: bool) -> BufferView {
    let added = b.add_message(id);
    if backlog {
        added.mark_read().clear_hotlist()
    } else {
        added
    }
}

/// A view after the first `n` messages of a page, oldest first, were put
/// into it one by one, the page holding the read cursor.
pub open spec fn spec_backfill(b: BufferView, ids: Seq<u64>, cursor: u64, n: nat) -> BufferView
    decreases n,
{
    if n == 0 {
        b
    } else {
        spec_backfill_step(
            spec_backfill(b, ids, cursor, (n - 1) as nat),
            ids[n - 1],
            backlog_open(ids, cursor, n - 1),
        )
    }
}

/// A view after a page of history was put into it. Without a read cursor
/// nothing is marked: the page is added and that is all. Where the page holds
/// the message the read cursor stands at, everything up to that message is
/// read and what follows it is not. Where it does not, the whole page is read
/// if the remote service has the channel as fully read, and nothing of it is
/// marked otherwise.
pub open spec fn spec_reconcile(
    b: BufferView,
    ids: Seq<u64>,
    cursor: Option<u64>,
    fully_read: bool,
) -> BufferView {
    match cursor {
        Some(at) => if ids.contains(at) {
            spec_backfill(b, ids, at, ids.len())
        } else if fully_read {
            spec_add_all(b, ids).mark_read().clear_hotlist()
        } else {
            spec_add_all(b, ids)
        },
        None => spec_add_all(b, ids),
    }
}

/// Going through a page that holds the read cursor leaves, after any number
/// of messages, all of them in the view, the read marker behind the last
/// message at or before the cursor, and the hotlist entry cleared once the
/// first message is in. Messages after the cursor move neither the marker
/// nor the hotlist entry.
pub proof fn lemma_backfill(b: BufferView, ids: Seq<u64>, cursor: u64, n: nat)
    requires
        n <= ids.len(),
        index_of(ids, cursor) is Some,
    ensures
        spec_backfill(b, ids, cursor, n) == (BufferView {
            messages: b.messages + ids.take(n as int),
            read_marker: if n == 0 {
                b.read_marker
            } else if n <= index_of(ids, cursor).unwrap() + 1 {
                b.messages.len() + n
            } else {
                (b.messages.len() + index_of(ids, cursor).unwrap() + 1) as nat
            },
            hotlist: if n == 0 {
                b.hotlist
            } else {
                None
            },
            ..b
        }),
    decreases n,
{
    lemma_index_of(ids, cursor);
    let at = index_of(ids, cursor).unwrap();
    if n == 0 {
        assert(b.messages + ids.take(0) =~= b.messages);
    } else {
        lemma_backfill(b, ids, cursor, (n - 1) as nat);
        assert((b.messages + ids.take(n - 1)).push(ids[n - 1]) =~= b.messages + ids.take(n as int));
        if n - 1 <= at {
            let front = ids.take(n - 1);
            assert forall|j: int| 0 <= j < front.len() implies #[trigger] front[j] != cursor by {
                assert(front[j] == ids[j]);
            }
        } else {
            assert(ids.take(n - 1)[at] == cursor);
        }
    }
}

fn page_holds(page: &Vec<Message>, id: u64) -> (r: bool)
    ensures
        r == chronological(page@).contains(id),
{
    let ghost ids = chronological(page@);
    let mut i: usize = 0;
    while i < page.len()
        invariant
            i <= page.len(),
            ids == chronological(page@),
            forall|j: int| 0 <= j < i ==> page@[j].id != id,
        decreases page.len() - i,
    {
        if page[i].id == id {
            assert(ids[page.len() - 1 - i] == id);
            return true;
        }
        i = i + 1;
    }
    assert forall|k: int| 0 <= k < ids.len() implies ids[k] != id by {
        assert(ids[k] == page@[page.len() - 1 - k].id);
    }
    false
}

/// Puts a page of history into a view and squares the view with the read
/// cursor. The page comes most recent first and is put in oldest first.
pub fn reconcile(buffer: &mut Buffer, page: &Vec<Message>, cursor: Option<u64>, fully_read: bool)
    requires
        old(buffer).wf(),
    ensures
        final(buffer)@ == spec_reconcile(old(buffer)@, chronological(page@), cursor, fully_read),
        final(buffer)@.messages == old(buffer)@.messages + chronological(page@),
        final(buffer).wf(),
{
    let ghost ids = chronological(page@);
    let ghost start = buffer@;
    let in_page = match cursor {
        Some(c) => page_holds(page, c),
        None => false,
    };
    let n = page.len();
    let mut i: usize = 0;
    if in_page {
        let c = cursor.unwrap();
        let mut backlog = true;
        proof {
            assert(ids.take(0) =~= Seq::<u64>::empty());
            assert(start.messages + ids.take(0) =~= start.messages);
        }
        while i < n
            invariant
                i <= n,
                n == page.len(),
                ids == chronological(page@),
                buffer.wf(),
                buffer@ == spec_backfill(start, ids, c, i as nat),
                buffer@.messages == start.messages + ids.take(i as int),
                backlog == backlog_open(ids, c, i as int),
            decreases n - i,
        {
            let msg = &page[n - 1 - i];
            assert(msg.id == ids[i as int]);
            buffer.add_message(msg.id);
            if backlog {
                buffer.mark_read();
                buffer.clear_hotlist();
            }
            proof {
                let next = ids.take(i as int + 1);
                assert(next.drop_last() =~= ids.take(i as int));
                assert(next.last() == ids[i as int]);
                assert((start.messages + ids.take(i as int)).push(ids[i as int]) =~= start.messages
                    + next);
                if ids.take(i as int).contains(c) {
                    let j = choose|j: int| 0 <= j < i && ids.take(i as int)[j] == c;
                    assert(next[j] == c);
                }
                if msg.id == c {
                    assert(next[i as int] == c);
                }
                if next.contains(c) {
                    let j = choose|j: int| 0 <= j < next.len() && next[j] == c;
                    if j < i {
                        assert(ids.take(i as int)[j] == c);
                    }
                }
            }
            if msg.id == c {
                backlog = false;
            }
            i = i + 1;
        }
        assert(ids.take(n as int) =~= ids);
    } else {
        proof {
            assert(ids.take(0) =~= Seq::<u64>::empty());
            assert(start.messages + ids.take(0) =~= start.messages);
        }
        while i < n
            invariant
                i <= n,
                n == page.len(),
                ids == chronological(page@),
                buffer@ == spec_add_all(start, ids.take(i as int)),
            decreases n - i,
        {
            let msg = &page[n - 1 - i];
            assert(msg.id == ids[i as int]);
            buffer.add_message(msg.id);
            assert((start.messages + ids.take(i as int)).push(ids[i as int]) =~= start.messages
                + ids.take(i as int + 1));
            i = i + 1;
        }
        assert(ids.take(n as int) =~= ids);
        if fully_read && cursor.is_some() {
            buffer.mark_read();
            buffer.clear_hotlist();
        }
    }
}

/// Whether an author is known: the guild is cached and lists them as a
/// member.
pub open spec fn spec_author_known(cache: Cache, guild_id: u64, author: u64) -> bool {
    match find_guild(cache.guilds@, guild_id) {
        Some(guild) => find_member(guild.members@, author) is Some,
        None => false,
    }
}

/// The authors of the first `n` messages of a page, oldest first, who are
/// not known in the guild: each once, in the order they first wrote.
pub open spec fn spec_unknown_authors(
    cache: Cache,
    guild_id: u64,
    page: Seq<Message>,
    n: nat,
) -> Seq<
    u64,
>
    decreases n,
{
    if n == 0 {
        Seq::empty()
    } else {
        let before = spec_unknown_authors(cache, guild_id, page, (n - 1) as nat);
        let author = page[page.len() - n].author_id;
        if spec_author_known(cache, guild_id, author) || before.contains(author) {
            before
        } else {
            before.push(author)
        }
    }
}

/// The authors asked for are exactly the unknown authors of the messages
/// gone through, and none is asked for twice.
pub proof fn lemma_unknown_authors(cache: Cache, guild_id: u64, page: Seq<Message>, n: nat)
    requires
        n <= page.len(),
    ensures
        forall|a: int, b: int|
            0 <= a < b < spec_unknown_authors(cache, guild_id, page, n).len()
                ==> spec_unknown_authors(cache, guild_id, page, n)[a] != spec_unknown_authors(
                cache,
                guild_id,
                page,
                n,
            )[b],
        forall|a: int|
            0 <= a < spec_unknown_authors(cache, guild_id, page, n).len() ==> !spec_author_known(
                cache,
                guild_id,
                #[trigger] spec_unknown_authors(cache, guild_id, page, n)[a],
            ) && exists|k: int|
                page.len() - n <= k < page.len() && #[trigger] page[k].author_id
                    == spec_unknown_authors(cache, guild_id, page, n)[a],
        forall|k: int|
            page.len() - n <= k < page.len() && !spec_author_known(
                cache,
                guild_id,
                #[trigger] page[k].author_id,
            ) ==> spec_unknown_authors(cache, guild_id, page, n).contains(page[k].author_id),
    decreases n,
{
    if n > 0 {
        lemma_unknown_authors(cache, guild_id, page, (n - 1) as nat);
        let before = spec_unknown_authors(cache, guild_id, page, (n - 1) as nat);
        let now = spec_unknown_authors(cache, guild_id, page, n);
        let author = page[page.len() - n].author_id;
        assert forall|a: int| 0 <= a < now.len() implies !spec_author_known(
            cache,
            guild_id,
            #[trigger] now[a],
        ) && exists|k: int|
            page.len() - n <= k < page.len() && #[trigger] page[k].author_id == now[a] by {
            if a < before.len() {
                assert(now[a] == before[a]);
                let k = choose|k: int|
                    page.len() - (n - 1) <= k < page.len() && #[trigger] page[k].author_id
                        == before[a];
                assert(page[k].author_id == now[a]);
            } else {
                assert(page[page.len() - n].author_id == now[a]);
            }
        }
        assert forall|k: int|
            page.len() - n <= k < page.len() && !spec_author_known(
                cache,
                guild_id,
                #[trigger] page[k].author_id,
            ) implies now.contains(page[k].author_id) by {
            if k == page.len() - n {
                if before.contains(author) {
                    let w = choose|w: int| 0 <= w < before.len() && before[w] == author;
                    assert(now[w] == author);
                } else {
                    assert(now[before.len() as int] == author);
                }
            } else {
                assert(before.contains(page[k].author_id));
                let w = choose|w: int| 0 <= w < before.len() && before[w] == page[k].author_id;
                assert(now[w] == page[k].author_id);
            }
        }
    }
}

fn holds_id(ids: &Vec<u64>, id: u64) -> (r: bool)
    ensures
        r == ids@.contains(id),
{
    let mut k: usize = 0;
    while k < ids.len()
        invariant
            k <= ids.len(),
            forall|i: int| 0 <= i < k ==> ids@[i] != id,
        decreases ids.len() - k,
    {
        if ids[k] == id {
            return true;
        }
        k = k + 1;
    }
    false
}

fn author_known(cache: &Cache, guild_id: u64, author: u64) -> (r: bool)
    ensures
        r == spec_author_known(*cache, guild_id, author),
{
    match cache.guild(guild_id) {
        Some(guild) => guild.member(author).is_some(),
        None => false,
    }
}

/// The authors of a page's messages who are not known in the guild.
pub fn unknown_authors(cache: &Cache, guild_id: u64, page: &Vec<Message>) -> (authors: Vec<u64>)
    ensures
        authors@ == spec_unknown_authors(*cache, guild_id, page@, page@.len()),
{
    let n = page.len();
    let mut authors: Vec<u64> = Vec::new();
    let mut i: usize = 0;
    while i < n
        invariant
            i <= n,
            n == page.len(),
            authors@ == spec_unknown_authors(*cache, guild_id, page@, i as nat),
        decreases n - i,
    {
        let author = page[n - 1 - i].author_id;
        if !author_known(cache, guild_id, author) && !holds_id(&authors, author) {
            authors.push(author);
        }
        i = i + 1;
    }
    authors
}

/// Whether the remote service has a channel as fully read: it holds a read
/// cursor for the channel, the channel is cached with a newest message, and
/// the cursor stands at that message. Without a read cursor nothing says that
/// the channel was read.
pub open spec fn spec_fully_read(cache: Cache, channel_id: u64) -> bool {
    match spec_read_cursor(cache, channel_id) {
        Some(cursor) => spec_cached_last_message(cache, channel_id) == Some(cursor),
        None => false,
    }
}

/// Whether the remote service has a channel as fully read.
pub fn fully_read(cache: &Cache, channel_id: u64) -> (read: bool)
    ensures
        read == spec_fully_read(*cache, channel_id),
{
    match read_cursor(cache, channel_id) {
        Some(cursor) => match cache.last_message(channel_id) {
            Some(last) => last == cursor,
            None => false,
        },
        None => false,
    }
}

/// The registry after a page of history came back: unchanged when the view
/// it was asked for is gone, else with the page put into that view.
pub open spec fn spec_complete_history(
    m: ManagerView,
    cache: Cache,
    request: HistoryRequest,
    page: Seq<Message>,
) -> ManagerView {
    match m.position(request.buffer_name@) {
        Some(at) => m.put(
            at,
            spec_reconcile(
                m.buffers[at],
                chronological(page),
                spec_read_cursor(cache, request.channel_id),
                spec_fully_read(cache, request.channel_id),
            ),
        ),
        None => m,
    }
}

/// The members to ask the remote service for after a page of history: for a
/// guild channel the authors not known in the guild, tagged with the
/// channel's id; for a conversation outside any guild nothing is asked.
pub open spec fn spec_member_lookup(
    cache: Cache,
    request: HistoryRequest,
    page: Seq<Message>,
) -> Option<
    (u64, Seq<u64>, u64),
> {
    match request.guild_id {
        Some(guild_id) => Some(
            (
                guild_id,
                spec_unknown_authors(cache, guild_id, page, page.len()),
                request.channel_id,
            ),
        ),
        None => None,
    }
}

/// Puts a fetched page of history into the view it was asked for, and says
/// what follows: whether the history is complete, and which members to ask
/// the remote service for. When the view is gone nothing happens at all.
pub fn complete_history(
    manager: &mut BufferManager,
    cache: &Cache,
    request: &HistoryRequest,
    page: &Vec<Message>,
) -> (outcome: HistoryOutcome)
    requires
        old(manager).wf(),
    ensures
        final(manager)@ == spec_complete_history(old(manager)@, *cache, *request, page@),
        final(manager).wf(),
        outcome.completed == old(manager)@.position(request.buffer_name@).is_some(),
        !outcome.completed ==> outcome.lookup is None,
        outcome.completed ==> match outcome.lookup {
            Some(lookup) => spec_member_lookup(*cache, *request, page@) == Some(
                (lookup.guild_id, lookup.user_ids@, lookup.nonce),
            ) && lookup.op == GET_GUILD_MEMBERS,
            None => spec_member_lookup(*cache, *request, page@) is None,
        },
{
    let at = match manager.find(request.buffer_name.as_str()) {
        Some(at) => at,
        None => {
            return HistoryOutcome { completed: false, lookup: None };
        },
    };
    let cursor = read_cursor(cache, request.channel_id);
    let fully_read = fully_read(cache, request.channel_id);
    let ghost before = manager@;
    let buffer = manager.buffer_mut(at);
    reconcile(buffer, page, cursor, fully_read);
    proof {
        lemma_reconcile_keeps_name(before.buffers[at as int], chronological(page@), cursor, fully_read);
        lemma_put_keeps_wf(before, at as int, buffer@);
    }
    let lookup = match request.guild_id {
        Some(guild_id) => Some(
            MemberLookup {
                op: get_guild_members_opcode(),
                guild_id,
                user_ids: unknown_authors(cache, guild_id, page),
                nonce: request.channel_id,
            },
        ),
        None => None,
    };
    HistoryOutcome { completed: true, lookup }
}

/// Putting a page into a view changes its lines, its read marker and its
/// hotlist entry, and nothing else.
pub proof fn lemma_reconcile_keeps_name(
    b: BufferView,
    ids: Seq<u64>,
    cursor: Option<u64>,
    fully_read: bool,
)
    ensures
        spec_reconcile(b, ids, cursor, fully_read) == (BufferView {
            messages: spec_reconcile(b, ids, cursor, fully_read).messages,
            read_marker: spec_reconcile(b, ids, cursor, fully_read).read_marker,
            hotlist: spec_reconcile(b, ids, cursor, fully_read).hotlist,
            ..b
        }),
{
    if cursor is Some && ids.contains(cursor.unwrap()) {
        let c = cursor.unwrap();
        lemma_index_of(ids, c);
        lemma_backfill(b, ids, c, ids.len());
    }
}

/// A view after its pinned messages were asked for: untouched when it is not
/// a view of pinned messages, else flagged as loaded and emptied.
pub open spec fn spec_load_pin_buffer_history(b: BufferView) -> BufferView {
    match b.pins_channel {
        Some(_) => b.set_history_loaded().clear(),
        None => b,
    }
}

/// Starts loading a channel's pinned messages into the view that lists them:
/// flags the view as loaded, empties it, and says what to fetch. Any other
/// view is left alone and nothing is to be fetched.
pub fn load_pin_buffer_history(buffer: &mut Buffer) -> (request: Option<PinRequest>)
    ensures
        final(buffer)@ == spec_load_pin_buffer_history(old(buffer)@),
        old(buffer)@.history_loaded ==> final(buffer)@.history_loaded,
        match request {
            Some(r) => old(buffer)@.pins_channel == Some(r.channel_id) && r.buffer_name@ == old(
                buffer,
            )@.name,
            None => old(buffer)@.pins_channel is None,
        },
{
    let channel_id = match buffer.pins_channel() {
        Some(id) => id,
        None => {
            return None;
        },
    };
    buffer.set_history_loaded();
    buffer.clear();
    Some(PinRequest { buffer_name: buffer.name().clone(), channel_id })
}

/// The registry after the pinned messages of the channel with the given id
/// were asked for: the view that lists them, if there is one, is flagged and
/// emptied.
pub open spec fn spec_load_pin_buffer_history_for_id(m: ManagerView, id: u64) -> ManagerView {
    match m.position(pins_key(id)) {
        Some(at) => m.put(at, spec_load_pin_buffer_history(m.buffers[at])),
        None => m,
    }
}

/// Starts loading the pinned messages of the channel with the given id, if
/// there is a view that lists them.
pub fn load_pin_buffer_history_for_id(manager: &mut BufferManager, id: u64) -> (request: Option<
    PinRequest,
>)
    requires
        old(manager).wf(),
    ensures
        final(manager)@ == spec_load_pin_buffer_history_for_id(old(manager)@, id),
        final(manager).wf(),
        match request {
            Some(r) => old(manager)@.get(pins_key(id)) matches Some(b) && b.pins_channel == Some(
                r.channel_id,
            ) && r.buffer_name@ == pins_key(id),
            None => old(manager)@.get(pins_key(id)) matches Some(b) ==> b.pins_channel is None,
        },
{
    let key = buffer_id_for_pins(id);
    let at = match manager.find(key.as_str()) {
        Some(at) => at,
        None => {
            return None;
        },
    };
    let ghost before = manager@;
    proof {
        lemma_index_of(before.names(), pins_key(id));
    }
    let buffer = manager.buffer_mut(at);
    let request = load_pin_buffer_history(buffer);
    proof {
        lemma_put_keeps_wf(before, at as int, buffer@);
    }
    request
}

/// The registry after a channel's pinned messages came back: unchanged when
/// the view they were asked for is gone, else with the messages added to that
/// view, oldest first.
pub open spec fn spec_complete_pin_history(
    m: ManagerView,
    request: PinRequest,
    pins: Seq<Message>,
) -> ManagerView {
    match m.position(request.buffer_name@) {
        Some(at) => m.put(at, spec_add_all(m.buffers[at], chronological(pins))),
        None => m,
    }
}

/// Puts the fetched pinned messages into the view they were asked for. The
/// messages come most recent first and are put in oldest first.
pub fn complete_pin_history(manager: &mut BufferManager, request: &PinRequest, pins: &Vec<Message>)
    requires
        old(manager).wf(),
    ensures
        final(manager)@ == spec_complete_pin_history(old(manager)@, *request, pins@),
        final(manager).wf(),
{
    let at = match manager.find(request.buffer_name.as_str()) {
        Some(at) => at,
        None => {
            return ;
        },
    };
    let ghost before = manager@;
    let buffer = manager.buffer_mut(at);
    reconcile(buffer, pins, None, false);
    proof {
        lemma_put_keeps_wf(before, at as int, buffer@);
    }
}

} // verus!
