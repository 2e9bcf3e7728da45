//! The order in which guilds and their channels are given views.

use crate::create::{
    create_buffer_from_channel, create_guild_buffer, spec_create_buffer_from_channel,
    spec_create_guild_buffer,
};
use crate::keyed::{index_of, lemma_index_of, lemma_index_of_step, shift};
use crate::manager::{BufferManager, ManagerView};
use crate::model::{spec_is_muted, Cache, GuildChannel, GuildListing, Ready};
use crate::nicklist::{own_nick, spec_own_nick};
use vstd::prelude::*;

verus! {

/// The ids of some listed guilds, in order.
pub open spec fn guild_ids(guilds: Seq<GuildListing>) -> Seq<u64> {
    guilds.map_values(|g: GuildListing| g.id)
}

/// The guilds that the arranged positions place, each named by where it
/// stands among `ids`: for each arranged id in turn, the first guild of that
/// id, unless it was placed already. An arranged id that no guild has places
/// nothing.
pub open spec fn positioned(positions: Seq<u64>, ids: Seq<u64>) -> Seq<int>
    decreases positions.len(),
{
    if positions.len() == 0 {
        Seq::empty()
    } else {
        let before = positioned(positions.drop_last(), ids);
        match index_of(ids, positions.last()) {
            Some(j) => if before.contains(j) {
                before
            } else {
                before.push(j)
            },
            None => before,
        }
    }
}

/// `order` with each of the first `n` guilds whose id is not arranged put in
/// front of it, one after the other.
pub open spec fn prepend_unpositioned(
    positions: Seq<u64>,
    ids: Seq<u64>,
    n: nat,
    order: Seq<int>,
) -> Seq<
    int,
>
    decreases n,
{
    if n == 0 {
        order
    } else {
        let before = prepend_unpositioned(positions, ids, (n - 1) as nat, order);
        if positions.contains(ids[n - 1]) {
            before
        } else {
            seq![n - 1] + before
        }
    }
}

/// The order in which guilds get their views: those the user arranged, in
/// the arranged order, and in front of them every guild that is not
/// arranged, the one listed last coming first. Where two listed guilds share
/// an id that is arranged, the first of them is placed and the other is left
/// out; where the id is not arranged, both are put in front.
pub open spec fn guild_order(positions: Seq<u64>, ids: Seq<u64>) -> Seq<int> {
    prepend_unpositioned(positions, ids, ids.len(), positioned(positions, ids))
}

/// Every place in the order of guilds names a guild.
pub proof fn lemma_positioned_in_range(positions: Seq<u64>, ids: Seq<u64>)
    ensures
        forall|k: int|
            0 <= k < positioned(positions, ids).len() ==> 0 <= #[trigger] positioned(
                positions,
                ids,
            )[k] < ids.len(),
        positioned(positions, ids).len() <= positions.len(),
    decreases positions.len(),
{
    if positions.len() > 0 {
        lemma_positioned_in_range(positions.drop_last(), ids);
        lemma_index_of(ids, positions.last());
    }
}

pub proof fn lemma_prepend_in_range(positions: Seq<u64>, ids: Seq<u64>, n: nat, order: Seq<int>)
    requires
        n <= ids.len(),
        forall|k: int| 0 <= k < order.len() ==> 0 <= #[trigger] order[k] < ids.len(),
    ensures
        forall|k: int|
            0 <= k < prepend_unpositioned(positions, ids, n, order).len() ==> 0
                <= #[trigger] prepend_unpositioned(positions, ids, n, order)[k] < ids.len(),
        prepend_unpositioned(positions, ids, n, order).len() <= order.len() + n,
    decreases n,
{
    if n > 0 {
        lemma_prepend_in_range(positions, ids, (n - 1) as nat, order);
    }
}

/// The guilds among the first `n` whose id is not arranged, the one listed
/// last coming first.
pub open spec fn unpositioned(positions: Seq<u64>, ids: Seq<u64>, n: nat) -> Seq<int>
    decreases n,
{
    if n == 0 {
        Seq::empty()
    } else if positions.contains(ids[n - 1]) {
        unpositioned(positions, ids, (n - 1) as nat)
    } else {
        seq![n - 1] + unpositioned(positions, ids, (n - 1) as nat)
    }
}

/// Putting the guilds that are not arranged in front of an order gives those
/// guilds, the one listed last first, followed by that order.
pub proof fn lemma_prepend_is_concat(positions: Seq<u64>, ids: Seq<u64>, n: nat, order: Seq<int>)
    ensures
        prepend_unpositioned(positions, ids, n, order) == unpositioned(positions, ids, n) + order,
    decreases n,
{
    if n == 0 {
        assert(Seq::<int>::empty() + order =~= order);
    } else {
        lemma_prepend_is_concat(positions, ids, (n - 1) as nat, order);
        assert(seq![n - 1] + (unpositioned(positions, ids, (n - 1) as nat) + order) =~= (seq![
            n - 1,
        ] + unpositioned(positions, ids, (n - 1) as nat)) + order);
    }
}

/// The guilds that are not arranged: each of them is there, none else is,
/// and they stand in descending order of where they are listed.
pub proof fn lemma_unpositioned(positions: Seq<u64>, ids: Seq<u64>, n: nat)
    requires
        n <= ids.len(),
    ensures
        forall|a: int|
            0 <= a < unpositioned(positions, ids, n).len() ==> 0 <= #[trigger] unpositioned(
                positions,
                ids,
                n,
            )[a] < n && !positions.contains(ids[unpositioned(positions, ids, n)[a]]),
        forall|a: int, b: int|
            0 <= a < b < unpositioned(positions, ids, n).len() ==> #[trigger] unpositioned(
                positions,
                ids,
                n,
            )[a] > #[trigger] unpositioned(positions, ids, n)[b],
        forall|j: int|
            0 <= j < n && !positions.contains(#[trigger] ids[j]) ==> unpositioned(
                positions,
                ids,
                n,
            ).contains(j),
    decreases n,
{
    if n > 0 {
        lemma_unpositioned(positions, ids, (n - 1) as nat);
        let before = unpositioned(positions, ids, (n - 1) as nat);
        let now = unpositioned(positions, ids, n);
        if !positions.contains(ids[n - 1]) {
            assert forall|a: int| 0 <= a < now.len() implies 0 <= #[trigger] now[a] < n
                && !positions.contains(ids[now[a]]) by {
                if a > 0 {
                    assert(now[a] == before[a - 1]);
                }
            }
            assert forall|a: int, b: int| 0 <= a < b < now.len() implies #[trigger] now[a]
                > #[trigger] now[b] by {
                assert(now[b] == before[b - 1]);
                if a > 0 {
                    assert(now[a] == before[a - 1]);
                }
            }
            assert forall|j: int| 0 <= j < n && !positions.contains(
                #[trigger] ids[j],
            ) implies now.contains(j) by {
                if j == n - 1 {
                    assert(now[0] == j);
                } else {
                    assert(before.contains(j));
                    let w = choose|w: int| 0 <= w < before.len() && before[w] == j;
                    assert(now[w + 1] == j);
                }
            }
        }
    }
}

/// Pushing onto a sequence does not move the first occurrence of what it
/// held already, and what it did not hold is first found at the end.
pub proof fn lemma_index_of_push<T>(items: Seq<T>, last: T, wanted: T)
    ensures
        index_of(items, wanted) is Some ==> index_of(items.push(last), wanted) == index_of(
            items,
            wanted,
        ),
        index_of(items, wanted) is None && last == wanted ==> index_of(items.push(last), wanted)
            == Some(items.len() as int),
        index_of(items, wanted) is None && last != wanted ==> index_of(items.push(last), wanted)
            is None,
{
    lemma_index_of(items, wanted);
    let longer = items.push(last);
    match index_of(items, wanted) {
        Some(i) => {
            crate::keyed::lemma_index_of_at(longer, wanted, i);
        },
        None => {
            if last == wanted {
                crate::keyed::lemma_index_of_at(longer, wanted, items.len() as int);
            } else {
                crate::keyed::lemma_index_of_absent(longer, wanted);
            }
        },
    }
}

/// The guilds the arranged positions place: each is the first guild of an
/// arranged id, none is placed twice, the first guild of every arranged id
/// that some guild has is placed, and they stand in the order in which their
/// ids are first arranged.
pub proof fn lemma_positioned(positions: Seq<u64>, ids: Seq<u64>)
    ensures
        forall|a: int|
            0 <= a < positioned(positions, ids).len() ==> {
                let j = #[trigger] positioned(positions, ids)[a];
                0 <= j < ids.len() && index_of(ids, ids[j]) == Some(j) && index_of(
                    positions,
                    ids[j],
                ) is Some
            },
        forall|a: int, b: int|
            0 <= a < b < positioned(positions, ids).len() ==> index_of(
                positions,
                ids[#[trigger] positioned(positions, ids)[a]],
            ).unwrap() < index_of(positions, ids[#[trigger] positioned(positions, ids)[b]]).unwrap(),
        forall|j: int|
            0 <= j < ids.len() && index_of(ids, #[trigger] ids[j]) == Some(j) && index_of(
                positions,
                ids[j],
            ) is Some ==> positioned(positions, ids).contains(j),
    decreases positions.len(),
{
    if positions.len() > 0 {
        let front = positions.drop_last();
        let last = positions.last();
        assert(front.push(last) =~= positions);
        lemma_positioned(front, ids);
        lemma_index_of(ids, last);
        let before = positioned(front, ids);
        let now = positioned(positions, ids);
        assert forall|a: int| 0 <= a < now.len() implies ({
            let j = #[trigger] now[a];
            0 <= j < ids.len() && index_of(ids, ids[j]) == Some(j) && index_of(positions, ids[j])
                is Some
        }) by {
            let j = now[a];
            if a < before.len() {
                assert(now[a] == before[a]);
                lemma_index_of_push(front, last, ids[j]);
            } else {
                lemma_index_of_push(front, last, last);
            }
        }
        assert forall|j: int|
            0 <= j < ids.len() && index_of(ids, #[trigger] ids[j]) == Some(j) && index_of(
                positions,
                ids[j],
            ) is Some implies now.contains(j) by {
            lemma_index_of_push(front, last, ids[j]);
            if index_of(front, ids[j]) is Some {
                assert(before.contains(j));
                let w = choose|w: int| 0 <= w < before.len() && before[w] == j;
                assert(now[w] == j);
            } else {
                assert(ids[j] == last);
                if before.contains(j) {
                    let w = choose|w: int| 0 <= w < before.len() && before[w] == j;
                    assert(now[w] == j);
                } else {
                    assert(now[before.len() as int] == j);
                }
            }
        }
        assert forall|a: int, b: int| 0 <= a < b < now.len() implies index_of(
            positions,
            ids[#[trigger] now[a]],
        ).unwrap() < index_of(positions, ids[#[trigger] now[b]]).unwrap() by {
            assert(now[a] == before[a]);
            lemma_index_of_push(front, last, ids[now[a]]);
            lemma_index_of(front, ids[now[a]]);
            if b < before.len() {
                assert(now[b] == before[b]);
                lemma_index_of_push(front, last, ids[now[b]]);
            } else {
                let j = now[b];
                assert(!before.contains(j));
                lemma_index_of_push(front, last, last);
                if index_of(front, last) is Some {
                    assert(before.contains(j));
                }
            }
        }
    }
}

/// The order in which guilds get their views. Every guild that is not
/// arranged stands before every guild that is; those not arranged stand with
/// the one listed last first; those arranged stand as arranged; no guild
/// stands twice; and every guild is there, but for a guild that shares its id
/// with one listed before it.
pub proof fn law_guild_order(positions: Seq<u64>, ids: Seq<u64>)
    ensures
        forall|a: int, b: int|
            #![trigger guild_order(positions, ids)[a], guild_order(positions, ids)[b]]
            0 <= a < guild_order(positions, ids).len() && 0 <= b < guild_order(
                positions,
                ids,
            ).len() && !positions.contains(ids[guild_order(positions, ids)[a]])
                && positions.contains(ids[guild_order(positions, ids)[b]]) ==> a < b,
        forall|a: int, b: int|
            #![trigger guild_order(positions, ids)[a], guild_order(positions, ids)[b]]
            0 <= a < b < guild_order(positions, ids).len() && !positions.contains(
                ids[guild_order(positions, ids)[a]],
            ) && !positions.contains(ids[guild_order(positions, ids)[b]]) ==> guild_order(
                positions,
                ids,
            )[a] > guild_order(positions, ids)[b],
        forall|a: int, b: int|
            #![trigger guild_order(positions, ids)[a], guild_order(positions, ids)[b]]
            0 <= a < b < guild_order(positions, ids).len() && positions.contains(
                ids[guild_order(positions, ids)[a]],
            ) && positions.contains(ids[guild_order(positions, ids)[b]]) ==> index_of(
                positions,
                ids[guild_order(positions, ids)[a]],
            ).unwrap() < index_of(positions, ids[guild_order(positions, ids)[b]]).unwrap(),
        forall|a: int, b: int|
            #![trigger guild_order(positions, ids)[a], guild_order(positions, ids)[b]]
            0 <= a < b < guild_order(positions, ids).len() ==> guild_order(positions, ids)[a]
                != guild_order(positions, ids)[b],
        forall|j: int|
            0 <= j < ids.len() && index_of(ids, #[trigger] ids[j]) == Some(j) ==> guild_order(
                positions,
                ids,
            ).contains(j),
{
    let head = unpositioned(positions, ids, ids.len());
    let tail = positioned(positions, ids);
    let order = guild_order(positions, ids);
    lemma_prepend_is_concat(positions, ids, ids.len(), tail);
    lemma_unpositioned(positions, ids, ids.len());
    lemma_positioned(positions, ids);
    assert(order == head + tail);
    assert forall|a: int| 0 <= a < order.len() implies (a < head.len() <==> !positions.contains(
        ids[#[trigger] order[a]],
    )) by {
        if a < head.len() {
            assert(order[a] == head[a]);
        } else {
            assert(order[a] == tail[a - head.len()]);
            lemma_index_of(positions, ids[order[a]]);
        }
    }
    assert forall|a: int, b: int|
        #![trigger order[a], order[b]]
        0 <= a < b < order.len() && !positions.contains(ids[order[a]]) && !positions.contains(
            ids[order[b]],
        ) implies order[a] > order[b] by {
        assert(order[a] == head[a] && order[b] == head[b]);
    }
    assert forall|a: int, b: int|
        #![trigger order[a], order[b]]
        0 <= a < b < order.len() && positions.contains(ids[order[a]]) && positions.contains(
            ids[order[b]],
        ) implies index_of(positions, ids[order[a]]).unwrap() < index_of(
        positions,
        ids[order[b]],
    ).unwrap() by {
        assert(order[a] == tail[a - head.len()] && order[b] == tail[b - head.len()]);
    }
    assert forall|a: int, b: int|
        #![trigger order[a], order[b]]
        0 <= a < b < order.len() implies order[a] != order[b] by {
        if b < head.len() {
            assert(order[a] == head[a] && order[b] == head[b]);
        } else if a >= head.len() {
            assert(order[a] == tail[a - head.len()] && order[b] == tail[b - head.len()]);
        } else {
            assert(order[a] == head[a] && order[b] == tail[b - head.len()]);
            lemma_index_of(positions, ids[order[b]]);
        }
    }
    assert forall|j: int|
        0 <= j < ids.len() && index_of(ids, #[trigger] ids[j]) == Some(j) implies order.contains(
        j,
    ) by {
        lemma_index_of(positions, ids[j]);
        if positions.contains(ids[j]) {
            assert(tail.contains(j));
            let w = choose|w: int| 0 <= w < tail.len() && tail[w] == j;
            assert(order[head.len() + w] == j);
        } else {
            assert(head.contains(j));
            let w = choose|w: int| 0 <= w < head.len() && head[w] == j;
            assert(order[w] == j);
        }
    }
}

fn position_of_id(guilds: &Vec<GuildListing>, id: u64) -> (r: Option<usize>)
    ensures
        r matches Some(j) ==> index_of(guild_ids(guilds@), id) == Some(j as int) && j
            < guilds.len(),
        r is None ==> index_of(guild_ids(guilds@), id) is None,
{
    let ghost ids = guild_ids(guilds@);
    let mut j: usize = 0;
    assert(ids.skip(0) =~= ids);
    while j < guilds.len()
        invariant
            j <= guilds.len(),
            ids == guild_ids(guilds@),
            index_of(ids, id) == shift(index_of(ids.skip(j as int), id), j as int),
        decreases guilds.len() - j,
    {
        if guilds[j].id == id {
            return Some(j);
        }
        proof {
            lemma_index_of_step(ids, id, j as int);
        }
        j = j + 1;
    }
    None
}

fn holds(items: &Vec<usize>, j: usize) -> (r: bool)
    ensures
        r == items@.map_values(|x: usize| x as int).contains(j as int),
{
    let ghost places = items@.map_values(|x: usize| x as int);
    let mut k: usize = 0;
    while k < items.len()
        invariant
            k <= items.len(),
            places == items@.map_values(|x: usize| x as int),
            forall|i: int| 0 <= i < k ==> places[i] != j as int,
        decreases items.len() - k,
    {
        if items[k] == j {
            assert(places[k as int] == j as int);
            return true;
        }
        k = k + 1;
    }
    false
}

fn arranged(positions: &Vec<u64>, id: u64) -> (r: bool)
    ensures
        r == positions@.contains(id),
{
    let mut k: usize = 0;
    while k < positions.len()
        invariant
            k <= positions.len(),
            forall|i: int| 0 <= i < k ==> positions@[i] != id,
        decreases positions.len() - k,
    {
        if positions[k] == id {
            return true;
        }
        k = k + 1;
    }
    false
}

/// The places of some guilds, as numbers.
pub open spec fn places(order: Seq<usize>) -> Seq<int> {
    order.map_values(|x: usize| x as int)
}

/// Works out the order in which the listed guilds get their views. Each
/// entry of the result is the position of a guild in `guilds`. Of two guilds
/// that share an arranged id only the first is in the result.
pub fn order_guilds(positions: &Vec<u64>, guilds: &Vec<GuildListing>) -> (order: Vec<usize>)
    ensures
        places(order@) == guild_order(positions@, guild_ids(guilds@)),
        forall|k: int| 0 <= k < order@.len() ==> #[trigger] order@[k] < guilds@.len(),
{
    let ghost ids = guild_ids(guilds@);
    let mut order: Vec<usize> = Vec::new();
    let mut i: usize = 0;
    assert(positions@.take(0) =~= Seq::<u64>::empty());
    assert(places(order@) =~= Seq::<int>::empty());
    while i < positions.len()
        invariant
            i <= positions.len(),
            ids == guild_ids(guilds@),
            places(order@) == positioned(positions@.take(i as int), ids),
        decreases positions.len() - i,
    {
        assert(positions@.take(i as int + 1).drop_last() =~= positions@.take(i as int));
        if let Some(j) = position_of_id(guilds, positions[i]) {
            if !holds(&order, j) {
                order.push(j);
                assert(places(order@) =~= positioned(positions@.take(i as int), ids).push(j as int));
            }
        }
        i = i + 1;
    }
    assert(positions@.take(i as int) =~= positions@);
    let mut n: usize = 0;
    while n < guilds.len()
        invariant
            n <= guilds.len(),
            ids == guild_ids(guilds@),
            places(order@) == prepend_unpositioned(
                positions@,
                ids,
                n as nat,
                positioned(positions@, ids),
            ),
        decreases guilds.len() - n,
    {
        if !arranged(positions, guilds[n].id) {
            order.insert(0, n);
            assert(places(order@) =~= seq![n as int] + prepend_unpositioned(
                positions@,
                ids,
                n as nat,
                positioned(positions@, ids),
            ));
        }
        n = n + 1;
    }
    proof {
        lemma_positioned_in_range(positions@, ids);
        lemma_prepend_in_range(positions@, ids, ids.len(), positioned(positions@, ids));
        assert forall|k: int| 0 <= k < order@.len() implies #[trigger] order@[k] < guilds@.len() by {
            assert(places(order@)[k] == order@[k] as int);
        }
    }
    order
}

/// The positions of some channels, in order.
pub open spec fn channel_positions(channels: Seq<GuildChannel>) -> Seq<i64> {
    channels.map_values(|c: GuildChannel| c.position)
}

/// A sorted run of places with the place `j` put in behind every place whose
/// position is not greater than that of `j`.
pub open spec fn insert_by_position(sorted: Seq<int>, keys: Seq<i64>, j: int) -> Seq<int>
    decreases sorted.len(),
{
    if sorted.len() == 0 {
        seq![j]
    } else if keys[sorted.last()] <= keys[j] {
        sorted.push(j)
    } else {
        insert_by_position(sorted.drop_last(), keys, j).push(sorted.last())
    }
}

/// The first `n` places sorted by ascending position; places of equal
/// position keep the order they were listed in.
pub open spec fn sorted_by_position(keys: Seq<i64>, n: nat) -> Seq<int>
    decreases n,
{
    if n == 0 {
        Seq::empty()
    } else {
        insert_by_position(sorted_by_position(keys, (n - 1) as nat), keys, n - 1)
    }
}

/// The order in which a guild's channels get their views.
pub open spec fn channel_order(channels: Seq<GuildChannel>) -> Seq<int> {
    sorted_by_position(channel_positions(channels), channels.len())
}

/// Whether the places in `order` stand in ascending position, those of equal
/// position in the order they were listed in.
pub open spec fn ascending(order: Seq<int>, keys: Seq<i64>) -> bool {
    forall|a: int, b: int|
        0 <= a < b < order.len() ==> keys[#[trigger] order[a]] < keys[#[trigger] order[b]] || (
        keys[order[a]] == keys[order[b]] && order[a] < order[b])
}

/// Putting `j` in at `k` is what `insert_by_position` does, when everything
/// from `k` on has a greater position and what stands just before `k` has
/// not.
proof fn lemma_insert_at(sorted: Seq<int>, keys: Seq<i64>, j: int, k: int)
    requires
        0 <= k <= sorted.len(),
        forall|i: int| k <= i < sorted.len() ==> keys[#[trigger] sorted[i]] > keys[j],
        k > 0 ==> keys[sorted[k - 1]] <= keys[j],
    ensures
        insert_by_position(sorted, keys, j) == sorted.insert(k, j),
    decreases sorted.len() - k,
{
    if k == sorted.len() {
        assert(sorted.insert(k, j) =~= sorted.push(j));
    } else {
        let front = sorted.drop_last();
        assert(keys[sorted[sorted.len() - 1]] > keys[j]);
        assert forall|i: int| k <= i < front.len() implies keys[#[trigger] front[i]] > keys[j] by {
            assert(front[i] == sorted[i]);
        }
        lemma_insert_at(front, keys, j, k);
        assert(front.insert(k, j).push(sorted.last()) =~= sorted.insert(k, j));
    }
}

/// Sorting keeps every place, adds none, and puts them in ascending order.
pub proof fn lemma_sorted_by_position(keys: Seq<i64>, n: nat)
    requires
        n <= keys.len(),
    ensures
        sorted_by_position(keys, n).len() == n,
        forall|k: int| 0 <= k < n ==> 0 <= #[trigger] sorted_by_position(keys, n)[k] < n,
        forall|j: int| 0 <= j < n ==> sorted_by_position(keys, n).contains(j),
        ascending(sorted_by_position(keys, n), keys),
    decreases n,
{
    if n > 0 {
        let before = sorted_by_position(keys, (n - 1) as nat);
        lemma_sorted_by_position(keys, (n - 1) as nat);
        let j = n - 1;
        let k = insertion_point(before, keys, j);
        lemma_insertion_point(before, keys, j);
        lemma_insert_at(before, keys, j, k);
        let after = before.insert(k, j);
        assert forall|x: int| 0 <= x < n implies after.contains(x) by {
            if x == j {
                assert(after[k] == j);
            } else {
                assert(before.contains(x));
                let w = choose|w: int| 0 <= w < before.len() && before[w] == x;
                if w < k {
                    assert(after[w] == x);
                } else {
                    assert(after[w + 1] == x);
                }
            }
        }
        assert forall|a: int, b: int| 0 <= a < b < after.len() implies keys[#[trigger] after[a]]
            < keys[#[trigger] after[b]] || (keys[after[a]] == keys[after[b]] && after[a]
            < after[b]) by {
            if b < k {
                assert(after[a] == before[a] && after[b] == before[b]);
            } else if b == k {
                assert(after[a] == before[a]);
                if a < k - 1 {
                    assert(keys[before[a]] <= keys[before[k - 1]]);
                }
            } else if a == k {
                assert(after[b] == before[b - 1]);
            } else if a < k {
                assert(after[a] == before[a] && after[b] == before[b - 1]);
            } else {
                assert(after[a] == before[a - 1] && after[b] == before[b - 1]);
            }
        }
    }
}

/// Where `j` goes into a sorted run: behind the last place whose position is
/// not greater.
pub open spec fn insertion_point(sorted: Seq<int>, keys: Seq<i64>, j: int) -> int
    decreases sorted.len(),
{
    if sorted.len() == 0 {
        0
    } else if keys[sorted.last()] <= keys[j] {
        sorted.len() as int
    } else {
        insertion_point(sorted.drop_last(), keys, j)
    }
}

/// The insertion point lies within the run, everything from it on has a
/// greater position, and what stands just before it has not.
pub proof fn lemma_insertion_point(sorted: Seq<int>, keys: Seq<i64>, j: int)
    ensures
        0 <= insertion_point(sorted, keys, j) <= sorted.len(),
        forall|i: int|
            insertion_point(sorted, keys, j) <= i < sorted.len() ==> keys[#[trigger] sorted[i]]
                > keys[j],
        insertion_point(sorted, keys, j) > 0 ==> keys[sorted[insertion_point(sorted, keys, j) - 1]]
            <= keys[j],
    decreases sorted.len(),
{
    if sorted.len() > 0 && keys[sorted.last()] > keys[j] {
        let front = sorted.drop_last();
        lemma_insertion_point(front, keys, j);
        let k = insertion_point(front, keys, j);
        assert forall|i: int| k <= i < sorted.len() implies keys[#[trigger] sorted[i]] > keys[j] by {
            if i < front.len() {
                assert(front[i] == sorted[i]);
            }
        }
        if k > 0 {
            assert(front[k - 1] == sorted[k - 1]);
        }
    }
}

/// Sorts a guild's channels by ascending position, keeping channels of equal
/// position in the order they are listed in. Each entry of the result is the
/// position of a channel in `channels`.
pub fn sort_channels(channels: &Vec<GuildChannel>) -> (order: Vec<usize>)
    ensures
        places(order@) == channel_order(channels@),
        order@.len() == channels@.len(),
        forall|k: int| 0 <= k < order@.len() ==> #[trigger] order@[k] < channels@.len(),
        forall|j: int| 0 <= j < channels@.len() ==> places(order@).contains(j),
        ascending(places(order@), channel_positions(channels@)),
{
    proof {
        lemma_sorted_by_position(channel_positions(channels@), channels@.len());
    }
    let ghost keys = channel_positions(channels@);
    let mut order: Vec<usize> = Vec::new();
    let mut n: usize = 0;
    assert(places(order@) =~= Seq::<int>::empty());
    while n < channels.len()
        invariant
            n <= channels.len(),
            keys == channel_positions(channels@),
            places(order@) == sorted_by_position(keys, n as nat),
            order@.len() == n,
            forall|k: int| 0 <= k < order@.len() ==> #[trigger] order@[k] < n,
        decreases channels.len() - n,
    {
        let ghost before = places(order@);
        let mut k: usize = order.len();
        while k > 0 && channels[order[k - 1]].position > channels[n].position
            invariant
                k <= order.len(),
                n < channels.len(),
                keys == channel_positions(channels@),
                before == places(order@),
                forall|i: int| 0 <= i < order@.len() ==> #[trigger] order@[i] < n,
                forall|i: int| k <= i < before.len() ==> keys[#[trigger] before[i]] > keys[n as int],
            decreases k,
        {
            assert(before[k - 1] == order@[k - 1] as int);
            k = k - 1;
        }
        proof {
            if k > 0 {
                assert(before[k - 1] == order@[k - 1] as int);
            }
            lemma_insert_at(before, keys, n as int, k as int);
        }
        order.insert(k, n);
        assert(places(order@) =~= before.insert(k as int, n as int));
        n = n + 1;
    }
    order
}

/// The registry after the channels of a guild at the given places were
/// considered for a view, one after the other.
pub open spec fn spec_create_channel_buffers(
    m: ManagerView,
    cache: Cache,
    ready: Ready,
    guild: GuildListing,
    channels: Seq<GuildChannel>,
    order: Seq<int>,
    nick: Seq<char>,
) -> ManagerView
    decreases order.len(),
{
    if order.len() == 0 {
        m
    } else {
        let channel = channels[order.last()];
        spec_create_buffer_from_channel(
            spec_create_channel_buffers(m, cache, ready, guild, channels, order.drop_last(), nick),
            cache,
            guild.name@,
            channel,
            nick,
            spec_is_muted(ready.guild_settings@, guild.id, channel.id),
        )
    }
}

/// The registry after one guild was given its views: the guild's own view
/// first, then one for each channel that is shown, in ascending position. A
/// guild whose channels could not be fetched gets its own view only.
pub open spec fn spec_create_guild_views(
    m: ManagerView,
    cache: Cache,
    ready: Ready,
    guild: GuildListing,
) -> ManagerView {
    let with_guild = spec_create_guild_buffer(m, guild.id, guild.name@);
    match guild.channels {
        Some(channels) => spec_create_channel_buffers(
            with_guild,
            cache,
            ready,
            guild,
            channels@,
            channel_order(channels@),
            spec_own_nick(cache, guild.member),
        ),
        None => with_guild,
    }
}

/// The registry after the guilds at the given places were given their views,
/// one after the other.
pub open spec fn spec_create_views_in_order(
    m: ManagerView,
    cache: Cache,
    ready: Ready,
    guilds: Seq<GuildListing>,
    order: Seq<int>,
) -> ManagerView
    decreases order.len(),
{
    if order.len() == 0 {
        m
    } else {
        spec_create_guild_views(
            spec_create_views_in_order(m, cache, ready, guilds, order.drop_last()),
            cache,
            ready,
            guilds[order.last()],
        )
    }
}

/// The registry after a session started: every listed guild was given its
/// views, in the order `guild_order` puts the guilds in.
pub open spec fn spec_create_buffers(
    m: ManagerView,
    cache: Cache,
    ready: Ready,
    guilds: Seq<GuildListing>,
) -> ManagerView {
    spec_create_views_in_order(
        m,
        cache,
        ready,
        guilds,
        guild_order(ready.guild_positions@, guild_ids(guilds)),
    )
}

fn create_guild_views(
    manager: &mut BufferManager,
    cache: &Cache,
    ready: &Ready,
    guild: &GuildListing,
)
    requires
        old(manager).wf(),
    ensures
        final(manager)@ == spec_create_guild_views(old(manager)@, *cache, *ready, *guild),
        final(manager).wf(),
{
    create_guild_buffer(manager, guild.id, guild.name.as_str());
    let channels = match &guild.channels {
        Some(channels) => channels,
        None => {
            return ;
        },
    };
    let nick = own_nick(cache, guild.member.as_ref());
    let order = sort_channels(channels);
    let ghost with_guild = manager@;
    let mut k: usize = 0;
    assert(places(order@).take(0) =~= Seq::<int>::empty());
    while k < order.len()
        invariant
            k <= order.len(),
            manager.wf(),
            forall|i: int| 0 <= i < order@.len() ==> #[trigger] order@[i] < channels@.len(),
            manager@ == spec_create_channel_buffers(
                with_guild,
                *cache,
                *ready,
                *guild,
                channels@,
                places(order@).take(k as int),
                nick@,
            ),
        decreases order.len() - k,
    {
        assert(places(order@).take(k as int + 1).drop_last() =~= places(order@).take(k as int));
        assert(places(order@).take(k as int + 1).last() == order@[k as int] as int);
        let channel = &channels[order[k]];
        let muted = ready.is_muted(guild.id, channel.id);
        create_buffer_from_channel(manager, cache, guild.name.as_str(), channel, nick.as_str(), muted);
        k = k + 1;
    }
    assert(places(order@).take(k as int) =~= places(order@));
}

/// Gives every guild the user is in its views when a session starts: the
/// guilds in the order the user arranged them, those not arranged in front,
/// and within a guild its own view and then the channels by position. Every
/// listed guild is given its views once where no two listings share an id; of
/// two that share an arranged id only the first is given views.
pub fn create_buffers(
    manager: &mut BufferManager,
    cache: &Cache,
    ready: &Ready,
    guilds: &Vec<GuildListing>,
)
    requires
        old(manager).wf(),
    ensures
        final(manager)@ == spec_create_buffers(old(manager)@, *cache, *ready, guilds@),
        final(manager).wf(),
{
    let order = order_guilds(&ready.guild_positions, guilds);
    let mut k: usize = 0;
    assert(places(order@).take(0) =~= Seq::<int>::empty());
    while k < order.len()
        invariant
            k <= order.len(),
            manager.wf(),
            forall|i: int| 0 <= i < order@.len() ==> #[trigger] order@[i] < guilds@.len(),
            manager@ == spec_create_views_in_order(
                old(manager)@,
                *cache,
                *ready,
                guilds@,
                places(order@).take(k as int),
            ),
        decreases order.len() - k,
    {
        assert(places(order@).take(k as int + 1).drop_last() =~= places(order@).take(k as int));
        assert(places(order@).take(k as int + 1).last() == order@[k as int] as int);
        create_guild_views(manager, cache, ready, &guilds[order[k]]);
        k = k + 1;
    }
    assert(places(order@).take(k as int) =~= places(order@));
}

} // verus!
