//! Whether a channel holds messages that were not read yet, and what that
//! means for the hotlist.

use crate::buffer::HotlistPriority;
use crate::model::{find_read_state, Cache};
use vstd::prelude::*;

verus! {

/// The read cursor the remote service recorded for a channel, if any.
pub open spec fn spec_read_cursor(cache: Cache, channel_id: u64) -> Option<u64> {
    match find_read_state(cache.read_state@, channel_id) {
        Some(state) => Some(state.last_message_id),
        None => None,
    }
}

/// A channel has unread messages exactly when its newest message is not the
/// one the read cursor stands at.
pub open spec fn spec_has_unread(cursor: Option<u64>, last_message_id: Option<u64>) -> bool {
    cursor != last_message_id
}

/// The hotlist entry a view gets when it is created: none when there is
/// nothing unread or the view is muted, else the given tier.
pub open spec fn spec_initial_hotlist(
    has_unread: bool,
    muted: bool,
    tier: HotlistPriority,
) -> Option<HotlistPriority> {
    if has_unread && !muted {
        Some(tier)
    } else {
        None
    }
}

pub fn read_cursor(cache: &Cache, channel_id: u64) -> (cursor: Option<u64>)
    ensures
        cursor == spec_read_cursor(*cache, channel_id),
{
    match cache.read_state(channel_id) {
        Some(state) => Some(state.last_message_id),
        None => None,
    }
}

pub fn has_unread(cursor: Option<u64>, last_message_id: Option<u64>) -> (unread: bool)
    ensures
        unread == spec_has_unread(cursor, last_message_id),
        unread <==> cursor != last_message_id,
{
    match (cursor, last_message_id) {
        (Some(a), Some(b)) => a != b,
        (None, None) => false,
        _ => true,
    }
}

pub fn initial_hotlist(
    has_unread: bool,
    muted: bool,
    tier: HotlistPriority,
) -> (entry: Option<HotlistPriority>)
    ensures
        entry == spec_initial_hotlist(has_unread, muted, tier),
        muted ==> entry is None,
        entry is Some <==> has_unread && !muted,
{
    if has_unread && !muted {
        Some(tier)
    } else {
        None
    }
}

} // verus!
