//! The operations on views, gathered under one roof.

pub use crate::autojoin::{create_autojoin_buffers, create_buffers_from_flat_items};
pub use crate::create::{
    create_buffer_from_channel, create_buffer_from_dm, create_buffer_from_group,
    create_guild_buffer, create_pins_buffer,
};
pub use crate::hierarchy::create_buffers;
pub use crate::history::{
    complete_history, complete_pin_history, load_history, load_pin_buffer_history,
    load_pin_buffer_history_for_id, trigger_history,
};
pub use crate::nicklist::{
    add_member_to_nicklist, guild_has_crown, load_dm_nicks, load_nicks, rename_due,
    update_member_nick, update_nick, user_online,
};
use crate::manager::{BufferManager, ManagerView};
use vstd::prelude::*;

verus! {

/// A registry to start a session with: it holds no view yet.
pub fn init() -> (manager: BufferManager)
    ensures
        manager@ == ManagerView::empty(),
        manager.wf(),
{
    BufferManager::new()
}

} // verus!
