//! What the user configured, as far as the views depend on it.

use crate::model::OnlineStatus;
use vstd::prelude::*;

verus! {

#[derive(Clone, Debug, PartialEq, Eq)]
pub struct Settings {
    /// Whether presence is tracked and shown in nicklists.
    pub use_presence: bool,
    /// The status the user last set for themselves.
    pub last_status: OnlineStatus,
    /// The colour code the host puts in front of the owner's crown.
    pub crown_color: String,
}

} // verus!
