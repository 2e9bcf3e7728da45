//! The permission bits that decide who takes part in a channel.

use vstd::prelude::*;

verus! {

/// The bit that allows reading messages in a channel.
pub const READ_MESSAGES: u64 = 0x400;

/// The bit that allows reading a channel's message history.
pub const READ_MESSAGE_HISTORY: u64 = 0x1_0000;

/// The bit that grants every permission.
pub const ADMINISTRATOR: u64 = 0x8;

pub open spec fn spec_read_messages(bits: u64) -> bool {
    bits & READ_MESSAGES == READ_MESSAGES
}

pub open spec fn spec_read_message_history(bits: u64) -> bool {
    bits & READ_MESSAGE_HISTORY == READ_MESSAGE_HISTORY
}

pub open spec fn spec_administrator(bits: u64) -> bool {
    bits & ADMINISTRATOR == ADMINISTRATOR
}

/// Calls serenity's `Permissions::read_messages` on the given bits. The
/// contract claims that it tests the read-messages bit and nothing else.
#[verifier::external_body]
pub(crate) fn read_messages(bits: u64) -> (r: bool)
    ensures
        r == spec_read_messages(bits),
{
    serenity::model::permissions::Permissions { bits }.read_messages()
}

/// Calls serenity's `Permissions::read_message_history` on the given bits.
/// The contract claims that it tests the read-message-history bit and
/// nothing else.
#[verifier::external_body]
pub(crate) fn read_message_history(bits: u64) -> (r: bool)
    ensures
        r == spec_read_message_history(bits),
{
    serenity::model::permissions::Permissions { bits }.read_message_history()
}

/// Calls serenity's `Permissions::administrator` on the given bits. The
/// contract claims that it tests the administrator bit and nothing else.
#[verifier::external_body]
pub(crate) fn administrator(bits: u64) -> (r: bool)
    ensures
        r == spec_administrator(bits),
{
    serenity::model::permissions::Permissions { bits }.administrator()
}

} // verus!
