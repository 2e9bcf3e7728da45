//! The keys under which views are registered.

use crate::text::{
    decimal, is_digit, lemma_decimal_injective, lemma_decimal_shape, lemma_numeral_prefix,
    push_decimal, u64_to_string,
};
use vstd::prelude::*;
use vstd::string::StringExecFns;

verus! {

/// The key of a guild's own view: the guild's id as a numeral.
pub open spec fn guild_key(guild_id: u64) -> Seq<char> {
    decimal(guild_id as nat)
}

/// The key of a channel's view: guild id and channel id joined by a dot for
/// a guild channel, the channel id after "Private." for a conversation that
/// belongs to no guild.
pub open spec fn channel_key(guild_id: Option<u64>, channel_id: u64) -> Seq<char> {
    match guild_id {
        Some(g) => decimal(g as nat) + "."@ + decimal(channel_id as nat),
        None => "Private."@ + decimal(channel_id as nat),
    }
}

/// The key of the view that lists a channel's pinned messages.
pub open spec fn pins_key(channel_id: u64) -> Seq<char> {
    "Pins."@ + decimal(channel_id as nat)
}

pub fn buffer_id_for_guild(guild_id: u64) -> (key: String)
    ensures
        key@ == guild_key(guild_id),
{
    u64_to_string(guild_id)
}

pub fn buffer_id_for_channel(guild_id: Option<u64>, channel_id: u64) -> (key: String)
    ensures
        key@ == channel_key(guild_id, channel_id),
{
    let mut key = String::new();
    match guild_id {
        Some(g) => {
            push_decimal(&mut key, g as u128);
            key.append(".");
        },
        None => {
            key.append("Private.");
        },
    }
    push_decimal(&mut key, channel_id as u128);
    assert(key@ =~= channel_key(guild_id, channel_id));
    key
}

pub fn buffer_id_for_pins(channel_id: u64) -> (key: String)
    ensures
        key@ == pins_key(channel_id),
{
    let mut key = String::new();
    key.append("Pins.");
    push_decimal(&mut key, channel_id as u128);
    assert(key@ =~= pins_key(channel_id));
    key
}

/// A key stands for one guild, one channel or one list of pinned messages
/// only: equal keys of one sort come from the same ids, and keys of different
/// sorts are never equal.
pub proof fn law_keys_identify(
    guild_a: u64,
    guild_b: u64,
    of_a: Option<u64>,
    channel_a: u64,
    of_b: Option<u64>,
    channel_b: u64,
)
    ensures
        guild_key(guild_a) == guild_key(guild_b) ==> guild_a == guild_b,
        channel_key(of_a, channel_a) == channel_key(of_b, channel_b) ==> of_a == of_b && channel_a
            == channel_b,
        pins_key(channel_a) == pins_key(channel_b) ==> channel_a == channel_b,
        guild_key(guild_a) != channel_key(of_b, channel_b),
        guild_key(guild_a) != pins_key(channel_b),
        channel_key(of_a, channel_a) != pins_key(channel_b),
{
    reveal_strlit(".");
    reveal_strlit("Private.");
    reveal_strlit("Pins.");
    let private = "Private."@;
    let pins = "Pins."@;
    assert(private.len() == 8 && private[0] == 'P' && private[1] == 'r');
    assert(pins.len() == 5 && pins[0] == 'P' && pins[1] == 'i');
    assert("."@ =~= seq!['.']);
    lemma_decimal_shape(guild_a as nat);
    lemma_decimal_shape(guild_b as nat);
    lemma_decimal_shape(channel_a as nat);
    lemma_decimal_shape(channel_b as nat);
    let ca = decimal(channel_a as nat);
    let cb = decimal(channel_b as nat);
    if guild_key(guild_a) == guild_key(guild_b) {
        lemma_decimal_injective(guild_a as nat, guild_b as nat);
    }
    if pins_key(channel_a) == pins_key(channel_b) {
        assert(ca =~= pins_key(channel_a).skip(5));
        assert(cb =~= pins_key(channel_b).skip(5));
        lemma_decimal_injective(channel_a as nat, channel_b as nat);
    }
    assert(pins_key(channel_b)[0] == 'P');
    assert(guild_key(guild_a)[0] == decimal(guild_a as nat)[0]);
    match of_b {
        Some(g) => {
            lemma_decimal_shape(g as nat);
            let dg = decimal(g as nat);
            let key = channel_key(of_b, channel_b);
            assert(key[dg.len() as int] == '.');
            if guild_key(guild_a) == key {
                assert(is_digit(decimal(guild_a as nat)[dg.len() as int]));
            }
        },
        None => {
            assert(channel_key(of_b, channel_b)[0] == 'P');
        },
    }
    match of_a {
        Some(g) => {
            lemma_decimal_shape(g as nat);
            assert(channel_key(of_a, channel_a)[0] == decimal(g as nat)[0]);
        },
        None => {
            assert(channel_key(of_a, channel_a)[1] == 'r');
            assert(pins_key(channel_b)[1] == 'i');
        },
    }
    if channel_key(of_a, channel_a) == channel_key(of_b, channel_b) {
        match (of_a, of_b) {
            (Some(ga), Some(gb)) => {
                lemma_numeral_prefix(ga as nat, ca, gb as nat, cb, '.');
                lemma_decimal_injective(channel_a as nat, channel_b as nat);
            },
            (None, None) => {
                assert(ca =~= channel_key(of_a, channel_a).skip(8));
                assert(cb =~= channel_key(of_b, channel_b).skip(8));
                lemma_decimal_injective(channel_a as nat, channel_b as nat);
            },
            (Some(ga), None) => {
                lemma_decimal_shape(ga as nat);
                assert(channel_key(of_a, channel_a)[0] == decimal(ga as nat)[0]);
                assert(channel_key(of_b, channel_b)[0] == 'P');
            },
            (None, Some(gb)) => {
                lemma_decimal_shape(gb as nat);
                assert(channel_key(of_b, channel_b)[0] == decimal(gb as nat)[0]);
                assert(channel_key(of_a, channel_a)[0] == 'P');
            },
        }
    }
}

} // verus!
