//! `/subscribe` and `/unsubscribe`: the announcement channel of a server.

use vstd::prelude::*;
use crate::options::{CommandOption, OptionValue, named, find_named};
use crate::num::{int_text, text_i64};
use crate::text::string_of;

verus! {

/// The channel of `/subscribe`: the first option named `channel`, when it
/// holds a channel.
pub open spec fn channel_option(opts: Seq<CommandOption>) -> Option<u64> {
    match named(opts, "channel"@) {
        Some(o) => match o.value {
            OptionValue::Channel(id) => Some(id),
            _ => None,
        },
        None => None,
    }
}

pub fn extract_channel_id(options: &Vec<CommandOption>) -> (r: Option<u64>)
    ensures
        r == channel_option(options@),
{
    match find_named(options, "channel") {
        Some(i) => match &options[i].value {
            OptionValue::Channel(id) => Some(*id),
            _ => None,
        },
        None => None,
    }
}

/// The channel id as it is stored and shown: the id read as an `i64`, as `as`
/// does.
pub fn channel_key(id: u64) -> (r: String)
    ensures
        r@ == int_text((id as i64) as int),
{
    #[verifier::truncate]
    let v: i64 = id as i64;
    string_of(&text_i64(v))
}

/// The reply to `/subscribe` without a channel.
pub fn missing_channel_message() -> (r: &'static str)
    ensures
        r@ == "❌ Please specify a channel: `/subscribe channel:#general`"@,
{
    "❌ Please specify a channel: `/subscribe channel:#general`"
}

/// The reply to `/subscribe`: where events will be announced.
pub fn subscribed_message(id: u64) -> (r: String)
    ensures
        r@ == "New CTF events will be announced in <#"@ + int_text((id as i64) as int)
            + ">.\nUse `/unsubscribe` at any time to stop notifications."@,
{
    let mut s = String::from_str("New CTF events will be announced in <#");
    let k = channel_key(id);
    s.append(k.as_str());
    s.append(">.\nUse `/unsubscribe` at any time to stop notifications.");
    s
}

/// The reply to `/unsubscribe`: its title and text, by whether the server had
/// a subscription.
pub fn unsubscribed_message(removed: bool) -> (r: (&'static str, &'static str))
    ensures
        removed ==> r.0@ == "✅ Unsubscribed"@ && r.1@ == "This server will no longer receive CTF event notifications.\nYou can re-subscribe any time with `/subscribe`."@,
        !removed ==> r.0@ == "⚠️ Not subscribed"@ && r.1@ == "This server has no active CTF subscription.\nUse `/subscribe channel:#channel` to start receiving notifications."@,
{
    if removed {
        ("✅ Unsubscribed", "This server will no longer receive CTF event notifications.\nYou can re-subscribe any time with `/subscribe`.")
    } else {
        ("⚠️ Not subscribed", "This server has no active CTF subscription.\nUse `/subscribe channel:#channel` to start receiving notifications.")
    }
}

} // verus!
