//! Small helpers used across the commands.

use vstd::prelude::*;
use crate::options::{CommandOption, OptionValue, find_named, string_option};
use crate::text::{chars_of, string_of};
use crate::num::{parse_int, parse_u16 as parse_u16_chars, parse_u64};

verus! {

pub open spec fn ellipsis() -> Seq<char> {
    seq!['.', '.', '.']
}

/// The first `max_chars` characters of `s`, followed by `...` when
/// characters were cut off.
pub open spec fn truncated(s: Seq<char>, max_chars: nat) -> Seq<char> {
    if s.len() > max_chars {
        s.take(max_chars as int) + ellipsis()
    } else {
        s
    }
}

/// Truncate a string to a maximum number of characters (not bytes) safely.
/// If truncated, appends an ellipsis.
pub fn truncate(s: &str, max_chars: usize) -> (r: String)
    ensures
        r@ == truncated(s@, max_chars as nat),
        s@.len() <= max_chars ==> r@ == s@,
        r@.len() <= max_chars + 3,
{
    let chars = chars_of(s);
    if chars.len() > max_chars {
        let mut head: Vec<char> = Vec::new();
        let mut i: usize = 0;
        while i < max_chars
            invariant
                i <= max_chars < chars.len(),
                head@ == chars@.take(i as int),
            decreases max_chars - i,
        {
            head.push(chars[i]);
            assert(chars@.take(i + 1) == chars@.take(i as int).push(chars@[i as int]));
            i = i + 1;
        }
        head.push('.');
        head.push('.');
        head.push('.');
        assert(head@ == chars@.take(max_chars as int) + ellipsis());
        string_of(&head)
    } else {
        string_of(&chars)
    }
}

/// Parses a Discord snowflake given as text; `key` names the setting in the
/// error message.
pub fn parse_id(value: &str, key: &str) -> (r: Result<u64, String>)
    ensures
        match r {
            Ok(v) => parse_int(value@, 10, false, 0, u64::MAX as int) == Some(v as int),
            Err(msg) => parse_int(value@, 10, false, 0, u64::MAX as int) is None
                && msg@ == key@ + " must be a valid u64"@,
        },
{
    let chars = chars_of(value);
    match parse_u64(&chars) {
        Some(v) => Ok(v),
        None => {
            let mut msg = String::from_str(key);
            msg.append(" must be a valid u64");
            Err(msg)
        },
    }
}

/// Reads a `u16` setting from its text, as `str::parse::<u16>().ok()` does.
pub fn parse_u16_value(value: &str) -> (r: Option<u16>)
    ensures
        match r {
            Some(v) => parse_int(value@, 10, false, 0, u16::MAX as int) == Some(v as int),
            None => parse_int(value@, 10, false, 0, u16::MAX as int) is None,
        },
{
    let chars = chars_of(value);
    parse_u16_chars(&chars)
}

/// The string value of the option named `name`, when there is one and it is a string.
pub fn get_string_option<'a>(options: &'a Vec<CommandOption>, name: &str) -> (r: Option<&'a str>)
    ensures
        match r {
            Some(v) => string_option(options@, name@) == Some(v@),
            None => string_option(options@, name@) is None,
        },
{
    match find_named(options, name) {
        Some(i) => match &options[i].value {
            OptionValue::String(v) => Some(v.as_str()),
            _ => None,
        },
        None => None,
    }
}

} // verus!
