//! Start-up settings of the gateway: the bot token, the guild to register
//! commands in, the shards this process runs, and the health report.

use vstd::prelude::*;
use crate::text::{chars_of, string_of, trim, trim_chars};
use crate::num::{int_text, text_i64};

verus! {

/// The token without a leading `Bot ` and without surrounding whitespace.
pub open spec fn token_text(raw: Seq<char>) -> Seq<char> {
    if raw.len() >= 4 && raw.take(4) == "Bot "@ {
        trim(raw.skip(4))
    } else {
        trim(raw)
    }
}

pub fn normalize_token(raw: &str) -> (r: String)
    ensures
        r@ == token_text(raw@),
{
    proof { reveal_strlit("Bot "); }
    let chars = chars_of(raw);
    let prefixed = chars.len() >= 4 && chars[0] == 'B' && chars[1] == 'o' && chars[2] == 't' && chars[3] == ' ';
    let rest = if prefixed {
        let mut v: Vec<char> = Vec::new();
        let mut i: usize = 4;
        while i < chars.len()
            invariant
                4 <= i <= chars.len(),
                v@ == chars@.subrange(4, i as int),
            decreases chars.len() - i,
        {
            v.push(chars[i]);
            assert(chars@.subrange(4, i + 1) == chars@.subrange(4, i as int).push(chars@[i as int]));
            i = i + 1;
        }
        assert(chars@.skip(4) == chars@.subrange(4, chars.len() as int));
        assert(chars@.take(4) =~= "Bot "@);
        v
    } else {
        proof {
            if chars@.len() >= 4 && chars@.take(4) == "Bot "@ {
                assert(chars@[0] == chars@.take(4)[0]);
                assert(chars@[1] == chars@.take(4)[1]);
                assert(chars@[2] == chars@.take(4)[2]);
                assert(chars@[3] == chars@.take(4)[3]);
            }
        }
        chars
    };
    string_of(&trim_chars(&rest))
}

/// Whether an optional setting counts as set: present and not only whitespace.
pub fn setting_present(value: Option<&str>) -> (r: bool)
    ensures
        r == match value {
            Some(v) => trim(v@).len() > 0,
            None => false,
        },
{
    match value {
        Some(v) => trim_chars(&chars_of(v)).len() > 0,
        None => false,
    }
}

/// The shards this process runs: the total, and the first and last of its
/// range. A missing total is 1, a missing start 0, a missing end the start.
pub open spec fn shard_settings(total: Option<u16>, start: Option<u16>, end: Option<u16>) -> Result<(u16, u16, u16), Seq<char>> {
    let t = match total { Some(v) => v, None => 1u16 };
    let s = match start { Some(v) => v, None => 0u16 };
    let e = match end { Some(v) => v, None => s };
    if s > e {
        Err("DISCORD_SHARD_START ("@ + int_text(s as int) + ") must not exceed DISCORD_SHARD_END ("@
            + int_text(e as int) + ")"@)
    } else if e >= t {
        Err("Shard range end ("@ + int_text(e as int) + ") must be less than total ("@ + int_text(t as int) + ")"@)
    } else {
        Ok((t, s, e))
    }
}

fn num_text(n: u16) -> (r: String)
    ensures
        r@ == int_text(n as int),
{
    string_of(&text_i64(n as i64))
}

pub fn shard_config(total: Option<u16>, start: Option<u16>, end: Option<u16>) -> (r: Result<(u16, u16, u16), String>)
    ensures
        match shard_settings(total, start, end) {
            Ok(v) => r matches Ok(x) && x == v,
            Err(m) => r matches Err(e) && e@ == m,
        },
        r matches Ok((t, s, e)) ==> s <= e < t,
{
    let t = match total { Some(v) => v, None => 1u16 };
    let s = match start { Some(v) => v, None => 0u16 };
    let e = match end { Some(v) => v, None => s };
    if s > e {
        let mut m = String::from_str("DISCORD_SHARD_START (");
        m.append(num_text(s).as_str());
        m.append(") must not exceed DISCORD_SHARD_END (");
        m.append(num_text(e).as_str());
        m.append(")");
        Err(m)
    } else if e >= t {
        let mut m = String::from_str("Shard range end (");
        m.append(num_text(e).as_str());
        m.append(") must be less than total (");
        m.append(num_text(t).as_str());
        m.append(")");
        Err(m)
    } else {
        Ok((t, s, e))
    }
}

/// The shards of the health report: `<start>/<total>` for one shard,
/// `<start>-<end>/<total>` for a range.
pub open spec fn shard_text(start: u16, end: u16, total: u16) -> Seq<char> {
    if start == end {
        int_text(start as int) + "/"@ + int_text(total as int)
    } else {
        int_text(start as int) + "-"@ + int_text(end as int) + "/"@ + int_text(total as int)
    }
}

pub fn shard_info(start: u16, end: u16, total: u16) -> (r: String)
    ensures
        r@ == shard_text(start, end, total),
{
    let mut s = num_text(start);
    if start != end {
        s.append("-");
        s.append(num_text(end).as_str());
    }
    s.append("/");
    s.append(num_text(total).as_str());
    s
}

/// The status of the health report, by whether the database answers.
pub fn health_status(db_ok: bool) -> (r: &'static str)
    ensures
        r@ == if db_ok { "ok"@ } else { "degraded"@ },
{
    if db_ok { "ok" } else { "degraded" }
}

} // verus!
