//! The `/digest` command: weekly digest settings.

use vstd::prelude::*;
use crate::num::{dec, parse_int, parse_i16, dec_u64};
use crate::options::{CommandOption, OptionValue};
use crate::text::{chars_of, string_of, text_eq};

verus! {

/// The name of a day of the week, Sunday being 0.
pub open spec fn day_name(day: i16) -> Seq<char> {
    if day == 0 { "Sunday"@ } else if day == 1 { "Monday"@ } else if day == 2 { "Tuesday"@ }
    else if day == 3 { "Wednesday"@ } else if day == 4 { "Thursday"@ } else if day == 5 { "Friday"@ }
    else if day == 6 { "Saturday"@ } else { "Unknown"@ }
}

pub fn to_day_name(day: i16) -> (r: &'static str)
    ensures
        r@ == day_name(day),
{
    match day {
        0 => "Sunday",
        1 => "Monday",
        2 => "Tuesday",
        3 => "Wednesday",
        4 => "Thursday",
        5 => "Friday",
        6 => "Saturday",
        _ => "Unknown",
    }
}

/// The days of the week in order, starting with Sunday.
pub open spec fn week_days() -> Seq<Seq<char>> {
    seq!["Sunday"@, "Monday"@, "Tuesday"@, "Wednesday"@, "Thursday"@, "Friday"@, "Saturday"@]
}

/// Day numbers name the days of the week in order, 0 being Sunday and 6
/// Saturday; any other number is `Unknown`.
pub proof fn lemma_day_names(day: i16)
    ensures
        0 <= day < 7 ==> day_name(day) == week_days()[day as int],
        !(0 <= day < 7) ==> day_name(day) == "Unknown"@,
{
}

/// What `/digest` is asked to do.
pub enum DigestRequest {
    /// No subcommand was given.
    Invalid,
    /// Send the digest on `day` (0 = Sunday) to the channel.
    Enable { day: i16, channel_id: u64 },
    Disable,
    Status,
    /// An unknown subcommand.
    Unknown,
    /// The options of `enable` are wrong; the message says how.
    Rejected { message: String },
}

/// The day and channel that the options of `enable` set, read in order: a day
/// that is not a number or not in 0..=6 stops the reading with its message.
pub open spec fn enable_scan(opts: Seq<CommandOption>, day: i16, channel: Option<u64>) -> Result<(i16, Option<u64>), Seq<char>>
    decreases opts.len(),
{
    if opts.len() == 0 {
        Ok((day, channel))
    } else {
        let o = opts[0];
        if o.name@ == "day"@ {
            match o.value {
                OptionValue::String(v) => match parse_int(v@, 10, true, i16::MIN as int, i16::MAX as int) {
                    Some(d) => if 0 <= d <= 6 {
                        enable_scan(opts.drop_first(), d as i16, channel)
                    } else {
                        Err("Day must be between 0 (Sunday) and 6 (Saturday)."@)
                    },
                    None => Err("Invalid day of the week."@),
                },
                _ => enable_scan(opts.drop_first(), day, channel),
            }
        } else if o.name@ == "channel"@ {
            match o.value {
                OptionValue::Channel(id) => enable_scan(opts.drop_first(), day, Some(id)),
                _ => enable_scan(opts.drop_first(), day, channel),
            }
        } else {
            enable_scan(opts.drop_first(), day, channel)
        }
    }
}

/// The sub-options of a subcommand option (none for other values).
pub open spec fn sub_options(o: CommandOption) -> Seq<CommandOption> {
    match o.value {
        OptionValue::SubCommand(v) => v@,
        _ => seq![],
    }
}

/// What the options ask `/digest` to do, apart from the message of a rejection.
pub open spec fn digest_request(opts: Seq<CommandOption>) -> Result<DigestRequest, Seq<char>> {
    if opts.len() == 0 {
        Ok(DigestRequest::Invalid)
    } else if opts[0].name@ == "enable"@ {
        match enable_scan(sub_options(opts[0]), 1, None) {
            Ok((day, Some(ch))) => Ok(DigestRequest::Enable { day, channel_id: ch }),
            Ok((_, None)) => Err("A channel must be specified."@),
            Err(m) => Err(m),
        }
    } else if opts[0].name@ == "disable"@ {
        Ok(DigestRequest::Disable)
    } else if opts[0].name@ == "status"@ {
        Ok(DigestRequest::Status)
    } else {
        Ok(DigestRequest::Unknown)
    }
}

fn scan_enable(opts: &Vec<CommandOption>) -> (r: Result<(i16, Option<u64>), String>)
    ensures
        match enable_scan(opts@, 1, None) {
            Ok(v) => r matches Ok(x) && x == v,
            Err(m) => r matches Err(e) && e@ == m,
        },
{
    let mut day: i16 = 1;
    let mut channel: Option<u64> = None;
    let mut i: usize = 0;
    assert(opts@.skip(0) == opts@);
    while i < opts.len()
        invariant
            i <= opts.len(),
            enable_scan(opts@, 1, None) == enable_scan(opts@.skip(i as int), day, channel),
        decreases opts.len() - i,
    {
        let ghost rest = opts@.skip(i as int);
        assert(rest[0] == opts@[i as int]);
        assert(rest.drop_first() == opts@.skip(i + 1));
        proof {
            reveal_strlit("day");
            reveal_strlit("channel");
            assert("day"@.len() != "channel"@.len());
        }
        let o = &opts[i];
        if text_eq(o.name.as_str(), "day") {
            if let OptionValue::String(v) = &o.value {
                let chars = chars_of(v.as_str());
                match parse_i16(&chars) {
                    Some(d) => {
                        if !(0 <= d && d <= 6) {
                            return Err(String::from_str("Day must be between 0 (Sunday) and 6 (Saturday)."));
                        }
                        day = d;
                    },
                    None => return Err(String::from_str("Invalid day of the week.")),
                }
            }
        } else if text_eq(o.name.as_str(), "channel") {
            if let OptionValue::Channel(id) = &o.value {
                channel = Some(*id);
            }
        }
        i = i + 1;
    }
    assert(opts@.skip(i as int).len() == 0);
    Ok((day, channel))
}

/// Reads the options of `/digest`.
pub fn parse_request(options: &Vec<CommandOption>) -> (r: DigestRequest)
    ensures
        match digest_request(options@) {
            Ok(req) => r == req,
            Err(m) => r matches DigestRequest::Rejected { message } && message@ == m,
        },
{
    if options.len() == 0 {
        return DigestRequest::Invalid;
    }
    let sub = &options[0];
    proof {
        reveal_strlit("enable");
        reveal_strlit("disable");
        reveal_strlit("status");
        assert("enable"@.len() != "disable"@.len());
        assert("enable"@[0] != "status"@[0]);
        assert("disable"@.len() != "status"@.len());
    }
    if text_eq(sub.name.as_str(), "enable") {
        let scanned = match &sub.value {
            OptionValue::SubCommand(opts) => scan_enable(opts),
            _ => {
                let empty: Vec<CommandOption> = Vec::new();
                assert(empty@ =~= Seq::<CommandOption>::empty());
                scan_enable(&empty)
            },
        };
        match scanned {
            Ok((day, Some(ch))) => DigestRequest::Enable { day, channel_id: ch },
            Ok((_, None)) => DigestRequest::Rejected { message: String::from_str("A channel must be specified.") },
            Err(m) => DigestRequest::Rejected { message: m },
        }
    } else if text_eq(sub.name.as_str(), "disable") {
        DigestRequest::Disable
    } else if text_eq(sub.name.as_str(), "status") {
        DigestRequest::Status
    } else {
        DigestRequest::Unknown
    }
}

/// `Weekly digest will be sent on **<day>s** to <#<channel>>.`
pub open spec fn enabled_text(day: i16, channel: u64) -> Seq<char> {
    "Weekly digest will be sent on **"@ + day_name(day) + "s** to <#"@ + dec(channel as nat) + ">."@
}

pub fn enabled_message(day: i16, channel: u64) -> (r: String)
    ensures
        r@ == enabled_text(day, channel),
{
    let mut s = String::from_str("Weekly digest will be sent on **");
    s.append(to_day_name(day));
    s.append("s** to <#");
    let c = string_of(&dec_u64(channel));
    s.append(c.as_str());
    s.append(">.");
    s
}

/// The status text: the day and channel when the digest is on.
pub open spec fn status_text(enabled: bool, day: i16, channel: Option<Seq<char>>) -> Seq<char> {
    if enabled {
        "**Enabled:** ✅ Yes\n**Day:** "@ + day_name(day) + "\n**Channel:** "@ + match channel {
            Some(c) => "<#"@ + c + ">"@,
            None => "Unknown"@,
        }
    } else {
        "**Enabled:** ❌ No"@
    }
}

pub fn status_message(enabled: bool, day: i16, channel: Option<&str>) -> (r: String)
    ensures
        r@ == status_text(enabled, day, match channel { Some(c) => Some(c@), None => None }),
{
    if enabled {
        let mut s = String::from_str("**Enabled:** ✅ Yes\n**Day:** ");
        s.append(to_day_name(day));
        s.append("\n**Channel:** ");
        match channel {
            Some(c) => {
                s.append("<#");
                s.append(c);
                s.append(">");
            },
            None => s.append("Unknown"),
        }
        s
    } else {
        String::from_str("**Enabled:** ❌ No")
    }
}

} // verus!
