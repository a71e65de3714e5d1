//! The `/reminder` command: what it is asked to do, and the texts of its
//! replies.

use vstd::prelude::*;
use crate::options::{CommandOption, OptionValue, int_under, str_under, opt_int, opt_str, opt_int_or_zero};
use crate::digest::sub_options;
use crate::reminder::{RecurringParams, ValidatedRecurring, EventTimeCheck, PendingCheck, minutes_text,
    format_minutes, MAX_PENDING_REMINDERS};
use crate::text::{chars_of, string_of, text_eq, join, views, join_chars};
use crate::num::{int_text, text_i64};
use crate::time::Timestamp;

verus! {

/// What `/reminder` is asked to do.
pub enum ReminderRequest {
    SetEvent { event_id: i64, days: i64, hours: i64, minutes: i64 },
    SetTimer { message: String, days: i64, hours: i64, minutes: i64 },
    SetRecurring { params: RecurringParams },
    List,
    Cancel { number: i64 },
    /// The options are not those of any subcommand; the message says how.
    Invalid { message: String },
}

pub open spec fn int_or(opts: Seq<CommandOption>, name: Seq<char>, default: i64) -> i64 {
    match int_under(opts, name) {
        Some(v) => v,
        None => default,
    }
}

pub open spec fn opt_text(o: Option<String>) -> Option<Seq<char>> {
    match o {
        Some(s) => Some(s@),
        None => None,
    }
}

/// The request that the options of a subcommand of `set` ask for, when that
/// subcommand has options.
pub open spec fn set_request_ok(sub: CommandOption, r: ReminderRequest) -> bool {
    let o = sub_options(sub);
    if sub.name@ == "event"@ {
        if sub.value is SubCommand {
            r matches ReminderRequest::SetEvent { event_id, days, hours, minutes }
                && event_id == int_or(o, "event_id"@, 0) && days == int_or(o, "days"@, 0)
                && hours == int_or(o, "hours"@, 0) && minutes == int_or(o, "minutes"@, 0)
        } else {
            r matches ReminderRequest::Invalid { message } && message@ == "Missing subcommand options"@
        }
    } else if sub.name@ == "timer"@ {
        if sub.value is SubCommand {
            r matches ReminderRequest::SetTimer { message, days, hours, minutes }
                && message@ == match str_under(o, "message"@) { Some(t) => t, None => seq![] }
                && days == int_or(o, "days"@, 0) && hours == int_or(o, "hours"@, 0)
                && minutes == int_or(o, "minutes"@, 0)
        } else {
            r matches ReminderRequest::Invalid { message } && message@ == "Missing subcommand options"@
        }
    } else if sub.name@ == "recurring"@ {
        if sub.value is SubCommand {
            r matches ReminderRequest::SetRecurring { params }
                && params.for_hours == int_or(o, "for_hours"@, 1)
                && params.every_minutes == int_or(o, "every_minutes"@, 0)
                && params.delay_minutes == int_or(o, "delay_minutes"@, 0)
                && opt_text(params.message) == str_under(o, "message"@)
        } else {
            r matches ReminderRequest::Invalid { message } && message@ == "Missing subcommand options"@
        }
    } else {
        r matches ReminderRequest::Invalid { message } && message@ == "Unknown set sub-command"@
    }
}

/// The request that the options of `/reminder` ask for: the first option names
/// the subcommand (or group), and later options replace earlier ones of the
/// same name.
pub open spec fn reminder_request_ok(opts: Seq<CommandOption>, r: ReminderRequest) -> bool {
    if opts.len() == 0 {
        r matches ReminderRequest::Invalid { message } && message@ == "Missing command options"@
    } else {
        let first = opts[0];
        if first.name@ == "set"@ {
            match first.value {
                OptionValue::SubCommandGroup(g) => if g@.len() == 0 {
                    r matches ReminderRequest::Invalid { message } && message@ == "Missing set sub-command"@
                } else {
                    set_request_ok(g@[0], r)
                },
                _ => r matches ReminderRequest::Invalid { message } && message@ == "Missing set sub-command group"@,
            }
        } else if first.name@ == "list"@ {
            r is List
        } else if first.name@ == "cancel"@ {
            if first.value is SubCommand {
                r matches ReminderRequest::Cancel { number } && number == int_or(sub_options(first), "number"@, 0)
            } else {
                r matches ReminderRequest::Invalid { message } && message@ == "Missing subcommand options"@
            }
        } else {
            r matches ReminderRequest::Invalid { message } && message@ == "Unknown reminder sub-command"@
        }
    }
}

fn invalid(m: &str) -> (r: ReminderRequest)
    ensures
        r matches ReminderRequest::Invalid { message } && message@ == m@,
{
    ReminderRequest::Invalid { message: String::from_str(m) }
}

fn int_or_default(opts: &Vec<CommandOption>, name: &str, default: i64) -> (r: i64)
    ensures
        r == int_or(opts@, name@, default),
{
    match opt_int(opts, name) {
        Some(v) => v,
        None => default,
    }
}

fn parse_set(sub: &CommandOption) -> (r: ReminderRequest)
    ensures
        set_request_ok(*sub, r),
{
    let name = sub.name.as_str();
    let is_event = text_eq(name, "event");
    let is_timer = text_eq(name, "timer");
    let is_recurring = text_eq(name, "recurring");
    if !is_event && !is_timer && !is_recurring {
        return invalid("Unknown set sub-command");
    }
    let opts = match &sub.value {
        OptionValue::SubCommand(v) => v,
        _ => return invalid("Missing subcommand options"),
    };
    if is_event {
        ReminderRequest::SetEvent {
            event_id: opt_int_or_zero(opts, "event_id"),
            days: int_or_default(opts, "days", 0),
            hours: int_or_default(opts, "hours", 0),
            minutes: int_or_default(opts, "minutes", 0),
        }
    } else if is_timer {
        let message = match opt_str(opts, "message") {
            Some(m) => m,
            None => String::new(),
        };
        ReminderRequest::SetTimer {
            message,
            days: int_or_default(opts, "days", 0),
            hours: int_or_default(opts, "hours", 0),
            minutes: int_or_default(opts, "minutes", 0),
        }
    } else {
        ReminderRequest::SetRecurring {
            params: RecurringParams {
                for_hours: int_or_default(opts, "for_hours", 1),
                every_minutes: int_or_default(opts, "every_minutes", 0),
                delay_minutes: int_or_default(opts, "delay_minutes", 0),
                message: opt_str(opts, "message"),
            },
        }
    }
}

/// Reads the options of `/reminder`.
pub fn parse_reminder_request(options: &Vec<CommandOption>) -> (r: ReminderRequest)
    ensures
        reminder_request_ok(options@, r),
{
    if options.len() == 0 {
        return invalid("Missing command options");
    }
    let first = &options[0];
    let name = first.name.as_str();
    if text_eq(name, "set") {
        match &first.value {
            OptionValue::SubCommandGroup(g) => {
                if g.len() == 0 {
                    invalid("Missing set sub-command")
                } else {
                    parse_set(&g[0])
                }
            },
            _ => invalid("Missing set sub-command group"),
        }
    } else if text_eq(name, "list") {
        ReminderRequest::List
    } else if text_eq(name, "cancel") {
        match &first.value {
            OptionValue::SubCommand(v) => ReminderRequest::Cancel { number: int_or_default(v, "number", 0) },
            _ => invalid("Missing subcommand options"),
        }
    } else {
        invalid("Unknown reminder sub-command")
    }
}

// ── Replies ─────────────────────────────────────────────────────────────────

/// `<t:<secs>:<style>>`, a Discord timestamp.
pub open spec fn discord_ts(secs: i64, style: Seq<char>) -> Seq<char> {
    "<t:"@ + int_text(secs as int) + ":"@ + style + ">"@
}

fn discord_ts_exec(secs: i64, style: &str) -> (r: String)
    ensures
        r@ == discord_ts(secs, style@),
{
    let mut s = String::from_str("<t:");
    let t = string_of(&text_i64(secs));
    s.append(t.as_str());
    s.append(":");
    s.append(style);
    s.append(">");
    s
}

/// The reply when the times of an event rule out a reminder; `start` is the
/// event's start as a Unix timestamp.
pub open spec fn event_time_text(check: EventTimeCheck, title: Seq<char>, start: i64) -> Seq<char> {
    match check {
        EventTimeCheck::AlreadyEnded => "⏰ **"@ + title + "** has already ended."@,
        EventTimeCheck::AlreadyStarted => "⏰ **"@ + title + "** has already started "@ + discord_ts(start, "R"@)
            + ". You can no longer set a reminder."@,
        EventTimeCheck::FiresInPast => "Reminder would fire in the past. Try a shorter offset — the event starts "@
            + discord_ts(start, "R"@) + "."@,
        EventTimeCheck::TooFar => "Reminder time is too far in the future (max 90 days)."@,
        EventTimeCheck::Allowed { .. } => seq![],
    }
}

pub fn event_time_message(check: &EventTimeCheck, title: &str, start: i64) -> (r: String)
    requires
        !(check is Allowed),
    ensures
        r@ == event_time_text(*check, title@, start),
{
    match check {
        EventTimeCheck::AlreadyEnded => {
            let mut s = String::from_str("⏰ **");
            s.append(title);
            s.append("** has already ended.");
            s
        },
        EventTimeCheck::AlreadyStarted => {
            let mut s = String::from_str("⏰ **");
            s.append(title);
            s.append("** has already started ");
            let t = discord_ts_exec(start, "R");
            s.append(t.as_str());
            s.append(". You can no longer set a reminder.");
            s
        },
        EventTimeCheck::FiresInPast => {
            let mut s = String::from_str("Reminder would fire in the past. Try a shorter offset — the event starts ");
            let t = discord_ts_exec(start, "R");
            s.append(t.as_str());
            s.append(".");
            s
        },
        EventTimeCheck::TooFar => String::from_str("Reminder time is too far in the future (max 90 days)."),
        EventTimeCheck::Allowed { .. } => String::new(),
    }
}

/// The reply when the user's pending reminders rule out a new one.
pub open spec fn pending_text(check: PendingCheck, title: Seq<char>) -> Seq<char> {
    match check {
        PendingCheck::Duplicate => "✅ You already have a reminder set for **"@ + title + "**."@,
        PendingCheck::QuotaExceeded => "⚠️ You've reached the maximum of **"@ + int_text(MAX_PENDING_REMINDERS as int)
            + " pending reminders**. Wait for some to fire before adding more."@,
        PendingCheck::Create => seq![],
    }
}

pub fn pending_message(check: &PendingCheck, title: &str) -> (r: String)
    requires
        !(check is Create),
    ensures
        r@ == pending_text(*check, title@),
{
    match check {
        PendingCheck::Duplicate => {
            let mut s = String::from_str("✅ You already have a reminder set for **");
            s.append(title);
            s.append("**.");
            s
        },
        PendingCheck::QuotaExceeded => {
            let mut s = String::from_str("⚠️ You've reached the maximum of **");
            let n = string_of(&text_i64(MAX_PENDING_REMINDERS as i64));
            s.append(n.as_str());
            s.append(" pending reminders**. Wait for some to fire before adding more.");
            s
        },
        PendingCheck::Create => String::new(),
    }
}

/// The reply when an event reminder was stored.
pub fn event_reminder_set_message(title: &str, start: i64, remind_at: i64) -> (r: String)
    ensures
        r@ == "✅ **Reminder set!**\n**"@ + title@ + "** starts "@ + discord_ts(start, "F"@)
            + "\nYou'll be notified "@ + discord_ts(remind_at, "R"@),
{
    let mut s = String::from_str("✅ **Reminder set!**\n**");
    s.append(title);
    s.append("** starts ");
    let a = discord_ts_exec(start, "F");
    s.append(a.as_str());
    s.append("\nYou'll be notified ");
    let b = discord_ts_exec(remind_at, "R");
    s.append(b.as_str());
    s
}

/// The reply when a timer was stored.
pub fn timer_set_message(remind_at: i64, message: &str) -> (r: String)
    ensures
        r@ == "✅ **Timer set!**\nYou'll be notified "@ + discord_ts(remind_at, "R"@) + "\n> "@ + message@,
{
    let mut s = String::from_str("✅ **Timer set!**\nYou'll be notified ");
    let t = discord_ts_exec(remind_at, "R");
    s.append(t.as_str());
    s.append("\n> ");
    s.append(message);
    s
}

/// The reply when a recurring reminder was stored at the second `now`: its
/// interval, how many hours it runs, how many times it fires, its first and
/// last fire, and its message quoted on a line of its own.
pub open spec fn recurring_set_text(v: ValidatedRecurring, now: i64) -> Seq<char> {
    "🔁 **Recurring reminder set!**\nEvery "@ + minutes_text(v.interval_secs / 60) + " · for "@
        + int_text((v.repeat_until.secs - now) / 3600) + " hours · **"@ + int_text(v.fire_count as int)
        + " fires total**\nFirst: "@ + discord_ts(v.first_remind_at.secs, "R"@) + " · Last: "@
        + discord_ts(v.repeat_until.secs, "R"@) + "\n"@
        + match v.message {
            Some(m) => "\n> "@ + m@,
            None => seq![],
        }
}

pub fn recurring_set_message(v: &ValidatedRecurring, now: i64) -> (r: String)
    requires
        v.interval_secs >= 0,
        now <= v.repeat_until.secs,
        v.repeat_until.secs - now <= i64::MAX,
    ensures
        r@ == recurring_set_text(*v, now),
{
    let mut s = String::from_str("🔁 **Recurring reminder set!**\nEvery ");
    let every = format_minutes(v.interval_secs / 60);
    s.append(every.as_str());
    s.append(" · for ");
    let hours = string_of(&text_i64((v.repeat_until.secs - now) / 3600));
    s.append(hours.as_str());
    s.append(" hours · **");
    let count = string_of(&text_i64(v.fire_count as i64));
    s.append(count.as_str());
    s.append(" fires total**\nFirst: ");
    let first = discord_ts_exec(v.first_remind_at.secs, "R");
    s.append(first.as_str());
    s.append(" · Last: ");
    let last = discord_ts_exec(v.repeat_until.secs, "R");
    s.append(last.as_str());
    s.append("\n");
    match &v.message {
        Some(m) => {
            s.append("\n> ");
            s.append(m.as_str());
        },
        None => {},
    }
    s
}

// ── The list of reminders ────────────────────────────────────────────────────

/// `**<n>** <label>` for the `i`-th reminder of a page (counting from 0).
pub open spec fn list_line(i: int, label: Seq<char>) -> Seq<char> {
    "**"@ + int_text(i + 1) + "** "@ + label
}

pub open spec fn label_views(labels: Seq<String>) -> Seq<Seq<char>> {
    Seq::new(labels.len(), |i: int| labels[i]@)
}

/// The text of a page of the list, from the labels of its reminders.
pub open spec fn list_text(labels: Seq<Seq<char>>) -> Seq<char> {
    "**Your reminders ("@ + int_text(labels.len() as int) + " active)**\n\n"@
        + join(Seq::new(labels.len(), |i: int| list_line(i, labels[i])), "\n\n"@)
        + "\n\nUse `/reminder cancel` with the number to remove one (use `/reminder list` to find the number)."@
}

pub fn list_content(labels: &Vec<String>) -> (r: String)
    requires
        labels.len() < 0x1_0000_0000,
    ensures
        r@ == list_text(label_views(labels@)),
{
    let ghost lv = label_views(labels@);
    let ghost lines = Seq::new(lv.len(), |i: int| list_line(i, lv[i]));
    let mut vs: Vec<Vec<char>> = Vec::new();
    let mut i: usize = 0;
    while i < labels.len()
        invariant
            i <= labels.len() < 0x1_0000_0000,
            lv == label_views(labels@),
            lines == Seq::new(lv.len(), |i: int| list_line(i, lv[i])),
            views(vs@) == lines.take(i as int),
        decreases labels.len() - i,
    {
        let mut line = String::from_str("**");
        let n = string_of(&text_i64(i as i64 + 1));
        line.append(n.as_str());
        line.append("** ");
        line.append(labels[i].as_str());
        let ghost before = views(vs@);
        vs.push(chars_of(line.as_str()));
        assert(views(vs@) =~= before.push(lines[i as int]));
        assert(lines.take(i + 1) =~= lines.take(i as int).push(lines[i as int]));
        i = i + 1;
    }
    assert(lines.take(labels.len() as int) =~= lines);
    let sep = chars_of("\n\n");
    let body = string_of(&join_chars(&vs, &sep));
    let mut s = String::from_str("**Your reminders (");
    let count = string_of(&text_i64(labels.len() as i64));
    s.append(count.as_str());
    s.append(" active)**\n\n");
    s.append(body.as_str());
    s.append("\n\nUse `/reminder cancel` with the number to remove one (use `/reminder list` to find the number).");
    s
}

/// `reminder_list:<cursor>`, the id of the button to the next page of the list.
pub fn next_page_id(cursor: i64) -> (r: String)
    ensures
        r@ == "reminder_list:"@ + int_text(cursor as int),
{
    let mut s = String::from_str("reminder_list:");
    let t = string_of(&text_i64(cursor));
    s.append(t.as_str());
    s
}

/// `No reminder #<number>. You have <count> active — use `/reminder list` to see them.`
pub fn no_such_reminder_message(number: i64, count: usize) -> (r: String)
    requires
        count < 0x1_0000_0000,
    ensures
        r@ == "No reminder #"@ + int_text(number as int) + ". You have "@ + int_text(count as int)
            + " active — use `/reminder list` to see them."@,
{
    let mut s = String::from_str("No reminder #");
    let n = string_of(&text_i64(number));
    s.append(n.as_str());
    s.append(". You have ");
    let c = string_of(&text_i64(count as i64));
    s.append(c.as_str());
    s.append(" active — use `/reminder list` to see them.");
    s
}

/// The reply when a reminder was cancelled, with its label.
pub fn cancelled_message(label: &str) -> (r: String)
    ensures
        r@ == "🗑️ **Reminder cancelled.**\n"@ + label@,
{
    let mut s = String::from_str("🗑️ **Reminder cancelled.**\n");
    s.append(label);
    s
}

// ── Stored reminders ─────────────────────────────────────────────────────────

/// What kind of reminder is stored.
#[derive(Clone, Copy, PartialEq, Eq, Structural)]
pub enum StoredKind {
    Event,
    Timer,
    Recurring,
}

/// A reminder as it is stored when it is created: nothing has been sent yet,
/// and the store gives it its id.
pub struct NewReminder {
    pub user_id: String,
    pub kind: StoredKind,
    pub ctftime_id: Option<i64>,
    pub event_title: Option<String>,
    pub event_start_at: Option<Timestamp>,
    pub message: Option<String>,
    pub remind_at: Timestamp,
    pub interval_secs: Option<i64>,
    pub repeat_until: Option<Timestamp>,
    pub fire_count_max: Option<i32>,
    pub created_at: Timestamp,
}

fn clone_text(o: &Option<String>) -> (r: Option<String>)
    ensures
        opt_text(r) == opt_text(*o),
{
    match o {
        Some(s) => Some(s.clone()),
        None => None,
    }
}

/// The reminder stored for an event: `remind_at` before its start.
pub fn event_record(user_id: &str, ctftime_id: i64, title: &str, start: Timestamp, remind_at: Timestamp,
    now: Timestamp) -> (r: NewReminder)
    ensures
        r.user_id@ == user_id@,
        r.kind == StoredKind::Event,
        r.ctftime_id == Some(ctftime_id),
        opt_text(r.event_title) == Some(title@),
        r.event_start_at == Some(start),
        r.message is None,
        r.remind_at == remind_at,
        r.interval_secs is None,
        r.repeat_until is None,
        r.fire_count_max is None,
        r.created_at == now,
{
    NewReminder {
        user_id: String::from_str(user_id),
        kind: StoredKind::Event,
        ctftime_id: Some(ctftime_id),
        event_title: Some(String::from_str(title)),
        event_start_at: Some(start),
        message: None,
        remind_at,
        interval_secs: None,
        repeat_until: None,
        fire_count_max: None,
        created_at: now,
    }
}

/// The one-shot reminder stored for a timer that fires `offset_secs` after `now`.
pub fn timer_record(user_id: &str, message: &str, now: Timestamp, offset_secs: i64) -> (r: NewReminder)
    requires
        now.wf(),
        now.can_shift(offset_secs as int),
    ensures
        r.user_id@ == user_id@,
        r.kind == StoredKind::Timer,
        r.ctftime_id is None,
        r.event_title is None,
        r.event_start_at is None,
        opt_text(r.message) == Some(message@),
        r.remind_at.wf(),
        r.remind_at.total() == now.total() + offset_secs * 1_000_000_000,
        r.remind_at.secs == now.secs + offset_secs,
        r.interval_secs is None,
        r.repeat_until is None,
        r.fire_count_max is None,
        r.created_at == now,
{
    NewReminder {
        user_id: String::from_str(user_id),
        kind: StoredKind::Timer,
        ctftime_id: None,
        event_title: None,
        event_start_at: None,
        message: Some(String::from_str(message)),
        remind_at: now.shift(offset_secs),
        interval_secs: None,
        repeat_until: None,
        fire_count_max: None,
        created_at: now,
    }
}

/// The recurring reminder stored for a validated schedule.
pub fn recurring_record(user_id: &str, v: &ValidatedRecurring, now: Timestamp) -> (r: NewReminder)
    ensures
        r.user_id@ == user_id@,
        r.kind == StoredKind::Recurring,
        r.ctftime_id is None,
        r.event_title is None,
        r.event_start_at is None,
        opt_text(r.message) == opt_text(v.message),
        r.remind_at == v.first_remind_at,
        r.interval_secs == Some(v.interval_secs),
        r.repeat_until == Some(v.repeat_until),
        r.fire_count_max == Some(v.fire_count),
        r.created_at == now,
{
    NewReminder {
        user_id: String::from_str(user_id),
        kind: StoredKind::Recurring,
        ctftime_id: None,
        event_title: None,
        event_start_at: None,
        message: clone_text(&v.message),
        remind_at: v.first_remind_at,
        interval_secs: Some(v.interval_secs),
        repeat_until: Some(v.repeat_until),
        fire_count_max: Some(v.fire_count),
        created_at: now,
    }
}

} // verus!
