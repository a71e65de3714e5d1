//! Reminder rules: recurring-reminder validation, timer and event offsets,
//! the checks before an event reminder is stored, and reminder-list paging.
//! Times are Unix timestamps in seconds.

use vstd::prelude::*;
use crate::num::{int_text, text_i64, parse_i64, parse_int};
use crate::text::{chars_of, string_of};
use crate::time::{Timestamp, MAX_TIMESTAMP, MIN_TIMESTAMP, MAX_SPAN_SECS, SECS_PER_DAY};

verus! {

pub const MAX_FIRE_COUNT: i32 = 60;
pub const MAX_ACTIVE_RECURRING: i64 = 10;
pub const MAX_REMINDER_DAYS: i64 = 90;
pub const MAX_PENDING_REMINDERS: usize = 10;

#[derive(PartialEq, Eq, Structural)]
pub enum ReminderValidationError {
    IntervalTooShort,
    IntervalTooLong,
    DurationOutOfRange,
    TooManyFires(i64),
    DelayExceedsDuration,
    DelayNegative,
    MessageTooLong,
    TimeTooFar,
}

impl ReminderValidationError {
    /// The message shown to the user.
    pub fn message(&self) -> (r: String)
        ensures
            r@ == validation_message(*self),
    {
        match self {
            ReminderValidationError::IntervalTooShort => String::from_str("'every_minutes' must be at least 1."),
            ReminderValidationError::IntervalTooLong => String::from_str("'every_minutes' cannot exceed 43200 (30 days)."),
            ReminderValidationError::DurationOutOfRange => String::from_str("'for_hours' must be between 1 and 720 (30 days)."),
            ReminderValidationError::TooManyFires(n) => {
                let mut s = String::from_str("Would fire ");
                let digits = text_i64(*n);
                let d = string_of(&digits);
                s.append(d.as_str());
                s.append(" times — max is 60. Use a longer interval or shorter duration.");
                s
            },
            ReminderValidationError::DelayExceedsDuration => String::from_str("Delay must be less than the total duration."),
            ReminderValidationError::DelayNegative => String::from_str("Delay must be non-negative."),
            ReminderValidationError::MessageTooLong => String::from_str("Message must be 200 characters or less."),
            ReminderValidationError::TimeTooFar => String::from_str("Reminder time is too far in the future (max 90 days)."),
        }
    }
}

pub open spec fn validation_message(e: ReminderValidationError) -> Seq<char> {
    match e {
        ReminderValidationError::IntervalTooShort => "'every_minutes' must be at least 1."@,
        ReminderValidationError::IntervalTooLong => "'every_minutes' cannot exceed 43200 (30 days)."@,
        ReminderValidationError::DurationOutOfRange => "'for_hours' must be between 1 and 720 (30 days)."@,
        ReminderValidationError::TooManyFires(n) => "Would fire "@ + int_text(n as int)
            + " times — max is 60. Use a longer interval or shorter duration."@,
        ReminderValidationError::DelayExceedsDuration => "Delay must be less than the total duration."@,
        ReminderValidationError::DelayNegative => "Delay must be non-negative."@,
        ReminderValidationError::MessageTooLong => "Message must be 200 characters or less."@,
        ReminderValidationError::TimeTooFar => "Reminder time is too far in the future (max 90 days)."@,
    }
}

pub struct RecurringParams {
    pub for_hours: i64,
    pub every_minutes: i64,
    /// 0 = fire at the first interval
    pub delay_minutes: i64,
    pub message: Option<String>,
}

pub struct ValidatedRecurring {
    pub interval_secs: i64,
    pub repeat_until: Timestamp,
    pub first_remind_at: Timestamp,
    pub fire_count: i32,
    pub message: Option<String>,
}

pub open spec fn message_len(m: Option<String>) -> nat {
    match m {
        Some(s) => s@.len(),
        None => 0,
    }
}

/// Whether the products that the validation computes first fit in an `i64`.
pub open spec fn recurring_fits(p: RecurringParams) -> bool {
    &&& i64::MIN <= p.every_minutes * 60 <= i64::MAX
    &&& i64::MIN <= p.for_hours * 3600 <= i64::MAX
    &&& i64::MIN <= p.delay_minutes * 60 <= i64::MAX
}

/// Whether the checks made before any time is computed pass.
pub open spec fn recurring_checks_pass(p: RecurringParams) -> bool {
    &&& 1 <= p.every_minutes <= 43200
    &&& 1 <= p.for_hours <= 720
    &&& p.delay_minutes >= 0
    &&& p.delay_minutes * 60 < p.for_hours * 3600
    &&& message_len(p.message) <= 200
}

/// The offsets from now of the end of the series and of the first fire.
pub open spec fn recurring_offsets(p: RecurringParams) -> (int, int) {
    (p.for_hours * 3600, if p.delay_minutes > 0 { p.delay_minutes * 60 } else { p.every_minutes * 60 })
}

/// The outcome of validating a recurring reminder at the second `now`: the
/// interval, the seconds of the end of the series and of the first fire, and the
/// number of fires.
pub open spec fn recurring_result(p: RecurringParams, now: int) -> Result<(int, int, int, int), ReminderValidationError> {
    let interval = p.every_minutes * 60;
    let duration = p.for_hours * 3600;
    let delay = p.delay_minutes * 60;
    if p.every_minutes < 1 {
        Err(ReminderValidationError::IntervalTooShort)
    } else if p.every_minutes > 43200 {
        Err(ReminderValidationError::IntervalTooLong)
    } else if !(1 <= p.for_hours <= 720) {
        Err(ReminderValidationError::DurationOutOfRange)
    } else if p.delay_minutes < 0 {
        Err(ReminderValidationError::DelayNegative)
    } else if delay >= duration {
        Err(ReminderValidationError::DelayExceedsDuration)
    } else if message_len(p.message) > 200 {
        Err(ReminderValidationError::MessageTooLong)
    } else {
        let repeat_until = now + duration;
        let first = now + if delay > 0 { delay } else { interval };
        let window = repeat_until - first;
        if window < 0 {
            Err(ReminderValidationError::DelayExceedsDuration)
        } else {
            let count = window / interval + 1;
            if count > 60 {
                Err(ReminderValidationError::TooManyFires(count as i64))
            } else {
                Ok((interval, repeat_until, first, count))
            }
        }
    }
}

/// Checks a recurring reminder and computes its schedule.
pub fn validate_recurring(params: RecurringParams, now: Timestamp) -> (r: Result<ValidatedRecurring, ReminderValidationError>)
    requires
        recurring_fits(params),
        now.wf(),
        recurring_checks_pass(params) ==> now.secs + recurring_offsets(params).0 <= MAX_TIMESTAMP
            && now.secs + recurring_offsets(params).1 <= MAX_TIMESTAMP,
    ensures
        match recurring_result(params, now.secs as int) {
            Ok((interval, until, first, count)) => r matches Ok(v)
                && v.interval_secs == interval && v.repeat_until.secs == until
                && v.first_remind_at.secs == first && v.fire_count == count
                && v.repeat_until.nanos == now.nanos && v.first_remind_at.nanos == now.nanos
                && v.message == params.message,
            Err(e) => r == Err::<ValidatedRecurring, ReminderValidationError>(e),
        },
        r matches Ok(v) ==> {
            &&& 1 <= v.fire_count <= MAX_FIRE_COUNT
            &&& v.interval_secs > 0
            &&& now.secs < v.first_remind_at.secs <= v.repeat_until.secs
            &&& v.repeat_until.secs == now.secs + params.for_hours * 3600
            &&& v.first_remind_at.secs + (v.fire_count - 1) * v.interval_secs <= v.repeat_until.secs
            &&& v.repeat_until.secs < v.first_remind_at.secs + v.fire_count * v.interval_secs
        },
{
    let interval_secs = params.every_minutes * 60;
    let duration_secs = params.for_hours * 3600;
    let delay_secs = params.delay_minutes * 60;

    if params.every_minutes < 1 {
        return Err(ReminderValidationError::IntervalTooShort);
    }
    if params.every_minutes > 43200 {
        return Err(ReminderValidationError::IntervalTooLong);
    }
    if !(1 <= params.for_hours && params.for_hours <= 720) {
        return Err(ReminderValidationError::DurationOutOfRange);
    }
    if params.delay_minutes < 0 {
        return Err(ReminderValidationError::DelayNegative);
    }
    if delay_secs >= duration_secs {
        return Err(ReminderValidationError::DelayExceedsDuration);
    }
    let too_long = match &params.message {
        Some(m) => m.as_str().unicode_len() > 200,
        None => false,
    };
    if too_long {
        return Err(ReminderValidationError::MessageTooLong);
    }

    let repeat_until = now.shift(duration_secs);
    let first_remind_at = now.shift(if delay_secs > 0 { delay_secs } else { interval_secs });

    // Count = floor((repeat_until - first_remind_at) / interval) + 1
    let window_secs = repeat_until.secs - first_remind_at.secs;
    if window_secs < 0 {
        return Err(ReminderValidationError::DelayExceedsDuration);
    }
    let fire_count = (window_secs / interval_secs) + 1;

    if fire_count > MAX_FIRE_COUNT as i64 {
        return Err(ReminderValidationError::TooManyFires(fire_count));
    }
    proof {
        vstd::arithmetic::div_mod::lemma_fundamental_div_mod(window_secs as int, interval_secs as int);
        let q = window_secs / interval_secs;
        let m = window_secs % interval_secs;
        assert(0 <= m < interval_secs);
        assert(q * interval_secs == interval_secs * q) by (nonlinear_arith);
        assert((q + 1) * interval_secs == q * interval_secs + interval_secs) by (nonlinear_arith);
    }
    Ok(ValidatedRecurring {
        interval_secs,
        repeat_until,
        first_remind_at,
        fire_count: fire_count as i32,
        message: params.message,
    })
}

/// `<h>h`, `<h>h <m>m` or `<m>m` for a number of minutes.
pub open spec fn minutes_text(m: int) -> Seq<char> {
    if m >= 60 {
        if m % 60 == 0 {
            int_text(m / 60) + "h"@
        } else {
            int_text(m / 60) + "h "@ + int_text(m % 60) + "m"@
        }
    } else {
        int_text(m) + "m"@
    }
}

pub fn format_minutes(m: i64) -> (r: String)
    ensures
        r@ == minutes_text(m as int),
{
    if m >= 60 {
        let h = m / 60;
        let mm = m % 60;
        let hd = text_i64(h);
        let mut s = string_of(&hd);
        if mm == 0 {
            s.append("h");
        } else {
            s.append("h ");
            let md = text_i64(mm);
            let ms = string_of(&md);
            s.append(ms.as_str());
            s.append("m");
        }
        s
    } else {
        let d = text_i64(m);
        let mut s = string_of(&d);
        s.append("m");
        s
    }
}

// ── One-shot timers ──────────────────────────────────────────────────────────

/// Why a timer cannot be set.
#[derive(PartialEq, Eq, Structural)]
pub enum TimerError {
    MessageTooLong,
    NegativeTime,
    InvalidTime,
    Overflow,
    NoTime,
    TooFar,
}

impl TimerError {
    /// The message shown to the user.
    pub fn message(&self) -> (r: String)
        ensures
            r@ == timer_message(*self),
    {
        match self {
            TimerError::MessageTooLong => String::from_str("Message must be 200 characters or less."),
            TimerError::NegativeTime => String::from_str("Time values must be non-negative."),
            TimerError::InvalidTime => String::from_str("Invalid time: days ≤ 90, hours ≤ 23, minutes ≤ 59."),
            TimerError::Overflow => String::from_str("Time overflow"),
            TimerError::NoTime => String::from_str("Specify at least one of: days, hours, minutes."),
            TimerError::TooFar => String::from_str("Reminder time is too far in the future (max 90 days)."),
        }
    }
}

pub open spec fn timer_message(e: TimerError) -> Seq<char> {
    match e {
        TimerError::MessageTooLong => "Message must be 200 characters or less."@,
        TimerError::NegativeTime => "Time values must be non-negative."@,
        TimerError::InvalidTime => "Invalid time: days ≤ 90, hours ≤ 23, minutes ≤ 59."@,
        TimerError::Overflow => "Time overflow"@,
        TimerError::NoTime => "Specify at least one of: days, hours, minutes."@,
        TimerError::TooFar => "Reminder time is too far in the future (max 90 days)."@,
    }
}

/// How far ahead a timer fires, in seconds, or why it cannot be set.
pub open spec fn timer_result(message_len: int, days: int, hours: int, minutes: int) -> Result<int, TimerError> {
    if message_len > 200 {
        Err(TimerError::MessageTooLong)
    } else if days < 0 || hours < 0 || minutes < 0 {
        Err(TimerError::NegativeTime)
    } else if days > 90 || hours > 23 || minutes > 59 {
        Err(TimerError::InvalidTime)
    } else if days * 86400 + hours * 3600 + minutes * 60 == 0 {
        Err(TimerError::NoTime)
    } else if days * 86400 + hours * 3600 + minutes * 60 > MAX_REMINDER_DAYS * 86400 {
        Err(TimerError::TooFar)
    } else {
        Ok(days * 86400 + hours * 3600 + minutes * 60)
    }
}

/// Checks the options of `/reminder set timer` and gives the offset in seconds.
pub fn timer_offset(message: &str, days: i64, hours: i64, minutes: i64) -> (r: Result<i64, TimerError>)
    ensures
        match timer_result(message@.len() as int, days as int, hours as int, minutes as int) {
            Ok(off) => r == Ok::<i64, TimerError>(off as i64),
            Err(e) => r == Err::<i64, TimerError>(e),
        },
        r matches Ok(off) ==> 0 < off <= MAX_REMINDER_DAYS * 86400,
{
    if message.unicode_len() > 200 {
        return Err(TimerError::MessageTooLong);
    }
    if days < 0 || hours < 0 || minutes < 0 {
        return Err(TimerError::NegativeTime);
    }
    if days > 90 || hours > 23 || minutes > 59 {
        return Err(TimerError::InvalidTime);
    }
    let offset = match days.checked_mul(86400) {
        Some(d) => match d.checked_add(hours * 3600) {
            Some(dh) => match dh.checked_add(minutes * 60) {
                Some(v) => v,
                None => return Err(TimerError::Overflow),
            },
            None => return Err(TimerError::Overflow),
        },
        None => return Err(TimerError::Overflow),
    };
    if offset == 0 {
        return Err(TimerError::NoTime);
    }
    if offset > MAX_REMINDER_DAYS * 86400 {
        return Err(TimerError::TooFar);
    }
    Ok(offset)
}

// ── Event reminders ──────────────────────────────────────────────────────────

/// The offset before an event's start that `/reminder set event` asks for, or
/// `None` when it is zero.
pub fn event_offset(days: i64, hours: i64, minutes: i64) -> (r: Option<i64>)
    requires
        i64::MIN <= days * 86400 + hours * 3600 + minutes * 60 <= i64::MAX,
        i64::MIN <= days * 86400 <= i64::MAX,
        i64::MIN <= hours * 3600 <= i64::MAX,
        i64::MIN <= minutes * 60 <= i64::MAX,
        i64::MIN <= days * 86400 + hours * 3600 <= i64::MAX,
    ensures
        days * 86400 + hours * 3600 + minutes * 60 == 0 ==> r is None,
        days * 86400 + hours * 3600 + minutes * 60 != 0 ==> r == Some((days * 86400 + hours * 3600 + minutes * 60) as i64),
{
    let offset_secs = days * 86400 + hours * 3600 + minutes * 60;
    if offset_secs == 0 {
        None
    } else {
        Some(offset_secs)
    }
}

/// The first checks on an event reminder: on the times alone.
#[derive(PartialEq, Eq, Structural)]
pub enum EventTimeCheck {
    AlreadyEnded,
    AlreadyStarted,
    FiresInPast,
    TooFar,
    /// The times allow a reminder at `remind_at`.
    Allowed { remind_at: Timestamp },
}

/// The time checks of `/reminder set event`, in the order the command makes them.
pub open spec fn event_time_check(now: Timestamp, start: Timestamp, end: Timestamp, offset: int) -> EventTimeCheck {
    let remind_at = Timestamp { secs: (start.secs - offset) as i64, nanos: start.nanos };
    if end.total() <= now.total() {
        EventTimeCheck::AlreadyEnded
    } else if start.total() <= now.total() {
        EventTimeCheck::AlreadyStarted
    } else if remind_at.total() <= now.total() {
        EventTimeCheck::FiresInPast
    } else if remind_at.total() > now.total() + MAX_REMINDER_DAYS * SECS_PER_DAY * 1_000_000_000 {
        EventTimeCheck::TooFar
    } else {
        EventTimeCheck::Allowed { remind_at }
    }
}

pub fn check_event_times(now: Timestamp, start: Timestamp, end: Timestamp, offset_secs: i64) -> (r: EventTimeCheck)
    requires
        now.wf(),
        start.wf(),
        end.wf(),
        -MAX_SPAN_SECS <= offset_secs <= MAX_SPAN_SECS,
        start.can_shift(-offset_secs),
        now.can_shift(MAX_REMINDER_DAYS * SECS_PER_DAY),
    ensures
        r == event_time_check(now, start, end, offset_secs as int),
        r matches EventTimeCheck::Allowed { remind_at } ==> {
            &&& now.total() < remind_at.total()
            &&& now.total() < start.total()
            &&& remind_at.total() <= now.total() + MAX_REMINDER_DAYS * SECS_PER_DAY * 1_000_000_000
            &&& remind_at.total() == start.total() - offset_secs * 1_000_000_000
        },
{
    let remind_at = start.shift(-offset_secs);
    let limit = now.shift(MAX_REMINDER_DAYS * SECS_PER_DAY);
    if end.not_after(&now) {
        EventTimeCheck::AlreadyEnded
    } else if start.not_after(&now) {
        EventTimeCheck::AlreadyStarted
    } else if remind_at.not_after(&now) {
        EventTimeCheck::FiresInPast
    } else if !remind_at.not_after(&limit) {
        EventTimeCheck::TooFar
    } else {
        EventTimeCheck::Allowed { remind_at }
    }
}

/// The checks against the user's pending reminders.
#[derive(PartialEq, Eq, Structural)]
pub enum PendingCheck {
    /// A pending reminder is already set for this event.
    Duplicate,
    /// The user already has the maximum number of pending reminders.
    QuotaExceeded,
    Create,
}

pub open spec fn pending_check(pending: Seq<Option<i64>>, ctftime_id: i64) -> PendingCheck {
    if pending.contains(Some(ctftime_id)) {
        PendingCheck::Duplicate
    } else if pending.len() >= MAX_PENDING_REMINDERS {
        PendingCheck::QuotaExceeded
    } else {
        PendingCheck::Create
    }
}

/// `pending` holds the event ids of the user's pending reminders.
pub fn check_pending(pending: &Vec<Option<i64>>, ctftime_id: i64) -> (r: PendingCheck)
    ensures
        r == pending_check(pending@, ctftime_id),
{
    let mut i: usize = 0;
    while i < pending.len()
        invariant
            i <= pending.len(),
            forall|j: int| 0 <= j < i ==> pending@[j] != Some(ctftime_id),
        decreases pending.len() - i,
    {
        if pending[i] == Some(ctftime_id) {
            assert(pending@.contains(Some(ctftime_id))) by {
                assert(pending@[i as int] == Some(ctftime_id));
            }
            return PendingCheck::Duplicate;
        }
        i = i + 1;
    }
    if pending.len() >= MAX_PENDING_REMINDERS {
        PendingCheck::QuotaExceeded
    } else {
        PendingCheck::Create
    }
}

// ── Listing and cancelling ───────────────────────────────────────────────────

/// How many reminders of a fetched page are shown and whether a next page
/// exists: pages show ten, and an eleventh fetched one means there is more.
pub fn list_page(fetched: usize) -> (r: (usize, bool))
    ensures
        r.1 == (fetched == 11),
        r.0 == if fetched == 11 { 10 } else { fetched },
{
    if fetched == 11 {
        (10, true)
    } else {
        (fetched, false)
    }
}

/// What `/reminder cancel` does with the number the user gave.
#[derive(PartialEq, Eq, Structural)]
pub enum CancelChoice {
    /// The number is below 1.
    InvalidNumber,
    /// No reminder has that number.
    NoSuchReminder,
    /// Cancel the reminder at this index of the list.
    Cancel { index: usize },
}

pub fn choose_cancel(number: i64, count: usize) -> (r: CancelChoice)
    ensures
        number < 1 ==> r == CancelChoice::InvalidNumber,
        number >= 1 && number - 1 >= count ==> r == CancelChoice::NoSuchReminder,
        number >= 1 && number - 1 < count ==> r == (CancelChoice::Cancel { index: (number - 1) as usize }),
{
    if number < 1 {
        return CancelChoice::InvalidNumber;
    }
    if ((number - 1) as u64) >= (count as u64) {
        CancelChoice::NoSuchReminder
    } else {
        CancelChoice::Cancel { index: (number - 1) as usize }
    }
}

/// The page cursor of a "Next" button of the reminder list: a timestamp that
/// a date-time can hold and later than one day before `now`.
pub open spec fn list_cursor(text: Seq<char>, now: Timestamp) -> Option<i64> {
    match parse_int(text, 10, true, i64::MIN as int, i64::MAX as int) {
        Some(ts) => if MIN_TIMESTAMP <= ts <= MAX_TIMESTAMP && ts * 1_000_000_000 > now.total() - SECS_PER_DAY * 1_000_000_000 {
            Some(ts as i64)
        } else {
            None
        },
        None => None,
    }
}

pub fn parse_list_cursor(text: &str, now: Timestamp) -> (r: Option<i64>)
    requires
        now.wf(),
        now.can_shift(-SECS_PER_DAY),
    ensures
        r == list_cursor(text@, now),
{
    let chars = chars_of(text);
    match parse_i64(&chars) {
        Some(ts) => {
            if MIN_TIMESTAMP <= ts && ts <= MAX_TIMESTAMP {
                let t = Timestamp { secs: ts, nanos: 0 };
                let floor = now.shift(-SECS_PER_DAY);
                if !t.not_after(&floor) { Some(ts) } else { None }
            } else {
                None
            }
        },
        None => None,
    }
}

/// The cursor of a "Next" button of the reminder list reads back as itself
/// while it is later than one day before now.
pub proof fn lemma_list_cursor_roundtrip(ts: i64, now: Timestamp)
    requires
        MIN_TIMESTAMP <= ts <= MAX_TIMESTAMP,
        ts * 1_000_000_000 > now.total() - SECS_PER_DAY * 1_000_000_000,
    ensures
        list_cursor(int_text(ts as int), now) == Some(ts),
{
    crate::num::lemma_parse_int_text(ts as int, true, i64::MIN as int, i64::MAX as int);
}

} // verus!
