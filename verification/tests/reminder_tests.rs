use yotsuba::reminder::{
    check_event_times, check_pending, choose_cancel, format_minutes, list_page, parse_list_cursor,
    timer_offset, validate_recurring, CancelChoice, EventTimeCheck, PendingCheck, RecurringParams,
    ReminderValidationError, TimerError,
};
use yotsuba::time::Timestamp;

const BASE: i64 = 1_777_629_600; // 2026-05-01 10:00:00 UTC

fn base_now() -> Timestamp {
    Timestamp { secs: BASE, nanos: 0 }
}

fn params(for_hours: i64, every_minutes: i64, delay_minutes: i64, message: Option<String>) -> RecurringParams {
    RecurringParams { for_hours, every_minutes, delay_minutes, message }
}

#[test]
fn test_validate_recurring_happy_path() {
    let res = validate_recurring(params(10, 60, 0, Some("test".to_string())), base_now())
        .ok()
        .unwrap();
    assert_eq!(res.fire_count, 10);
    assert_eq!(res.interval_secs, 3600);
}

#[test]
fn test_validate_recurring_interval_too_short() {
    assert!(matches!(
        validate_recurring(params(10, 0, 0, None), base_now()),
        Err(ReminderValidationError::IntervalTooShort)
    ));
}

#[test]
fn test_validate_recurring_interval_too_long() {
    assert!(matches!(
        validate_recurring(params(10, 43201, 0, None), base_now()),
        Err(ReminderValidationError::IntervalTooLong)
    ));
}

#[test]
fn test_validate_recurring_duration_out_of_range() {
    assert!(matches!(
        validate_recurring(params(0, 60, 0, None), base_now()),
        Err(ReminderValidationError::DurationOutOfRange)
    ));
    assert!(matches!(
        validate_recurring(params(721, 60, 0, None), base_now()),
        Err(ReminderValidationError::DurationOutOfRange)
    ));
}

#[test]
fn test_validate_recurring_delay_exceeds_duration() {
    assert!(matches!(
        validate_recurring(params(1, 10, 60, None), base_now()),
        Err(ReminderValidationError::DelayExceedsDuration)
    ));
}

#[test]
fn test_validate_recurring_too_many_fires() {
    let res = validate_recurring(params(61, 60, 0, None), base_now());
    assert!(matches!(res, Err(ReminderValidationError::TooManyFires(61))));
}

#[test]
fn test_validate_recurring_message_too_long() {
    assert!(matches!(
        validate_recurring(params(1, 10, 0, Some("a".repeat(201))), base_now()),
        Err(ReminderValidationError::MessageTooLong)
    ));
}

#[test]
fn test_validate_recurring_fire_count_exact_boundary() {
    let res = validate_recurring(params(60, 60, 0, None), base_now()).ok().unwrap();
    assert_eq!(res.fire_count, 60);
}

#[test]
fn validate_recurring_schedule_uses_delay_and_duration() {
    let res = validate_recurring(params(2, 30, 15, Some("x".into())), base_now()).ok().unwrap();
    assert_eq!(res.first_remind_at.secs, BASE + 900);
    assert_eq!(res.repeat_until.secs, BASE + 7200);
    assert_eq!(res.fire_count, 4);
    assert_eq!(res.message, Some("x".to_string()));
}

#[test]
fn validate_recurring_delay_negative_and_messages() {
    let e = validate_recurring(params(2, 30, -1, None), base_now()).err().unwrap();
    assert!(matches!(e, ReminderValidationError::DelayNegative));
    assert_eq!(e.message(), "Delay must be non-negative.");
    assert_eq!(
        ReminderValidationError::TooManyFires(61).message(),
        "Would fire 61 times — max is 60. Use a longer interval or shorter duration."
    );
    assert_eq!(ReminderValidationError::IntervalTooShort.message(), "'every_minutes' must be at least 1.");
}

#[test]
fn format_minutes_splits_hours() {
    assert_eq!(format_minutes(45), "45m");
    assert_eq!(format_minutes(60), "1h");
    assert_eq!(format_minutes(90), "1h 30m");
}

#[test]
fn timer_offset_checks_in_order() {
    assert!(timer_offset("hi", 0, 1, 30) == Ok(5400));
    assert!(matches!(timer_offset(&"a".repeat(201), 0, 1, 0), Err(TimerError::MessageTooLong)));
    assert!(matches!(timer_offset("", -1, 0, 0), Err(TimerError::NegativeTime)));
    assert!(matches!(timer_offset("", 91, 0, 0), Err(TimerError::InvalidTime)));
    assert!(matches!(timer_offset("", 0, 0, 0), Err(TimerError::NoTime)));
    assert!(timer_offset("", 90, 0, 0) == Ok(90 * 86400));
    assert!(matches!(timer_offset("", 90, 1, 0), Err(TimerError::TooFar)));
    assert_eq!(TimerError::NoTime.message(), "Specify at least one of: days, hours, minutes.");
}

fn at(hours: i64) -> Timestamp {
    Timestamp { secs: BASE + hours * 3600, nanos: 0 }
}

#[test]
fn event_reminder_success_times() {
    match check_event_times(base_now(), at(5), at(48), 3600) {
        EventTimeCheck::Allowed { remind_at } => assert_eq!(remind_at.secs, BASE + 4 * 3600),
        _ => panic!("expected a reminder time"),
    }
}

#[test]
fn event_reminder_already_ended() {
    assert!(check_event_times(base_now(), at(-48), at(-1), 3600) == EventTimeCheck::AlreadyEnded);
}

#[test]
fn event_reminder_already_started() {
    assert!(check_event_times(base_now(), at(-1), at(24), 3600) == EventTimeCheck::AlreadyStarted);
}

#[test]
fn event_reminder_in_past_and_too_far() {
    assert!(check_event_times(base_now(), at(1), at(5), 7200) == EventTimeCheck::FiresInPast);
    assert!(check_event_times(base_now(), at(24 * 100), at(24 * 101), 3600) == EventTimeCheck::TooFar);
}

#[test]
fn event_reminder_duplicate_and_quota() {
    assert!(check_pending(&vec![Some(1), Some(1234)], 1234) == PendingCheck::Duplicate);
    let full: Vec<Option<i64>> = (0..10).map(Some).collect();
    assert!(check_pending(&full, 11) == PendingCheck::QuotaExceeded);
    assert!(check_pending(&vec![None, Some(3)], 11) == PendingCheck::Create);
}

#[test]
fn list_page_and_cancel_choice() {
    assert_eq!(list_page(11), (10, true));
    assert_eq!(list_page(4), (4, false));
    assert!(choose_cancel(0, 3) == CancelChoice::InvalidNumber);
    assert!(choose_cancel(4, 3) == CancelChoice::NoSuchReminder);
    assert!(choose_cancel(3, 3) == CancelChoice::Cancel { index: 2 });
}

#[test]
fn list_cursor_must_be_recent() {
    let now = base_now();
    assert_eq!(parse_list_cursor("1777629600", now), Some(BASE));
    assert_eq!(parse_list_cursor("1777543200", now), None);
    assert_eq!(parse_list_cursor("abc", now), None);
}
