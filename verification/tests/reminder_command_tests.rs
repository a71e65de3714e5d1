use yotsuba::options::{CommandOption, OptionValue};
use yotsuba::reminder::{EventTimeCheck, PendingCheck, ValidatedRecurring};
use yotsuba::reminder_command::{
    cancelled_message, event_reminder_set_message, event_time_message, list_content, next_page_id,
    no_such_reminder_message, parse_reminder_request, pending_message, recurring_set_message, timer_set_message,
    ReminderRequest, event_record, recurring_record, timer_record, StoredKind,
};
use yotsuba::time::Timestamp;

fn opt(name: &str, value: OptionValue) -> CommandOption {
    CommandOption { name: name.into(), value }
}

fn set(sub: &str, opts: Vec<CommandOption>) -> Vec<CommandOption> {
    vec![opt("set", OptionValue::SubCommandGroup(vec![opt(sub, OptionValue::SubCommand(opts))]))]
}

#[test]
fn set_event_reads_offsets() {
    let req = parse_reminder_request(&set("event", vec![
        opt("event_id", OptionValue::Integer(1234)),
        opt("hours", OptionValue::Integer(1)),
        opt("hours", OptionValue::Integer(2)),
    ]));
    assert!(matches!(req, ReminderRequest::SetEvent { event_id: 1234, days: 0, hours: 2, minutes: 0 }));
}

#[test]
fn set_timer_and_recurring_defaults() {
    match parse_reminder_request(&set("timer", vec![opt("minutes", OptionValue::Integer(5))])) {
        ReminderRequest::SetTimer { message, days, hours, minutes } => {
            assert_eq!(message, "");
            assert_eq!((days, hours, minutes), (0, 0, 5));
        }
        _ => panic!("expected a timer"),
    }
    match parse_reminder_request(&set("recurring", vec![opt("every_minutes", OptionValue::Integer(30))])) {
        ReminderRequest::SetRecurring { params } => {
            assert_eq!(params.for_hours, 1);
            assert_eq!(params.every_minutes, 30);
            assert_eq!(params.delay_minutes, 0);
            assert!(params.message.is_none());
        }
        _ => panic!("expected a recurring reminder"),
    }
}

#[test]
fn invalid_requests() {
    let msg = |r: ReminderRequest| match r {
        ReminderRequest::Invalid { message } => message,
        _ => "valid".to_string(),
    };
    assert_eq!(msg(parse_reminder_request(&vec![])), "Missing command options");
    assert_eq!(msg(parse_reminder_request(&vec![opt("set", OptionValue::Other)])), "Missing set sub-command group");
    assert_eq!(msg(parse_reminder_request(&vec![opt("set", OptionValue::SubCommandGroup(vec![]))])), "Missing set sub-command");
    assert_eq!(msg(parse_reminder_request(&set("weekly", vec![]))), "Unknown set sub-command");
    assert_eq!(msg(parse_reminder_request(&vec![opt("cancel", OptionValue::Other)])), "Missing subcommand options");
    assert_eq!(msg(parse_reminder_request(&vec![opt("snooze", OptionValue::Other)])), "Unknown reminder sub-command");
    assert!(matches!(parse_reminder_request(&vec![opt("list", OptionValue::Other)]), ReminderRequest::List));
    let cancel = vec![opt("cancel", OptionValue::SubCommand(vec![opt("number", OptionValue::Integer(2))]))];
    assert!(matches!(parse_reminder_request(&cancel), ReminderRequest::Cancel { number: 2 }));
}

#[test]
fn event_reminder_replies() {
    assert_eq!(event_time_message(&EventTimeCheck::AlreadyEnded, "Ended CTF", 5), "⏰ **Ended CTF** has already ended.");
    assert!(event_time_message(&EventTimeCheck::AlreadyStarted, "Started CTF", 5).contains("already started <t:5:R>"));
    assert_eq!(
        event_time_message(&EventTimeCheck::FiresInPast, "X", 9),
        "Reminder would fire in the past. Try a shorter offset — the event starts <t:9:R>."
    );
    assert!(pending_message(&PendingCheck::Duplicate, "Test CTF").contains("already have a reminder set"));
    assert!(pending_message(&PendingCheck::QuotaExceeded, "CTF 11").contains("maximum of **10 pending reminders**"));
    let set = event_reminder_set_message("Test CTF", 100, 40);
    assert_eq!(set, "✅ **Reminder set!**\n**Test CTF** starts <t:100:F>\nYou'll be notified <t:40:R>");
}

#[test]
fn timer_and_recurring_replies() {
    assert_eq!(timer_set_message(50, "tea"), "✅ **Timer set!**\nYou'll be notified <t:50:R>\n> tea");
    let v = ValidatedRecurring {
        interval_secs: 5400,
        repeat_until: Timestamp { secs: 1000 + 7200, nanos: 0 },
        first_remind_at: Timestamp { secs: 1000 + 5400, nanos: 0 },
        fire_count: 1,
        message: Some("go".into()),
    };
    assert_eq!(
        recurring_set_message(&v, 1000),
        "🔁 **Recurring reminder set!**\nEvery 1h 30m · for 2 hours · **1 fires total**\nFirst: <t:6400:R> · Last: <t:8200:R>\n\n> go"
    );
}

#[test]
fn list_replies() {
    let labels = vec!["a".to_string(), "b".to_string()];
    assert_eq!(
        list_content(&labels),
        "**Your reminders (2 active)**\n\n**1** a\n\n**2** b\n\nUse `/reminder cancel` with the number to remove one (use `/reminder list` to find the number)."
    );
    assert_eq!(next_page_id(1234), "reminder_list:1234");
    assert_eq!(no_such_reminder_message(4, 2), "No reminder #4. You have 2 active — use `/reminder list` to see them.");
    assert_eq!(cancelled_message("x"), "🗑️ **Reminder cancelled.**\nx");
}

#[test]
fn stored_records_of_each_kind() {
    let now = Timestamp { secs: 1_700_000_000, nanos: 5 };
    let start = Timestamp { secs: 1_700_100_000, nanos: 0 };
    let at = Timestamp { secs: 1_700_096_400, nanos: 0 };

    let e = event_record("42", 777, "Some CTF", start, at, now);
    assert!(e.kind == StoredKind::Event);
    assert_eq!(e.user_id, "42");
    assert_eq!(e.ctftime_id, Some(777));
    assert_eq!(e.event_title.as_deref(), Some("Some CTF"));
    assert!(e.event_start_at == Some(start) && e.remind_at == at && e.created_at == now);
    assert!(e.message.is_none() && e.interval_secs.is_none() && e.repeat_until.is_none() && e.fire_count_max.is_none());

    let t = timer_record("42", "stretch", now, 3600);
    assert!(t.kind == StoredKind::Timer);
    assert_eq!(t.message.as_deref(), Some("stretch"));
    assert!(t.remind_at == Timestamp { secs: 1_700_003_600, nanos: 5 });
    assert!(t.ctftime_id.is_none() && t.event_title.is_none() && t.created_at == now);

    let v = ValidatedRecurring {
        interval_secs: 600,
        repeat_until: Timestamp { secs: 1_700_007_200, nanos: 5 },
        first_remind_at: Timestamp { secs: 1_700_000_600, nanos: 5 },
        fire_count: 12,
        message: Some("drink water".to_string()),
    };
    let r = recurring_record("42", &v, now);
    assert!(r.kind == StoredKind::Recurring);
    assert_eq!(r.message.as_deref(), Some("drink water"));
    assert_eq!(r.interval_secs, Some(600));
    assert_eq!(r.fire_count_max, Some(12));
    assert!(r.remind_at == v.first_remind_at && r.repeat_until == Some(v.repeat_until) && r.created_at == now);
}
