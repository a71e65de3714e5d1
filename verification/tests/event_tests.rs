use yotsuba::event::{
    completed_nav, countdown, current_nav, event_status, filter_to_qs, global_index, has_next_page,
    parse_current_page, parse_filter, parse_limit, parse_page_rest, place_label, qs_to_filter, total_pages,
    CompletedFilter, Countdown,
};
use yotsuba::options::{CommandOption, OptionValue};
use yotsuba::time::Timestamp;

fn ts(secs: i64) -> Timestamp {
    Timestamp { secs, nanos: 0 }
}

#[test]
fn limits_are_clamped() {
    let opts = vec![CommandOption { name: "count".into(), value: OptionValue::Integer(100) }];
    assert_eq!(parse_limit(&opts, 5), 25);
    let opts = vec![CommandOption { name: "count".into(), value: OptionValue::Integer(-3) }];
    assert_eq!(parse_limit(&opts, 5), 1);
    assert_eq!(parse_limit(&vec![], 5), 5);
}

#[test]
fn current_page_ids() {
    assert_eq!(parse_current_page("page:3:10"), Some((3, 10)));
    assert_eq!(parse_current_page("page:-2:100"), Some((1, 25)));
    assert_eq!(parse_current_page("page:x"), Some((1, 5)));
    assert_eq!(parse_current_page("other:1"), None);
    let nav = current_nav(2, 5, true, false);
    assert_eq!(nav.prev_id, "event:current:page:1:5");
    assert_eq!(nav.next_id, "event:current:page:3:5");
}

#[test]
fn paging_arithmetic() {
    assert!(has_next_page(5, 1, 5, 11));
    assert!(!has_next_page(5, 3, 5, 15));
    assert!(!has_next_page(4, 1, 5, 11));
    assert_eq!(total_pages(11, 5), 3);
    assert_eq!(total_pages(10, 5), 2);
    assert_eq!(total_pages(0, 5), 0);
    assert_eq!(global_index(2, 5, 0), 6);
}

#[test]
fn filter_query_string_round_trip() {
    let f = CompletedFilter { format: Some("Jeopardy".into()), min_weight: Some("25".into()) };
    let qs = filter_to_qs(&f);
    assert_eq!(qs, "f=Jeopardy&m=25");
    let back = qs_to_filter(&qs);
    assert_eq!(back.format, Some("Jeopardy".to_string()));
    assert_eq!(back.min_weight, Some("25".to_string()));
    assert_eq!(filter_to_qs(&CompletedFilter { format: None, min_weight: None }), "");
}

#[test]
fn completed_page_rest() {
    let (p, l, f) = parse_page_rest("2:50:f=AD").unwrap();
    assert_eq!((p, l), (2, 25));
    assert_eq!(f.format, Some("AD".to_string()));
    assert!(parse_page_rest("0:5").is_none());
    assert!(parse_page_rest("2").is_none());
    let nav = completed_nav(2, 5, &CompletedFilter { format: Some("AD".into()), min_weight: None }, true, true);
    assert_eq!(nav.prev_id, "event:completed:page:1:5:f=AD");
}

#[test]
fn options_set_the_filter() {
    let opts = vec![
        CommandOption { name: "format".into(), value: OptionValue::String("Jeopardy".into()) },
        CommandOption { name: "weight_min".into(), value: OptionValue::Number("10.5".into()) },
    ];
    let f = parse_filter(&opts);
    assert_eq!(f.format, Some("Jeopardy".to_string()));
    assert_eq!(f.min_weight, Some("10.5".to_string()));
}

#[test]
fn places_have_ordinals() {
    assert_eq!(place_label(Some(1)), "1st");
    assert_eq!(place_label(Some(2)), "2nd");
    assert_eq!(place_label(Some(3)), "3rd");
    assert_eq!(place_label(Some(11)), "11th");
    assert_eq!(place_label(None), "?.th");
}

#[test]
fn countdowns_by_phase() {
    let now = ts(1_000_000);
    assert!(matches!(countdown(now, ts(900_000), ts(1_000_000), "u"), Countdown::Ended));
    match countdown(now, ts(1_000_000 + 2 * 86400 + 3 * 3600), ts(2_000_000), "https://e") {
        Countdown::Active { description } => assert_eq!(
            description,
            "**Status:** Not yet started\n**Starts in:** 2 day(s) 3 hour(s) (<t:1183600:R>)\nhttps://e"
        ),
        _ => panic!("expected a countdown"),
    }
    match countdown(now, ts(0), ts(1_000_000 + 90 * 60), "u") {
        Countdown::Active { description } => assert!(description.contains("**Ends in:** 1 hour(s) 30 minute(s)")),
        _ => panic!("expected a countdown"),
    }
    match countdown(now, ts(0), ts(1_000_000 + 59), "u") {
        Countdown::Active { description } => assert!(description.contains("0 minute(s)")),
        _ => panic!("expected a countdown"),
    }
}

#[test]
fn event_status_lines() {
    let now = ts(100);
    assert_eq!(event_status(now, ts(200), ts(300)), "Upcoming — starts <t:200:R>");
    assert_eq!(event_status(now, ts(50), ts(300)), "Live now — ends <t:300:R>");
    assert_eq!(event_status(now, ts(10), ts(20)), "Ended <t:20:R>");
}
