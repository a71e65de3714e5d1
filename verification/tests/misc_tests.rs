use yotsuba::digest::{enabled_message, parse_request, status_message, to_day_name, DigestRequest};
use yotsuba::guild::{extract_channel_id, subscribed_message, unsubscribed_message};
use yotsuba::num::{dec_u64, parse_i64, text_i64};
use yotsuba::options::{opt_int, opt_str, CommandOption, OptionValue};
use yotsuba::text::{chars_of, split_chars, split_whitespace, string_of, trim_chars};

fn opt(name: &str, value: OptionValue) -> CommandOption {
    CommandOption { name: name.into(), value }
}

#[test]
fn decimal_text_round_trip() {
    for n in [0i64, 7, -7, 1234567890, i64::MIN, i64::MAX] {
        let t = text_i64(n);
        assert_eq!(string_of(&t), n.to_string());
        assert_eq!(parse_i64(&t), Some(n));
    }
    assert_eq!(string_of(&dec_u64(u64::MAX)), u64::MAX.to_string());
    assert_eq!(parse_i64(&chars_of("9223372036854775808")), None);
    assert_eq!(parse_i64(&chars_of("+5")), Some(5));
    assert_eq!(parse_i64(&chars_of("-")), None);
}

#[test]
fn splitting_and_trimming() {
    let parts = split_chars(&chars_of("a::b"), ':');
    assert_eq!(parts.iter().map(|p| string_of(p)).collect::<Vec<_>>(), vec!["a", "", "b"]);
    let words = split_whitespace(&chars_of("  x \t y\n"));
    assert_eq!(words.iter().map(|p| string_of(p)).collect::<Vec<_>>(), vec!["x", "y"]);
    assert_eq!(string_of(&trim_chars(&chars_of("\u{3000} hi \n"))), "hi");
}

#[test]
fn last_option_wins_in_maps() {
    let opts = vec![
        opt("days", OptionValue::Integer(1)),
        opt("days", OptionValue::Integer(3)),
        opt("message", OptionValue::String("m".into())),
    ];
    assert_eq!(opt_int(&opts, "days"), Some(3));
    assert_eq!(opt_int(&opts, "message"), None);
    assert_eq!(opt_str(&opts, "message"), Some("m".to_string()));
}

#[test]
fn digest_requests() {
    let enable = vec![opt("enable", OptionValue::SubCommand(vec![
        opt("day", OptionValue::String("5".into())),
        opt("channel", OptionValue::Channel(99)),
    ]))];
    assert!(matches!(parse_request(&enable), DigestRequest::Enable { day: 5, channel_id: 99 }));
    let bad = vec![opt("enable", OptionValue::SubCommand(vec![opt("day", OptionValue::String("9".into()))]))];
    assert!(matches!(parse_request(&bad), DigestRequest::Rejected { message } if message == "Day must be between 0 (Sunday) and 6 (Saturday)."));
    let no_channel = vec![opt("enable", OptionValue::SubCommand(vec![]))];
    assert!(matches!(parse_request(&no_channel), DigestRequest::Rejected { message } if message == "A channel must be specified."));
    assert!(matches!(parse_request(&vec![]), DigestRequest::Invalid));
    assert_eq!(to_day_name(0), "Sunday");
    assert_eq!(to_day_name(9), "Unknown");
    assert_eq!(enabled_message(1, 5), "Weekly digest will be sent on **Mondays** to <#5>.");
    assert_eq!(status_message(false, 1, None), "**Enabled:** ❌ No");
    assert_eq!(status_message(true, 2, Some("7")), "**Enabled:** ✅ Yes\n**Day:** Tuesday\n**Channel:** <#7>");
}

#[test]
fn subscriptions() {
    assert_eq!(extract_channel_id(&vec![opt("channel", OptionValue::Channel(5))]), Some(5));
    assert_eq!(extract_channel_id(&vec![opt("channel", OptionValue::Integer(5))]), None);
    assert_eq!(
        subscribed_message(5),
        "New CTF events will be announced in <#5>.\nUse `/unsubscribe` at any time to stop notifications."
    );
    assert!(subscribed_message(u64::MAX).contains("<#-1>"));
    assert_eq!(unsubscribed_message(true).0, "✅ Unsubscribed");
    assert_eq!(unsubscribed_message(false).0, "⚠️ Not subscribed");
}
