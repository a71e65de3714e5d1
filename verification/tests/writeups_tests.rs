use yotsuba::options::{CommandOption, OptionValue};
use yotsuba::writeups::{
    autocomplete_query, build_list_description, format_writeup_line, has_next_page, is_empty_first_page,
    listing_for, listing_view, notify_message, page_offset, pagination_buttons, parse_page_request,
    parse_request, plan_fetch, source_of, WriteupLine, WriteupListing, WriteupQuery, WriteupSource, WriteupsRequest,
};

fn line(title: &str, category: Option<&str>, event: Option<&str>) -> WriteupLine {
    WriteupLine {
        title: title.into(),
        url: "https://x.y/w".into(),
        category: category.map(|c| c.to_string()),
        event_name: event.map(|e| e.to_string()),
    }
}

fn opt(name: &str, value: OptionValue) -> CommandOption {
    CommandOption { name: name.into(), value }
}

#[test]
fn writeup_line_shows_category_and_event() {
    assert_eq!(
        format_writeup_line(&line("Pwn it", Some("pwn"), Some("CTF 24"))),
        "• **[Pwn it](https://x.y/w)** `pwn` — *CTF 24*"
    );
    assert_eq!(format_writeup_line(&line("T", None, None)), "• **[T](https://x.y/w)**");
}

#[test]
fn list_description_joins_lines() {
    assert_eq!(build_list_description(&vec![]), "No results found on this page.");
    let d = build_list_description(&vec![line("A", None, None), line("B", None, Some("E"))]);
    assert_eq!(d, "• **[A](https://x.y/w)**\n• **[B](https://x.y/w)** — *E*");
}

#[test]
fn page_button_ids_round_trip() {
    let bs = pagination_buttons("search", 2, "bluehen", true);
    assert_eq!(bs.len(), 2);
    assert_eq!(bs[0].label, "⬅️ Previous");
    assert_eq!(bs[0].custom_id, "writeups:page:search:1:bluehen");
    assert_eq!(bs[1].label, "Next ➡️");
    assert_eq!(bs[1].custom_id, "writeups:page:search:3:bluehen");
    let p = parse_page_request(&bs[1].custom_id).unwrap();
    assert_eq!(p.subcommand, "search");
    assert_eq!(p.page, 3);
    assert_eq!(p.query, "bluehen");
}

#[test]
fn page_buttons_only_where_pages_exist() {
    assert!(pagination_buttons("recent", 1, "", false).is_empty());
    let bs = pagination_buttons("recent", 1, "", true);
    assert_eq!(bs.len(), 1);
    assert_eq!(bs[0].custom_id, "writeups:page:recent:2:");
}

#[test]
fn page_button_query_is_cut_to_fifty_bytes() {
    let q = "q".repeat(60);
    let bs = pagination_buttons("event", 2, &q, false);
    assert_eq!(bs[0].custom_id, format!("writeups:page:event:1:{}", "q".repeat(50)));
}

#[test]
fn page_request_defaults() {
    assert!(parse_page_request("writeups:page:search").is_none());
    let p = parse_page_request("writeups:page:recent:x").unwrap();
    assert_eq!(p.page, 1);
    assert_eq!(p.query, "");
    let p = parse_page_request("writeups:page:event:4:a:b").unwrap();
    assert_eq!(p.query, "a");
}

#[test]
fn sources_and_listings() {
    assert!(source_of("team") == Some(WriteupSource::Team));
    assert!(source_of("nope").is_none());
    match listing_for(WriteupSource::Team, "123") {
        WriteupListing::Team(n) => assert_eq!(n, "Team"),
        _ => panic!("expected team listing"),
    }
    assert_eq!(WriteupListing::Search("x".into()).title(), "Search: \"x\"");
    assert_eq!(WriteupListing::Category("web".into()).empty_message(), "No writeups found in category \"web\".");
    assert_eq!(WriteupListing::Recent.empty_message(), "No recent writeups found.");
}

#[test]
fn page_arithmetic() {
    assert!(has_next_page(5));
    assert!(!has_next_page(4));
    assert_eq!(page_offset(3), 10);
    assert!(is_empty_first_page(0, 1));
    assert!(!is_empty_first_page(0, 2));
}

#[test]
fn listing_view_combines_parts() {
    let results: Vec<WriteupLine> = (0..5).map(|i| line(&format!("W{i}"), None, None)).collect();
    let v = listing_view(&WriteupListing::Event("ctf".into()), &results, 1, "ctf");
    assert_eq!(v.title, "Writeups for \"ctf\"");
    assert_eq!(v.buttons.len(), 1);
    assert_eq!(v.buttons[0].custom_id, "writeups:page:event:2:ctf");
}

#[test]
fn request_reads_subcommands() {
    let sub = vec![opt("query", OptionValue::String("rsa".into()))];
    let opts = vec![opt("search", OptionValue::SubCommand(sub))];
    match parse_request(&opts, false) {
        WriteupsRequest::Search { query, category } => {
            assert_eq!(query, "rsa");
            assert!(category.is_none());
        }
        _ => panic!("expected search"),
    }
    assert!(matches!(parse_request(&vec![], true), WriteupsRequest::NoSubcommand));
    let notify = vec![opt("notify", OptionValue::SubCommand(vec![opt("enabled", OptionValue::Boolean(false))]))];
    assert!(matches!(parse_request(&notify, true), WriteupsRequest::Notify { enabled: false }));
    assert!(matches!(parse_request(&notify, false), WriteupsRequest::NeedsGuild));
    let notify_default = vec![opt("notify", OptionValue::SubCommand(vec![]))];
    assert!(matches!(parse_request(&notify_default, true), WriteupsRequest::Notify { enabled: true }));
    let other = vec![opt("x", OptionValue::SubCommand(vec![]))];
    assert!(matches!(parse_request(&other, true), WriteupsRequest::Unknown));
    assert_eq!(notify_message(false), "❌ Writeup notifications disabled for this guild.");
}

#[test]
fn autocomplete_finds_focused_event_name() {
    let sub = vec![
        opt("query", OptionValue::String("x".into())),
        opt("name", OptionValue::Focused("dice".into())),
    ];
    let opts = vec![opt("event", OptionValue::SubCommand(sub))];
    assert_eq!(autocomplete_query(&opts), Some("dice".to_string()));
    let other = vec![opt("category", OptionValue::Focused("we".into()))];
    assert_eq!(autocomplete_query(&other), None);
    assert_eq!(autocomplete_query(&vec![]), None);
}

#[test]
fn page_buttons_fetch_the_neighbouring_pages() {
    let buttons = pagination_buttons("category", 3, "crypto", true);
    assert_eq!(buttons.len(), 2);
    let prev = parse_page_request(&buttons[0].custom_id).expect("a page request");
    match plan_fetch(&prev) {
        Some((WriteupSource::Category, WriteupQuery::Search { text, category, limit, offset })) => {
            assert_eq!(text, "");
            assert_eq!(category.as_deref(), Some("crypto"));
            assert_eq!((limit, offset), (5, 5));
        }
        _ => panic!("expected a category search"),
    }
    let next = parse_page_request(&buttons[1].custom_id).expect("a page request");
    assert_eq!(next.page, 4);
    match plan_fetch(&next) {
        Some((WriteupSource::Category, WriteupQuery::Search { offset, .. })) => assert_eq!(offset, 15),
        _ => panic!("expected a category search"),
    }
    for (sub, expected) in [("recent", 0), ("search", 1), ("event", 2), ("team", 3)] {
        let req = parse_page_request(&format!("writeups:page:{sub}:2:q")).expect("a page request");
        let kind = match plan_fetch(&req) {
            Some((_, WriteupQuery::Recent { limit: 5, offset: 5 })) => 0,
            Some((_, WriteupQuery::Search { text, category: None, limit: 5, offset: 5 })) if text == "q" => 1,
            Some((_, WriteupQuery::EventName { name, limit: 5, offset: 5 })) if name == "q" => 2,
            Some((_, WriteupQuery::Team { guild, page: 2 })) if guild == "q" => 3,
            _ => 9,
        };
        assert_eq!(kind, expected);
    }
    let unknown = parse_page_request("writeups:page:other:2:q").expect("a page request");
    assert!(plan_fetch(&unknown).is_none());
}
