use yotsuba::event::CompletedFilter;
use yotsuba::event_pages::{
    completed_page, countdown_ended, countdown_not_found, countdown_query, current_page, event_page_url,
    event_subcommand, info_field_list, info_query, into_rows, join_community, CompletedEvent, CurrentEvent,
    EventDetails, EventSubcommand, TeamResultLine,
};
use yotsuba::options::{CommandOption, OptionValue};
use yotsuba::writeups::PageButton;

fn current(id: i64, title: &str) -> CurrentEvent {
    CurrentEvent {
        ctftime_id: id,
        title: title.into(),
        url: "https://ctf".into(),
        end_secs: 500,
        format: None,
        weight: Some("24.5".into()),
        is_onsite: true,
    }
}

#[test]
fn current_page_lists_events_with_buttons() {
    let events: Vec<CurrentEvent> = (0..6).map(|i| current(i, &format!("A very long CTF name {i}"))).collect();
    let page = current_page(&events, 2, 6, true, false, 13);
    assert_eq!(page.title, "CTFs in progress — Page 2 of 3");
    assert!(page.description.starts_with(
        "7. **A very long CTF name 0**\nhttps://ctf\nEnds: <t:500:R>\nFormat: unknown | ⚖️ Weight: 24.5 | 📍 Onsite"
    ));
    assert!(!page.description.ends_with('\n'));
    assert_eq!(page.footer, Some("Total: 13 events".to_string()));
    assert_eq!(page.rows.len(), 2);
    assert_eq!(page.rows[0].len(), 5);
    assert_eq!(page.rows[1].len(), 1);
    assert_eq!(page.rows[0][0].label, "#7 A very long ...");
    assert_eq!(page.rows[0][0].custom_id, "remind:0");
    let nav = page.nav.unwrap();
    assert_eq!(nav.prev_id, "event:current:page:1:6");
}

#[test]
fn current_page_when_nothing_runs() {
    let page = current_page(&vec![], 1, 5, false, false, 0);
    assert_eq!(page.title, "No CTFs currently running");
    assert!(page.nav.is_none());
    assert!(page.rows.is_empty());
}

#[test]
fn rows_of_five() {
    let bs: Vec<PageButton> = (0..11)
        .map(|i| PageButton { label: format!("{i}"), custom_id: format!("id{i}") })
        .collect();
    let rows = into_rows(&bs);
    assert_eq!(rows.iter().map(|r| r.len()).collect::<Vec<_>>(), vec![5, 5, 1]);
    assert_eq!(rows[2][0].label, "10");
    assert!(into_rows(&vec![]).is_empty());
}

#[test]
fn completed_page_shows_team_results() {
    let events = vec![
        CompletedEvent { ctftime_id: 7, title: "Old CTF".into(), end_secs: 100, format: Some("Jeopardy".into()), weight: Some("25".into()) },
        CompletedEvent { ctftime_id: 8, title: "Other".into(), end_secs: 200, format: None, weight: None },
    ];
    let results = vec![
        TeamResultLine { event_id: 7, place: Some(5), total_teams: None, score: None },
        TeamResultLine { event_id: 7, place: Some(2), total_teams: Some(300), score: Some("812.50".into()) },
    ];
    let filter = CompletedFilter { format: None, min_weight: None };
    let page = completed_page(&events, &results, 1, 5, false, false, 2, &filter);
    assert_eq!(page.title, "Recently ended CTFs — Page 1 of 1");
    assert_eq!(
        page.description,
        "**Old CTF** — ended <t:100:R> | Jeopardy | 25\n  › Team: 2nd / 300 teams — 812.50 pts\n\n**Other** — ended <t:200:R> | unknown format"
    );
    assert_eq!(page.footer, Some("Total: 2 events".to_string()));
    assert_eq!(page.nav.unwrap().next_id, "event:completed:page:2:5:");
}

#[test]
fn completed_page_without_events() {
    let filter = CompletedFilter { format: None, min_weight: None };
    let page = completed_page(&vec![], &vec![], 1, 5, false, false, 0, &filter);
    assert_eq!(page.title, "Recently ended CTFs");
    assert_eq!(page.description, "No completed events found matching your filters.");
}

#[test]
fn event_subcommands() {
    let opts = vec![CommandOption { name: "info".into(), value: OptionValue::SubCommand(vec![]) }];
    assert!(event_subcommand(&opts) == Some(EventSubcommand::Info));
    assert!(event_subcommand(&vec![]).is_none());
    let opts = vec![CommandOption { name: "zzz".into(), value: OptionValue::Other }];
    assert!(event_subcommand(&opts) == Some(EventSubcommand::Unknown));
}

#[test]
fn names_to_look_for() {
    let opts = vec![CommandOption { name: "name".into(), value: OptionValue::String("dice".into()) }];
    assert_eq!(countdown_query(&opts), Some("dice".to_string()));
    assert_eq!(info_query(&opts), None);
    assert_eq!(countdown_ended("X"), "**X** has already ended.");
    assert!(countdown_not_found("q").starts_with("No CTF matching **\"q\"** was found"));
    assert_eq!(event_page_url(99), "https://ctftime.org/event/99");
}

#[test]
fn info_fields_in_order() {
    let d = EventDetails {
        ctftime_id: 1,
        format: None,
        weight: Some("50".into()),
        organiser: None,
        description: Some("d".repeat(301)),
        links: vec![("💬 Discord".into(), "https://d".into()), ("🐦 X".into(), "https://x".into())],
    };
    let fields = info_field_list(&d);
    let names: Vec<&str> = fields.iter().map(|f| f.name.as_str()).collect();
    assert_eq!(names, vec!["Format", "Weight", "Description", "Social Links"]);
    assert_eq!(fields[0].value, "Unknown");
    assert_eq!(fields[2].value, format!("{}...", "d".repeat(300)));
    assert_eq!(fields[3].value, "[💬 Discord](https://d) | [🐦 X](https://x)");
    assert!(!fields[3].inline);
}

#[test]
fn community_links() {
    assert!(join_community("CTF", &vec![]).is_err());
    let links: Vec<(String, String)> = (0..7).map(|i| (format!("L{i}"), format!("u{i}"))).collect();
    let reply = join_community("CTF", &links).ok().unwrap();
    assert_eq!(reply.title, "Join community — CTF");
    assert_eq!(reply.description, "Found **7** community link(s). Click a button to join:");
    assert_eq!(reply.buttons.len(), 5);
}
