use yotsuba::options::{CommandOption, OptionValue};
use yotsuba::team::{
    following_message, followed_message, parse_team_request, pick_team, results_description, results_title,
    single_team_fields, TeamPick, TeamRequest, TeamSummary,
};

fn opt(name: &str, value: OptionValue) -> CommandOption {
    CommandOption { name: name.into(), value }
}

fn summary(id: i64, name: &str, country: &str, rating: Option<&str>) -> TeamSummary {
    TeamSummary { id, name: name.into(), country: country.into(), rating: rating.map(|r| r.into()), aliases: vec![] }
}

#[test]
fn team_requests() {
    let search = vec![opt("search", OptionValue::SubCommand(vec![opt("name", OptionValue::String("hens".into()))]))];
    assert!(matches!(parse_team_request(&search), TeamRequest::Search { name } if name == "hens"));
    let follow = vec![opt("follow", OptionValue::SubCommand(vec![opt("id", OptionValue::Integer(42))]))];
    assert!(matches!(parse_team_request(&follow), TeamRequest::Follow { team_id: 42 }));
    let bad = vec![opt("follow", OptionValue::SubCommand(vec![opt("id", OptionValue::String("x".into()))]))];
    assert!(matches!(parse_team_request(&bad), TeamRequest::Rejected { message } if message == "Invalid team ID."));
    let missing = vec![opt("search", OptionValue::SubCommand(vec![]))];
    assert!(matches!(parse_team_request(&missing), TeamRequest::Rejected { message } if message == "Please provide a team name."));
    assert!(matches!(parse_team_request(&vec![]), TeamRequest::Rejected { message } if message == "Invalid subcommand."));
    assert!(matches!(parse_team_request(&vec![opt("unfollow", OptionValue::Other)]), TeamRequest::Unfollow));
    assert!(matches!(parse_team_request(&vec![opt("nope", OptionValue::Other)]), TeamRequest::Rejected { .. }));
}

#[test]
fn picking_results() {
    let names = vec!["Blue Hens".to_string(), "blue hens".to_string(), "Other".to_string()];
    assert!(pick_team("BLUE HENS", &names) == TeamPick::One(0));
    assert!(pick_team("nothing", &vec!["Only".to_string()]) == TeamPick::One(0));
    let many: Vec<String> = (0..8).map(|i| format!("T{i}")).collect();
    assert!(pick_team("x", &many) == TeamPick::Several(5));
    assert!(pick_team("x", &many[..3].to_vec()) == TeamPick::Several(3));
    assert!(pick_team("x", &vec![]) == TeamPick::NotFound);
}

#[test]
fn several_results_text() {
    let ts = vec![summary(1, "A", "US", Some("12.50")), summary(2, "B", "", None)];
    assert_eq!(
        results_description(&ts, 2),
        "1. **A** (ID: 1)\nCountry: US\nRating: 12.50\n\n2. **B** (ID: 2)"
    );
    assert_eq!(results_title("hen"), "Multiple teams found matching 'hen'");
}

#[test]
fn single_team_fields_in_order() {
    let mut t = summary(1, "A", "", Some("3.00"));
    t.aliases = vec!["a1".into(), "a2".into()];
    let fields = single_team_fields(&t);
    assert_eq!(fields.len(), 2);
    assert_eq!(fields[0].name, "Rating");
    assert_eq!(fields[1].value, "a1, a2");
    assert!(!fields[1].inline);
}

#[test]
fn follow_messages() {
    assert_eq!(
        followed_message("Hens", 7),
        "Successfully followed **Hens** (ID: 7). New results will be posted here."
    );
    assert_eq!(following_message("Hens", 7, 1000), "**Team:** Hens\n**ID:** 7\n**Since:** <t:1000:R>");
}
