use yotsuba::ctftime::{
    array_rank, leaderboard_description, leaderboard_title, leaderboard_year, rank_of_key, rank_order,
    retry_delay, search_query, stats_url, team_api_url, team_page_url, team_search_url, top_layout,
    top_url, JsonKind, LeaderLine, TopLayout,
};
use yotsuba::options::{CommandOption, OptionValue};

#[test]
fn retries_back_off_three_times() {
    assert_eq!(retry_delay(429, 0), Some(2));
    assert_eq!(retry_delay(503, 1), Some(4));
    assert_eq!(retry_delay(500, 2), Some(8));
    assert_eq!(retry_delay(500, 3), None);
    assert_eq!(retry_delay(404, 0), None);
    assert_eq!(retry_delay(200, 0), None);
    assert_eq!(retry_delay(600, 0), None);
}

#[test]
fn urls() {
    assert_eq!(top_url(2026), "https://ctftime.org/api/v1/top/2026/");
    assert_eq!(team_api_url(42), "https://ctftime.org/api/v1/teams/42/");
    assert_eq!(team_page_url(42), "https://ctftime.org/team/42");
    assert_eq!(team_search_url("blue hen"), "https://ctftime.org/api/v1/teams/?search=blue%20hen");
    assert_eq!(stats_url(2025), "https://ctftime.org/stats/2025");
    assert_eq!(leaderboard_title(2025), "CTFtime Leaderboard 2025");
}

#[test]
fn search_query_is_trimmed_and_checked() {
    assert_eq!(search_query("  Blue-Hens_1  "), Some("Blue-Hens_1".to_string()));
    assert_eq!(search_query("   "), None);
    assert_eq!(search_query("a;drop"), None);
    assert_eq!(search_query(&"a".repeat(101)), None);
    assert_eq!(search_query(&"a".repeat(100)), Some("a".repeat(100)));
}

#[test]
fn layouts_of_top_stats() {
    assert!(top_layout(JsonKind::Array, 0, JsonKind::Other) == TopLayout::OuterArray);
    assert!(top_layout(JsonKind::Object, 1, JsonKind::Array) == TopLayout::InnerArray);
    assert!(top_layout(JsonKind::Object, 1, JsonKind::Object) == TopLayout::InnerObject);
    assert!(top_layout(JsonKind::Object, 1, JsonKind::Other) == TopLayout::OuterObject);
    assert!(top_layout(JsonKind::Object, 3, JsonKind::Array) == TopLayout::OuterObject);
    assert!(top_layout(JsonKind::Other, 0, JsonKind::Other) == TopLayout::Invalid);
}

#[test]
fn ranks_of_keys_and_indices() {
    assert_eq!(rank_of_key("12"), Ok(12));
    assert_eq!(rank_of_key("x1"), Err("Invalid rank key: x1".to_string()));
    assert_eq!(rank_of_key("-1"), Err("Invalid rank key: -1".to_string()));
    assert_eq!(array_rank(0), 1);
    assert_eq!(array_rank(9), 10);
}

#[test]
fn rank_order_is_a_stable_sort() {
    assert_eq!(rank_order(&vec![3, 1, 2, 1]), vec![1, 3, 2, 0]);
    assert_eq!(rank_order(&vec![]), Vec::<usize>::new());
    assert_eq!(rank_order(&vec![10, 2, 33, 1]), vec![3, 1, 0, 2]);
}

#[test]
fn leaderboard_lists_first_ten() {
    let lines: Vec<LeaderLine> = (1..=12)
        .map(|r| LeaderLine { rank: r, team: format!("T{r}"), points: "1.50".into() })
        .collect();
    let d = leaderboard_description(&lines, false);
    assert!(d.starts_with("**1.** T1 — 1.50 pts\n"));
    assert!(d.ends_with("**10.** T10 — 1.50 pts\n"));
    assert!(!d.contains("T11"));
    assert_eq!(leaderboard_description(&vec![], false), "No data found for this year.");
    assert!(leaderboard_description(&vec![], true).starts_with("CTFtime does not have leaderboard data"));
}

#[test]
fn leaderboard_year_option() {
    let opts = vec![CommandOption { name: "year".into(), value: OptionValue::Integer(2024) }];
    assert_eq!(leaderboard_year(&opts, 2026), 2024);
    assert_eq!(leaderboard_year(&vec![], 2026), 2026);
    let big = vec![CommandOption { name: "year".into(), value: OptionValue::Integer(1i64 << 32) }];
    assert_eq!(leaderboard_year(&big, 2026), 0);
}
