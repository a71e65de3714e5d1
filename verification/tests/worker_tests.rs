use yotsuba::config::{health_status, normalize_token, setting_present, shard_config, shard_info};
use yotsuba::time::Timestamp;
use yotsuba::worker::{announcement, merge_by_id, scraper_delay, should_enrich, start_order, text_less};
use yotsuba::text::chars_of;

#[test]
fn events_merge_by_id() {
    let merged = merge_by_id(&vec![5, 3, 5], &vec![3, 7, 7, 9]);
    let ids: Vec<i64> = merged.iter().map(|m| m.id).collect();
    assert_eq!(ids, vec![5, 3, 7, 9]);
    assert!(!merged[0].from_feed);
    assert_eq!(merged[0].base, 2);
    assert!(merged[0].merged.is_empty());
    assert_eq!(merged[1].base, 1);
    assert_eq!(merged[1].merged, vec![0]);
    assert!(merged[2].from_feed);
    assert_eq!(merged[2].base, 1);
    assert_eq!(merged[2].merged, vec![2]);
    assert_eq!(merged[3].base, 3);
}

#[test]
fn events_ordered_by_start_stably() {
    let starts = vec!["b".to_string(), "a".to_string(), "b".to_string(), "a".to_string(), "ab".to_string()];
    assert_eq!(start_order(&starts), vec![1, 3, 4, 0, 2]);
    assert!(text_less(&chars_of("2024-01-01"), &chars_of("2024-01-02")));
    assert!(!text_less(&chars_of("b"), &chars_of("a")));
    assert!(text_less(&chars_of(""), &chars_of("a")));
}

#[test]
fn worker_settings() {
    assert_eq!(scraper_delay(None), 500);
    assert_eq!(scraper_delay(Some("0")), 0);
    assert_eq!(scraper_delay(Some("fast")), 500);
    assert!(should_enrich(1));
    assert!(!should_enrich(0));
}

#[test]
fn announcements_use_utc_dates() {
    let start = Timestamp { secs: 1_777_629_600, nanos: 0 };
    let end = Timestamp { secs: 1_777_629_600 + 86400, nanos: 0 };
    assert_eq!(
        announcement("CTF", "https://c", start, end),
        "New or updated CTF: CTF\nhttps://c\n2026-05-01 10:00:00 UTC -> 2026-05-02 10:00:00 UTC"
    );
}

#[test]
fn gateway_settings() {
    assert_eq!(normalize_token("Bot  abc \n"), "abc");
    assert_eq!(normalize_token(" tok "), "tok");
    assert!(setting_present(Some(" 1 ")));
    assert!(!setting_present(Some("  ")));
    assert!(!setting_present(None));
    assert_eq!(shard_config(None, None, None), Ok((1, 0, 0)));
    assert_eq!(shard_config(Some(4), Some(1), Some(2)), Ok((4, 1, 2)));
    assert_eq!(
        shard_config(Some(4), Some(3), Some(2)),
        Err("DISCORD_SHARD_START (3) must not exceed DISCORD_SHARD_END (2)".to_string())
    );
    assert_eq!(shard_config(Some(2), Some(2), None), Err("Shard range end (2) must be less than total (2)".to_string()));
    assert_eq!(shard_info(0, 0, 1), "0/1");
    assert_eq!(shard_info(1, 3, 4), "1-3/4");
    assert_eq!(health_status(false), "degraded");
}
