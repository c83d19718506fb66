use status_monitor::models::{AlertRuleInput, MetricInput};
use status_monitor::records::{
    cutoff_secs, database_file, deleted_any, new_client, registration_of, retention_cutoff, row_limit,
    rule_duration, stored_metric, stored_rule, timestamp_text, window_hours, window_start,
    DEFAULT_DURATION_SEC, DEFAULT_LIMIT, DEFAULT_WINDOW_HOURS, LATEST_COUNT, RETENTION_DAYS,
};

#[test]
fn queries_have_defaults() {
    assert_eq!(window_hours(None), 24);
    assert_eq!(window_hours(Some(6)), 6);
    assert_eq!(row_limit(None), 1000);
    assert_eq!(row_limit(Some(-1)), -1);
    assert_eq!((DEFAULT_WINDOW_HOURS, DEFAULT_LIMIT, LATEST_COUNT, RETENTION_DAYS), (24, 1000, 60, 7));
}

#[test]
fn a_cutoff_lies_whole_hours_back() {
    assert_eq!(cutoff_secs(86_400, 24), Some(0));
    assert_eq!(cutoff_secs(1_000_000, 1), Some(996_400));
    assert_eq!(cutoff_secs(0, -2), Some(7_200));
    assert_eq!(cutoff_secs(0, i64::MAX), None);
    assert_eq!(cutoff_secs(i64::MIN, 1), None);
    assert_eq!(cutoff_secs(i64::MAX, -1), None);
}

#[test]
fn instants_are_stored_as_rfc3339_text() {
    assert_eq!(timestamp_text(0, 0), Some("1970-01-01T00:00:00+00:00".to_string()));
    assert_eq!(timestamp_text(1_700_000_000, 0), Some("2023-11-14T22:13:20+00:00".to_string()));
    assert_eq!(
        timestamp_text(1_700_000_000, 123_000_000),
        Some("2023-11-14T22:13:20.123+00:00".to_string())
    );
    assert_eq!(timestamp_text(-1, 0), Some("1969-12-31T23:59:59+00:00".to_string()));
    assert_eq!(timestamp_text(i64::MAX, 0), None);
}

#[test]
fn the_window_starts_a_day_back_by_default() {
    assert_eq!(window_start(1_700_000_000, 0, None), Some("2023-11-13T22:13:20+00:00".to_string()));
    assert_eq!(window_start(1_700_000_000, 0, Some(1)), Some("2023-11-14T21:13:20+00:00".to_string()));
    assert_eq!(
        window_start(1_700_000_000, 500_000, Some(0)),
        Some("2023-11-14T22:13:20.000500+00:00".to_string())
    );
    assert_eq!(window_start(0, 0, Some(i64::MAX)), None);
}

#[test]
fn samples_are_kept_for_a_week() {
    assert_eq!(
        retention_cutoff(1_700_000_000, 0, RETENTION_DAYS),
        Some("2023-11-07T22:13:20+00:00".to_string())
    );
    assert_eq!(retention_cutoff(1_700_000_000, 0, i64::MAX), None);
    assert_eq!(retention_cutoff(1_700_000_000, 0, i64::MAX / 24), None);
}

#[test]
fn a_new_client_gets_fresh_identifiers() {
    let client = new_client("web-1", "2024-01-01T00:00:00+00:00".to_string());
    assert_eq!(client.hostname, "web-1");
    assert_eq!(client.last_seen, "2024-01-01T00:00:00+00:00");
    assert_eq!(client.version, None);
    assert_eq!(client.id.len(), 36);
    assert_eq!(client.token.len(), 36);
    assert_ne!(client.id, client.token);
    assert_ne!(client.id, "web-1");
    let other = new_client("web-1", String::new());
    assert_ne!(other.id, client.id);
    assert_ne!(other.token, client.token);
    let response = registration_of(client);
    assert_eq!(response.hostname, "web-1");
    assert_eq!(response.token.len(), 36);
}

#[test]
fn a_stored_sample_keeps_its_readings() {
    let input = MetricInput {
        cpu_usage: 1,
        ram_usage: 2,
        disk_usage: 3,
        inode_usage: 4,
        docker_sz: Some(5),
        gpu_usage: None,
        timestamp: "t".to_string(),
    };
    let metric = stored_metric(42, "c1", &input);
    assert_eq!(metric.id, 42);
    assert_eq!(metric.client_id, "c1");
    assert_eq!(
        (metric.cpu_usage, metric.ram_usage, metric.disk_usage, metric.inode_usage),
        (1, 2, 3, 4)
    );
    assert_eq!((metric.docker_sz, metric.gpu_usage), (Some(5), None));
    assert_eq!(metric.timestamp, "t");
}

#[test]
fn a_rule_without_duration_gets_the_default() {
    let mut input = AlertRuleInput {
        client_id: Some("c1".to_string()),
        metric_type: "cpu".to_string(),
        threshold: 80000,
        duration_sec: None,
    };
    assert_eq!(rule_duration(&input), 30);
    assert_eq!(DEFAULT_DURATION_SEC, 30);
    let rule = stored_rule(7, &input);
    assert_eq!(rule.id, 7);
    assert_eq!(rule.client_id, Some("c1".to_string()));
    assert_eq!(rule.metric_type, "cpu");
    assert_eq!(rule.threshold, 80000);
    assert_eq!(rule.duration_sec, 30);
    input.duration_sec = Some(120);
    assert_eq!(stored_rule(8, &input).duration_sec, 120);
}

#[test]
fn a_deletion_counts_if_it_touched_a_row() {
    assert!(!deleted_any(0));
    assert!(deleted_any(1));
    assert!(deleted_any(12));
}

#[test]
fn a_database_address_names_its_file() {
    assert_eq!(database_file("sqlite:data/monitor.db"), Some("data/monitor.db".to_string()));
    assert_eq!(database_file("sqlite::memory:"), Some(":memory:".to_string()));
    assert_eq!(database_file("sqlite:"), Some(String::new()));
    assert_eq!(database_file("postgres://db"), None);
    assert_eq!(database_file(""), None);
}
