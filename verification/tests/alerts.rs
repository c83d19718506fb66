use status_monitor::alerts::{check_alerts, metric_value, rule_applies, AlertEvent};
use status_monitor::debounce::{DebounceStore, DEBOUNCE_WINDOW_SECS};
use status_monitor::models::{AlertRule, Metric};

fn metric(cpu: u64) -> Metric {
    Metric {
        id: 1,
        client_id: "c1".to_string(),
        cpu_usage: cpu,
        ram_usage: 40,
        disk_usage: 50,
        inode_usage: 60,
        docker_sz: Some(1024),
        gpu_usage: None,
        timestamp: "2024-01-01T00:00:00+00:00".to_string(),
    }
}

fn rule(id: i64, client: Option<&str>, metric_type: &str, threshold: u64) -> AlertRule {
    AlertRule {
        id,
        client_id: client.map(|c| c.to_string()),
        metric_type: metric_type.to_string(),
        threshold,
        duration_sec: 30,
    }
}

#[test]
fn breach_fires_once_per_debounce_window() {
    let rules = vec![rule(1, None, "cpu", 80)];
    let mut store = DebounceStore::new();
    assert_eq!(store.window(), 300);

    let first = check_alerts(&mut store, "c1", &rules, &metric(85), 0);
    assert_eq!(
        first,
        vec![AlertEvent { client_id: "c1".to_string(), rule: rule(1, None, "cpu", 80), observed_value: 85 }]
    );

    let second = check_alerts(&mut store, "c1", &rules, &metric(90), 100);
    assert!(second.is_empty());
    assert_eq!(store.last_fired("c1", "cpu"), Some(0));

    let third = check_alerts(&mut store, "c1", &rules, &metric(90), 301);
    assert_eq!(third.len(), 1);
    assert_eq!(third[0].observed_value, 90);
    assert_eq!(store.last_fired("c1", "cpu"), Some(301));
}

#[test]
fn the_window_ends_exactly_after_its_length() {
    let rules = vec![rule(1, None, "cpu", 80)];
    let mut store = DebounceStore::new();
    assert_eq!(check_alerts(&mut store, "c1", &rules, &metric(85), 1000).len(), 1);
    assert_eq!(check_alerts(&mut store, "c1", &rules, &metric(85), 1299).len(), 0);
    assert_eq!(check_alerts(&mut store, "c1", &rules, &metric(85), 1300).len(), 1);
    assert_eq!(DEBOUNCE_WINDOW_SECS, 300);
}

#[test]
fn simultaneous_breaches_fire_exactly_one_event() {
    let rules = vec![rule(1, None, "cpu", 80)];
    let mut store = DebounceStore::new();
    let first = check_alerts(&mut store, "c1", &rules, &metric(85), 50);
    let second = check_alerts(&mut store, "c1", &rules, &metric(86), 50);
    assert_eq!(first.len() + second.len(), 1);
    assert_eq!(first.len(), 1);
}

#[test]
fn a_reading_at_the_threshold_is_no_breach() {
    let rules = vec![rule(1, None, "cpu", 80)];
    let mut store = DebounceStore::new();
    assert!(check_alerts(&mut store, "c1", &rules, &metric(80), 0).is_empty());
    assert!(check_alerts(&mut store, "c1", &rules, &metric(79), 0).is_empty());
    assert_eq!(store.last_fired("c1", "cpu"), None);
    assert_eq!(check_alerts(&mut store, "c1", &rules, &metric(81), 0).len(), 1);
}

#[test]
fn a_breach_fires_without_waiting_for_the_duration() {
    let mut slow = rule(1, None, "cpu", 80);
    slow.duration_sec = 3600;
    let mut store = DebounceStore::new();
    let events = check_alerts(&mut store, "c1", &vec![slow], &metric(99), 5);
    assert_eq!(events.len(), 1);
    assert_eq!(events[0].rule.duration_sec, 3600);
}

#[test]
fn unknown_and_absent_readings_are_skipped() {
    let rules = vec![rule(1, None, "gpu", 10), rule(2, None, "temperature", 10), rule(3, None, "docker", 10)];
    let mut store = DebounceStore::new();
    assert!(check_alerts(&mut store, "c1", &rules, &metric(85), 0).is_empty());
    let mut with_gpu = metric(85);
    with_gpu.gpu_usage = Some(95);
    let events = check_alerts(&mut store, "c1", &rules, &with_gpu, 0);
    assert_eq!(events.len(), 1);
    assert_eq!(events[0].rule.id, 1);
    assert_eq!(events[0].observed_value, 95);
}

#[test]
fn each_rule_reads_its_own_kind() {
    let m = metric(10);
    assert_eq!(metric_value(&"cpu".to_string(), &m), Some(10));
    assert_eq!(metric_value(&"ram".to_string(), &m), Some(40));
    assert_eq!(metric_value(&"disk".to_string(), &m), Some(50));
    assert_eq!(metric_value(&"inode".to_string(), &m), Some(60));
    assert_eq!(metric_value(&"gpu".to_string(), &m), None);
    assert_eq!(metric_value(&"CPU".to_string(), &m), None);
    assert_eq!(metric_value(&"".to_string(), &m), None);
}

#[test]
fn rules_of_other_clients_do_not_apply() {
    let rules = vec![rule(1, Some("c2"), "cpu", 80), rule(2, Some("c1"), "ram", 30)];
    assert!(!rule_applies(&rules[0], &"c1".to_string()));
    assert!(rule_applies(&rules[1], &"c1".to_string()));
    assert!(rule_applies(&rule(3, None, "cpu", 1), &"anyone".to_string()));
    let mut store = DebounceStore::new();
    let events = check_alerts(&mut store, "c1", &rules, &metric(85), 0);
    assert_eq!(events.len(), 1);
    assert_eq!(events[0].rule.id, 2);
    assert_eq!(events[0].observed_value, 40);
    assert_eq!(store.last_fired("c1", "cpu"), None);
    assert_eq!(store.last_fired("c1", "ram"), Some(0));
}

#[test]
fn two_rules_on_one_metric_fire_once_per_evaluation() {
    let rules = vec![rule(1, None, "cpu", 80), rule(2, Some("c1"), "cpu", 50), rule(3, None, "ram", 30)];
    let mut store = DebounceStore::new();
    let events = check_alerts(&mut store, "c1", &rules, &metric(85), 7);
    assert_eq!(events.iter().map(|e| e.rule.id).collect::<Vec<_>>(), vec![1, 3]);
}

#[test]
fn pairs_are_debounced_independently() {
    let rules = vec![rule(1, None, "cpu", 80)];
    let mut store = DebounceStore::new();
    assert_eq!(check_alerts(&mut store, "c1", &rules, &metric(85), 0).len(), 1);
    assert_eq!(check_alerts(&mut store, "c2", &rules, &metric(85), 1).len(), 1);
    assert_eq!(check_alerts(&mut store, "c1", &rules, &metric(85), 2).len(), 0);
    assert_eq!(store.last_fired("c2", "cpu"), Some(1));
}

#[test]
fn keys_are_pairs_and_not_joined_text() {
    let mut store = DebounceStore::new();
    assert!(store.check_and_arm("a:b", "c", 0));
    assert!(store.check_and_arm("a", "b:c", 0));
    assert!(!store.check_and_arm("a:b", "c", 10));
}

#[test]
fn a_clock_that_runs_backwards_holds_alerts_back() {
    let mut store = DebounceStore::with_window(60);
    assert!(store.check_and_arm("c1", "cpu", 1000));
    assert!(!store.check_and_arm("c1", "cpu", 900));
    assert_eq!(store.last_fired("c1", "cpu"), Some(1000));
    assert!(store.check_and_arm("c1", "cpu", 1060));
}

#[test]
fn a_window_of_zero_never_holds_back() {
    let mut store = DebounceStore::with_window(0);
    assert!(store.check_and_arm("c1", "cpu", 5));
    assert!(store.check_and_arm("c1", "cpu", 5));
}
