use status_monitor::alerts::AlertEvent;
use status_monitor::debounce::DebounceStore;
use status_monitor::ingest::{
    bearer_token, IngestAction, Ingestion, Phase, StoreReply, STATUS_INTERNAL_ERROR, STATUS_OK,
    STATUS_UNAUTHORIZED,
};
use status_monitor::models::{AlertRule, Client, Metric};

fn client() -> Client {
    Client {
        id: "c1".to_string(),
        hostname: "web-1".to_string(),
        token: "secret".to_string(),
        last_seen: "2024-01-01T00:00:00+00:00".to_string(),
        version: None,
    }
}

fn metric(id: i64, cpu: u64) -> Metric {
    Metric {
        id,
        client_id: "c1".to_string(),
        cpu_usage: cpu,
        ram_usage: 0,
        disk_usage: 0,
        inode_usage: 0,
        docker_sz: None,
        gpu_usage: None,
        timestamp: String::new(),
    }
}

fn cpu_rule(threshold: u64) -> AlertRule {
    AlertRule { id: 9, client_id: None, metric_type: "cpu".to_string(), threshold, duration_sec: 30 }
}

fn expect_respond(action: IngestAction) -> (u16, Vec<AlertEvent>) {
    match action {
        IngestAction::Respond(status, events) => (status, events),
        _ => panic!("the ingestion should have ended"),
    }
}

fn is_action(action: &IngestAction, kind: &str, text: &str) -> bool {
    match action {
        IngestAction::FindClient(t) => kind == "find" && t == text,
        IngestAction::TouchClient(t) => kind == "touch" && t == text,
        IngestAction::InsertMetrics(t) => kind == "insert" && t == text,
        IngestAction::FetchRules(t) => kind == "rules" && t == text,
        IngestAction::Respond(_, _) => false,
    }
}

#[test]
fn the_credential_follows_the_bearer_prefix() {
    assert_eq!(bearer_token(Some("Bearer abc")), Some("abc".to_string()));
    assert_eq!(bearer_token(Some("Bearer ")), Some(String::new()));
    assert_eq!(bearer_token(Some("Bearer  x y")), Some(" x y".to_string()));
    assert_eq!(bearer_token(Some("bearer abc")), None);
    assert_eq!(bearer_token(Some("Bearer")), None);
    assert_eq!(bearer_token(Some("Basic abc")), None);
    assert_eq!(bearer_token(Some("")), None);
    assert_eq!(bearer_token(None), None);
}

#[test]
fn a_batch_is_found_touched_stored_and_evaluated() {
    let mut store = DebounceStore::new();
    let (mut ingestion, action) = Ingestion::start(Some("Bearer secret"));
    assert!(is_action(&action, "find", "secret"));
    assert_eq!(ingestion.phase(), Phase::FindingClient);

    let action = ingestion.step(StoreReply::Client(Some(client())), &mut store, 10);
    assert!(is_action(&action, "touch", "c1"));
    assert_eq!(ingestion.phase(), Phase::Touching);

    let action = ingestion.step(StoreReply::Touched, &mut store, 10);
    assert!(is_action(&action, "insert", "c1"));
    assert_eq!(ingestion.phase(), Phase::Inserting);

    let stored = vec![metric(1, 99), metric(2, 10), metric(3, 85)];
    let action = ingestion.step(StoreReply::Inserted(stored), &mut store, 10);
    assert!(is_action(&action, "rules", "c1"));
    assert_eq!(ingestion.phase(), Phase::FetchingRules);

    let action = ingestion.step(StoreReply::Rules(vec![cpu_rule(80)]), &mut store, 10);
    let (status, events) = expect_respond(action);
    assert_eq!(status, STATUS_OK);
    assert_eq!(events.len(), 1);
    assert_eq!(events[0].client_id, "c1");
    assert_eq!(events[0].observed_value, 85);
    assert_eq!(ingestion.phase(), Phase::Done);
    assert_eq!(store.last_fired("c1", "cpu"), Some(10));
}

#[test]
fn only_the_last_sample_is_evaluated() {
    let mut store = DebounceStore::new();
    let (mut ingestion, _) = Ingestion::start(Some("Bearer secret"));
    ingestion.step(StoreReply::Client(Some(client())), &mut store, 0);
    ingestion.step(StoreReply::Touched, &mut store, 0);
    ingestion.step(StoreReply::Inserted(vec![metric(1, 99), metric(2, 10)]), &mut store, 0);
    let (status, events) =
        expect_respond(ingestion.step(StoreReply::Rules(vec![cpu_rule(80)]), &mut store, 0));
    assert_eq!(status, 200);
    assert!(events.is_empty());
    assert_eq!(store.last_fired("c1", "cpu"), None);
}

#[test]
fn a_missing_credential_is_refused_at_once() {
    for header in [None, Some("secret"), Some("Basic secret")] {
        let (ingestion, action) = Ingestion::start(header);
        let (status, events) = expect_respond(action);
        assert_eq!(status, STATUS_UNAUTHORIZED);
        assert_eq!(status, 401);
        assert!(events.is_empty());
        assert_eq!(ingestion.phase(), Phase::Done);
    }
}

#[test]
fn an_unknown_credential_is_refused() {
    let mut store = DebounceStore::new();
    let (mut ingestion, _) = Ingestion::start(Some("Bearer nobody"));
    let (status, events) = expect_respond(ingestion.step(StoreReply::Client(None), &mut store, 0));
    assert_eq!(status, 401);
    assert!(events.is_empty());
    assert_eq!(ingestion.phase(), Phase::Done);
}

#[test]
fn a_store_failure_before_the_samples_are_stored_fails_the_batch() {
    let mut store = DebounceStore::new();

    let (mut ingestion, _) = Ingestion::start(Some("Bearer secret"));
    let (status, _) = expect_respond(ingestion.step(StoreReply::Failed, &mut store, 0));
    assert_eq!(status, STATUS_INTERNAL_ERROR);
    assert_eq!(status, 500);

    let (mut ingestion, _) = Ingestion::start(Some("Bearer secret"));
    ingestion.step(StoreReply::Client(Some(client())), &mut store, 0);
    let (status, _) = expect_respond(ingestion.step(StoreReply::Failed, &mut store, 0));
    assert_eq!(status, 500);

    let (mut ingestion, _) = Ingestion::start(Some("Bearer secret"));
    ingestion.step(StoreReply::Client(Some(client())), &mut store, 0);
    ingestion.step(StoreReply::Touched, &mut store, 0);
    let (status, _) = expect_respond(ingestion.step(StoreReply::Failed, &mut store, 0));
    assert_eq!(status, 500);
    assert_eq!(ingestion.phase(), Phase::Done);
}

#[test]
fn a_store_failure_during_evaluation_does_not_fail_the_batch() {
    let mut store = DebounceStore::new();
    let (mut ingestion, _) = Ingestion::start(Some("Bearer secret"));
    ingestion.step(StoreReply::Client(Some(client())), &mut store, 0);
    ingestion.step(StoreReply::Touched, &mut store, 0);
    ingestion.step(StoreReply::Inserted(vec![metric(1, 99)]), &mut store, 0);
    let (status, events) = expect_respond(ingestion.step(StoreReply::Failed, &mut store, 0));
    assert_eq!(status, 200);
    assert!(events.is_empty());
    assert_eq!(store.last_fired("c1", "cpu"), None);
}

#[test]
fn an_empty_batch_is_accepted_without_evaluation() {
    let mut store = DebounceStore::new();
    let (mut ingestion, _) = Ingestion::start(Some("Bearer secret"));
    ingestion.step(StoreReply::Client(Some(client())), &mut store, 0);
    ingestion.step(StoreReply::Touched, &mut store, 0);
    let (status, events) =
        expect_respond(ingestion.step(StoreReply::Inserted(Vec::new()), &mut store, 0));
    assert_eq!(status, 200);
    assert!(events.is_empty());
    assert_eq!(ingestion.phase(), Phase::Done);
}

#[test]
fn an_answer_out_of_turn_ends_the_ingestion() {
    let mut store = DebounceStore::new();
    let (mut ingestion, _) = Ingestion::start(Some("Bearer secret"));
    let (status, _) = expect_respond(ingestion.step(StoreReply::Touched, &mut store, 0));
    assert_eq!(status, 500);
    let (status, _) =
        expect_respond(ingestion.step(StoreReply::Client(Some(client())), &mut store, 0));
    assert_eq!(status, 500);
}

#[test]
fn two_batches_in_a_row_fire_one_event() {
    let mut store = DebounceStore::new();
    let mut fired = 0;
    for now in [100, 101] {
        let (mut ingestion, _) = Ingestion::start(Some("Bearer secret"));
        ingestion.step(StoreReply::Client(Some(client())), &mut store, now);
        ingestion.step(StoreReply::Touched, &mut store, now);
        ingestion.step(StoreReply::Inserted(vec![metric(1, 95)]), &mut store, now);
        let (status, events) =
            expect_respond(ingestion.step(StoreReply::Rules(vec![cpu_rule(80)]), &mut store, now));
        assert_eq!(status, 200);
        fired += events.len();
    }
    assert_eq!(fired, 1);
}
