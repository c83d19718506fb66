use status_monitor::config::Config;
use status_monitor::delivery::{
    classify, status_is_client_error, status_is_success, DeliveryError, Disposition, Reporter,
    TransportResult,
};
use status_monitor::models::MetricInput;

fn config() -> Config {
    Config {
        server_url: "http://collector:8080".to_string(),
        token: "secret".to_string(),
        hostname: "web-1".to_string(),
        docker_path: "/var/lib/docker".to_string(),
        github_repo: None,
    }
}

fn sample(n: u64) -> MetricInput {
    MetricInput {
        cpu_usage: n,
        ram_usage: 2 * n,
        disk_usage: 3 * n,
        inode_usage: 4 * n,
        docker_sz: None,
        gpu_usage: None,
        timestamp: format!("t{}", n),
    }
}

fn cpu_values(samples: &[MetricInput]) -> Vec<u64> {
    samples.iter().map(|m| m.cpu_usage).collect()
}

#[test]
fn statuses_are_classified_by_their_range() {
    assert_eq!(classify(TransportResult::Status(200)), Disposition::Delivered);
    assert_eq!(classify(TransportResult::Status(204)), Disposition::Delivered);
    assert_eq!(classify(TransportResult::Status(299)), Disposition::Delivered);
    assert_eq!(classify(TransportResult::Status(400)), Disposition::Discarded);
    assert_eq!(classify(TransportResult::Status(401)), Disposition::Discarded);
    assert_eq!(classify(TransportResult::Status(499)), Disposition::Discarded);
    assert_eq!(classify(TransportResult::Status(500)), Disposition::Requeued);
    assert_eq!(classify(TransportResult::Status(503)), Disposition::Requeued);
    assert_eq!(classify(TransportResult::Status(302)), Disposition::Requeued);
    assert_eq!(classify(TransportResult::Status(199)), Disposition::Requeued);
    assert_eq!(classify(TransportResult::Failed), Disposition::Requeued);
    assert!(status_is_success(200) && !status_is_success(300) && !status_is_success(199));
    assert!(status_is_client_error(404) && !status_is_client_error(500));
}

#[test]
fn an_empty_buffer_gives_no_batch() {
    let mut reporter = Reporter::new(config());
    assert!(reporter.take_batch("1.0.0").is_none());
    assert!(!reporter.in_flight());
}

#[test]
fn a_batch_carries_everything_buffered() {
    let mut reporter = Reporter::new(config());
    reporter.add_metric(sample(1));
    reporter.add_metric(sample(2));
    let batch = reporter.take_batch("1.2.3").unwrap();
    assert_eq!(batch.hostname, "web-1");
    assert_eq!(batch.version, Some("1.2.3".to_string()));
    assert_eq!(cpu_values(&batch.metrics), vec![1, 2]);
    assert!(reporter.get_buffer().is_empty());
    assert_eq!(reporter.report_url(), "http://collector:8080/api/report");
    assert_eq!(reporter.config().token, "secret");
}

#[test]
fn an_accepted_batch_is_dropped() {
    let mut reporter = Reporter::new(config());
    reporter.add_metric(sample(1));
    reporter.add_metric(sample(2));
    let batch = reporter.take_batch("1.0.0").unwrap();
    assert_eq!(reporter.complete_batch(batch, TransportResult::Status(200)), Ok(2));
    assert!(reporter.get_buffer().is_empty());
}

#[test]
fn a_server_error_requeues_the_batch() {
    let mut reporter = Reporter::new(config());
    for n in 1..=3 {
        reporter.add_metric(sample(n));
    }
    let batch = reporter.take_batch("1.0.0").unwrap();
    let result = reporter.complete_batch(batch, TransportResult::Status(503));
    assert_eq!(result, Err(DeliveryError::ServerError(503)));
    assert!(result.unwrap_err().is_retryable());
    let again = reporter.take_batch("1.0.0").unwrap();
    assert_eq!(cpu_values(&again.metrics), vec![1, 2, 3]);
}

#[test]
fn a_transport_failure_requeues_ahead_of_newer_samples() {
    let mut reporter = Reporter::new(config());
    reporter.add_metric(sample(1));
    reporter.add_metric(sample(2));
    let batch = reporter.take_batch("1.0.0").unwrap();
    reporter.add_metric(sample(3));
    let result = reporter.complete_batch(batch, TransportResult::Failed);
    assert_eq!(result, Err(DeliveryError::RequestFailed));
    reporter.add_metric(sample(4));
    let again = reporter.take_batch("1.0.0").unwrap();
    assert_eq!(cpu_values(&again.metrics), vec![1, 2, 3, 4]);
}

#[test]
fn an_unauthorized_batch_is_discarded() {
    let mut reporter = Reporter::new(config());
    reporter.add_metric(sample(1));
    reporter.add_metric(sample(2));
    let batch = reporter.take_batch("1.0.0").unwrap();
    let result = reporter.complete_batch(batch, TransportResult::Status(401));
    assert_eq!(result, Err(DeliveryError::Rejected(401)));
    assert!(!result.unwrap_err().is_retryable());
    assert!(reporter.get_buffer().is_empty());
    assert!(reporter.take_batch("1.0.0").is_none());
}

#[test]
fn a_requeue_is_truncated_to_the_capacity() {
    let mut reporter = Reporter::new(config());
    for n in 0..120 {
        reporter.add_metric(sample(n));
    }
    let batch = reporter.take_batch("1.0.0").unwrap();
    for n in 200..230 {
        reporter.add_metric(sample(n));
    }
    let result = reporter.complete_batch(batch, TransportResult::Status(500));
    assert_eq!(result, Err(DeliveryError::ServerError(500)));
    let again = reporter.take_batch("1.0.0").unwrap();
    let values = cpu_values(&again.metrics);
    assert_eq!(values.len(), 120);
    assert_eq!(&values[..90], (0..90).collect::<Vec<u64>>().as_slice());
    assert_eq!(&values[90..], (200..230).collect::<Vec<u64>>().as_slice());
}

#[test]
fn only_one_batch_is_in_flight() {
    let mut reporter = Reporter::new(config());
    reporter.add_metric(sample(1));
    let batch = reporter.take_batch("1.0.0").unwrap();
    assert!(reporter.in_flight());
    reporter.add_metric(sample(2));
    assert!(reporter.take_batch("1.0.0").is_none());
    assert_eq!(reporter.get_buffer().len(), 1);
    assert_eq!(reporter.complete_batch(batch, TransportResult::Status(200)), Ok(1));
    assert!(!reporter.in_flight());
    let next = reporter.take_batch("1.0.0").unwrap();
    assert_eq!(cpu_values(&next.metrics), vec![2]);
}

#[test]
fn buffering_reports_what_it_evicts() {
    let mut reporter = Reporter::new(config());
    for n in 0..120 {
        assert_eq!(reporter.add_metric(sample(n)), 0);
    }
    assert_eq!(reporter.add_metric(sample(120)), 1);
    assert_eq!(reporter.get_buffer().evicted(), 1);
    assert_eq!(reporter.rebuffer_metrics(vec![sample(7)]), 1);
}
