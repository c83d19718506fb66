//! The records that the agent and the collector exchange and store.
//!
//! Utilisation readings are fixed-point numbers: a reading counts
//! thousandths of a percent, so `READING_SCALE` stands for one percent and
//! `FULL_SCALE` for a hundred. Thresholds are held in the same unit, so
//! comparing a reading to a threshold is an integer comparison.

use vstd::prelude::*;
use vstd::string::StringExecFns;

verus! {

/// The reading that stands for one percent.
pub const READING_SCALE: u64 = 1000;

/// The reading that stands for a hundred percent.
pub const FULL_SCALE: u64 = 100000;

/// A monitored machine, as the collector knows it.
#[derive(Debug, Clone, PartialEq, Eq)]
pub struct Client {
    pub id: String,
    pub hostname: String,
    pub token: String,
    pub last_seen: String,
    pub version: Option<String>,
}

/// A client as shown to callers: the record without its credential.
#[derive(Debug, Clone, PartialEq, Eq)]
pub struct ClientResponse {
    pub id: String,
    pub hostname: String,
    pub last_seen: String,
    pub version: Option<String>,
}

impl From<Client> for ClientResponse {
    fn from(c: Client) -> (r: ClientResponse) {
        ClientResponse { id: c.id, hostname: c.hostname, last_seen: c.last_seen, version: c.version }
    }
}

impl vstd::std_specs::convert::FromSpecImpl<Client> for ClientResponse {
    open spec fn obeys_from_spec() -> bool {
        true
    }

    /// The public part of `c`: everything but the credential.
    open spec fn from_spec(c: Client) -> ClientResponse {
        ClientResponse { id: c.id, hostname: c.hostname, last_seen: c.last_seen, version: c.version }
    }
}

/// One timestamped reading of a host, as the agent sends it.
#[derive(Debug, PartialEq, Eq)]
pub struct MetricInput {
    pub cpu_usage: u64,
    pub ram_usage: u64,
    pub disk_usage: u64,
    pub inode_usage: u64,
    pub docker_sz: Option<u64>,
    pub gpu_usage: Option<u64>,
    pub timestamp: String,
}

/// A stored sample: a reading with its sequence number and its client.
#[derive(Debug, Clone, PartialEq, Eq)]
pub struct Metric {
    pub id: i64,
    pub client_id: String,
    pub cpu_usage: u64,
    pub ram_usage: u64,
    pub disk_usage: u64,
    pub inode_usage: u64,
    pub docker_sz: Option<u64>,
    pub gpu_usage: Option<u64>,
    pub timestamp: String,
}

/// What one delivery attempt carries.
#[derive(Debug, Clone, PartialEq, Eq)]
pub struct MetricBatch {
    pub hostname: String,
    pub version: Option<String>,
    pub metrics: Vec<MetricInput>,
}

/// A threshold on one kind of reading, for one client or for all.
#[derive(Debug, PartialEq, Eq)]
pub struct AlertRule {
    pub id: i64,
    pub client_id: Option<String>,
    pub metric_type: String,
    pub threshold: u64,
    pub duration_sec: i64,
}

/// A rule as a caller submits it.
#[derive(Debug, Clone, PartialEq, Eq)]
pub struct AlertRuleInput {
    pub client_id: Option<String>,
    pub metric_type: String,
    pub threshold: u64,
    pub duration_sec: Option<i64>,
}

/// One key of the settings store with its value.
#[derive(Debug, Clone, PartialEq, Eq)]
pub struct Setting {
    pub key: String,
    pub value: String,
}

/// Aggregates of one kind of reading over a time window.
#[derive(Debug, Clone, PartialEq, Eq)]
pub struct Stats {
    pub client_id: String,
    pub metric_type: String,
    pub min: u64,
    pub max: u64,
    pub avg: u64,
    pub p95: u64,
    pub count: u64,
}

#[derive(Debug, Clone, PartialEq, Eq)]
pub struct StatsQuery {
    pub metric_type: Option<String>,
    pub hours: Option<i64>,
}

#[derive(Debug, Clone, PartialEq, Eq)]
pub struct MetricsQuery {
    pub hours: Option<i64>,
    pub limit: Option<i64>,
}

#[derive(Debug, Clone, PartialEq, Eq)]
pub struct CreateClientRequest {
    pub hostname: String,
}

#[derive(Debug, Clone, PartialEq, Eq)]
pub struct CreateClientResponse {
    pub id: String,
    pub hostname: String,
    pub token: String,
}

/// The view of an optional string.
pub open spec fn opt_text(s: Option<String>) -> Option<Seq<char>> {
    match s {
        Some(t) => Some(t@),
        None => None,
    }
}

/// A copy of an optional string.
pub fn clone_opt_string(s: &Option<String>) -> (r: Option<String>)
    ensures
        r == *s,
{
    match s {
        Some(t) => Some(t.clone()),
        None => None,
    }
}

/// Whether `text` is the word `word`.
pub fn text_is(text: &String, word: &str) -> (same: bool)
    ensures
        same == (text@ == word@),
{
    *text == String::from_str(word)
}

/// What a rule says, with its strings as character sequences.
pub struct AlertRuleView {
    pub id: i64,
    pub client_id: Option<Seq<char>>,
    pub metric_type: Seq<char>,
    pub threshold: u64,
    pub duration_sec: i64,
}

impl View for AlertRule {
    type V = AlertRuleView;

    open spec fn view(&self) -> AlertRuleView {
        AlertRuleView {
            id: self.id,
            client_id: opt_text(self.client_id),
            metric_type: self.metric_type@,
            threshold: self.threshold,
            duration_sec: self.duration_sec,
        }
    }
}

impl Clone for AlertRule {
    fn clone(&self) -> (r: AlertRule)
        ensures
            r == *self,
    {
        AlertRule {
            id: self.id,
            client_id: clone_opt_string(&self.client_id),
            metric_type: self.metric_type.clone(),
            threshold: self.threshold,
            duration_sec: self.duration_sec,
        }
    }
}

impl Clone for MetricInput {
    fn clone(&self) -> (r: MetricInput)
        ensures
            r == *self,
    {
        MetricInput {
            cpu_usage: self.cpu_usage,
            ram_usage: self.ram_usage,
            disk_usage: self.disk_usage,
            inode_usage: self.inode_usage,
            docker_sz: self.docker_sz,
            gpu_usage: self.gpu_usage,
            timestamp: self.timestamp.clone(),
        }
    }
}

} // verus!
