//! What the collector writes into its store and reads back from it: the
//! records it makes, the defaults of its queries, and the cut-off times of
//! its time windows.
//!
//! Times are handed in as seconds and nanoseconds since the Unix epoch and
//! are stored as RFC 3339 text in UTC.

use vstd::prelude::*;
use vstd::string::StringExecFns;
use crate::text::{has_prefix, starts_with, trim_leading_text, without_leading_text};
use crate::models::{
    clone_opt_string,
    opt_text,
    AlertRule,
    AlertRuleInput,
    Client,
    CreateClientResponse,
    Metric,
    MetricInput,
};

verus! {

/// Hours that a query looks back when it does not say.
pub const DEFAULT_WINDOW_HOURS: i64 = 24;

/// Rows that a query returns at most when it does not say.
pub const DEFAULT_LIMIT: i64 = 1000;

/// Rows that the query for the latest samples returns at most.
pub const LATEST_COUNT: i64 = 60;

/// Days that samples are kept.
pub const RETENTION_DAYS: i64 = 7;

/// The `duration_sec` of a rule that is submitted without one.
pub const DEFAULT_DURATION_SEC: i64 = 30;

/// Seconds in an hour.
pub const SECONDS_PER_HOUR: i64 = 3600;

/// Hours in a day.
pub const HOURS_PER_DAY: i64 = 24;

/// The length of an identifier in its hyphenated form.
pub const IDENTIFIER_LENGTH: usize = 36;

/// What introduces the file of a database in its address.
pub open spec fn sqlite_scheme() -> Seq<char> {
    "sqlite:"@
}

/// The file that the database address `url` names, if it names a file.
pub open spec fn database_file_of(url: Seq<char>) -> Option<Seq<char>> {
    if has_prefix(url, sqlite_scheme()) {
        Some(without_leading_text(url, sqlite_scheme()))
    } else {
        None
    }
}

/// The file that the database address `url` names, if it names a file:
/// what follows the scheme, however often the scheme is written.
pub fn database_file(url: &str) -> (file: Option<String>)
    ensures
        opt_text(file) == database_file_of(url@),
{
    if starts_with(url, "sqlite:") {
        Some(trim_leading_text(url, "sqlite:"))
    } else {
        None
    }
}

/// `value` if there is one, else `fallback`.
pub open spec fn or_default(value: Option<i64>, fallback: i64) -> i64 {
    match value {
        Some(v) => v,
        None => fallback,
    }
}

/// The hours that a query looks back.
pub fn window_hours(hours: Option<i64>) -> (h: i64)
    ensures
        h == or_default(hours, DEFAULT_WINDOW_HOURS),
{
    match hours {
        Some(h) => h,
        None => DEFAULT_WINDOW_HOURS,
    }
}

/// The rows that a query returns at most.
pub fn row_limit(limit: Option<i64>) -> (l: i64)
    ensures
        l == or_default(limit, DEFAULT_LIMIT),
{
    match limit {
        Some(l) => l,
        None => DEFAULT_LIMIT,
    }
}

/// The second that lies `hours` hours before the second `now`, if it can
/// be written in 64 bits.
pub open spec fn cutoff_of(now: i64, hours: i64) -> Option<i64> {
    let at = now - hours * SECONDS_PER_HOUR;
    if i64::MIN <= at <= i64::MAX && i64::MIN <= hours * SECONDS_PER_HOUR <= i64::MAX {
        Some(at as i64)
    } else {
        None
    }
}

/// The second that lies `hours` hours before the second `now`.
pub fn cutoff_secs(now: i64, hours: i64) -> (at: Option<i64>)
    ensures
        at == cutoff_of(now, hours),
{
    match hours.checked_mul(SECONDS_PER_HOUR) {
        Some(span) => now.checked_sub(span),
        None => None,
    }
}

/// The RFC 3339 text of the instant `secs` seconds and `nanos` nanoseconds
/// after the Unix epoch, in UTC, where it has one.
pub uninterp spec fn rfc3339_of(secs: i64, nanos: u32) -> Option<Seq<char>>;

/// `chrono::DateTime::from_timestamp`, then `DateTime::to_rfc3339` on what
/// it gives: the instant as RFC 3339 text in UTC, with the offset written
/// `+00:00`, or nothing where the instant is outside the range of dates
/// that the crate can hold. The result depends on the two numbers alone.
#[verifier::external_body]
fn rfc3339(secs: i64, nanos: u32) -> (text: Option<String>)
    ensures
        opt_text(text) == rfc3339_of(secs, nanos),
{
    Some(chrono::DateTime::from_timestamp(secs, nanos)?.to_rfc3339())
}

/// The text under which the instant is stored.
pub fn timestamp_text(secs: i64, nanos: u32) -> (text: Option<String>)
    ensures
        opt_text(text) == rfc3339_of(secs, nanos),
{
    rfc3339(secs, nanos)
}

/// The text of the cut-off `cutoff`, taken at `nanos` nanoseconds.
pub open spec fn cutoff_text_of(cutoff: Option<i64>, nanos: u32) -> Option<Seq<char>> {
    match cutoff {
        Some(at) => rfc3339_of(at, nanos),
        None => None,
    }
}

/// The stored form of the instant that lies `hours` hours before now:
/// samples are in the window if their timestamp is not below it.
pub fn window_start(now_secs: i64, now_nanos: u32, hours: Option<i64>) -> (text: Option<String>)
    ensures
        opt_text(text) == cutoff_text_of(
            cutoff_of(now_secs, or_default(hours, DEFAULT_WINDOW_HOURS)),
            now_nanos,
        ),
{
    match cutoff_secs(now_secs, window_hours(hours)) {
        Some(at) => rfc3339(at, now_nanos),
        None => None,
    }
}

/// The hours in `days` days, if they can be written in 64 bits.
pub open spec fn hours_of(days: i64) -> Option<i64> {
    if i64::MIN <= days * HOURS_PER_DAY <= i64::MAX {
        Some((days * HOURS_PER_DAY) as i64)
    } else {
        None
    }
}

/// The cut-off that lies `days` days before the second `now`.
pub open spec fn retention_cutoff_of(now: i64, days: i64) -> Option<i64> {
    match hours_of(days) {
        Some(hours) => cutoff_of(now, hours),
        None => None,
    }
}

/// The stored form of the instant that lies `days` days before now:
/// samples with a timestamp below it are due for deletion.
pub fn retention_cutoff(now_secs: i64, now_nanos: u32, days: i64) -> (text: Option<String>)
    ensures
        opt_text(text) == cutoff_text_of(retention_cutoff_of(now_secs, days), now_nanos),
{
    let hours = match days.checked_mul(HOURS_PER_DAY) {
        Some(hours) => hours,
        None => {
            return None;
        },
    };
    match cutoff_secs(now_secs, hours) {
        Some(at) => rfc3339(at, now_nanos),
        None => None,
    }
}

/// `uuid::Uuid::new_v4`, written out by its `to_string`: a fresh random
/// identifier in the hyphenated form, which is 36 characters long. Nothing
/// else is known of it: two calls give two unrelated identifiers.
#[verifier::external_body]
fn fresh_identifier() -> (id: String)
    ensures
        id@.len() == IDENTIFIER_LENGTH,
{
    uuid::Uuid::new_v4().to_string()
}

/// The record of a client that registers as `hostname` at the time `now`.
/// It gets a fresh id and a fresh credential, and has reported no version.
pub fn new_client(hostname: &str, now: String) -> (client: Client)
    ensures
        client.hostname@ == hostname@,
        client.last_seen == now,
        client.version is None,
        client.id@.len() == IDENTIFIER_LENGTH,
        client.token@.len() == IDENTIFIER_LENGTH,
{
    let id = fresh_identifier();
    let token = fresh_identifier();
    Client { id, hostname: String::from_str(hostname), token, last_seen: now, version: None }
}

/// What a newly registered client is told: its record with the credential.
pub fn registration_of(client: Client) -> (response: CreateClientResponse)
    ensures
        response.id == client.id,
        response.hostname == client.hostname,
        response.token == client.token,
{
    CreateClientResponse { id: client.id, hostname: client.hostname, token: client.token }
}

/// The stored form of the sample `input` of the client `client_id`, which
/// the store has given the sequence number `id`.
pub fn stored_metric(id: i64, client_id: &str, input: &MetricInput) -> (metric: Metric)
    ensures
        metric.id == id,
        metric.client_id@ == client_id@,
        metric.cpu_usage == input.cpu_usage,
        metric.ram_usage == input.ram_usage,
        metric.disk_usage == input.disk_usage,
        metric.inode_usage == input.inode_usage,
        metric.docker_sz == input.docker_sz,
        metric.gpu_usage == input.gpu_usage,
        metric.timestamp == input.timestamp,
{
    Metric {
        id,
        client_id: String::from_str(client_id),
        cpu_usage: input.cpu_usage,
        ram_usage: input.ram_usage,
        disk_usage: input.disk_usage,
        inode_usage: input.inode_usage,
        docker_sz: input.docker_sz,
        gpu_usage: input.gpu_usage,
        timestamp: input.timestamp.clone(),
    }
}

/// The `duration_sec` that the rule `input` is stored with.
pub fn rule_duration(input: &AlertRuleInput) -> (duration: i64)
    ensures
        duration == or_default(input.duration_sec, DEFAULT_DURATION_SEC),
{
    match input.duration_sec {
        Some(d) => d,
        None => DEFAULT_DURATION_SEC,
    }
}

/// The stored form of the rule `input`, which the store has given the
/// sequence number `id`.
pub fn stored_rule(id: i64, input: &AlertRuleInput) -> (rule: AlertRule)
    ensures
        rule.id == id,
        rule.client_id == input.client_id,
        rule.metric_type == input.metric_type,
        rule.threshold == input.threshold,
        rule.duration_sec == or_default(input.duration_sec, DEFAULT_DURATION_SEC),
{
    AlertRule {
        id,
        client_id: clone_opt_string(&input.client_id),
        metric_type: input.metric_type.clone(),
        threshold: input.threshold,
        duration_sec: rule_duration(input),
    }
}

/// Whether a deletion that touched `rows_affected` rows deleted anything.
pub fn deleted_any(rows_affected: u64) -> (deleted: bool)
    ensures
        deleted == (rows_affected > 0),
{
    rows_affected > 0
}

} // verus!
