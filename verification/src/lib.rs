//! Reliable telemetry delivery and alerting: the agent's bounded sample
//! buffer and delivery policy, and the collector's alert engine.

pub mod alerts;
pub mod buffer;
pub mod config;
pub mod debounce;
pub mod delivery;
pub mod dispatch;
pub mod fanout;
pub mod ingest;
pub mod models;
pub mod records;
pub mod routes;
pub mod sampling;
pub mod stats;
pub mod text;
pub mod updater;
pub mod version;
