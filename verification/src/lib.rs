//! Sensor state for a home-automation bridge: decoding of the bridge's update
//! stream, a replay cache of recent updates, per-device sensor state with
//! rolling history windows, and the decisions of the gateway, the ingestion
//! loop and the aggregate cache.

pub mod bus;
pub mod cache;
pub mod client;
pub mod eventcache;
pub mod events;
pub mod gateway;
pub mod history;
pub mod ingest;
pub mod json;
pub mod listing;
pub mod models;
pub mod names;
pub mod stream;
pub mod text;
pub mod time;
