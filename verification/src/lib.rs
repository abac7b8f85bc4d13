//! Core of a small telemetry pipeline: sensor readings arrive as structured
//! text payloads over a publish/subscribe channel, are decoded and validated,
//! persisted in insertion order, and served back newest first.
//!
//! The library holds the verified logic: the payload decoder, the store model
//! with its ordering invariant, the subscriber state machine, and the query
//! adapters. Broker, database and HTTP plumbing live outside the library.

pub mod decode;
pub mod handlers;
pub mod models;
pub mod store;
pub mod subscriber;

pub use models::SensorData;
pub use models::SensorRecord;
