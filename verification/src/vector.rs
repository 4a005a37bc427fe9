//! Vector-similarity search over a sharded corpus of text records.

pub mod config;
pub mod dataset;
pub mod error;
pub mod laws;
pub mod message;
pub mod ranking;
pub mod record;
pub mod server;
pub mod service;
pub mod shards;
pub mod store;
