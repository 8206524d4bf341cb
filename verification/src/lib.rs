//! Keeps a fixed set of watched files on a master node synchronized onto a
//! fleet of slave nodes: change detection by content digest, fan-out
//! distribution with partial-failure isolation, slave-side ingestion with
//! date-bucketed backups and retention pruning, and an IP allow-list in
//! front of the slave endpoints.

pub mod codec;
pub mod config;
pub mod distribution;
pub mod elastic;
pub mod errors;
pub mod file_service;
pub mod hash_store;
pub mod hash_utils;
pub mod ingestion;
pub mod middleware;
pub mod text;
pub mod time_utils;
pub mod transport;
pub mod watch_service;
