//! Storage layer of a distributed key-value server: a uniform operation
//! contract over interchangeable backends (a volatile single-owner map, a
//! lock-guarded map, and a disk-persistent engine layered with a bounded
//! least-recently-used cache), selected and configured at startup.

pub mod config;
pub mod error;
pub mod numbers;
pub mod store;
pub mod store_map;
