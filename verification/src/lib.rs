//! Change-data-capture pipe core: a replication engine that mirrors row-level
//! changes from an OLTP source (PostgreSQL logical replication, or a MongoDB
//! change stream) into ClickHouse.
//!
//! The verified library holds the pure core: the `pgoutput` binary parser,
//! the type mapper and SQL value renderer, the query builders, and the
//! planning logic of every pipe phase (schema setup, bulk copy, steady-state
//! sync). Network I/O lives outside, in the thin driver built on top.

use vstd::prelude::*;

pub mod adapter;
pub mod clickhouse;
pub mod config;
pub mod errors;
pub mod interface;
pub mod mapper;
pub mod mongo;
pub mod pgoutput;
pub mod postgres;
pub mod pipes;
pub mod progress;
pub mod queries;
pub mod strutil;

pub use strutil::u64_to_string;
