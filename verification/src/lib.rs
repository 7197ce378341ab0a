//! The rules of a read-throughput benchmark on one Oracle table.
//!
//! A run sets a synthetic table up, splits its row ids into partitions,
//! and has a bounded number of workers scan the partitions side by side
//! over a shared pool of connections, decoding every value by the type of
//! its column. This library decides; its caller acts. It holds
//!
//! - the settings of a run and how they are read ([`args`], [`config`]),
//! - the statements that set the table up ([`provision`]),
//! - the split of the ids into partitions ([`planner`]),
//! - the query of a partition ([`query`]),
//! - the choice of a decode strategy for each fetched cell ([`dispatch`]),
//! - the tally of a partition and the summary of a run ([`outcome`],
//!   [`summary`]).
//!
//! The caller owns the connections and the worker threads, performs what
//! the library decides, and hands the results back.

pub mod args;
pub mod config;
pub mod dispatch;
pub mod outcome;
pub mod planner;
pub mod provision;
pub mod query;
pub mod summary;
pub mod tables;
pub mod text;
