//! Allocation-trace ingestion and filtering engine of a live memory-profiling dashboard.
//!
//! An instrumented allocator writes the births and deaths of its allocations to dump files.
//! This library follows those files, keeps one record per allocation, sorts the allocations
//! into the lines of a chart by the filters that the users define, and hands each connected
//! client what is new since it was last served.
//!
//! - `labels`: the store that keeps each distinct list of labels once;
//! - `watcher`: which bytes of which dump file are still to be read and decoded;
//! - `store`: the table of allocations, built from the events of the trace;
//! - `filter`: the filters, and the lines that each allocation belongs to;
//! - `chart`: one series of points per line, and the cursors that clients follow them with;
//! - `totals`: what the points of a series are worth;
//! - `state`: the state of the process, which owns the above and is the only way to change
//!   them;
//! - `session`, `msg`: the life of a connection, and what travels on it;
//! - `layout`: the header of the page, as a tree of markup;
//! - `conf`, `color`, `decimal`, `error`, `uid`: configuration and small values.

pub mod chart;
pub mod color;
pub mod conf;
pub mod decimal;
pub mod error;
pub mod filter;
pub mod labels;
pub mod layout;
pub mod msg;
pub mod session;
pub mod state;
pub mod store;
pub mod totals;
pub mod uid;
pub mod watcher;
