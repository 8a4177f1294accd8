//! A verified core for a terminal music player that drives an external
//! media player over a line-delimited JSON control protocol.
//!
//! The crate covers the control-frame wire format, response decoding,
//! status aggregation and display, process-supervisor bookkeeping,
//! playback-transition confirmation, search-result selection, the result
//! cache's bookkeeping and the configuration file's contents.  All I/O
//! (sockets, files, processes) lives outside this crate; these modules
//! hold the decisions and the data, each with a contract.

pub mod aggregator;
pub mod cache;
pub mod config;
pub mod controller;
pub mod frame;
pub mod json;
pub mod parse;
pub mod search;
pub mod status;
pub mod supervisor;
pub mod text;
