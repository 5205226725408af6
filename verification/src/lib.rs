//! Bounded-concurrency harvesting of countries, their cities and a short
//! description of each city, as a set of verified decision procedures.
//!
//! Nothing in this crate performs I/O.  The caller owns the network and the
//! output file; the crate decides what to request next, how often to retry,
//! how many requests may be outstanding, how responses are read and which
//! bytes are appended to the output.

pub mod config;
pub mod details;
pub mod entities;
pub mod error;
pub mod json;
pub mod model;
pub mod pipeline;
pub mod requests;
pub mod retry;
pub mod runner;
pub mod sink;
