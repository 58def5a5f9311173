//! Planning and bookkeeping for a bulk file reader: a list of paths is dealt
//! out to worker threads, each file is read once (optionally capped in size),
//! and the outcomes travel through one bounded channel to a single consumer.
//!
//! This crate holds the decisions of that pipeline and proves them; the
//! threads, the asynchronous reads and the host bindings live with the caller.

pub mod channel;
pub mod consumer;
pub mod outcome;
pub mod partition;
pub mod pipeline;
pub mod reader;
pub mod workers;
