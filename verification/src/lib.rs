//! Drain a byte stream into a canonical transcript exactly.
//!
//! The pump reads raw chunks and writes them, unmodified, to a transcript. It never
//! decodes the stream and never splits a record before persisting it, so invalid bytes and
//! oversized records are captured losslessly. Record boundaries only drive a bounded
//! console preview and a record count. A durable status document beside the transcript
//! tells what the pump observed, and accounts for every status ever submitted.
//!
//! The library decides; it performs no I/O and starts no thread. `capture` is the machine
//! of one capture, `coordinator` the state that submitters and the status worker share,
//! `worker` the machine of that worker, and `drain` the way from a capture's result to the
//! pump's outcome. What holds of each as a whole is stated in the modules named `*_laws`.

// The pieces that everything else is built from.
pub mod config;
pub mod error;
pub mod fault;
pub mod preview;
pub mod status;
pub mod text;

// The capture of one stream.
pub mod capture;
pub mod capture_laws;

// The status coordinator.
pub mod ack;
pub mod coordinator;
pub mod coordinator_invariant;
pub mod coordinator_laws;
pub mod coordinator_model;
pub mod worker;
pub mod worker_laws;

// The pump's outcome.
pub mod drain;
pub mod drain_laws;
