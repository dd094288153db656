//! A harness that measures the cost of passing a Cap'n Proto message from a
//! producer to a consumer under several transports and buffer-reuse
//! strategies. The library holds the decisions: the command-line
//! configuration, the scratch-buffer pool, and the lockstep sequencing of
//! requests and responses. Workloads and I/O live with the caller.
pub mod config;
pub mod lockstep;
pub mod scratch;
