//! Concurrent, range-aware file download planning, together with the
//! crypto, encoding and command-result helpers that accompany it.
//!
//! The downloader core is pure logic: probing a server's capabilities,
//! selecting a worker budget, partitioning a transfer into balanced byte
//! ranges, tracking each chunk's retry state, and driving the operation's
//! state machine.  All I/O (HTTP requests, file mapping, renames) is left
//! to the host, which feeds events into the state machine and performs the
//! actions it emits.

pub mod filename;
pub mod plan;
pub mod pool;
pub mod safe;
pub mod utils;
pub mod web;
