//! Local-network discovery and reachability-probing engine.
//!
//! The library enumerates candidate IPv4 addresses from local interfaces,
//! decides host liveness and open service ports from timeout-bounded probe
//! outcomes, folds per-host findings into host records, and assembles a
//! deduplicated, lexicographically sorted inventory. All decision logic is
//! verified; the sockets, subprocesses and HTTP calls that feed it live in
//! the surrounding application.

pub mod addr;
pub mod arp;
pub mod config;
pub mod ftp;
pub mod gate;
pub mod host;
pub mod iface;
pub mod lines;
pub mod order;
pub mod probe;
pub mod scan;
pub mod smb;
pub mod text;
pub mod webdav;
