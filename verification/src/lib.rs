//! A verified core for an HTTP load balancer: the backend registry, the
//! session-affinity selector with round-robin fallback, the bookkeeping of
//! periodic health checks, and the decisions of the request forwarder.
//!
//! The library owns no socket, lock or clock of its own beyond a time stamp:
//! a program around it holds the registry behind a lock, makes the probes
//! and the calls to backends, and hands the outcomes back.

pub mod backend;
pub mod client;
pub mod graph;
pub mod headers;
pub mod monitor;
pub mod proxy;
pub mod registry;
pub mod selector;
pub mod stream;
pub mod table;
pub mod text;
