//! Command execution core for a set of sensors driven over a serial link.
//!
//! The library owns everything that can be decided without touching the
//! hardware: which commands a query selects, the wire form of each request,
//! how a raw response decodes into a typed reading, and how per-command
//! outcomes accumulate into a result map that never loses an entry.  The
//! serial transport itself (open, write, read, the inter-command pause) is
//! driven by a thin caller that reports each outcome back to the engine.

pub mod commands;
pub mod decode;
pub mod engine;
pub mod reading;
pub mod result_map;
pub mod types;
