//! Scan-once resolution pipeline: hostnames are resolved to IPv4 addresses,
//! the distinct eligible addresses are selected for exactly one scan each,
//! and the per-address scan results are remapped onto every hostname that
//! shares an address.

pub mod args;
pub mod defaults;
pub mod errors;
pub mod ipv4;
pub mod misc;
pub mod resolver_engine;
pub mod structs;
pub mod text;
