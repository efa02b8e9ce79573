//! Rust crates: lock files, toolchains and the local registry.
pub mod laws;
pub mod parser;
pub mod client;
pub mod runtime;
pub mod source;
