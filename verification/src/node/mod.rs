//! Node.js packages: manifests, platforms and `node_modules`.
pub mod parser;
pub mod parser_laws;
pub mod platform;
pub mod modules;
pub mod modules_laws;
pub mod client;
pub mod runtime;
pub mod tool_laws;
