//! The decisions of kong, a dependency manager for Python, Node.js, Rust and
//! Homebrew packages.
pub mod text;
pub mod text_laws;
pub mod chars;
pub mod python;
pub mod doc;
pub mod doc_laws;
pub mod unicode;
pub mod paths;
pub mod path_laws;
pub mod download;
pub mod download_laws;
pub mod rust_eco;
pub mod node;
pub mod config;
pub mod config_laws;
pub mod actions;
pub mod link;
pub mod extract;
pub mod store;
pub mod brew;
pub mod runner;
pub mod run_laws;
pub mod service;
pub mod migrate;
pub mod migrate_laws;
pub mod cli;
