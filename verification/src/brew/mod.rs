//! Homebrew packages: the `Brewfile` of a project, bottles, and what is left to the
//! `brew` command.
pub mod client;
pub mod installer;
pub mod laws;
pub mod parser;
pub mod resolver;
