//! Scaffolds Next.js App-Router API handler files from embedded templates.
//!
//! `cli` holds the parsed command and turns its flags into a request,
//! `domain` validates and normalises it, `templates` and `generation` render
//! the file contents, `io` is the file-system boundary (with `paths`
//! comparing paths by their components), `run` decides the
//! collision check and the writes, and `command` ties them together for the
//! program. `update` words the outcome of a self-update, and `text` holds
//! the string operations they share.

pub mod cli;
pub mod command;
pub mod domain;
pub mod error;
pub mod generation;
pub mod io;
pub mod paths;
pub mod run;
pub mod templates;
pub mod text;
pub mod update;
