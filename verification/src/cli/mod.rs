//! The command-line surface: the parsed command and its conversion into a
//! domain request.

pub mod args;
