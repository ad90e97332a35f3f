//! The file-system boundary.

pub mod writer;
