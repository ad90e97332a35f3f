//! The single error type of the tool.

use vstd::prelude::*;

verus! {

/// The standard library's I/O error, carried unchanged inside [`CliError::Io`].
#[verifier::external_type_specification]
#[verifier::external_body]
pub struct ExIoError(std::io::Error);

/// Every way a command can fail.
#[derive(Debug)]
pub enum CliError {
    /// The resource name was rejected; holds the raw input.
    InvalidName(String),
    /// No HTTP method was selected.
    NoMethods,
    /// A target file exists and overwriting was not requested; holds its path.
    FileExists(String),
    /// The file system failed at `path`.
    Io { path: String, source: std::io::Error },
    /// Self-update failed; holds the reason.
    Update(String),
}

/// `e` is the rejection of the raw resource name `raw`.
pub open spec fn is_invalid_name(e: CliError, raw: Seq<char>) -> bool {
    match e {
        CliError::InvalidName(s) => s@ == raw,
        _ => false,
    }
}

/// `e` reports that the file at `path` already exists.
pub open spec fn is_file_exists(e: CliError, path: Seq<char>) -> bool {
    match e {
        CliError::FileExists(s) => s@ == path,
        _ => false,
    }
}

} // verus!
