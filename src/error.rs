//! The failures the library reports.
use vstd::prelude::*;

verus! {

#[derive(Debug, Clone, Copy, PartialEq, Eq, Structural)]
pub enum LibraryError {
    /// A required string was empty or whitespace.
    InvalidArgument,
    /// No entry has the given id.
    NotFound,
    /// The path does not exist.
    PathNotFound,
    /// The path is neither a regular file nor a directory.
    UnsupportedPathType,
    /// A file system read, write or create failed.
    IoFailure,
    /// The stored document could not be parsed.
    CorruptStore,
    /// The connection or transfer failed.
    NetworkFailure,
    /// The server answered with a status outside 200..=299.
    DownloadFailed(u16),
}

} // verus!
