//! The error taxonomy of the installer.
//!
//! Every component surfaces one of these to its caller; the presentation
//! layer maps each variant to display text at the boundary only.

use vstd::prelude::*;

verus! {

/// Errors that can occur when installing, synchronizing or uninstalling.
#[derive(Debug, Clone, PartialEq, Eq)]
pub enum ReShaderError {
    /// The latest injector version could not be determined.
    FetchLatestVersion(String),
    /// A download failed: the URL and a description of the cause.
    Download(String, String),
    /// A symlink could not be placed: source, target, and the reason.
    Symlink(String, String, String),
    /// The installer executable holds no zip archive signature.
    NoZipFile,
    /// The archive opened but lacks the injector library entry.
    NoReShade64Dll,
    /// The zip archive could not be read.
    ReadZipFile,
    /// An entry of the zip archive could not be extracted.
    ExtractZipFile,
    /// No shader repository exists at the expected path.
    RepositoryNotFound(String),
    /// The named branch does not exist in the named repository.
    BranchNotFound(String, String),
    /// Merging the named branch of the named repository hit conflicts.
    MergeConflict(String, String),
    /// A filesystem operation failed; the payload describes it.
    Io(String),
}

/// A `Result` whose error is [`ReShaderError`].
pub type ReShaderResult<T> = Result<T, ReShaderError>;

} // verus!
