//! The error vocabulary of an editing session.

use vstd::prelude::*;

verus! {

/// Everything that can end a session or a sync without success.
///
/// `InvalidJson` carries the parser's description of what was wrong with
/// the stripped text. The variants about the editor and about file
/// handling are constructed by the caller that performs those external
/// steps; validation and collision errors come from the library itself.
#[derive(Debug, PartialEq, Eq)]
pub enum EditError {
    /// The target file is missing and not creatable by convention.
    NotFound,
    /// A commented file exists with no canonical counterpart, so neither
    /// side can be taken as authoritative.
    AmbiguousCollision,
    /// The stripped content failed to parse as JSON.
    InvalidJson(String),
    /// The external editor could not be started.
    EditorLaunchFailed,
    /// The external editor exited with a non-zero status.
    EditorNonZeroExit,
    /// A read, write or metadata error not otherwise classified.
    IoFailure,
}

} // verus!
