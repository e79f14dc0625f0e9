//! The pure decisions of one editing session.
//!
//! A session resolves which file is authoritative at startup, stages the
//! chosen content into a scratch file, hands the scratch file to the
//! external editor, and syncs on completion — with an optional live-sync
//! loop that reacts to change notifications while the editor runs. The
//! staging, the editor and all file handling are the caller's; what
//! stands here are the decisions: the startup classification, the
//! abandonment test for a new file, which notifications matter, and the
//! debounce and read-retry time policies.

use vstd::prelude::*;
use vstd::string::*;

use crate::errors::EditError;

verus! {

/// Which content seeds the editing session.
#[derive(Debug, Clone, Copy, PartialEq, Eq, Structural)]
pub enum ContentSource {
    /// The commented file's content; it is authoritative when both files
    /// exist.
    Commented,
    /// The canonical file's content; the commented file will be created
    /// on the first sync.
    Canonical,
    /// The built-in template; nothing exists yet.
    Template,
}

/// The startup classification: where the initial content comes from and
/// whether the session creates a wholly new document.
#[derive(Debug, Clone, Copy, PartialEq, Eq, Structural)]
pub struct InitialPlan {
    pub source: ContentSource,
    pub is_new_file: bool,
}

/// Classify the session's starting state from which of the two files
/// exist. A commented file without its canonical counterpart is an
/// ambiguous collision: neither side can be trusted as newer, so the
/// session is refused before anything is touched.
pub fn classify_initial(canonical_exists: bool, commented_exists: bool) -> (r: Result<
    InitialPlan,
    EditError,
>)
    ensures
        canonical_exists && commented_exists ==> (r matches Ok(p) && p.source is Commented
            && !p.is_new_file),
        canonical_exists && !commented_exists ==> (r matches Ok(p) && p.source is Canonical
            && !p.is_new_file),
        !canonical_exists && commented_exists ==> (r matches Err(e) && e is AmbiguousCollision),
        !canonical_exists && !commented_exists ==> (r matches Ok(p) && p.source is Template
            && p.is_new_file),
{
    if canonical_exists {
        if commented_exists {
            Ok(InitialPlan { source: ContentSource::Commented, is_new_file: false })
        } else {
            Ok(InitialPlan { source: ContentSource::Canonical, is_new_file: false })
        }
    } else {
        if commented_exists {
            Err(EditError::AmbiguousCollision)
        } else {
            Ok(InitialPlan { source: ContentSource::Template, is_new_file: true })
        }
    }
}

/// The initial content of a wholly new document.
pub open spec fn template_text() -> Seq<char> {
    "{\n  // Add your configuration here\n  \"example\": \"value\"\n}"@
}

/// The built-in template that seeds a new document.
pub fn default_template() -> (r: String)
    ensures
        r@ == template_text(),
{
    String::from_str("{\n  // Add your configuration here\n  \"example\": \"value\"\n}")
}

/// The abandonment test on editor exit: a session that created a wholly
/// new document and whose scratch file's modification time is unchanged
/// ends without writing anything. Modification times are expressed in
/// nanoseconds; a time that could not be read is `None`, which never
/// abandons.
pub fn should_abandon(
    is_new_file: bool,
    initial_mtime: Option<u128>,
    final_mtime: Option<u128>,
) -> (r: bool)
    ensures
        r == (is_new_file && initial_mtime is Some && initial_mtime == final_mtime),
{
    if !is_new_file {
        return false;
    }
    match (initial_mtime, final_mtime) {
        (Some(a), Some(b)) => a == b,
        _ => false,
    }
}

/// A coalesced filesystem notification, as the session classifies it.
#[derive(Debug, Clone, Copy, PartialEq, Eq, Structural)]
pub enum ChangeKind {
    /// The watched file's content was modified.
    Modified,
    /// The watched file was created (some editors replace the file).
    Created,
    /// A handle open for writing was closed.
    CloseWrite,
    /// Anything else (metadata, access, unknown).
    Other,
}

/// Whether a notification of this kind warrants a sync attempt.
pub fn is_meaningful_change(kind: ChangeKind) -> (r: bool)
    ensures
        r == !(kind is Other),
{
    match kind {
        ChangeKind::Other => false,
        _ => true,
    }
}

/// The debounce quantum: notifications closer together than this many
/// milliseconds are dropped.
pub const DEBOUNCE_QUANTUM_MILLIS: u64 = 100;

/// The budget for re-reading a scratch file the editor may be mid-way
/// through writing, in milliseconds.
pub const READ_RETRY_BUDGET_MILLIS: u64 = 500;

/// Debounce: a notification arriving this soon after the last handled
/// one is dropped rather than triggering another sync.
pub fn debounce_allows(elapsed_millis: u64) -> (r: bool)
    ensures
        r == (elapsed_millis >= DEBOUNCE_QUANTUM_MILLIS),
{
    elapsed_millis >= DEBOUNCE_QUANTUM_MILLIS
}

/// Whether a failed read of the scratch file may be retried, this many
/// milliseconds after the first attempt.
pub fn retry_read_allows(elapsed_millis: u64) -> (r: bool)
    ensures
        r == (elapsed_millis <= READ_RETRY_BUDGET_MILLIS),
{
    elapsed_millis <= READ_RETRY_BUDGET_MILLIS
}

} // verus!
