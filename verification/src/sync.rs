//! The sync writer's computing half: validate raw commented text and
//! produce the canonical pretty-printed JSON.
//!
//! A sync takes the scratch file's raw text, strips comments, parses the
//! result as JSON and re-serializes it in pretty form. On a parse
//! failure the whole sync is refused and nothing may be written, so the
//! files keep their last good state. On success the caller writes the
//! raw text verbatim to the commented path and the canonical text to the
//! canonical path.

use vstd::prelude::*;

use crate::errors::EditError;
use crate::strip::strip_comments;
use crate::strip::strip_spec;

verus! {

/// Whether serde_json's parser accepts the text as a JSON document.
/// The parser's verdict depends on the characters alone.
pub uninterp spec fn json_wf(s: Seq<char>) -> bool;

/// The pretty-printed serialization of the JSON value the text parses
/// to. Parsing and re-serializing are deterministic, so this too is a
/// function of the characters alone.
pub uninterp spec fn json_pretty(s: Seq<char>) -> Seq<char>;

/// serde_json::Error, the parser's error type, declared opaquely so a
/// wrapper can return it; the library only turns it into a message.
#[verifier::external_type_specification]
#[verifier::external_body]
pub struct ExJsonError(serde_json::Error);

/// Relies on serde_json::from_str::<serde_json::Value> to decide whether
/// the text is valid JSON and on serde_json::to_string_pretty for the
/// canonical form. Both are deterministic in their input; on a
/// serde_json::Value, whose object keys are strings, to_string_pretty
/// cannot fail, so the result is an error exactly when parsing fails.
#[verifier::external_body]
fn render_canonical(s: &str) -> (r: Result<String, serde_json::Error>)
    ensures
        r is Ok <==> json_wf(s@),
        r is Ok ==> r->Ok_0@ == json_pretty(s@),
{
    match serde_json::from_str::<serde_json::Value>(s) {
        Ok(value) => serde_json::to_string_pretty(&value),
        Err(e) => Err(e),
    }
}

/// Relies on the Display implementation of serde_json::Error for a
/// description of the parse failure; nothing is claimed of the text.
#[verifier::external_body]
fn json_error_message(e: &serde_json::Error) -> String {
    e.to_string()
}

/// Whether a sync of this raw text is accepted: its stripped form is
/// valid JSON.
pub open spec fn sync_accepts(raw: Seq<char>) -> bool {
    json_wf(strip_spec(raw))
}

/// The canonical text a successful sync of this raw text produces.
pub open spec fn canonical_of(raw: Seq<char>) -> Seq<char> {
    json_pretty(strip_spec(raw))
}

/// Validate raw commented text and compute the canonical pretty JSON.
///
/// Returns the canonical text exactly when the stripped form of `raw`
/// parses as JSON, and `InvalidJson` with the parser's message
/// otherwise. The caller must write nothing on an error.
pub fn sync_text(raw: &str) -> (r: Result<String, EditError>)
    ensures
        r is Ok <==> sync_accepts(raw@),
        r is Ok ==> r->Ok_0@ == canonical_of(raw@),
        r is Err ==> r->Err_0 is InvalidJson,
{
    let stripped = strip_comments(raw);
    match render_canonical(stripped.as_str()) {
        Ok(pretty) => Ok(pretty),
        Err(e) => Err(EditError::InvalidJson(json_error_message(&e))),
    }
}

/// Law: syncing unchanged raw text twice produces byte-identical
/// canonical output, since the canonical text is a function of the raw
/// text alone. The two arguments are the outputs that `sync_text`'s
/// contract pins for the two runs.
pub proof fn lemma_sync_repeatable(raw: Seq<char>, first_run: Seq<char>, second_run: Seq<char>)
    requires
        first_run == canonical_of(raw),
        second_run == canonical_of(raw),
    ensures
        first_run == second_run,
{
}

} // verus!
