//! A library for keeping a commented JSON configuration file (".jsonc") in
//! step with a strict, comment-free JSON file (".json").
//!
//! The core is a comment-stripping scanner that distinguishes comment markers
//! from the same characters inside string literals, together with the pure
//! decisions of an editing session: which file is authoritative at startup,
//! when a new-file session is abandoned, and how live-update signals are
//! debounced. All file handling and process handling stays with the caller.

pub mod errors;
pub mod paths;
pub mod session;
pub mod strip;
pub mod sync;

pub use errors::EditError;
pub use paths::get_jsonc_path;
pub use paths::to_canonical_path;
pub use session::ChangeKind;
pub use session::ContentSource;
pub use session::InitialPlan;
pub use session::classify_initial;
pub use session::debounce_allows;
pub use session::default_template;
pub use session::is_meaningful_change;
pub use session::retry_read_allows;
pub use session::should_abandon;
pub use strip::strip_comments;
pub use sync::sync_text;
