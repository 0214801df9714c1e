//! Keeps a profile script in step with its upstream while preserving the
//! user's own preference overrides.
//!
//! The library reads the identity header of a script (`version`), merges
//! preference declarations with the overrides winning (`prefs`), and decides
//! every step of an update (`workflow`). It touches no file and no network:
//! the caller performs what the workflow asks for and reports what came of
//! it. `text` holds the functions on character sequences that the others
//! share, and `text_laws` and `prefs_laws` what is proved of them.

pub mod clock;
pub mod error;
pub mod prefs;
pub mod prefs_laws;
pub mod text;
pub mod text_laws;
pub mod version;
pub mod workflow;
