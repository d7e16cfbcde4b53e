//! Conversion of leading whitespace between tabs and spaces.
//!
//! The transform module holds the per-line conversion (`tabify`, `untabify`)
//! together with the laws that relate the two directions. The config module
//! parses the tab width. The rewrite module gives the in-place file rewrite
//! as a state machine whose safety properties are proved; performing the
//! filesystem operations it asks for is left to the caller.

pub mod config;
pub mod rewrite;
pub mod transform;
