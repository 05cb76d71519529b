//! Value types and helpers that the translation tree is built from.

pub mod assoc;
pub mod language;
pub mod replacements;
pub mod templating;
pub mod text;
