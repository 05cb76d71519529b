//! What a macro invocation names: paths and context fields.

pub mod context;
pub mod translation_path;
