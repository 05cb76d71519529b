//! Resolution of localized, templated strings identified by hierarchical
//! keys and a target language.
//!
//! Translation sources are trees of namespaces and messages. The sources
//! are put in seek order and merged into one collection; a request names a
//! path in that collection, a language and the values for the message's
//! placeholders, and is answered with the rendered text or an error that
//! says what was missing.

pub mod data;
pub mod macro_input;
pub mod misc;
pub mod resolution;
pub mod translations;

pub use data::config::{load_config, ConfigError, MacroConfig, SeekMode, TranslationOverlap};
pub use macro_input::context::{ContextMacroField, ContextMacroInput};
pub use macro_input::translation_path::TranslationPath;
pub use misc::language::Language;
pub use misc::replacements::Replacements;
pub use misc::templating::{FormatString, TemplateError};
pub use resolution::{resolve, ResolutionError};
pub use translations::collection::{MergeError, RawSource, TranslationNodeCollection};
pub use translations::node::{TranslationBranch, TranslationNode, TranslationObject};
