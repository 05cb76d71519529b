//! The translation tree: messages, namespaces and the merged collection.

pub mod collection;
pub mod node;
