//! Core logic of a note vault whose notes are Typst files: extracting note
//! metadata and cross-references from the syntax tree, the note-path registry,
//! note creation, synchronisation plans and watch decisions.

pub mod text;
pub mod metadata;
pub mod syntax;
pub mod error;
pub mod ast;
pub mod state;
pub mod registry;
pub mod note;
pub mod paths;
pub mod sync;
pub mod watch;
pub mod cli;
pub mod listing;
pub mod index;
pub mod query;
