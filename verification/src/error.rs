//! The errors of the vault.

use vstd::prelude::*;

verus! {

/// Why a vault operation failed.
#[derive(Debug, Clone)]
pub enum NotesError {
    /// Reading or writing a file failed; the text says why.
    Io(String),
    /// No note has this id or path.
    NoteNotFound(String),
    /// No free id could be derived from this one.
    DuplicateId(String),
    /// Compiling or watching a note failed; the text says why.
    CompileError(String),
}

} // verus!
