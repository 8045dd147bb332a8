//! Decisions of the command-line tool that do not touch the disk.

use vstd::prelude::*;

use crate::error::NotesError;
use crate::note::{self, id_to_path};
use crate::text::chars_of;

verus! {

/// Whether `s` ends with `.typ`.
pub open spec fn ends_with_typ(s: Seq<char>) -> bool {
    s.len() >= 4 && s.subrange(s.len() - 4, s.len() as int) == seq!['.', 't', 'y', 'p']
}

/// Whether `s` ends with `.typ`.
pub fn has_typ_suffix(s: &str) -> (res: bool)
    ensures
        res == ends_with_typ(s@),
{
    let c = chars_of(s);
    let n = c.len();
    if n < 4 {
        return false;
    }
    let res = c[n - 4] == '.' && c[n - 3] == 't' && c[n - 2] == 'y' && c[n - 1] == 'p';
    let ghost tail = c@.subrange(n - 4, n as int);
    if res {
        assert(tail =~= seq!['.', 't', 'y', 'p']);
    } else {
        assert(tail != seq!['.', 't', 'y', 'p']) by {
            if tail == seq!['.', 't', 'y', 'p'] {
                assert(tail[0] == c@[n - 4]);
                assert(tail[1] == c@[n - 3]);
                assert(tail[2] == c@[n - 2]);
                assert(tail[3] == c@[n - 1]);
            }
        }
    }
    res
}

/// Resolves a note argument to a path relative to the vault root. An argument
/// ending in `.typ` is a path and is used as it is; any other is an id, whose
/// note file is `notes/{id}.typ`. `id_file_exists` tells whether that file
/// exists under the vault root; when it does not, the note is not found.
pub fn resolve_note_path(input: &str, id_file_exists: bool) -> (res: Result<String, NotesError>)
    ensures
        ends_with_typ(input@) ==> (res matches Ok(p) && p@ == input@),
        !ends_with_typ(input@) && id_file_exists ==> (res matches Ok(p) && p@ == note::note_path_of(
            input@,
        )),
        !ends_with_typ(input@) && !id_file_exists ==> (res matches Err(NotesError::NoteNotFound(id))
            && id@ == input@),
{
    if has_typ_suffix(input) {
        return Ok(input.to_owned());
    }
    let rel_path = id_to_path(input);
    if id_file_exists {
        Ok(rel_path)
    } else {
        Err(NotesError::NoteNotFound(input.to_owned()))
    }
}

} // verus!
