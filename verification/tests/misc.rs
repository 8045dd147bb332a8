use notes_core::cli::{has_typ_suffix, resolve_note_path};
use notes_core::error::NotesError;
use notes_core::paths::has_typ_extension;
use notes_core::state::AppState;
use notes_core::text::{chars_of, str_eq, trim_chars};

#[test]
fn note_arguments_resolve_to_paths() {
    assert_eq!(resolve_note_path("notes/foo.typ", false).unwrap(), "notes/foo.typ");
    assert_eq!(resolve_note_path("foo", true).unwrap(), "notes/foo.typ");
    assert_eq!(resolve_note_path("a/b/c", true).unwrap(), "notes/a/b/c.typ");
    match resolve_note_path("missing", false) {
        Err(NotesError::NoteNotFound(id)) => assert_eq!(id, "missing"),
        other => panic!("expected not found, got {:?}", other),
    }
    assert!(has_typ_suffix(".typ"));
    assert!(!has_typ_suffix("typ"));
    assert!(!has_typ_suffix("a.typst"));
}

#[test]
fn file_extensions() {
    assert!(has_typ_extension("a.typ"));
    assert!(has_typ_extension("a.b.typ"));
    assert!(has_typ_extension(".x.typ"));
    assert!(!has_typ_extension(".typ"));
    assert!(!has_typ_extension("typ"));
    assert!(!has_typ_extension("a.typ."));
    assert!(!has_typ_extension("a.TYP"));
    assert!(!has_typ_extension(".."));
    assert!(!has_typ_extension(""));
}

#[test]
fn text_helpers() {
    assert!(str_eq("héllo", "héllo"));
    assert!(!str_eq("a", "ab"));
    assert_eq!(chars_of("añb"), vec!['a', 'ñ', 'b']);
    let t: String = trim_chars(&chars_of("\u{2003} a b \n")).into_iter().collect();
    assert_eq!(t, "a b");
    assert!(trim_chars(&chars_of(" \t ")).is_empty());
}

#[test]
fn app_state_starts_empty() {
    let state = AppState::new();
    assert!(state.vault.lock().unwrap().is_none());
    assert!(state.typst_binary.lock().unwrap().is_none());
    assert!(state.package_path.lock().unwrap().is_none());
}
