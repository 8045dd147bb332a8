use notes_core::registry::{note_path_line, parse_note_paths, remove_note_path_text, render_note_paths};

/// The registry file's text after appending the line of `path`, as the
/// registry file is appended to.
fn appended(content: &str, path: &str) -> String {
    let mut s = content.to_string();
    s.push_str(&note_path_line(path));
    s
}

#[test]
fn test_read_write_csv() {
    // Initially empty
    let content = String::new();
    assert_eq!(parse_note_paths(&content), Vec::<String>::new());

    // Add paths
    let content = appended(&content, "notes/a.typ");
    let content = appended(&content, "notes/b.typ");
    let content = appended(&content, "notes/c.typ");

    let paths = parse_note_paths(&content);
    assert_eq!(paths, vec!["notes/a.typ", "notes/b.typ", "notes/c.typ"]);

    // Remove one
    let content = remove_note_path_text(&content, "notes/b.typ");
    let paths = parse_note_paths(&content);
    assert_eq!(paths, vec!["notes/a.typ", "notes/c.typ"]);
}

#[test]
fn test_remove_nonexistent() {
    let content = appended("", "notes/a.typ");
    let content = remove_note_path_text(&content, "notes/z.typ"); // no-op
    let paths = parse_note_paths(&content);
    assert_eq!(paths, vec!["notes/a.typ"]);
}

#[test]
fn lines_are_trimmed_and_blank_lines_skipped() {
    let paths = parse_note_paths("  notes/a.typ \r\n\n\t\nnotes/b.typ");
    assert_eq!(paths, vec!["notes/a.typ", "notes/b.typ"]);
    assert_eq!(parse_note_paths("\n \n"), Vec::<String>::new());
    assert_eq!(parse_note_paths("notes/\u{3000}x.typ\u{a0}"), vec!["notes/\u{3000}x.typ"]);
}

#[test]
fn rendering_and_removing() {
    let paths = vec!["notes/a.typ".to_string(), "notes/b.typ".to_string()];
    assert_eq!(render_note_paths(&paths), "notes/a.typ\nnotes/b.typ\n");
    assert_eq!(render_note_paths(&Vec::new()), "");
    assert_eq!(note_path_line("notes/x.typ"), "notes/x.typ\n");
    // Every line holding the path goes; the text of the others is normalised.
    let content = "notes/a.typ\n notes/b.typ\nnotes/a.typ\n\nnotes/c.typ";
    assert_eq!(remove_note_path_text(content, "notes/a.typ"), "notes/b.typ\nnotes/c.typ\n");
    assert_eq!(remove_note_path_text("notes/a.typ\n", "notes/a.typ"), "");
}

#[test]
fn written_paths_read_back_unchanged() {
    let paths = vec!["notes/x.typ".to_string(), "notes/y z.typ".to_string()];
    let text = render_note_paths(&paths);
    assert_eq!(parse_note_paths(&text), paths);
    let more = appended(&text, "notes/w.typ");
    assert_eq!(parse_note_paths(&more), vec!["notes/x.typ", "notes/y z.typ", "notes/w.typ"]);
}
