use notes_core::ast::extract_from_file;
use notes_core::error::NotesError;
use notes_core::note::{
    decimal_string, generate_id, generate_note_content, id_to_path, note_metadata, note_to_delete,
    prepare_new_note, unique_id,
};
use notes_core::registry::{note_path_line, parse_note_paths, remove_note_path_text};

fn registered(paths: &[&str]) -> Vec<String> {
    paths.iter().map(|p| p.to_string()).collect()
}

#[test]
fn test_new_note() {
    let existing = registered(&["notes/welcome.typ"]);
    let note = prepare_new_note("My Task", "task", None, None, &["dev"], &[], &existing).unwrap();
    let meta = &note.metadata;
    assert_eq!(meta.id, "my-task");
    assert_eq!(meta.note_type, "task");
    assert_eq!(meta.tags, vec!["dev"]);
    assert_eq!(meta.path, "notes/my-task.typ");
    assert!(meta.created.is_some());

    // The registry then holds both the welcome note and the new note.
    let mut content = String::new();
    content.push_str(&note_path_line("notes/welcome.typ"));
    content.push_str(&note_path_line(&meta.path));
    let paths = parse_note_paths(&content);
    assert!(paths.contains(&"notes/welcome.typ".to_string()));
    assert!(paths.contains(&"notes/my-task.typ".to_string()));
}

#[test]
fn created_is_an_rfc3339_utc_time() {
    let note = prepare_new_note("Stamped", "note", None, None, &[], &[], &Vec::new()).unwrap();
    let created = note.metadata.created.expect("the clock reads after 1970");
    let c: Vec<char> = created.chars().collect();
    assert!(created.ends_with("+00:00"));
    assert!(c.len() == 25 || c.len() == 29 || c.len() == 32 || c.len() == 35);
    for i in [0, 1, 2, 3, 5, 6, 8, 9, 11, 12, 14, 15, 17, 18] {
        assert!(c[i].is_ascii_digit(), "{created}");
    }
    assert_eq!((c[4], c[7], c[10], c[13], c[16]), ('-', '-', 'T', ':', ':'));
    if c.len() > 25 {
        assert_eq!(c[19], '.');
    }
}

#[test]
fn test_new_note_with_custom_id() {
    let existing = registered(&["notes/welcome.typ"]);
    let note = prepare_new_note("Some Title", "note", Some("custom-id"), None, &[], &[], &existing).unwrap();
    assert_eq!(note.metadata.id, "custom-id");
    assert_eq!(note.metadata.path, "notes/custom-id.typ");
}

#[test]
fn test_new_note_id_collision() {
    let existing = registered(&["notes/welcome.typ"]);
    let first = prepare_new_note("Test", "note", None, None, &[], &[], &existing).unwrap();
    assert_eq!(first.metadata.id, "test");
    let existing = registered(&["notes/welcome.typ", "notes/test.typ"]);
    let meta2 = prepare_new_note("Test", "note", None, None, &[], &[], &existing).unwrap();
    assert_eq!(meta2.metadata.id, "test-2");
}

#[test]
fn test_delete_note() {
    let existing = registered(&["notes/welcome.typ"]);
    let note = prepare_new_note("To Delete", "note", None, None, &[], &[], &existing).unwrap();
    assert_eq!(note.metadata.path, "notes/to-delete.typ");
    let mut content = note_path_line("notes/welcome.typ");
    content.push_str(&note_path_line(&note.metadata.path));

    let rel = note_to_delete("to-delete", true).unwrap();
    assert_eq!(rel, id_to_path("to-delete"));
    assert_eq!(rel, "notes/to-delete.typ");
    let content = remove_note_path_text(&content, &rel);
    let paths = parse_note_paths(&content);
    assert!(!paths.contains(&"notes/to-delete.typ".to_string()));
    assert!(paths.contains(&"notes/welcome.typ".to_string()));
}

#[test]
fn deleting_a_missing_note_is_not_found() {
    match note_to_delete("nonexistent", false) {
        Err(NotesError::NoteNotFound(id)) => assert_eq!(id, "nonexistent"),
        other => panic!("unexpected {other:?}"),
    }
}

#[test]
fn test_generated_content_is_parseable() {
    let content = generate_note_content(
        "test-id",
        "Test Title",
        "task",
        Some("parent-id"),
        &["tag1", "tag2"],
        &[("priority", "high")],
    );

    // Verify AST extraction works on generated content
    let result = extract_from_file(&content, "notes/test-id.typ").unwrap();
    let meta = result.metadata.unwrap();
    assert_eq!(meta.id, "test-id");
    assert_eq!(meta.title, "Test Title");
    assert_eq!(meta.note_type, "task");
    assert_eq!(meta.parent, Some("parent-id".to_string()));
    assert_eq!(meta.tags, vec!["tag1", "tag2"]);
}

#[test]
fn generated_content_with_one_tag_reads_back() {
    let content = generate_note_content("closures", "Closures", "card", Some("rust-basics"), &["rust"], &[]);
    assert!(content.contains("  tags: (\"rust\",),\n"));
    let meta = extract_from_file(&content, "notes/closures.typ").unwrap().metadata.unwrap();
    assert_eq!(meta.tags, vec!["rust"]);
    assert_eq!(meta.parent, Some("rust-basics".to_string()));
}

#[test]
fn generated_content_exact_text() {
    let content = generate_note_content(
        "test-id",
        "Test Title",
        "task",
        Some("parent-id"),
        &["tag1", "tag2"],
        &[("priority", "high")],
    );
    assert_eq!(
        content,
        "#import \"../vault.typ\": *\n\n#show: task.with(\n  id: \"test-id\",\n  title: \"Test Title\",\n  parent: \"parent-id\",\n  tags: (\"tag1\", \"tag2\"),\n  priority: \"high\",\n)\n\n= Test Title\n\n"
    );
    let plain = generate_note_content("n", "N", "note", None, &[], &[]);
    assert_eq!(plain, "#import \"../vault.typ\": *\n\n#show: note.with(\n  id: \"n\",\n  title: \"N\",\n)\n\n= N\n\n");
}

#[test]
fn generated_content_extra_fields_read_back() {
    let content = generate_note_content("c", "C", "card", None, &[], &[("difficulty", "hard")]);
    let meta = extract_from_file(&content, "notes/c.typ").unwrap().metadata.unwrap();
    assert_eq!(meta.extra.get("difficulty").and_then(|v| v.as_str()), Some("hard"));
    assert!(meta.tags.is_empty());
    assert!(meta.parent.is_none());
}

#[test]
fn slugs_and_ids() {
    let none: Vec<String> = Vec::new();
    assert_eq!(generate_id("My Test String!!!1!1", &none).unwrap(), "my-test-string-1-1");
    assert_eq!(generate_id("  --test_-_cool", &none).unwrap(), "test-cool");
    assert_eq!(generate_id("You & Me", &none).unwrap(), "you-me");
    assert_eq!(generate_id("Æúű--cool?", &none).unwrap(), "aeuu-cool");
    let existing = registered(&["notes/rust-basics.typ", "notes/rust-basics-2.typ"]);
    assert_eq!(generate_id("Rust Basics", &existing).unwrap(), "rust-basics-3");
    assert_eq!(generate_id("Closures", &existing).unwrap(), "closures");
}

#[test]
fn ids_run_out_after_999() {
    let mut existing = vec!["notes/x.typ".to_string()];
    for i in 2..1000 {
        existing.push(format!("notes/x-{}.typ", i));
    }
    match unique_id("x", &existing) {
        Err(NotesError::DuplicateId(base)) => assert_eq!(base, "x"),
        other => panic!("expected a duplicate id, got {:?}", other),
    }
    existing.pop();
    assert_eq!(unique_id("x", &existing).unwrap(), "x-999");
    match prepare_new_note("X", "note", None, None, &[], &[], &{
        let mut all = existing.clone();
        all.push("notes/x-999.typ".to_string());
        all
    }) {
        Err(NotesError::DuplicateId(base)) => assert_eq!(base, "x"),
        other => panic!("expected a duplicate id, got {:?}", other),
    }
}

#[test]
fn decimal_numbers() {
    assert_eq!(decimal_string(0), "0");
    assert_eq!(decimal_string(7), "7");
    assert_eq!(decimal_string(42), "42");
    assert_eq!(decimal_string(999), "999");
    assert_eq!(decimal_string(18446744073709551615), "18446744073709551615");
}

#[test]
fn metadata_of_a_new_note() {
    let meta = note_metadata(
        "n".to_string(),
        "Title",
        "note",
        Some("p"),
        &["a", "b"],
        &[("k", "1"), ("j", "2"), ("k", "3")],
        Some("2026-03-18T00:00:00+00:00".to_string()),
    );
    assert_eq!(meta.path, "notes/n.typ");
    assert_eq!(meta.title, "Title");
    assert_eq!(meta.parent, Some("p".to_string()));
    assert_eq!(meta.tags, vec!["a", "b"]);
    assert_eq!(meta.created, Some("2026-03-18T00:00:00+00:00".to_string()));
    assert_eq!(meta.extra.len(), 2);
    assert_eq!(meta.extra.get("k").and_then(|v| v.as_str()), Some("3"));
    assert_eq!(meta.extra.get("j").and_then(|v| v.as_str()), Some("2"));
}

#[test]
fn metadata_without_a_time() {
    let meta = note_metadata("n".to_string(), "T", "note", None, &[], &[], None);
    assert_eq!(meta.created, None);
    assert_eq!(meta.parent, None);
    assert_eq!(meta.extra.len(), 0);
}
