use notes_core::listing::{notes_of_type, table_of_notes};
use notes_core::metadata::NoteMetadata;
use notes_core::note::note_metadata;

fn meta(id: &str, title: &str, note_type: &str, parent: Option<&str>) -> NoteMetadata {
    note_metadata(id.to_string(), title, note_type, parent, &[], &[], Some("t".to_string()))
}

fn tagged(id: &str, title: &str, note_type: &str, tags: &[&str]) -> NoteMetadata {
    note_metadata(id.to_string(), title, note_type, None, tags, &[], Some("t".to_string()))
}

#[test]
fn table_lines() {
    let notes = vec![
        meta("welcome", "Welcome", "note", None),
        tagged("rust-basics", "Rust Basics", "note", &["rust", "programming"]),
        tagged("closures", "Closures", "card", &["rust"]),
    ];
    let lines = table_of_notes(&notes);
    assert_eq!(lines.len(), 7);
    assert_eq!(lines[0], format!("{:<30} {:<25} {:<8} {}", "ID", "TITLE", "TYPE", "TAGS"));
    assert_eq!(lines[1], "-".repeat(80));
    assert_eq!(lines[2], format!("{:<30} {:<25} {:<8} {}", "welcome", "Welcome", "note", ""));
    assert_eq!(lines[3], format!("{:<30} {:<25} {:<8} {}", "rust-basics", "Rust Basics", "note", "rust, programming"));
    assert_eq!(lines[4], format!("{:<30} {:<25} {:<8} {}", "closures", "Closures", "card", "rust"));
    assert_eq!(lines[5], "");
    assert_eq!(lines[6], "3 note(s)");
    assert_eq!(table_of_notes(&Vec::new()), vec!["No notes found."]);
}

#[test]
fn long_ids_and_titles_are_cut() {
    let id = "a-very-long-note-identifier-that-goes-on";
    let title = "Über eine sehr lange Überschrift";
    let lines = table_of_notes(&vec![meta(id, title, "task", None)]);
    let cut_id = format!("{}...", &id[..25]);
    let cut_title = format!("{}...", &title[..20]);
    assert_eq!(lines[2], format!("{:<30} {:<25} {:<8} {}", cut_id, cut_title, "task", ""));
    // exactly at the limits nothing is cut
    let id28 = "x".repeat(28);
    let lines = table_of_notes(&vec![meta(&id28, "T", "note", None)]);
    assert_eq!(lines[2], format!("{:<30} {:<25} {:<8} {}", id28, "T", "note", ""));
}

#[test]
fn filtering_by_type_keeps_order() {
    let notes = vec![
        meta("a", "A", "note", None),
        meta("b", "B", "task", None),
        meta("c", "C", "note", None),
    ];
    let kept = notes_of_type(notes, Some("note"));
    let ids: Vec<&str> = kept.iter().map(|m| m.id.as_str()).collect();
    assert_eq!(ids, vec!["a", "c"]);
    let all = notes_of_type(kept, None);
    assert_eq!(all.len(), 2);
    assert!(notes_of_type(all, Some("card")).is_empty());
}
