use notes_core::ast::extract_from_file;
use notes_core::index::{build_notes_index, index_is_stale, NotesIndex};
use notes_core::note::generate_note_content;
use notes_core::query::{backlinks_report, graph_report, search_report};

/// The vault of the README: five notes and four links.
fn readme_vault() -> NotesIndex {
    let files = vec![
        ("notes/welcome.typ", generate_note_content("welcome", "Welcome", "note", None, &[], &[])),
        (
            "notes/rust-basics.typ",
            generate_note_content("rust-basics", "Rust Basics", "note", None, &["rust", "programming"], &[])
                + "See #xlink(\"rust\").\n",
        ),
        (
            "notes/build-mvp.typ",
            generate_note_content("build-mvp", "Build MVP", "task", None, &["dev", "mvp"], &[])
                + "Start at #xlink(\"welcome\").\n",
        ),
        (
            "notes/closures.typ",
            generate_note_content("closures", "Closures", "card", Some("rust-basics"), &["rust"], &[])
                + "Part of #xlink(\"rust-basics\"), about #xlink(id: \"rust\").\n",
        ),
        ("notes/rust.typ", generate_note_content("rust", "Rust", "tag", None, &[], &[])),
        ("notes/scratch.typ", "Just text with #xlink(\"welcome\").\n".to_string()),
    ];
    let extracted = files
        .into_iter()
        .map(|(path, text)| (path.to_string(), extract_from_file(&text, path).unwrap()))
        .collect();
    build_notes_index(extracted)
}

#[test]
fn index_counts_notes_and_links() {
    let index = readme_vault();
    assert_eq!(index.note_count(), 5);
    assert_eq!(index.link_count(), 4);
    let ids: Vec<&str> = index.notes.iter().map(|m| m.id.as_str()).collect();
    assert_eq!(ids, vec!["welcome", "rust-basics", "build-mvp", "closures", "rust"]);
    let link = &index.links[2];
    assert_eq!(
        (link.source.as_str(), link.target.as_str(), link.source_path.as_str()),
        ("closures", "rust-basics", "notes/closures.typ")
    );
    // every link starts at an indexed note; the file without metadata adds none
    for link in &index.links {
        assert!(index.notes.iter().any(|m| m.id == link.source));
        assert_ne!(link.source_path, "notes/scratch.typ");
    }
    assert_eq!(NotesIndex::new().note_count(), 0);
}

#[test]
fn graph_lists_every_link() {
    let lines = graph_report(&readme_vault());
    assert_eq!(
        lines,
        vec![
            "Graph: 5 nodes, 4 edges",
            "  rust-basics -> rust",
            "  build-mvp -> welcome",
            "  closures -> rust-basics",
            "  closures -> rust",
        ]
    );
}

#[test]
fn backlinks_of_a_note() {
    let index = readme_vault();
    assert_eq!(
        backlinks_report(&index, "rust"),
        vec!["Backlinks for \"rust\":", "  rust-basics — Rust Basics (note)", "  closures — Closures (card)"]
    );
    assert_eq!(backlinks_report(&index, "closures"), vec!["No backlinks for \"closures\""]);
}

#[test]
fn search_finds_ids_titles_and_tags() {
    let index = readme_vault();
    assert_eq!(
        search_report(&index.notes, "rust", None),
        vec![
            "  rust-basics — Rust Basics [rust, programming]",
            "  closures — Closures [rust]",
            "  rust — Rust",
            "3 result(s)",
        ]
    );
    // ASCII letters match without case; the type filter keeps order
    assert_eq!(
        search_report(&index.notes, "BUILD", Some("task")),
        vec!["  build-mvp — Build MVP [dev, mvp]", "1 result(s)"]
    );
    assert_eq!(search_report(&index.notes, "rust", Some("card")), vec!["  closures — Closures [rust]", "1 result(s)"]);
    assert_eq!(search_report(&index.notes, "zzz", None), vec!["No results for \"zzz\""]);
    assert_eq!(search_report(&index.notes, "rust", Some("task")), vec!["No results for \"rust\""]);
}

#[test]
fn stale_index() {
    assert!(index_is_stale(None, &vec![]));
    assert!(!index_is_stale(Some(10), &vec![3, 10, 7]));
    assert!(index_is_stale(Some(10), &vec![3, 11]));
    assert!(!index_is_stale(Some(0), &vec![]));
}
