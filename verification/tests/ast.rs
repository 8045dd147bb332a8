use notes_core::ast::extract_from_file;
use notes_core::metadata::JsonValue;

#[test]
fn test_extract_show_rule_with_metadata() {
    let source = r#"
#import "vault.typ": *

#show: task.with(
  id: "task-001",
  title: "Build MVP",
  tags: ("dev", "mvp"),
  parent: "project-root",
)

= Build MVP

Some content here.
"#;
    let result = extract_from_file(source, "notes/task-001.typ").unwrap();
    let meta = result.metadata.unwrap();
    assert_eq!(meta.id, "task-001");
    assert_eq!(meta.title, "Build MVP");
    assert_eq!(meta.note_type, "task");
    assert_eq!(meta.parent, Some("project-root".to_string()));
    assert_eq!(meta.tags, vec!["dev", "mvp"]);
    assert_eq!(meta.path, "notes/task-001.typ");
}

#[test]
fn test_extract_simple_note() {
    let source = r#"
#import "vault.typ": *

#show: note.with(
  id: "my-note",
  title: "My Note",
)

= My Note

Hello world.
"#;
    let result = extract_from_file(source, "notes/my-note.typ").unwrap();
    let meta = result.metadata.unwrap();
    assert_eq!(meta.id, "my-note");
    assert_eq!(meta.title, "My Note");
    assert_eq!(meta.note_type, "note");
    assert!(meta.parent.is_none());
    assert!(meta.tags.is_empty());
}

#[test]
fn test_extract_xlinks_named() {
    let source = r#"
#import "vault.typ": *

#show: note.with(id: "a", title: "Note A")

See #xlink(id: "note-b") and #xlink(id: "note-c").
"#;
    let result = extract_from_file(source, "notes/a.typ").unwrap();
    assert_eq!(result.links, vec!["note-b", "note-c"]);
}

#[test]
fn test_extract_xlinks_positional() {
    let source = r#"
#import "vault.typ": *

#show: note.with(id: "a", title: "Note A")

See #xlink("note-b") and also #xlink("note-c").
"#;
    let result = extract_from_file(source, "notes/a.typ").unwrap();
    assert_eq!(result.links, vec!["note-b", "note-c"]);
}

#[test]
fn test_no_show_rule() {
    let source = r#"
= Just a heading

Some content without show rule.
"#;
    let result = extract_from_file(source, "notes/plain.typ").unwrap();
    assert!(result.metadata.is_none());
    assert!(result.links.is_empty());
}

#[test]
fn test_extra_fields() {
    let source = r#"
#import "vault.typ": *

#show: card.with(
  id: "card-1",
  title: "Closures",
  difficulty: "hard",
)
"#;
    let result = extract_from_file(source, "notes/card-1.typ").unwrap();
    let meta = result.metadata.unwrap();
    assert_eq!(meta.note_type, "card");
    assert_eq!(
        meta.extra.get("difficulty").and_then(|v| v.as_str()),
        Some("hard")
    );
}

#[test]
fn test_empty_file() {
    let result = extract_from_file("", "notes/empty.typ").unwrap();
    assert!(result.metadata.is_none());
    assert!(result.links.is_empty());
}

#[test]
fn test_created_field() {
    let source = r#"
#show: note.with(
  id: "dated",
  title: "Dated Note",
  created: "2026-03-18",
)
"#;
    let result = extract_from_file(source, "notes/dated.typ").unwrap();
    let meta = result.metadata.unwrap();
    assert_eq!(meta.created, Some("2026-03-18".to_string()));
}

#[test]
fn extra_fields_of_every_literal_kind() {
    let source = r#"
#show: card.with(
  id: "c",
  level: 3,
  done: true,
  scores: (1, "two", (false,), none),
  skipped: none,
)
"#;
    let meta = extract_from_file(source, "notes/c.typ").unwrap().metadata.unwrap();
    assert_eq!(meta.title, "");
    assert_eq!(meta.extra.len(), 3);
    assert!(matches!(meta.extra.get("level"), Some(JsonValue::Int(3))));
    assert!(matches!(meta.extra.get("done"), Some(JsonValue::Bool(true))));
    match meta.extra.get("scores") {
        Some(JsonValue::Array(items)) => {
            assert_eq!(items.len(), 3);
            assert!(matches!(items[0], JsonValue::Int(1)));
            assert_eq!(items[1].as_str(), Some("two"));
            match &items[2] {
                JsonValue::Array(inner) => {
                    assert_eq!(inner.len(), 1);
                    assert!(matches!(inner[0], JsonValue::Bool(false)));
                }
                _ => panic!("nested array expected"),
            }
        }
        _ => panic!("array expected"),
    }
    assert!(meta.extra.get("skipped").is_none());
}

#[test]
fn later_constructor_wins() {
    let source = r#"
#show: note.with(id: "first", title: "One", mood: "a")
#show: task.with(id: "second")
"#;
    let meta = extract_from_file(source, "notes/x.typ").unwrap().metadata.unwrap();
    assert_eq!(meta.id, "second");
    assert_eq!(meta.note_type, "task");
    assert_eq!(meta.title, "");
    assert_eq!(meta.extra.len(), 0);
}

#[test]
fn constructor_needs_a_string_id_and_no_selector() {
    assert!(extract_from_file(r#"#show: note.with(title: "T")"#, "n.typ").unwrap().metadata.is_none());
    assert!(extract_from_file(r#"#show: note.with(id: 5)"#, "n.typ").unwrap().metadata.is_none());
    assert!(extract_from_file(r#"#show heading: note.with(id: "h")"#, "n.typ").unwrap().metadata.is_none());
    assert!(extract_from_file(r#"#show: note.apply(id: "h")"#, "n.typ").unwrap().metadata.is_none());
}

#[test]
fn single_string_tags_and_ignored_tag_items() {
    let meta = extract_from_file(r#"#show: note.with(id: "t", tags: "solo")"#, "n.typ")
        .unwrap()
        .metadata
        .unwrap();
    assert_eq!(meta.tags, vec!["solo"]);
    let meta = extract_from_file(r#"#show: note.with(id: "t", tags: ("a", 1, "b"))"#, "n.typ")
        .unwrap()
        .metadata
        .unwrap();
    assert_eq!(meta.tags, vec!["a", "b"]);
}

#[test]
fn xlink_argument_rules() {
    let source = r#"
#xlink(1, "after-int")
#xlink(other: "x", "pos")
#xlink(id: 7, "ignored")
#link("https://example.com")
#xlink()
"#;
    let result = extract_from_file(source, "notes/l.typ").unwrap();
    assert_eq!(result.links, vec!["after-int", "pos"]);
}

#[test]
fn links_inside_the_constructor_and_content_blocks_are_found() {
    let source = r#"
#show: note.with(id: "n", title: [see #xlink("in-title")])
#block[#xlink("nested")]
"#;
    let result = extract_from_file(source, "notes/n.typ").unwrap();
    assert_eq!(result.links, vec!["in-title", "nested"]);
    assert_eq!(result.metadata.unwrap().title, "");
}
