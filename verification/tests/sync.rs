use notes_core::registry::{note_path_line, parse_note_paths, remove_note_path_text};
use notes_core::sync::plan_sync;

fn strings(v: &[&str]) -> Vec<String> {
    v.iter().map(|s| s.to_string()).collect()
}

/// Applies a plan to a registry text as a sync does: appends, then removes.
fn apply(content: &str, added: &[String], removed: &[String]) -> String {
    let mut text = content.to_string();
    for p in added {
        text.push_str(&note_path_line(p));
    }
    for p in removed {
        text = remove_note_path_text(&text, p);
    }
    text
}

#[test]
fn test_sync_adds_new_files() {
    let registered = strings(&["notes/welcome.typ"]);
    let on_disk = strings(&["welcome.typ", "manual.typ"]);
    let plan = plan_sync(&registered, &on_disk);
    let (added, removed) = plan.counts();
    assert_eq!(added, 1);
    assert_eq!(removed, 0);
    assert!(plan.changes_registry());

    let text = apply("notes/welcome.typ\n", &plan.added, &plan.removed);
    let paths = parse_note_paths(&text);
    assert!(paths.contains(&"notes/manual.typ".to_string()));
}

#[test]
fn test_sync_removes_missing_files() {
    let registered = strings(&["notes/welcome.typ"]);
    let on_disk: Vec<String> = Vec::new();
    let plan = plan_sync(&registered, &on_disk);
    let (added, removed) = plan.counts();
    assert_eq!(added, 0);
    assert_eq!(removed, 1);

    let text = apply("notes/welcome.typ\n", &plan.added, &plan.removed);
    let paths = parse_note_paths(&text);
    assert!(!paths.contains(&"notes/welcome.typ".to_string()));
}

#[test]
fn test_sync_no_changes() {
    let registered = strings(&["notes/welcome.typ"]);
    let on_disk = strings(&["welcome.typ"]);
    let plan = plan_sync(&registered, &on_disk);
    let (added, removed) = plan.counts();
    assert_eq!(added, 0);
    assert_eq!(removed, 0);
    assert!(!plan.changes_registry());
}

#[test]
fn only_typ_files_count_and_each_path_once() {
    let registered = strings(&["notes/a.typ", "notes/gone.typ", "notes/gone.typ"]);
    let on_disk = strings(&["a.typ", "b.typ", "readme.md", ".typ", "c.typ.bak", "d.typ"]);
    let plan = plan_sync(&registered, &on_disk);
    assert_eq!(plan.added, vec!["notes/b.typ", "notes/d.typ"]);
    assert_eq!(plan.removed, vec!["notes/gone.typ"]);

    let text = apply("notes/a.typ\nnotes/gone.typ\nnotes/gone.typ\n", &plan.added, &plan.removed);
    let mut paths = parse_note_paths(&text);
    paths.sort();
    assert_eq!(paths, vec!["notes/a.typ", "notes/b.typ", "notes/d.typ"]);
}

#[test]
fn a_second_sync_changes_nothing() {
    let on_disk = strings(&["a.typ", "b.typ"]);
    let text = "notes/a.typ\nnotes/old.typ\n";
    let plan = plan_sync(&parse_note_paths(text), &on_disk);
    let text = apply(text, &plan.added, &plan.removed);
    let again = plan_sync(&parse_note_paths(&text), &on_disk);
    assert_eq!(again.counts(), (0, 0));
    assert!(!again.changes_registry());
}
