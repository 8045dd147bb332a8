use notes_core::watch::{is_typ_change, next_watch_action, WatchAction, WatchEvent, WatchEventKind, WatchMessage};

fn event(kind: WatchEventKind, names: &[Option<&str>]) -> WatchEvent {
    WatchEvent { kind, file_names: names.iter().map(|n| n.map(|s| s.to_string())).collect() }
}

#[test]
fn typ_changes_are_recognised() {
    assert!(is_typ_change(&event(WatchEventKind::Modify, &[Some("a.typ")])));
    assert!(is_typ_change(&event(WatchEventKind::Create, &[Some("x.md"), Some("b.typ")])));
    assert!(is_typ_change(&event(WatchEventKind::Remove, &[Some(".hidden.typ")])));
    assert!(!is_typ_change(&event(WatchEventKind::Access, &[Some("a.typ")])));
    assert!(!is_typ_change(&event(WatchEventKind::Any, &[Some("a.typ")])));
    assert!(!is_typ_change(&event(WatchEventKind::Other, &[Some("a.typ")])));
    assert!(!is_typ_change(&event(WatchEventKind::Modify, &[Some(".typ"), Some("a.typst"), None])));
    assert!(!is_typ_change(&event(WatchEventKind::Modify, &[])));
}

#[test]
fn watch_actions() {
    let change = WatchMessage::Event(event(WatchEventKind::Modify, &[Some("note.typ")]));
    assert!(matches!(next_watch_action(change), WatchAction::Recompile));
    let other = WatchMessage::Event(event(WatchEventKind::Modify, &[Some("out.pdf")]));
    assert!(matches!(next_watch_action(other), WatchAction::Wait));
    match next_watch_action(WatchMessage::Error("boom".to_string())) {
        WatchAction::Report(m) => assert_eq!(m, "boom"),
        other => panic!("expected a report, got {:?}", other),
    }
    assert!(matches!(next_watch_action(WatchMessage::Closed), WatchAction::Stop));
}
