//! Deciding what to do on each file-system event while watching a note.
//!
//! The caller runs the watcher and the compiler; this module decides, for each
//! message from the watcher, whether to recompile, report or stop.

use vstd::prelude::*;

use crate::paths::{self, has_typ_extension};

verus! {

/// The kind of a file-system event.
#[derive(Debug, Clone)]
pub enum WatchEventKind {
    Any,
    Access,
    Create,
    Modify,
    Remove,
    Other,
}

/// A file-system event: its kind and the file names of the paths it concerns
/// (`None` for a path that has no file name).
#[derive(Debug, Clone)]
pub struct WatchEvent {
    pub kind: WatchEventKind,
    pub file_names: Vec<Option<String>>,
}

/// Whether a file name, if there is one, has the extension `typ`.
pub open spec fn names_typ_file(name: Option<String>) -> bool {
    match name {
        Some(n) => paths::file_extension(n@) == Some(seq!['t', 'y', 'p']),
        None => false,
    }
}

/// Whether an event changes a Typst file: it creates, modifies or removes
/// something, and one of its paths has the extension `typ`.
pub open spec fn is_typ_change_event(e: WatchEvent) -> bool {
    &&& (e.kind is Create || e.kind is Modify || e.kind is Remove)
    &&& exists|i: int| 0 <= i < e.file_names@.len() && names_typ_file(#[trigger] e.file_names@[i])
}

/// Whether the event changes a Typst file.
pub fn is_typ_change(event: &WatchEvent) -> (res: bool)
    ensures
        res == is_typ_change_event(*event),
{
    let kind_matches = match event.kind {
        WatchEventKind::Create | WatchEventKind::Modify | WatchEventKind::Remove => true,
        _ => false,
    };
    if !kind_matches {
        return false;
    }
    let n = event.file_names.len();
    let mut i: usize = 0;
    while i < n
        invariant
            n == event.file_names@.len(),
            event.kind is Create || event.kind is Modify || event.kind is Remove,
            i <= n,
            forall|k: int| 0 <= k < i ==> !names_typ_file(#[trigger] event.file_names@[k]),
        decreases n - i,
    {
        if let Some(name) = &event.file_names[i] {
            if has_typ_extension(name.as_str()) {
                assert(names_typ_file(event.file_names@[i as int]));
                return true;
            }
        }
        i = i + 1;
    }
    false
}

/// What the watcher hands over.
#[derive(Debug, Clone)]
pub enum WatchMessage {
    /// A file-system event.
    Event(WatchEvent),
    /// The watcher failed; the text says why.
    Error(String),
    /// The watcher is gone.
    Closed,
}

/// What to do next while watching.
#[derive(Debug, Clone)]
pub enum WatchAction {
    /// Nothing: wait for the next message.
    Wait,
    /// Let the events settle, then recompile the note.
    Recompile,
    /// Report the watcher's error and go on waiting.
    Report(String),
    /// Stop watching.
    Stop,
}

/// The action for a message: recompile on a change to a Typst file, report a
/// watcher error, stop when the watcher is gone, and otherwise wait.
pub fn next_watch_action(message: WatchMessage) -> (action: WatchAction)
    ensures
        match message {
            WatchMessage::Event(e) => if is_typ_change_event(e) {
                action is Recompile
            } else {
                action is Wait
            },
            WatchMessage::Error(m) => action matches WatchAction::Report(r) && r == m,
            WatchMessage::Closed => action is Stop,
        },
{
    match message {
        WatchMessage::Event(e) => if is_typ_change(&e) {
            WatchAction::Recompile
        } else {
            WatchAction::Wait
        },
        WatchMessage::Error(m) => WatchAction::Report(m),
        WatchMessage::Closed => WatchAction::Stop,
    }
}

} // verus!
