//! Filesystem change notifications and their classification.
//!
//! The notification source delivers path-level change events with
//! at-least-once, possibly noisy delivery. A notification is *significant*
//! when it should trigger synchronization (create, write, chmod, remove,
//! rename) and *advisory* otherwise (pre-write and pre-remove notices,
//! rescans, transport errors).

use vstd::prelude::*;

verus! {

/// One debounced filesystem notification, as the notification source
/// reports it: the advisory variants carry no obligation to synchronize.
#[derive(Debug, Clone)]
pub enum ChangeEvent {
    /// Advisory notice that a write is about to be observed.
    NoticeWrite(String),
    /// Advisory notice that a removal is about to be observed.
    NoticeRemove(String),
    Create(String),
    Write(String),
    Chmod(String),
    Remove(String),
    Rename(String, String),
    /// Advisory request to rescan the watched tree.
    Rescan,
    /// A transport error of the notification source, with the offending path
    /// when one is known.
    Error(String, Option<String>),
}

/// The kinds of significant events the `watch` subcommand reports.
#[derive(Debug, Clone)]
pub enum EventType {
    Create,
    Write,
    Chmod,
    Remove,
    Rename,
}

/// A significant event in the line-oriented form the `watch` subcommand
/// emits, with the affected path(s) as plain strings.
#[derive(Debug, Clone)]
pub enum FileEvent {
    Create(String),
    Write(String),
    Chmod(String),
    Remove(String),
    Rename(String, String),
}

/// Whether an event should trigger synchronization.
pub open spec fn spec_significant(e: ChangeEvent) -> bool {
    match e {
        ChangeEvent::NoticeWrite(_) => false,
        ChangeEvent::NoticeRemove(_) => false,
        ChangeEvent::Rescan => false,
        ChangeEvent::Error(_, _) => false,
        _ => true,
    }
}

impl ChangeEvent {
    /// Whether this event should trigger synchronization.
    pub fn significant(&self) -> (b: bool)
        ensures
            b == spec_significant(*self),
    {
        match self {
            ChangeEvent::NoticeWrite(_) => false,
            ChangeEvent::NoticeRemove(_) => false,
            ChangeEvent::Rescan => false,
            ChangeEvent::Error(_, _) => false,
            _ => true,
        }
    }
}

/// Passes a significant event through unchanged and discards exactly the
/// advisory variants.
pub fn filter_event(event: ChangeEvent) -> (r: Option<ChangeEvent>)
    ensures
        spec_significant(event) ==> r == Some(event),
        !spec_significant(event) ==> r is None,
{
    if event.significant() {
        Some(event)
    } else {
        None
    }
}

/// The `FileEvent` a significant event is reported as, and `None` for the
/// advisory variants.
pub open spec fn spec_map_event(e: ChangeEvent) -> Option<FileEvent> {
    match e {
        ChangeEvent::NoticeWrite(_) => None,
        ChangeEvent::NoticeRemove(_) => None,
        ChangeEvent::Rescan => None,
        ChangeEvent::Error(_, _) => None,
        ChangeEvent::Create(path) => Some(FileEvent::Create(path)),
        ChangeEvent::Write(path) => Some(FileEvent::Write(path)),
        ChangeEvent::Chmod(path) => Some(FileEvent::Chmod(path)),
        ChangeEvent::Remove(path) => Some(FileEvent::Remove(path)),
        ChangeEvent::Rename(from, to) => Some(FileEvent::Rename(from, to)),
    }
}

/// Turns a significant event into the record the `watch` subcommand emits;
/// advisory events are discarded.
pub fn map_event(event: ChangeEvent) -> (r: Option<FileEvent>)
    ensures
        r == spec_map_event(event),
{
    match event {
        ChangeEvent::NoticeWrite(_) => None,
        ChangeEvent::NoticeRemove(_) => None,
        ChangeEvent::Rescan => None,
        ChangeEvent::Error(_, _) => None,
        ChangeEvent::Create(path) => Some(FileEvent::Create(path)),
        ChangeEvent::Write(path) => Some(FileEvent::Write(path)),
        ChangeEvent::Chmod(path) => Some(FileEvent::Chmod(path)),
        ChangeEvent::Remove(path) => Some(FileEvent::Remove(path)),
        ChangeEvent::Rename(from, to) => Some(FileEvent::Rename(from, to)),
    }
}

} // verus!
