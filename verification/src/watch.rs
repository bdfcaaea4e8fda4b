//! Change events of the watched directory, as they are handed on, and the
//! one subscription that is active at a time.

use crate::text::clone_text;
use crate::text::text_of;
use vstd::prelude::*;

verus! {

/// Seconds within which repeated notifications for one path count as one.
pub const DEBOUNCE_SECONDS: u64 = 2;

/// A debounced notification of the file system watcher.
#[derive(Debug)]
pub enum DebouncedEvent {
    /// A write to the path was noticed; a `Write` follows.
    NoticeWrite(String),
    /// A removal of the path was noticed; a `Remove` follows.
    NoticeRemove(String),
    Create(String),
    Write(String),
    Chmod(String),
    Remove(String),
    /// The first path was renamed to the second.
    Rename(String, String),
    /// The watcher lost track and the directory has to be read again.
    Rescan,
    /// The watcher failed: the cause, and the path where one is known.
    Error(String, Option<String>),
}

/// An event as it is handed on to the consumer.
#[derive(Debug)]
pub struct FilesystemEvent {
    pub event_type: String,
    pub path: Option<String>,
    /// What went wrong, for an error event.
    pub cause: Option<String>,
}

pub struct FilesystemEventView {
    pub event_type: Seq<char>,
    pub path: Option<Seq<char>>,
    pub cause: Option<Seq<char>>,
}

impl View for FilesystemEvent {
    type V = FilesystemEventView;

    open spec fn view(&self) -> FilesystemEventView {
        FilesystemEventView {
            event_type: self.event_type@,
            path: text_of(self.path),
            cause: text_of(self.cause),
        }
    }
}

/// The name under which a notification is handed on.
pub open spec fn kind_name(event: DebouncedEvent) -> Seq<char> {
    match event {
        DebouncedEvent::NoticeWrite(_) => "notice-write"@,
        DebouncedEvent::NoticeRemove(_) => "notice-remove"@,
        DebouncedEvent::Create(_) => "create"@,
        DebouncedEvent::Write(_) => "write"@,
        DebouncedEvent::Chmod(_) => "chmod"@,
        DebouncedEvent::Remove(_) => "remove"@,
        DebouncedEvent::Rename(_, _) => "rename"@,
        DebouncedEvent::Rescan => "rescan"@,
        DebouncedEvent::Error(_, _) => "error"@,
    }
}

/// The path that a notification is about: for a rename the new path, for
/// a rescan none, for an error the path where one is known.
pub open spec fn subject(event: DebouncedEvent) -> Option<Seq<char>> {
    match event {
        DebouncedEvent::NoticeWrite(p) => Some(p@),
        DebouncedEvent::NoticeRemove(p) => Some(p@),
        DebouncedEvent::Create(p) => Some(p@),
        DebouncedEvent::Write(p) => Some(p@),
        DebouncedEvent::Chmod(p) => Some(p@),
        DebouncedEvent::Remove(p) => Some(p@),
        DebouncedEvent::Rename(_, to) => Some(to@),
        DebouncedEvent::Rescan => None,
        DebouncedEvent::Error(_, p) => text_of(p),
    }
}

/// The cause that an error notification states.
pub open spec fn cause_of(event: DebouncedEvent) -> Option<Seq<char>> {
    match event {
        DebouncedEvent::Error(cause, _) => Some(cause@),
        _ => None,
    }
}

/// The event that a notification is handed on as.
pub open spec fn handed_on(event: DebouncedEvent) -> FilesystemEventView {
    FilesystemEventView {
        event_type: kind_name(event),
        path: subject(event),
        cause: cause_of(event),
    }
}

impl FilesystemEvent {
    /// Turns one notification into the one event that is handed on.
    pub fn from_debounced_event(event: DebouncedEvent) -> (out: FilesystemEvent)
        ensures
            out@ == handed_on(event),
    {
        match event {
            DebouncedEvent::NoticeWrite(p) => FilesystemEvent {
                event_type: String::from_str("notice-write"),
                path: Some(p),
                cause: None,
            },
            DebouncedEvent::NoticeRemove(p) => FilesystemEvent {
                event_type: String::from_str("notice-remove"),
                path: Some(p),
                cause: None,
            },
            DebouncedEvent::Create(p) => FilesystemEvent {
                event_type: String::from_str("create"),
                path: Some(p),
                cause: None,
            },
            DebouncedEvent::Write(p) => FilesystemEvent {
                event_type: String::from_str("write"),
                path: Some(p),
                cause: None,
            },
            DebouncedEvent::Chmod(p) => FilesystemEvent {
                event_type: String::from_str("chmod"),
                path: Some(p),
                cause: None,
            },
            DebouncedEvent::Remove(p) => FilesystemEvent {
                event_type: String::from_str("remove"),
                path: Some(p),
                cause: None,
            },
            DebouncedEvent::Rename(_, to) => FilesystemEvent {
                event_type: String::from_str("rename"),
                path: Some(to),
                cause: None,
            },
            DebouncedEvent::Rescan => FilesystemEvent {
                event_type: String::from_str("rescan"),
                path: None,
                cause: None,
            },
            DebouncedEvent::Error(cause, p) => FilesystemEvent {
                event_type: String::from_str("error"),
                path: p,
                cause: Some(cause),
            },
        }
    }
}

/// The nine kinds of event have nine different names, so the name tells
/// the kind.
pub proof fn lemma_kind_names_differ(a: DebouncedEvent, b: DebouncedEvent)
    ensures
        kind_name(a) == kind_name(b) ==> (a is NoticeWrite <==> b is NoticeWrite) && (a
            is NoticeRemove <==> b is NoticeRemove) && (a is Create <==> b is Create) && (a
            is Write <==> b is Write) && (a is Chmod <==> b is Chmod) && (a is Remove <==> b
            is Remove) && (a is Rename <==> b is Rename) && (a is Rescan <==> b is Rescan) && (a
            is Error <==> b is Error),
{
    reveal_strlit("notice-write");
    reveal_strlit("notice-remove");
    reveal_strlit("create");
    reveal_strlit("write");
    reveal_strlit("chmod");
    reveal_strlit("remove");
    reveal_strlit("rename");
    reveal_strlit("rescan");
    reveal_strlit("error");
    let x = kind_name(a);
    let y = kind_name(b);
    if x == y {
        assert(x.len() == y.len());
        assert(x[0] == y[0]);
        assert(x[2] == y[2]);
        assert(x[4] == y[4]);
    }
}

/// The watch session: the directory that is being watched, if any.
#[derive(Debug)]
pub struct WatchSession {
    pub path: Option<String>,
}

/// What starting a watch asks of the watcher, in this order.
#[derive(Debug)]
pub struct Switch {
    /// The directory whose subscription ends first.
    pub unwatch: Option<String>,
    /// The directory whose subscription then begins.
    pub watch: String,
}

impl WatchSession {
    /// Number of subscriptions that are active.
    pub open spec fn active(self) -> nat {
        if self.path.is_some() {
            1
        } else {
            0
        }
    }

    /// A session in which nothing is watched.
    pub fn new() -> (out: WatchSession)
        ensures
            out.path.is_none(),
            out.active() == 0,
    {
        WatchSession { path: None }
    }

    /// Starts watching `path` in place of whatever was watched: the
    /// subscription that exists is ended, and `path` is the one directory
    /// watched from then on.
    pub fn start(&mut self, path: String) -> (plan: Switch)
        ensures
            text_of(plan.unwatch) == text_of(old(self).path),
            plan.watch@ == path@,
            text_of(final(self).path) == Some(path@),
            final(self).active() == 1,
    {
        let previous = clone_text(&self.path);
        let watch = path.clone();
        self.path = Some(path);
        Switch { unwatch: previous, watch }
    }
}

} // verus!
