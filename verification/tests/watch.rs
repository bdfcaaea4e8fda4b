use riff::watch::DebouncedEvent;
use riff::watch::FilesystemEvent;
use riff::watch::WatchSession;
use riff::watch::DEBOUNCE_SECONDS;

fn handed_on(event: DebouncedEvent) -> (String, Option<String>, Option<String>) {
    let out = FilesystemEvent::from_debounced_event(event);
    (out.event_type, out.path, out.cause)
}

fn at(kind: &str, path: &str) -> (String, Option<String>, Option<String>) {
    (kind.to_string(), Some(path.to_string()), None)
}

#[test]
fn path_events_keep_their_path() {
    let p = "music/a.mp3".to_string();
    assert_eq!(handed_on(DebouncedEvent::NoticeWrite(p.clone())), at("notice-write", &p));
    assert_eq!(handed_on(DebouncedEvent::NoticeRemove(p.clone())), at("notice-remove", &p));
    assert_eq!(handed_on(DebouncedEvent::Create(p.clone())), at("create", &p));
    assert_eq!(handed_on(DebouncedEvent::Write(p.clone())), at("write", &p));
    assert_eq!(handed_on(DebouncedEvent::Chmod(p.clone())), at("chmod", &p));
    assert_eq!(handed_on(DebouncedEvent::Remove(p.clone())), at("remove", &p));
}

#[test]
fn rename_carries_the_new_path() {
    let event = DebouncedEvent::Rename("music/old.mp3".to_string(), "music/new.mp3".to_string());
    assert_eq!(handed_on(event), at("rename", "music/new.mp3"));
}

#[test]
fn rescan_has_no_path() {
    assert_eq!(handed_on(DebouncedEvent::Rescan), ("rescan".to_string(), None, None));
}

#[test]
fn error_carries_cause_and_path_when_known() {
    let with_path =
        DebouncedEvent::Error("permission denied".to_string(), Some("music/x".to_string()));
    assert_eq!(
        handed_on(with_path),
        ("error".to_string(), Some("music/x".to_string()), Some("permission denied".to_string()))
    );
    let without = DebouncedEvent::Error("too many watches".to_string(), None);
    assert_eq!(
        handed_on(without),
        ("error".to_string(), None, Some("too many watches".to_string()))
    );
}

#[test]
fn first_watch_ends_nothing() {
    let mut session = WatchSession::new();
    assert_eq!(session.path, None);
    let plan = session.start("music".to_string());
    assert_eq!(plan.unwatch, None);
    assert_eq!(plan.watch, "music");
    assert_eq!(session.path, Some("music".to_string()));
}

#[test]
fn new_watch_replaces_the_old_one() {
    let mut session = WatchSession::new();
    session.start("music".to_string());
    let plan = session.start("podcasts".to_string());
    assert_eq!(plan.unwatch, Some("music".to_string()));
    assert_eq!(plan.watch, "podcasts");
    assert_eq!(session.path, Some("podcasts".to_string()));
    let again = session.start("podcasts".to_string());
    assert_eq!(again.unwatch, Some("podcasts".to_string()));
    assert_eq!(session.path, Some("podcasts".to_string()));
}

#[test]
fn debounce_window_is_two_seconds() {
    assert_eq!(DEBOUNCE_SECONDS, 2);
}
