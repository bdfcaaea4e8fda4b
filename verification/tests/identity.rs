use riff::utils::hash;
use riff::utils::truncated;

#[test]
fn hash_of_known_text() {
    assert_eq!(hash(&"hello world".to_string()), "Kq5sNclPz7QV2-lf");
}

#[test]
fn hash_of_empty_text() {
    assert_eq!(hash(&String::new()), "2jmj7l5rSw0yVb_v");
}

#[test]
fn hash_has_sixteen_url_safe_characters() {
    let key = hash(&"music/Artist/Album/01.mp3".to_string());
    assert_eq!(key, "7EDpE3Kt6CVzrHIo");
    assert_eq!(key.chars().count(), 16);
    assert!(key.chars().all(|c| c.is_ascii_alphanumeric() || c == '-' || c == '_'));
}

#[test]
fn hash_is_deterministic() {
    let path = "music/a.mp3".to_string();
    assert_eq!(hash(&path), hash(&path));
    assert_eq!(hash(&path), hash(&"music/a.mp3".to_string()));
}

#[test]
fn hash_differs_from_its_input_and_between_paths() {
    let a = hash(&"music/a.mp3".to_string());
    let b = hash(&"music/b.mp3".to_string());
    assert_ne!(a, "music/a.mp3");
    assert_ne!(a, b);
}

#[test]
fn truncated_keeps_the_head() {
    assert_eq!(truncated("Kq5sNclPz7QV2-lfQIuc6R7oRu0", 16), "Kq5sNclPz7QV2-lf");
    assert_eq!(truncated("short", 16), "short");
    assert_eq!(truncated("exactly-sixteen!", 16), "exactly-sixteen!");
    assert_eq!(truncated("abc", 0), "");
    assert_eq!(truncated("h\u{e9}llo", 2), "h\u{e9}");
}
