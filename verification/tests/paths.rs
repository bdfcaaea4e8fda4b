use riff::media::Media;
use riff::path::classify_extension;
use riff::path::classify_path;
use riff::path::get_relative_parent_path;
use riff::path::FileKind;
use riff::text::or_empty;
use riff::text::same_text;

#[test]
fn relative_parent_of_nested_file() {
    assert_eq!(get_relative_parent_path("music/Artist/Album/01.mp3", "music"), "Artist/Album");
    assert_eq!(get_relative_parent_path("/srv/music/Artist/01.mp3", "/srv/music"), "Artist");
}

#[test]
fn relative_parent_of_file_in_root_is_empty() {
    assert_eq!(get_relative_parent_path("music/a.mp3", "music"), "");
}

#[test]
fn relative_parent_outside_root_is_empty() {
    assert_eq!(get_relative_parent_path("other/Artist/a.mp3", "music"), "");
    assert_eq!(get_relative_parent_path("a.mp3", "music"), "");
}

#[test]
fn relative_parent_without_parent_is_empty() {
    assert_eq!(get_relative_parent_path("/", "music"), "");
    assert_eq!(get_relative_parent_path("", "music"), "");
}

#[test]
fn relative_parent_is_not_the_path_itself() {
    let out = get_relative_parent_path("music/Artist/Album/01.mp3", "music");
    assert_ne!(out, "music/Artist/Album/01.mp3");
    assert_ne!(out, "music");
}

#[test]
fn media_relative_parent_agrees() {
    assert_eq!(Media::get_relative_parent_path("music/Artist/Album/01.mp3", "music"), "Artist/Album");
    assert_eq!(Media::get_relative_parent_path("music/a.mp3", "music"), "");
}

#[test]
fn audio_extensions() {
    assert_eq!(classify_extension("mp3"), FileKind::Audio);
    assert_eq!(classify_extension("m4a"), FileKind::Audio);
}

#[test]
fn image_extensions() {
    assert_eq!(classify_extension("jpg"), FileKind::Image);
    assert_eq!(classify_extension("jpeg"), FileKind::Image);
    assert_eq!(classify_extension("png"), FileKind::Image);
}

#[test]
fn other_extensions_are_unhandled() {
    assert_eq!(classify_extension("txt"), FileKind::Unhandled);
    assert_eq!(classify_extension("flac"), FileKind::Unhandled);
    assert_eq!(classify_extension(""), FileKind::Unhandled);
    assert_eq!(classify_extension("mp"), FileKind::Unhandled);
    assert_eq!(classify_extension("mp3x"), FileKind::Unhandled);
}

#[test]
fn extensions_are_compared_as_written() {
    assert_eq!(classify_extension("MP3"), FileKind::Unhandled);
    assert_eq!(classify_extension("Jpg"), FileKind::Unhandled);
}

#[test]
fn paths_are_classified_by_their_extension() {
    assert_eq!(classify_path("music/Artist/01.mp3"), FileKind::Audio);
    assert_eq!(classify_path("music/Artist/01.m4a"), FileKind::Audio);
    assert_eq!(classify_path("music/Artist/cover.jpeg"), FileKind::Image);
    assert_eq!(classify_path("music/Artist/notes.txt"), FileKind::Unhandled);
    assert_eq!(classify_path("music/Artist/archive.tar.png"), FileKind::Image);
}

#[test]
fn paths_without_extension_are_unhandled() {
    assert_eq!(classify_path("music/README"), FileKind::Unhandled);
    assert_eq!(classify_path("music/.mp3"), FileKind::Unhandled);
    assert_eq!(classify_path("music.mp3/README"), FileKind::Unhandled);
}

#[test]
fn same_text_compares_whole_strings() {
    assert!(same_text("mp3", "mp3"));
    assert!(same_text("", ""));
    assert!(!same_text("mp3", "mp4"));
    assert!(!same_text("mp3", "mp"));
    assert!(!same_text("jpg", "jpeg"));
}

#[test]
fn absent_text_is_empty() {
    assert_eq!(or_empty(Some("X/Y".to_string())), "X/Y");
    assert_eq!(or_empty(None), "");
}
