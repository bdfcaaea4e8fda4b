use riff::duration::StreamInfo;
use riff::tag::TagType;
use riff::track::Image;
use riff::track::TagFields;
use riff::track::Track;

fn text(s: &str) -> Option<String> {
    Some(s.to_string())
}

fn tag(format: TagType) -> TagFields {
    TagFields {
        format,
        title: text("Title\0Other"),
        artist: text("X\0Z"),
        album: text("Y"),
        album_artist: text("Various"),
        disc: Some(1),
        track: Some(7),
        duration: Some(201000),
    }
}

fn ten_seconds() -> StreamInfo {
    StreamInfo { sample_rate: Some(44100), n_frames: Some(441000), delay: Some(0), padding: Some(0) }
}

#[test]
fn track_without_any_tag_is_an_error_with_the_path() {
    let out = Track::try_from_path("music/unknown.mp3", None, None, Some(&ten_seconds()));
    assert_eq!(out.err(), Some("music/unknown.mp3"));
}

#[test]
fn bare_track_has_id_and_path_only() {
    let t = Track::without_tags("music/unknown.mp3");
    assert_eq!(t.id, "7fDVXkXv0jwOdaJq");
    assert_eq!(t.path, "music/unknown.mp3");
    assert_eq!(t.tag_format, None);
    assert_eq!(t.title, None);
    assert_eq!(t.artist, None);
    assert_eq!(t.album, None);
    assert_eq!(t.album_artist, None);
    assert_eq!(t.disc, None);
    assert_eq!(t.track, None);
    assert_eq!(t.duration, None);
    assert!(t.image_ids.is_empty());
}

#[test]
fn id3v23_track_is_normalised() {
    let t = Track::try_from_path("music/X/Y/01.mp3", Some(&tag(TagType::Id3v23)), None, None)
        .unwrap();
    assert_eq!(t.id, "HbWtpUAYjUpBajfK");
    assert_eq!(t.path, "music/X/Y/01.mp3");
    assert_eq!(t.tag_format, text("ID3v2.3"));
    assert_eq!(t.title, text("Title/Other"));
    assert_eq!(t.artist, text("X/Z"));
    assert_eq!(t.album, text("Y"));
    assert_eq!(t.album_artist, text("Various"));
    assert_eq!(t.disc, Some(1));
    assert_eq!(t.track, Some(7));
    assert_eq!(t.duration, Some(201000));
    assert!(t.image_ids.is_empty());
}

#[test]
fn id3v24_track_keeps_its_text() {
    let t = Track::try_from_path("music/X/Y/01.mp3", Some(&tag(TagType::Id3v24)), None, None)
        .unwrap();
    assert_eq!(t.tag_format, text("ID3v2.4"));
    assert_eq!(t.title, text("Title\0Other"));
    assert_eq!(t.artist, text("X\0Z"));
}

#[test]
fn id3_tag_wins_over_mp4_tag() {
    let id3 = tag(TagType::Id3v22);
    let mut mp4 = tag(TagType::Mp4);
    mp4.title = text("From MP4");
    mp4.album = None;
    let t = Track::try_from_path("music/a.mp3", Some(&id3), Some(&mp4), None).unwrap();
    assert_eq!(t.tag_format, text("ID3v2.2"));
    assert_eq!(t.title, text("Title\0Other"));
    assert_eq!(t.album, text("Y"));
}

#[test]
fn mp4_tag_is_used_without_id3_tag() {
    let mut mp4 = tag(TagType::Mp4);
    mp4.title = text("From MP4");
    let t = Track::try_from_path("music/a.m4a", None, Some(&mp4), None).unwrap();
    assert_eq!(t.tag_format, text("MP4"));
    assert_eq!(t.title, text("From MP4"));
    assert_eq!(t.artist, text("X\0Z"));
}

#[test]
fn tagged_duration_wins_over_probe() {
    let t = Track::try_from_path(
        "music/a.mp3",
        Some(&tag(TagType::Id3v24)),
        None,
        Some(&ten_seconds()),
    )
    .unwrap();
    assert_eq!(t.duration, Some(201000));
}

#[test]
fn probe_fills_missing_duration() {
    let mut fields = tag(TagType::Id3v24);
    fields.duration = None;
    let t = Track::try_from_path("music/a.mp3", Some(&fields), None, Some(&ten_seconds()))
        .unwrap();
    assert_eq!(t.duration, Some(10000));
}

#[test]
fn failed_probe_leaves_duration_unknown() {
    let mut fields = tag(TagType::Mp4);
    fields.duration = None;
    let t = Track::try_from_path("music/a.m4a", None, Some(&fields), None).unwrap();
    assert_eq!(t.duration, None);
    assert_eq!(t.title, text("Title\0Other"));
    let no_rate = StreamInfo { sample_rate: None, n_frames: Some(1), delay: None, padding: None };
    let t = Track::try_from_path("music/a.m4a", None, Some(&fields), Some(&no_rate)).unwrap();
    assert_eq!(t.duration, None);
}

#[test]
fn probe_is_needed_only_without_tagged_duration() {
    let with = tag(TagType::Id3v24);
    let mut without = tag(TagType::Mp4);
    without.duration = None;
    assert!(!Track::needs_probe(Some(&with), None));
    assert!(!Track::needs_probe(Some(&with), Some(&without)));
    assert!(Track::needs_probe(Some(&without), Some(&with)));
    assert!(Track::needs_probe(None, Some(&without)));
    assert!(!Track::needs_probe(None, Some(&with)));
    assert!(!Track::needs_probe(None, None));
}

#[test]
fn image_record() {
    let img = Image::from_path("music/X/Y/cover.jpg");
    assert_eq!(img.id, "rmNiAPAX6b60zmlL");
    assert_eq!(img.path, "music/X/Y/cover.jpg");
    assert_eq!(img.thumbnail, None);
}
