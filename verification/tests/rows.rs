use riff::media::Media;
use riff::rows::ImageRow;
use riff::rows::TrackRow;
use riff::scan::ScannedFile;
use riff::tag::TagType;
use riff::track::Image;
use riff::track::TagFields;
use riff::track::Track;

fn file(path: &str, artist: Option<&str>) -> ScannedFile {
    ScannedFile {
        path: path.to_string(),
        id3: artist.map(|a| TagFields {
            format: TagType::Id3v23,
            title: Some("T".to_string()),
            artist: Some(a.to_string()),
            album: Some("Y".to_string()),
            album_artist: Some("V".to_string()),
            disc: Some(2),
            track: Some(3),
            duration: Some(4000),
        }),
        mp4: None,
        stream: None,
    }
}

#[test]
fn track_row_has_the_fields_and_the_directory() {
    let fields = file("music/X/Y/01.mp3", Some("X\0Z")).id3.unwrap();
    let t = Track::try_from_path("music/X/Y/01.mp3", Some(&fields), None, None).unwrap();
    let row = TrackRow::from_track(&t, "music");
    assert_eq!(row.id, "HbWtpUAYjUpBajfK");
    assert_eq!(row.path, "music/X/Y/01.mp3");
    assert_eq!(row.relative_parent_path, "X/Y");
    assert_eq!(row.tag_format, Some("ID3v2.3".to_string()));
    assert_eq!(row.title, Some("T".to_string()));
    assert_eq!(row.artist, Some("X/Z".to_string()));
    assert_eq!(row.album, Some("Y".to_string()));
    assert_eq!(row.album_artist, Some("V".to_string()));
    assert_eq!(row.disc, Some(2));
    assert_eq!(row.track, Some(3));
    assert_eq!(row.duration, Some(4000));
}

#[test]
fn image_row_has_the_directory() {
    let row = ImageRow::from_image(&Image::from_path("music/X/Y/cover.jpg"), "music");
    assert_eq!(row.id, "rmNiAPAX6b60zmlL");
    assert_eq!(row.path, "music/X/Y/cover.jpg");
    assert_eq!(row.relative_parent_path, "X/Y");
}

#[test]
fn snapshot_rows_are_one_per_record_with_distinct_keys() {
    let media = Media::from_directory(
        "music".to_string(),
        vec![
            file("music/X/Y/01.mp3", Some("X")),
            file("music/X/Y/cover.jpg", None),
            file("music/unknown.mp3", None),
            file("music/X/Y/01.mp3", Some("W")),
            file("music/X/folder.png", None),
        ],
    );
    let tracks = media.track_rows("music");
    let images = media.image_rows("music");
    assert_eq!(tracks.len(), 2);
    assert_eq!(images.len(), 2);
    assert_eq!(tracks[0].path, "music/X/Y/01.mp3");
    assert_eq!(tracks[0].artist, Some("W".to_string()));
    assert_eq!(tracks[0].relative_parent_path, "X/Y");
    assert_eq!(tracks[1].path, "music/unknown.mp3");
    assert_eq!(tracks[1].relative_parent_path, "");
    assert_eq!(tracks[1].tag_format, None);
    assert_ne!(tracks[0].id, tracks[1].id);
    assert_eq!(images[0].path, "music/X/Y/cover.jpg");
    assert_eq!(images[1].path, "music/X/folder.png");
    assert_eq!(images[1].relative_parent_path, "X");
    assert_ne!(images[0].id, images[1].id);
}
