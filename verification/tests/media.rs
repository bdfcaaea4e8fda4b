use riff::duration::StreamInfo;
use riff::media::Media;
use riff::scan::Collected;
use riff::scan::ScannedFile;
use riff::tag::TagType;
use riff::track::TagFields;
use riff::utils::hash;

fn text(s: &str) -> Option<String> {
    Some(s.to_string())
}

fn id(path: &str) -> String {
    hash(&path.to_string())
}

fn tagged(format: TagType, artist: Option<&str>, album: Option<&str>) -> TagFields {
    TagFields {
        format,
        title: text("Title"),
        artist: artist.map(|s| s.to_string()),
        album: album.map(|s| s.to_string()),
        album_artist: None,
        disc: None,
        track: None,
        duration: Some(1000),
    }
}

fn plain(path: &str) -> ScannedFile {
    ScannedFile { path: path.to_string(), id3: None, mp4: None, stream: None }
}

fn id3(path: &str, artist: Option<&str>, album: Option<&str>) -> ScannedFile {
    ScannedFile {
        path: path.to_string(),
        id3: Some(tagged(TagType::Id3v24, artist, album)),
        mp4: None,
        stream: None,
    }
}

fn mp4(path: &str, artist: Option<&str>, album: Option<&str>) -> ScannedFile {
    ScannedFile {
        path: path.to_string(),
        id3: None,
        mp4: Some(tagged(TagType::Mp4, artist, album)),
        stream: None,
    }
}

fn tree() -> Vec<ScannedFile> {
    vec![
        id3("music/X/Y/01.mp3", Some("X"), Some("Y")),
        plain("music/X/Y/cover.jpg"),
        id3("music/X/loose.mp3", Some("X"), None),
        plain("music/X/folder.png"),
        plain("music/unknown.mp3"),
        mp4("music/noartist.m4a", None, Some("Y")),
        plain("music/notes.txt"),
        id3("music/X/Y/02.mp3", Some("X"), Some("Y")),
    ]
}

fn build(files: Vec<ScannedFile>) -> Media {
    Media::from_directory("music".to_string(), files)
}

#[test]
fn every_audio_and_image_file_has_a_record() {
    let media = build(tree());
    assert_eq!(media.tracks.len(), 5);
    assert_eq!(media.images.len(), 2);
    for path in [
        "music/X/Y/01.mp3",
        "music/X/loose.mp3",
        "music/unknown.mp3",
        "music/noartist.m4a",
        "music/X/Y/02.mp3",
    ] {
        let t = media.track(&id(path)).unwrap();
        assert_eq!(t.path, path);
        assert_eq!(t.id, id(path));
    }
    for path in ["music/X/Y/cover.jpg", "music/X/folder.png"] {
        let img = media.image(&id(path)).unwrap();
        assert_eq!(img.path, path);
        assert_eq!(img.id, id(path));
    }
    assert!(media.track(&id("music/notes.txt")).is_none());
    assert!(media.image(&id("music/notes.txt")).is_none());
    assert!(media.image(&id("music/X/Y/01.mp3")).is_none());
    assert!(media.track(&id("music/X/Y/cover.jpg")).is_none());
}

#[test]
fn known_ids() {
    let media = build(tree());
    assert_eq!(media.tracks[0].id, "HbWtpUAYjUpBajfK");
    assert_eq!(media.tracks[1].id, "Ssuf9pmvJx_zFOG7");
    assert_eq!(media.images[0].id, "rmNiAPAX6b60zmlL");
    assert_eq!(media.images[1].id, "_qNKX6EormBsAd2p");
}

#[test]
fn untagged_file_gets_a_bare_record() {
    let media = build(tree());
    let t = media.track(&"7fDVXkXv0jwOdaJq".to_string()).unwrap();
    assert_eq!(t.id, "7fDVXkXv0jwOdaJq");
    assert_eq!(t.path, "music/unknown.mp3");
    assert_eq!(t.tag_format, None);
    assert_eq!(t.title, None);
    assert_eq!(t.artist, None);
    assert_eq!(t.album, None);
    assert_eq!(t.album_artist, None);
    assert_eq!(t.disc, None);
    assert_eq!(t.track, None);
    assert_eq!(t.duration, None);
    assert!(t.image_ids.is_empty());
}

#[test]
fn album_track_is_in_its_album_and_not_loose() {
    let media = build(tree());
    assert_eq!(media.artists.len(), 1);
    let x = media.artist(&"X".to_string()).unwrap();
    assert_eq!(x.name, "X");
    assert_eq!(x.albums.len(), 1);
    let y = x.album(&"Y".to_string()).unwrap();
    assert_eq!(y.name, "Y");
    assert_eq!(y.track_ids, vec![id("music/X/Y/01.mp3"), id("music/X/Y/02.mp3")]);
    assert!(!x.track_ids.contains(&id("music/X/Y/01.mp3")));
    assert!(!x.track_ids.contains(&id("music/X/Y/02.mp3")));
    assert!(media.track(&id("music/X/Y/01.mp3")).unwrap().image_ids.is_empty());
}

#[test]
fn album_carries_the_images_of_its_directory() {
    let media = build(tree());
    let x = media.artist(&"X".to_string()).unwrap();
    let y = x.album(&"Y".to_string()).unwrap();
    assert_eq!(y.image_ids, vec![id("music/X/Y/cover.jpg")]);
}

#[test]
fn loose_track_is_under_its_artist_and_carries_images() {
    let media = build(tree());
    let x = media.artist(&"X".to_string()).unwrap();
    assert_eq!(x.track_ids, vec![id("music/X/loose.mp3")]);
    let y = x.album(&"Y".to_string()).unwrap();
    assert!(!y.track_ids.contains(&id("music/X/loose.mp3")));
    let t = media.track(&id("music/X/loose.mp3")).unwrap();
    assert_eq!(t.image_ids, vec![id("music/X/folder.png")]);
    assert_eq!(t.artist, text("X"));
    assert_eq!(t.album, None);
}

#[test]
fn track_without_artist_is_in_no_list() {
    let media = build(tree());
    let t = media.track(&id("music/noartist.m4a")).unwrap();
    assert_eq!(t.tag_format, text("MP4"));
    assert_eq!(t.album, text("Y"));
    assert!(t.image_ids.is_empty());
    for artist in &media.artists {
        assert!(!artist.track_ids.contains(&t.id));
        for album in &artist.albums {
            assert!(!album.track_ids.contains(&t.id));
        }
    }
    assert!(media.artist(&"Y".to_string()).is_none());
}

#[test]
fn images_found_after_the_track_still_count() {
    // The image is met after the track: the second pass starts when the
    // first has seen every file.
    let media = build(vec![
        id3("music/X/loose.mp3", Some("X"), None),
        id3("music/X/Y/01.mp3", Some("X"), Some("Y")),
        plain("music/X/Y/cover.jpg"),
        plain("music/X/folder.png"),
    ]);
    let x = media.artist(&"X".to_string()).unwrap();
    assert_eq!(x.album(&"Y".to_string()).unwrap().image_ids, vec![id("music/X/Y/cover.jpg")]);
    assert_eq!(
        media.track(&id("music/X/loose.mp3")).unwrap().image_ids,
        vec![id("music/X/folder.png")]
    );
}

#[test]
fn album_images_are_fixed_by_its_first_track() {
    let media = build(vec![
        id3("music/X/Y/01.mp3", Some("X"), Some("Y")),
        plain("music/X/Y/cover.jpg"),
        id3("music/elsewhere/03.mp3", Some("X"), Some("Y")),
        plain("music/elsewhere/back.png"),
    ]);
    let x = media.artist(&"X".to_string()).unwrap();
    let y = x.album(&"Y".to_string()).unwrap();
    assert_eq!(y.track_ids, vec![id("music/X/Y/01.mp3"), id("music/elsewhere/03.mp3")]);
    assert_eq!(y.image_ids, vec![id("music/X/Y/cover.jpg")]);
}

#[test]
fn only_the_tracks_own_directory_is_searched() {
    let media = build(vec![
        id3("music/X/Y/01.mp3", Some("X"), None),
        plain("music/X/folder.png"),
        plain("music/X/Y/deeper/cover.jpg"),
    ]);
    assert!(media.track(&id("music/X/Y/01.mp3")).unwrap().image_ids.is_empty());
}

#[test]
fn names_are_compared_as_written() {
    let media = build(vec![
        id3("music/X/loose.mp3", Some("X"), None),
        id3("music/x/lower.mp3", Some("x"), None),
        id3("music/X/Y/01.mp3", Some("X "), Some("Y")),
        id3("music/X/Y/02.mp3", Some("X "), Some("y")),
    ]);
    assert_eq!(media.artists.len(), 3);
    assert_eq!(media.artist(&"X".to_string()).unwrap().track_ids, vec![id("music/X/loose.mp3")]);
    assert_eq!(media.artist(&"x".to_string()).unwrap().track_ids, vec![id("music/x/lower.mp3")]);
    let spaced = media.artist(&"X ".to_string()).unwrap();
    assert_eq!(spaced.albums.len(), 2);
    assert_eq!(spaced.album(&"Y".to_string()).unwrap().track_ids, vec![id("music/X/Y/01.mp3")]);
    assert_eq!(spaced.album(&"y".to_string()).unwrap().track_ids, vec![id("music/X/Y/02.mp3")]);
}

#[test]
fn same_album_name_under_two_artists() {
    let media = build(vec![
        id3("music/X/Y/01.mp3", Some("A"), Some("Greatest Hits")),
        id3("music/X/Y/02.mp3", Some("B"), Some("Greatest Hits")),
    ]);
    let a = media.artist(&"A".to_string()).unwrap();
    let b = media.artist(&"B".to_string()).unwrap();
    assert_eq!(
        a.album(&"Greatest Hits".to_string()).unwrap().track_ids,
        vec![id("music/X/Y/01.mp3")]
    );
    assert_eq!(
        b.album(&"Greatest Hits".to_string()).unwrap().track_ids,
        vec![id("music/X/Y/02.mp3")]
    );
}

#[test]
fn a_path_met_twice_has_one_record_and_the_later_wins() {
    let media = build(vec![
        id3("music/X/loose.mp3", Some("X"), Some("Y")),
        id3("music/X/loose.mp3", Some("Z"), None),
    ]);
    assert_eq!(media.tracks.len(), 1);
    let t = media.track(&id("music/X/loose.mp3")).unwrap();
    assert_eq!(t.artist, text("Z"));
    assert_eq!(media.artists.len(), 1);
    assert_eq!(media.artist(&"Z".to_string()).unwrap().track_ids, vec![id("music/X/loose.mp3")]);
}

#[test]
fn two_builds_of_the_same_tree_agree() {
    let one = build(tree());
    let two = build(tree());
    assert_eq!(format!("{:?}", one), format!("{:?}", two));
}

#[test]
fn id_sets_do_not_depend_on_the_order_of_the_files() {
    let one = build(tree());
    let mut files = tree();
    files.reverse();
    let two = build(files);
    let mut a: Vec<String> = one.tracks.iter().map(|t| t.id.clone()).collect();
    let mut b: Vec<String> = two.tracks.iter().map(|t| t.id.clone()).collect();
    a.sort();
    b.sort();
    assert_eq!(a, b);
    let mut a: Vec<String> = one.images.iter().map(|t| t.id.clone()).collect();
    let mut b: Vec<String> = two.images.iter().map(|t| t.id.clone()).collect();
    a.sort();
    b.sort();
    assert_eq!(a, b);
    assert_eq!(
        two.track(&id("music/X/loose.mp3")).unwrap().image_ids,
        vec![id("music/X/folder.png")]
    );
}

#[test]
fn empty_tree_gives_empty_snapshot() {
    let media = build(Vec::new());
    assert!(media.tracks.is_empty());
    assert!(media.images.is_empty());
    assert!(media.artists.is_empty());
}

#[test]
fn first_pass_fills_the_buckets() {
    let c = Collected::from_files("music", &tree());
    assert_eq!(c.tracks.len(), 5);
    assert_eq!(c.images.len(), 2);
    let dirs: Vec<&str> = c.directories.iter().map(|d| d.path.as_str()).collect();
    assert_eq!(dirs, vec!["X/Y", "X", ""]);
    assert_eq!(c.directories[0].track_ids, vec![id("music/X/Y/01.mp3"), id("music/X/Y/02.mp3")]);
    assert_eq!(c.directories[0].image_ids, vec![id("music/X/Y/cover.jpg")]);
    assert_eq!(c.directories[1].track_ids, vec![id("music/X/loose.mp3")]);
    assert_eq!(c.directories[1].image_ids, vec![id("music/X/folder.png")]);
    assert_eq!(
        c.directories[2].track_ids,
        vec![id("music/unknown.mp3"), id("music/noartist.m4a")]
    );
    assert!(c.directories[2].image_ids.is_empty());
    // The first pass attaches no image to any track.
    assert!(c.tracks.iter().all(|t| t.image_ids.is_empty()));
}

#[test]
fn probe_result_reaches_the_record() {
    let mut file = id3("music/X/loose.mp3", Some("X"), None);
    file.id3.as_mut().unwrap().duration = None;
    file.stream = Some(StreamInfo {
        sample_rate: Some(44100),
        n_frames: Some(441000),
        delay: Some(0),
        padding: Some(0),
    });
    let media = build(vec![file]);
    assert_eq!(media.tracks[0].duration, Some(10000));
}
