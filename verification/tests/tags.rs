use riff::duration::duration_from_frames;
use riff::duration::StreamInfo;
use riff::tag::replace_nul;
use riff::tag::TagType;

#[test]
fn id3v23_nul_surfaces_as_slash() {
    assert_eq!(TagType::Id3v23.format_str(Some("A\0B")), Some("A/B".to_string()));
}

#[test]
fn id3v24_nul_surfaces_unchanged() {
    assert_eq!(TagType::Id3v24.format_str(Some("A\0B")), Some("A\0B".to_string()));
}

#[test]
fn other_formats_pass_text_through() {
    assert_eq!(TagType::Id3v22.format_str(Some("A\0B")), Some("A\0B".to_string()));
    assert_eq!(TagType::Id3v1.format_str(Some("A\0B")), Some("A\0B".to_string()));
    assert_eq!(TagType::Mp4.format_str(Some("A\0B")), Some("A\0B".to_string()));
}

#[test]
fn absent_field_stays_absent() {
    assert_eq!(TagType::Id3v23.format_str(None), None);
    assert_eq!(TagType::Mp4.format_str(None), None);
}

#[test]
fn replace_nul_rewrites_every_nul() {
    assert_eq!(replace_nul("\0a\0\0b\0"), "/a//b/");
    assert_eq!(replace_nul(""), "");
    assert_eq!(replace_nul("Sigur R\u{f3}s\0J\u{f3}nsi"), "Sigur R\u{f3}s/J\u{f3}nsi");
}

#[test]
fn format_names() {
    assert_eq!(TagType::Id3v24.name(), "ID3v2.4");
    assert_eq!(TagType::Id3v23.name(), "ID3v2.3");
    assert_eq!(TagType::Id3v22.name(), "ID3v2.2");
    assert_eq!(TagType::Id3v1.name(), "ID3v1");
    assert_eq!(TagType::Mp4.name(), "MP4");
}

#[test]
fn ten_seconds_at_44100() {
    let info = StreamInfo {
        sample_rate: Some(44100),
        n_frames: Some(441000),
        delay: Some(0),
        padding: Some(0),
    };
    assert_eq!(info.duration(), Some(10000));
    assert_eq!(duration_from_frames(441000, 0, 0, 44100), Some(10000));
}

#[test]
fn padding_is_not_played() {
    assert_eq!(duration_from_frames(441000 + 1105 + 529, 1105, 529, 44100), Some(10000));
    let info = StreamInfo {
        sample_rate: Some(48000),
        n_frames: Some(48000),
        delay: None,
        padding: Some(24000),
    };
    assert_eq!(info.duration(), Some(500));
}

#[test]
fn duration_is_rounded_to_the_nearest_millisecond() {
    // 1 frame at 3 Hz is 333.33 ms, 2 frames are 666.67 ms.
    assert_eq!(duration_from_frames(1, 0, 0, 3), Some(333));
    assert_eq!(duration_from_frames(2, 0, 0, 3), Some(667));
    // 1 frame at 2000 Hz is exactly half a millisecond.
    assert_eq!(duration_from_frames(1, 0, 0, 2000), Some(1));
    assert_eq!(duration_from_frames(0, 0, 0, 44100), Some(0));
}

#[test]
fn duration_unknown_without_rate_or_frames() {
    let no_rate = StreamInfo { sample_rate: None, n_frames: Some(10), delay: None, padding: None };
    let no_frames =
        StreamInfo { sample_rate: Some(44100), n_frames: None, delay: None, padding: None };
    assert_eq!(no_rate.duration(), None);
    assert_eq!(no_frames.duration(), None);
}

#[test]
fn duration_unknown_for_impossible_streams() {
    assert_eq!(duration_from_frames(1000, 0, 0, 0), None);
    assert_eq!(duration_from_frames(10, 8, 3, 44100), None);
}

#[test]
fn duration_is_capped() {
    assert_eq!(duration_from_frames(u64::MAX, 0, 0, 1), Some(u32::MAX));
    assert_eq!(duration_from_frames(4294967, 0, 0, 1), Some(4294967000));
    assert_eq!(duration_from_frames(4294968, 0, 0, 1), Some(u32::MAX));
}
