//! Track and image records, and how a track is made from what a file's tag
//! and audio stream tell.

use crate::duration::StreamInfo;
use crate::tag::TagType;
use crate::text::text_of;
use crate::text::texts_of;
use crate::utils::hash;
use crate::utils::id_of;
use vstd::prelude::*;

verus! {

/// The fields of one tag, as they stand in the file.
#[derive(Debug)]
pub struct TagFields {
    pub format: TagType,
    pub title: Option<String>,
    /// The primary artist: the first value where a tag holds several.
    pub artist: Option<String>,
    pub album: Option<String>,
    pub album_artist: Option<String>,
    pub disc: Option<u32>,
    pub track: Option<u32>,
    /// Milliseconds, where the tag states a duration.
    pub duration: Option<u32>,
}

pub struct TagFieldsView {
    pub format: TagType,
    pub title: Option<Seq<char>>,
    pub artist: Option<Seq<char>>,
    pub album: Option<Seq<char>>,
    pub album_artist: Option<Seq<char>>,
    pub disc: Option<u32>,
    pub track: Option<u32>,
    pub duration: Option<u32>,
}

impl View for TagFields {
    type V = TagFieldsView;

    open spec fn view(&self) -> TagFieldsView {
        TagFieldsView {
            format: self.format,
            title: text_of(self.title),
            artist: text_of(self.artist),
            album: text_of(self.album),
            album_artist: text_of(self.album_artist),
            disc: self.disc,
            track: self.track,
            duration: self.duration,
        }
    }
}

/// One audio file of the catalog.
#[derive(Debug)]
pub struct Track {
    pub id: String,
    pub path: String,
    /// Display name of the tag format; absent where no tag could be read.
    pub tag_format: Option<String>,
    pub title: Option<String>,
    pub artist: Option<String>,
    pub album: Option<String>,
    pub album_artist: Option<String>,
    pub disc: Option<u32>,
    pub track: Option<u32>,
    /// Milliseconds.
    pub duration: Option<u32>,
    pub image_ids: Vec<String>,
}

pub struct TrackView {
    pub id: Seq<char>,
    pub path: Seq<char>,
    pub tag_format: Option<Seq<char>>,
    pub title: Option<Seq<char>>,
    pub artist: Option<Seq<char>>,
    pub album: Option<Seq<char>>,
    pub album_artist: Option<Seq<char>>,
    pub disc: Option<u32>,
    pub track: Option<u32>,
    pub duration: Option<u32>,
    pub image_ids: Seq<Seq<char>>,
}

impl View for Track {
    type V = TrackView;

    open spec fn view(&self) -> TrackView {
        TrackView {
            id: self.id@,
            path: self.path@,
            tag_format: text_of(self.tag_format),
            title: text_of(self.title),
            artist: text_of(self.artist),
            album: text_of(self.album),
            album_artist: text_of(self.album_artist),
            disc: self.disc,
            track: self.track,
            duration: self.duration,
            image_ids: texts_of(self.image_ids@),
        }
    }
}

/// One image file of the catalog.
#[derive(Debug)]
pub struct Image {
    pub id: String,
    pub path: String,
    /// Reference to a thumbnail; the catalog builder leaves it absent.
    pub thumbnail: Option<String>,
}

pub struct ImageView {
    pub id: Seq<char>,
    pub path: Seq<char>,
    pub thumbnail: Option<Seq<char>>,
}

impl View for Image {
    type V = ImageView;

    open spec fn view(&self) -> ImageView {
        ImageView { id: self.id@, path: self.path@, thumbnail: text_of(self.thumbnail) }
    }
}

/// The tag a track is made from: the ID3v2 tag where the file has one,
/// else its MP4 tag. The two are never merged.
pub open spec fn first_tag(id3: Option<TagFieldsView>, mp4: Option<TagFieldsView>) -> Option<
    TagFieldsView,
> {
    if id3.is_some() {
        id3
    } else {
        mp4
    }
}

/// The duration that probing the audio stream gives; unknown where the
/// probe failed.
pub open spec fn probed_duration(stream: Option<StreamInfo>) -> Option<u32> {
    match stream {
        Some(info) => info.duration_spec(),
        None => None,
    }
}

/// The duration of a track: the one its tag states, else the probed one.
pub open spec fn resolved_duration(tagged: Option<u32>, stream: Option<StreamInfo>) -> Option<
    u32,
> {
    if tagged.is_some() {
        tagged
    } else {
        probed_duration(stream)
    }
}

/// The record of the audio file at `path` whose tag is `tag`.
pub open spec fn tagged_track(path: Seq<char>, tag: TagFieldsView, stream: Option<StreamInfo>)
    -> TrackView {
    TrackView {
        id: id_of(path),
        path,
        tag_format: Some(tag.format.name_spec()),
        title: tag.format.format_spec(tag.title),
        artist: tag.format.format_spec(tag.artist),
        album: tag.format.format_spec(tag.album),
        album_artist: tag.format.format_spec(tag.album_artist),
        disc: tag.disc,
        track: tag.track,
        duration: resolved_duration(tag.duration, stream),
        image_ids: Seq::empty(),
    }
}

/// The record of an audio file without a readable tag: id and path, and
/// nothing else.
pub open spec fn bare_track(path: Seq<char>) -> TrackView {
    TrackView {
        id: id_of(path),
        path,
        tag_format: None,
        title: None,
        artist: None,
        album: None,
        album_artist: None,
        disc: None,
        track: None,
        duration: None,
        image_ids: Seq::empty(),
    }
}

/// The record of the image file at `path`.
pub open spec fn image_at(path: Seq<char>) -> ImageView {
    ImageView { id: id_of(path), path, thumbnail: None }
}

/// The view of an optional borrowed tag.
pub open spec fn tag_view(tag: Option<&TagFields>) -> Option<TagFieldsView> {
    match tag {
        Some(t) => Some(t@),
        None => None,
    }
}

/// The stream parameters behind an optional reference.
pub open spec fn stream_of(stream: Option<&StreamInfo>) -> Option<StreamInfo> {
    match stream {
        Some(s) => Some(*s),
        None => None,
    }
}

/// Whether making a track from these tags reads the stream parameters.
pub open spec fn wants_probe(id3: Option<TagFieldsView>, mp4: Option<TagFieldsView>) -> bool {
    match first_tag(id3, mp4) {
        Some(tag) => tag.duration.is_none(),
        None => false,
    }
}

fn as_text(s: &Option<String>) -> (out: Option<&str>)
    ensures
        out.is_some() == s.is_some(),
        s matches Some(t) ==> out.unwrap()@ == t@,
{
    match s {
        Some(t) => Some(t.as_str()),
        None => None,
    }
}

impl Track {
    /// Makes the track of the audio file at `path` from the tags that could
    /// be read from it: from `id3` where there is one, else from `mp4`.
    /// `stream` holds what probing the audio stream gave, and is read only
    /// where the chosen tag states no duration. Without any tag the path
    /// comes back as the error.
    pub fn try_from_path<'a>(
        path: &'a str,
        id3: Option<&TagFields>,
        mp4: Option<&TagFields>,
        stream: Option<&StreamInfo>,
    ) -> (out: Result<Track, &'a str>)
        ensures
            match first_tag(tag_view(id3), tag_view(mp4)) {
                Some(tag) => out.is_ok() && out.unwrap()@ == tagged_track(
                    path@,
                    tag,
                    stream_of(stream),
                ),
                None => out == Err::<Track, &str>(path),
            },
    {
        let tag: &TagFields = match id3 {
            Some(t) => t,
            None => match mp4 {
                Some(t) => t,
                None => {
                    return Err(path);
                },
            },
        };
        let duration: Option<u32> = match tag.duration {
            Some(d) => Some(d),
            None => match stream {
                Some(info) => info.duration(),
                None => None,
            },
        };
        let path_str = String::from_str(path);
        let track = Track {
            id: hash(&path_str),
            path: path_str,
            tag_format: Some(tag.format.name()),
            title: tag.format.format_str(as_text(&tag.title)),
            artist: tag.format.format_str(as_text(&tag.artist)),
            album: tag.format.format_str(as_text(&tag.album)),
            album_artist: tag.format.format_str(as_text(&tag.album_artist)),
            disc: tag.disc,
            track: tag.track,
            duration,
            image_ids: Vec::new(),
        };
        assert(track@.image_ids =~= Seq::empty());
        assert(track@ == tagged_track(path@, tag@, stream_of(stream)));
        Ok(track)
    }

    /// The record of an audio file whose tag could not be read.
    pub fn without_tags(path: &str) -> (out: Track)
        ensures
            out@ == bare_track(path@),
    {
        let path_str = String::from_str(path);
        let track = Track {
            id: hash(&path_str),
            path: path_str,
            tag_format: None,
            title: None,
            artist: None,
            album: None,
            album_artist: None,
            disc: None,
            track: None,
            duration: None,
            image_ids: Vec::new(),
        };
        assert(track@.image_ids =~= Seq::empty());
        track
    }

    /// Whether `try_from_path` reads the stream parameters for these tags:
    /// it does where the tag it chooses states no duration.
    pub fn needs_probe(id3: Option<&TagFields>, mp4: Option<&TagFields>) -> (out: bool)
        ensures
            out == wants_probe(tag_view(id3), tag_view(mp4)),
    {
        match id3 {
            Some(t) => t.duration.is_none(),
            None => match mp4 {
                Some(t) => t.duration.is_none(),
                None => false,
            },
        }
    }
}

impl Image {
    /// The record of the image file at `path`.
    pub fn from_path(path: &str) -> (out: Image)
        ensures
            out@ == image_at(path@),
    {
        let path_str = String::from_str(path);
        Image { id: hash(&path_str), path: path_str, thumbnail: None }
    }
}

/// The first tag that was read decides alone: with an ID3v2 tag the MP4
/// tag changes nothing, and a stated duration makes the probe irrelevant.
pub proof fn lemma_first_tag_wins(
    path: Seq<char>,
    id3: TagFieldsView,
    mp4: Option<TagFieldsView>,
    other: Option<TagFieldsView>,
    stream: Option<StreamInfo>,
    other_stream: Option<StreamInfo>,
)
    ensures
        first_tag(Some(id3), mp4) == first_tag(Some(id3), other),
        id3.duration.is_some() ==> tagged_track(path, id3, stream) == tagged_track(
            path,
            id3,
            other_stream,
        ),
        !wants_probe(Some(id3), mp4) ==> tagged_track(path, id3, stream) == tagged_track(
            path,
            id3,
            other_stream,
        ),
{
}

/// A file without a readable tag still has a record: its id and path are
/// those of any track at that path, and every other field is absent.
pub proof fn lemma_bare_track(path: Seq<char>)
    ensures
        bare_track(path).id == id_of(path),
        bare_track(path).path == path,
        bare_track(path).tag_format.is_none(),
        bare_track(path).title.is_none(),
        bare_track(path).artist.is_none(),
        bare_track(path).album.is_none(),
        bare_track(path).album_artist.is_none(),
        bare_track(path).disc.is_none(),
        bare_track(path).track.is_none(),
        bare_track(path).duration.is_none(),
        bare_track(path).image_ids.len() == 0,
{
}

} // verus!
