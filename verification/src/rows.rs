//! The two kinds of row that a snapshot is stored as.

use crate::media::Media;
use crate::path::get_relative_parent_path;
use crate::path::relative_parent;
use crate::text::clone_text;
use crate::text::text_of;
use crate::text::views;
use crate::track::Image;
use crate::track::ImageView;
use crate::track::Track;
use crate::track::TrackView;
use vstd::prelude::*;

verus! {

/// The stored form of a track. `id` is the identity key, and no two rows
/// may have the same `path`.
#[derive(Debug)]
pub struct TrackRow {
    pub id: String,
    pub path: String,
    pub relative_parent_path: String,
    pub tag_format: Option<String>,
    pub title: Option<String>,
    pub artist: Option<String>,
    pub album: Option<String>,
    pub album_artist: Option<String>,
    pub disc: Option<u32>,
    pub track: Option<u32>,
    pub duration: Option<u32>,
}

pub struct TrackRowView {
    pub id: Seq<char>,
    pub path: Seq<char>,
    pub relative_parent_path: Seq<char>,
    pub tag_format: Option<Seq<char>>,
    pub title: Option<Seq<char>>,
    pub artist: Option<Seq<char>>,
    pub album: Option<Seq<char>>,
    pub album_artist: Option<Seq<char>>,
    pub disc: Option<u32>,
    pub track: Option<u32>,
    pub duration: Option<u32>,
}

impl View for TrackRow {
    type V = TrackRowView;

    open spec fn view(&self) -> TrackRowView {
        TrackRowView {
            id: self.id@,
            path: self.path@,
            relative_parent_path: self.relative_parent_path@,
            tag_format: text_of(self.tag_format),
            title: text_of(self.title),
            artist: text_of(self.artist),
            album: text_of(self.album),
            album_artist: text_of(self.album_artist),
            disc: self.disc,
            track: self.track,
            duration: self.duration,
        }
    }
}

/// The stored form of an image. `id` is the identity key, and no two rows
/// may have the same `path`.
#[derive(Debug)]
pub struct ImageRow {
    pub id: String,
    pub path: String,
    pub relative_parent_path: String,
}

pub struct ImageRowView {
    pub id: Seq<char>,
    pub path: Seq<char>,
    pub relative_parent_path: Seq<char>,
}

impl View for ImageRow {
    type V = ImageRowView;

    open spec fn view(&self) -> ImageRowView {
        ImageRowView {
            id: self.id@,
            path: self.path@,
            relative_parent_path: self.relative_parent_path@,
        }
    }
}

/// The row of a track of the tree under `root`.
pub open spec fn track_row(t: TrackView, root: Seq<char>) -> TrackRowView {
    TrackRowView {
        id: t.id,
        path: t.path,
        relative_parent_path: relative_parent(t.path, root),
        tag_format: t.tag_format,
        title: t.title,
        artist: t.artist,
        album: t.album,
        album_artist: t.album_artist,
        disc: t.disc,
        track: t.track,
        duration: t.duration,
    }
}

/// The row of an image of the tree under `root`.
pub open spec fn image_row(img: ImageView, root: Seq<char>) -> ImageRowView {
    ImageRowView { id: img.id, path: img.path, relative_parent_path: relative_parent(img.path, root) }
}

/// The rows of a list of tracks, in order.
pub open spec fn track_rows(tracks: Seq<TrackView>, root: Seq<char>) -> Seq<TrackRowView> {
    Seq::new(tracks.len(), |i: int| track_row(tracks[i], root))
}

/// The rows of a list of images, in order.
pub open spec fn image_rows(images: Seq<ImageView>, root: Seq<char>) -> Seq<ImageRowView> {
    Seq::new(images.len(), |i: int| image_row(images[i], root))
}

impl TrackRow {
    /// The row of `t`, a track of the tree under `root`.
    pub fn from_track(t: &Track, root: &str) -> (out: TrackRow)
        ensures
            out@ == track_row(t@, root@),
    {
        TrackRow {
            id: t.id.clone(),
            path: t.path.clone(),
            relative_parent_path: get_relative_parent_path(t.path.as_str(), root),
            tag_format: clone_text(&t.tag_format),
            title: clone_text(&t.title),
            artist: clone_text(&t.artist),
            album: clone_text(&t.album),
            album_artist: clone_text(&t.album_artist),
            disc: t.disc,
            track: t.track,
            duration: t.duration,
        }
    }
}

impl ImageRow {
    /// The row of `img`, an image of the tree under `root`.
    pub fn from_image(img: &Image, root: &str) -> (out: ImageRow)
        ensures
            out@ == image_row(img@, root@),
    {
        ImageRow {
            id: img.id.clone(),
            path: img.path.clone(),
            relative_parent_path: get_relative_parent_path(img.path.as_str(), root),
        }
    }
}

impl Media {
    /// The rows of all tracks of the snapshot, one for each.
    pub fn track_rows(&self, root: &str) -> (out: Vec<TrackRow>)
        ensures
            views(out@) == track_rows(self@.tracks, root@),
    {
        let mut out: Vec<TrackRow> = Vec::new();
        let mut i: usize = 0;
        while i < self.tracks.len()
            invariant
                i <= self.tracks@.len(),
                out@.len() == i,
                forall|j: int| 0 <= j < i ==> out@[j]@ == track_row(self.tracks@[j]@, root@),
            decreases self.tracks@.len() - i,
        {
            out.push(TrackRow::from_track(&self.tracks[i], root));
            i = i + 1;
        }
        assert(views(out@) =~= track_rows(self@.tracks, root@));
        out
    }

    /// The rows of all images of the snapshot, one for each.
    pub fn image_rows(&self, root: &str) -> (out: Vec<ImageRow>)
        ensures
            views(out@) == image_rows(self@.images, root@),
    {
        let mut out: Vec<ImageRow> = Vec::new();
        let mut i: usize = 0;
        while i < self.images.len()
            invariant
                i <= self.images@.len(),
                out@.len() == i,
                forall|j: int| 0 <= j < i ==> out@[j]@ == image_row(self.images@[j]@, root@),
            decreases self.images@.len() - i,
        {
            out.push(ImageRow::from_image(&self.images[i], root));
            i = i + 1;
        }
        assert(views(out@) =~= image_rows(self@.images, root@));
        out
    }
}

/// The rows of a well-formed snapshot meet both constraints of the
/// store: no two rows of a kind share an id, and no two share a path.
pub proof fn lemma_rows_meet_constraints(
    m: crate::media::MediaView,
    root: Seq<char>,
    i: int,
    j: int,
)
    requires
        m.well_formed(),
        i != j,
    ensures
        0 <= i < m.tracks.len() && 0 <= j < m.tracks.len() ==> track_rows(m.tracks, root)[i].id
            != track_rows(m.tracks, root)[j].id && track_rows(m.tracks, root)[i].path
            != track_rows(m.tracks, root)[j].path,
        0 <= i < m.images.len() && 0 <= j < m.images.len() ==> image_rows(m.images, root)[i].id
            != image_rows(m.images, root)[j].id && image_rows(m.images, root)[i].path
            != image_rows(m.images, root)[j].path,
{
    crate::snapshot::lemma_paths_are_unique(m, i, j);
    if 0 <= i < m.tracks.len() && 0 <= j < m.tracks.len() {
        assert(crate::catalog::track_keys(m.tracks)[i] != crate::catalog::track_keys(
            m.tracks,
        )[j]);
    }
    if 0 <= i < m.images.len() && 0 <= j < m.images.len() {
        assert(crate::catalog::image_keys(m.images)[i] != crate::catalog::image_keys(
            m.images,
        )[j]);
    }
}

} // verus!
