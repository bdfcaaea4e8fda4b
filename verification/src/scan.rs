//! The first pass of a build: every scanned file becomes a track or an
//! image, and is noted in the bucket of the directory that holds it.

use crate::catalog::directory_keys;
use crate::catalog::find_directory;
use crate::catalog::find_image;
use crate::catalog::find_track;
use crate::catalog::image_keys;
use crate::catalog::track_keys;
use crate::catalog::DirectoryContent;
use crate::catalog::DirectoryView;
use crate::duration::StreamInfo;
use crate::path::classify_path;
use crate::path::get_relative_parent_path;
use crate::path::kind_of_path;
use crate::path::relative_parent;
use crate::path::FileKind;
use crate::text::insert_id;
use crate::text::views;
use crate::text::with_id;
use crate::track::bare_track;
use crate::track::first_tag;
use crate::track::image_at;
use crate::track::tagged_track;
use crate::track::Image;
use crate::track::ImageView;
use crate::track::TagFields;
use crate::track::TagFieldsView;
use crate::track::Track;
use crate::track::TrackView;
use vstd::prelude::*;

verus! {

/// A regular file that the walk of the tree came upon, with what could be
/// read from it. The tags and the stream parameters matter for audio files
/// only.
#[derive(Debug)]
pub struct ScannedFile {
    pub path: String,
    /// The file's ID3v2 tag, where it has one that parses.
    pub id3: Option<TagFields>,
    /// The file's MP4 tag, where it has one that parses.
    pub mp4: Option<TagFields>,
    /// The parameters of its audio stream, where probing succeeded.
    pub stream: Option<StreamInfo>,
}

pub struct FileView {
    pub path: Seq<char>,
    pub id3: Option<TagFieldsView>,
    pub mp4: Option<TagFieldsView>,
    pub stream: Option<StreamInfo>,
}

/// The view of an optional tag.
pub open spec fn fields_of(tag: Option<TagFields>) -> Option<TagFieldsView> {
    match tag {
        Some(t) => Some(t@),
        None => None,
    }
}

impl View for ScannedFile {
    type V = FileView;

    open spec fn view(&self) -> FileView {
        FileView {
            path: self.path@,
            id3: fields_of(self.id3),
            mp4: fields_of(self.mp4),
            stream: self.stream,
        }
    }
}

/// The flat records and the directory buckets that the first pass leaves.
#[derive(Debug)]
pub struct Collected {
    /// All tracks; no two have the same id.
    pub tracks: Vec<Track>,
    /// All images; no two have the same id.
    pub images: Vec<Image>,
    /// The buckets of the directories that hold a track or an image.
    pub directories: Vec<DirectoryContent>,
}

pub struct CollectedView {
    pub tracks: Seq<TrackView>,
    pub images: Seq<ImageView>,
    pub directories: Seq<DirectoryView>,
}

impl View for Collected {
    type V = CollectedView;

    open spec fn view(&self) -> CollectedView {
        CollectedView {
            tracks: views(self.tracks@),
            images: views(self.images@),
            directories: views(self.directories@),
        }
    }
}

/// The track that an audio file becomes: made from its first tag, and a
/// bare record where it has none.
pub open spec fn file_track(f: FileView) -> TrackView {
    match first_tag(f.id3, f.mp4) {
        Some(tag) => tagged_track(f.path, tag, f.stream),
        None => bare_track(f.path),
    }
}

/// `tracks` with `t` in it: in the place of the track that had its id, or
/// at the end.
pub open spec fn with_track(tracks: Seq<TrackView>, t: TrackView) -> Seq<TrackView> {
    match track_keys(tracks).index_of_first(t.id) {
        Some(i) => tracks.update(i, t),
        None => tracks.push(t),
    }
}

/// `images` with `img` in it: in the place of the image that had its id,
/// or at the end.
pub open spec fn with_image(images: Seq<ImageView>, img: ImageView) -> Seq<ImageView> {
    match image_keys(images).index_of_first(img.id) {
        Some(i) => images.update(i, img),
        None => images.push(img),
    }
}

/// The buckets after the track `id` was noted in the directory `dir`.
pub open spec fn with_track_noted(
    directories: Seq<DirectoryView>,
    dir: Seq<char>,
    id: Seq<char>,
) -> Seq<DirectoryView> {
    match directory_keys(directories).index_of_first(dir) {
        Some(i) => directories.update(
            i,
            DirectoryView {
                path: directories[i].path,
                image_ids: directories[i].image_ids,
                track_ids: with_id(directories[i].track_ids, id),
            },
        ),
        None => directories.push(
            DirectoryView { path: dir, image_ids: Seq::empty(), track_ids: seq![id] },
        ),
    }
}

/// The buckets after the image `id` was noted in the directory `dir`.
pub open spec fn with_image_noted(
    directories: Seq<DirectoryView>,
    dir: Seq<char>,
    id: Seq<char>,
) -> Seq<DirectoryView> {
    match directory_keys(directories).index_of_first(dir) {
        Some(i) => directories.update(
            i,
            DirectoryView {
                path: directories[i].path,
                image_ids: with_id(directories[i].image_ids, id),
                track_ids: directories[i].track_ids,
            },
        ),
        None => directories.push(
            DirectoryView { path: dir, image_ids: seq![id], track_ids: Seq::empty() },
        ),
    }
}

/// What one more file adds to what was collected under `root`.
pub open spec fn with_file(root: Seq<char>, c: CollectedView, f: FileView) -> CollectedView {
    match kind_of_path(f.path) {
        FileKind::Audio => CollectedView {
            tracks: with_track(c.tracks, file_track(f)),
            images: c.images,
            directories: with_track_noted(
                c.directories,
                relative_parent(f.path, root),
                file_track(f).id,
            ),
        },
        FileKind::Image => CollectedView {
            tracks: c.tracks,
            images: with_image(c.images, image_at(f.path)),
            directories: with_image_noted(
                c.directories,
                relative_parent(f.path, root),
                image_at(f.path).id,
            ),
        },
        FileKind::Unhandled => c,
    }
}

/// What is collected before any file was met: nothing.
pub open spec fn nothing_collected() -> CollectedView {
    CollectedView { tracks: Seq::empty(), images: Seq::empty(), directories: Seq::empty() }
}

/// What the first pass collects from `files` under `root`, met in this
/// order.
pub open spec fn collected(root: Seq<char>, files: Seq<FileView>) -> CollectedView
    decreases files.len(),
{
    if files.len() == 0 {
        nothing_collected()
    } else {
        with_file(root, collected(root, files.drop_last()), files.last())
    }
}

/// Puts a track among the tracks, in the place of the one with its id if
/// there is one.
pub fn put_track(tracks: &mut Vec<Track>, t: Track)
    ensures
        views(final(tracks)@) == with_track(views(old(tracks)@), t@),
{
    match find_track(tracks, &t.id) {
        Some(i) => {
            tracks[i] = t;
            assert(views(tracks@) =~= views(old(tracks)@).update(i as int, t@));
        },
        None => {
            tracks.push(t);
            assert(views(tracks@) =~= views(old(tracks)@).push(t@));
        },
    }
}

/// Puts an image among the images, in the place of the one with its id if
/// there is one.
pub fn put_image(images: &mut Vec<Image>, img: Image)
    ensures
        views(final(images)@) == with_image(views(old(images)@), img@),
{
    match find_image(images, &img.id) {
        Some(i) => {
            images[i] = img;
            assert(views(images@) =~= views(old(images)@).update(i as int, img@));
        },
        None => {
            images.push(img);
            assert(views(images@) =~= views(old(images)@).push(img@));
        },
    }
}

/// Notes the track `id` in the bucket of the directory `dir`, which is
/// made if it is not there.
pub fn note_track(directories: &mut Vec<DirectoryContent>, dir: String, id: String)
    ensures
        views(final(directories)@) == with_track_noted(views(old(directories)@), dir@, id@),
{
    match find_directory(directories, &dir) {
        Some(i) => {
            insert_id(&mut directories[i].track_ids, id);
            assert(views(directories@) =~= with_track_noted(
                views(old(directories)@),
                dir@,
                id@,
            ));
        },
        None => {
            let mut track_ids: Vec<String> = Vec::new();
            track_ids.push(id);
            let bucket = DirectoryContent { path: dir, image_ids: Vec::new(), track_ids };
            assert(bucket@.track_ids =~= seq![id@]);
            assert(bucket@.image_ids =~= Seq::empty());
            directories.push(bucket);
            assert(views(directories@) =~= views(old(directories)@).push(bucket@));
        },
    }
}

/// Notes the image `id` in the bucket of the directory `dir`, which is
/// made if it is not there.
pub fn note_image(directories: &mut Vec<DirectoryContent>, dir: String, id: String)
    ensures
        views(final(directories)@) == with_image_noted(views(old(directories)@), dir@, id@),
{
    match find_directory(directories, &dir) {
        Some(i) => {
            insert_id(&mut directories[i].image_ids, id);
            assert(views(directories@) =~= with_image_noted(
                views(old(directories)@),
                dir@,
                id@,
            ));
        },
        None => {
            let mut image_ids: Vec<String> = Vec::new();
            image_ids.push(id);
            let bucket = DirectoryContent { path: dir, image_ids, track_ids: Vec::new() };
            assert(bucket@.image_ids =~= seq![id@]);
            assert(bucket@.track_ids =~= Seq::empty());
            directories.push(bucket);
            assert(views(directories@) =~= views(old(directories)@).push(bucket@));
        },
    }
}

fn tag_ref(tag: &Option<TagFields>) -> (out: Option<&TagFields>)
    ensures
        crate::track::tag_view(out) == fields_of(*tag),
{
    match tag {
        Some(t) => Some(t),
        None => None,
    }
}

fn stream_ref(stream: &Option<StreamInfo>) -> (out: Option<&StreamInfo>)
    ensures
        crate::track::stream_of(out) == *stream,
{
    match stream {
        Some(s) => Some(s),
        None => None,
    }
}

impl Collected {
    /// Nothing collected yet.
    pub fn new() -> (out: Collected)
        ensures
            out@ == nothing_collected(),
    {
        let out = Collected { tracks: Vec::new(), images: Vec::new(), directories: Vec::new() };
        assert(out@.tracks =~= Seq::empty());
        assert(out@.images =~= Seq::empty());
        assert(out@.directories =~= Seq::empty());
        out
    }

    /// Adds one file found under `root`: an audio file becomes a track, an
    /// image file an image, and either is noted in the bucket of its
    /// directory; any other file changes nothing.
    pub fn add(&mut self, root: &str, file: &ScannedFile)
        ensures
            final(self)@ == with_file(root@, old(self)@, file@),
    {
        let path = file.path.as_str();
        match classify_path(path) {
            FileKind::Audio => {
                let track = match Track::try_from_path(
                    path,
                    tag_ref(&file.id3),
                    tag_ref(&file.mp4),
                    stream_ref(&file.stream),
                ) {
                    Ok(t) => t,
                    Err(p) => Track::without_tags(p),
                };
                assert(track@ == file_track(file@));
                let dir = get_relative_parent_path(path, root);
                note_track(&mut self.directories, dir, track.id.clone());
                put_track(&mut self.tracks, track);
            },
            FileKind::Image => {
                let image = Image::from_path(path);
                let dir = get_relative_parent_path(path, root);
                note_image(&mut self.directories, dir, image.id.clone());
                put_image(&mut self.images, image);
            },
            FileKind::Unhandled => {},
        }
    }

    /// The first pass over all the files found under `root`.
    pub fn from_files(root: &str, files: &Vec<ScannedFile>) -> (out: Collected)
        ensures
            out@ == collected(root@, views(files@)),
    {
        let mut out = Collected::new();
        let mut i: usize = 0;
        while i < files.len()
            invariant
                i <= files@.len(),
                out@ == collected(root@, views(files@).take(i as int)),
            decreases files@.len() - i,
        {
            out.add(root, &files[i]);
            proof {
                let next = views(files@).take(i + 1);
                assert(next.drop_last() =~= views(files@).take(i as int));
                assert(next.last() == files@[i as int]@);
            }
            i = i + 1;
        }
        assert(views(files@).take(files@.len() as int) =~= views(files@));
        out
    }
}

} // verus!
