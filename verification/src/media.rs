//! The second pass of a build, and the snapshot it ends in: every track
//! with an artist tag is filed under that artist, in an album where it has
//! an album tag.

use crate::catalog::album_keys;
use crate::catalog::artist_keys;
use crate::catalog::directory_keys;
use crate::catalog::find_album;
use crate::catalog::find_artist;
use crate::catalog::find_directory;
use crate::catalog::Album;
use crate::catalog::AlbumView;
use crate::catalog::Artist;
use crate::catalog::ArtistView;
use crate::catalog::DirectoryContent;
use crate::catalog::DirectoryView;
use crate::path::relative_parent;
use crate::scan::collected;
use crate::scan::Collected;
use crate::scan::CollectedView;
use crate::scan::FileView;
use crate::scan::ScannedFile;
use crate::text::clone_text;
use crate::text::clone_texts;
use crate::text::text_of;
use crate::text::texts_of;
use crate::text::views;
use crate::track::Image;
use crate::track::ImageView;
use crate::track::Track;
use crate::track::TrackView;
use vstd::prelude::*;

verus! {

/// The catalog of one build.
#[derive(Debug)]
pub struct Media {
    /// All tracks; no two have the same id.
    pub tracks: Vec<Track>,
    /// All images; no two have the same id.
    pub images: Vec<Image>,
    /// The artists, each with its albums; no two have the same name.
    pub artists: Vec<Artist>,
}

pub struct MediaView {
    pub tracks: Seq<TrackView>,
    pub images: Seq<ImageView>,
    pub artists: Seq<ArtistView>,
}

impl View for Media {
    type V = MediaView;

    open spec fn view(&self) -> MediaView {
        MediaView {
            tracks: views(self.tracks@),
            images: views(self.images@),
            artists: views(self.artists@),
        }
    }
}

/// The images noted in the bucket of the directory `dir`; none where the
/// directory has no bucket.
pub open spec fn bucket_images(directories: Seq<DirectoryView>, dir: Seq<char>) -> Seq<
    Seq<char>,
> {
    match directory_keys(directories).index_of_first(dir) {
        Some(i) => directories[i].image_ids,
        None => Seq::empty(),
    }
}

/// The images that lie in the same directory as the file at `path`.
pub open spec fn nearby_images(
    root: Seq<char>,
    directories: Seq<DirectoryView>,
    path: Seq<char>,
) -> Seq<Seq<char>> {
    bucket_images(directories, relative_parent(path, root))
}

/// Whether a track is filed directly under its artist: it has an artist
/// tag and no album tag.
pub open spec fn is_loose(t: TrackView) -> bool {
    t.artist.is_some() && t.album.is_none()
}

/// A track as the second pass leaves it: a track filed directly under its
/// artist carries the images of its directory; any other is unchanged.
pub open spec fn linked_track(
    root: Seq<char>,
    directories: Seq<DirectoryView>,
    t: TrackView,
) -> TrackView {
    if is_loose(t) {
        TrackView {
            id: t.id,
            path: t.path,
            tag_format: t.tag_format,
            title: t.title,
            artist: t.artist,
            album: t.album,
            album_artist: t.album_artist,
            disc: t.disc,
            track: t.track,
            duration: t.duration,
            image_ids: nearby_images(root, directories, t.path),
        }
    } else {
        t
    }
}

/// All tracks as the second pass leaves them.
pub open spec fn linked_tracks(
    root: Seq<char>,
    directories: Seq<DirectoryView>,
    tracks: Seq<TrackView>,
) -> Seq<TrackView> {
    Seq::new(tracks.len(), |i: int| linked_track(root, directories, tracks[i]))
}

impl AlbumView {
    /// The album with one more track at its end.
    pub open spec fn with_track(self, id: Seq<char>) -> AlbumView {
        AlbumView {
            name: self.name,
            track_ids: self.track_ids.push(id),
            image_ids: self.image_ids,
        }
    }
}

/// `albums` after the track `id` was filed in the album `name`. An album
/// seen for the first time is made with `images`; one that exists keeps
/// the images it was made with.
pub open spec fn with_album_track(
    albums: Seq<AlbumView>,
    name: Seq<char>,
    id: Seq<char>,
    images: Seq<Seq<char>>,
) -> Seq<AlbumView> {
    match album_keys(albums).index_of_first(name) {
        Some(i) => albums.update(i, albums[i].with_track(id)),
        None => albums.push(AlbumView { name, track_ids: seq![id], image_ids: images }),
    }
}

impl ArtistView {
    /// The artist after the track `id` was filed under it: in the album
    /// `album` where the track names one, else among its loose tracks.
    pub open spec fn with_track(
        self,
        album: Option<Seq<char>>,
        id: Seq<char>,
        images: Seq<Seq<char>>,
    ) -> ArtistView {
        match album {
            Some(name) => ArtistView {
                name: self.name,
                albums: with_album_track(self.albums, name, id, images),
                track_ids: self.track_ids,
            },
            None => ArtistView {
                name: self.name,
                albums: self.albums,
                track_ids: self.track_ids.push(id),
            },
        }
    }
}

/// An artist under which nothing is filed yet.
pub open spec fn new_artist(name: Seq<char>) -> ArtistView {
    ArtistView { name, albums: Seq::empty(), track_ids: Seq::empty() }
}

/// `artists` after the track `id` was filed under the artist `name`, who
/// is made on first sight.
pub open spec fn with_artist_track(
    artists: Seq<ArtistView>,
    name: Seq<char>,
    album: Option<Seq<char>>,
    id: Seq<char>,
    images: Seq<Seq<char>>,
) -> Seq<ArtistView> {
    match artist_keys(artists).index_of_first(name) {
        Some(i) => artists.update(i, artists[i].with_track(album, id, images)),
        None => artists.push(new_artist(name).with_track(album, id, images)),
    }
}

/// `artists` after the track `t` was linked: filed under its artist where
/// it has an artist tag, and left out where it has none.
pub open spec fn with_linked(
    root: Seq<char>,
    directories: Seq<DirectoryView>,
    artists: Seq<ArtistView>,
    t: TrackView,
) -> Seq<ArtistView> {
    match t.artist {
        Some(name) => with_artist_track(
            artists,
            name,
            t.album,
            t.id,
            nearby_images(root, directories, t.path),
        ),
        None => artists,
    }
}

/// The artists that linking `tracks`, one after the other, gives.
pub open spec fn hierarchy(
    root: Seq<char>,
    directories: Seq<DirectoryView>,
    tracks: Seq<TrackView>,
) -> Seq<ArtistView>
    decreases tracks.len(),
{
    if tracks.len() == 0 {
        Seq::empty()
    } else {
        with_linked(
            root,
            directories,
            hierarchy(root, directories, tracks.drop_last()),
            tracks.last(),
        )
    }
}

/// The snapshot that the second pass makes of what the first collected.
pub open spec fn linked(root: Seq<char>, c: CollectedView) -> MediaView {
    MediaView {
        tracks: linked_tracks(root, c.directories, c.tracks),
        images: c.images,
        artists: hierarchy(root, c.directories, c.tracks),
    }
}

/// The snapshot of the files found under `root`.
pub open spec fn built(root: Seq<char>, files: Seq<FileView>) -> MediaView {
    linked(root, collected(root, files))
}

impl Album {
    /// Adds a track at the end of the album.
    pub fn add_track(&mut self, id: String)
        ensures
            final(self)@ == old(self)@.with_track(id@),
    {
        self.track_ids.push(id);
        assert(texts_of(self.track_ids@) =~= texts_of(old(self).track_ids@).push(id@));
    }
}

/// Files the track `id` in the album `name`, which is made with `images`
/// if it is not there.
pub fn put_album_track(albums: &mut Vec<Album>, name: &String, id: String, images: Vec<String>)
    ensures
        views(final(albums)@) == with_album_track(
            views(old(albums)@),
            name@,
            id@,
            texts_of(images@),
        ),
{
    match find_album(albums, name) {
        Some(i) => {
            albums[i].add_track(id);
            assert(views(albums@) =~= views(old(albums)@).update(
                i as int,
                old(albums)@[i as int]@.with_track(id@),
            ));
        },
        None => {
            let mut track_ids: Vec<String> = Vec::new();
            track_ids.push(id);
            let album = Album { name: name.clone(), track_ids, image_ids: images };
            assert(album@.track_ids =~= seq![id@]);
            albums.push(album);
            assert(views(albums@) =~= views(old(albums)@).push(album@));
        },
    }
}

/// The view of a track that may be absent.
pub open spec fn track_view(t: Option<&Track>) -> Option<TrackView> {
    match t {
        Some(found) => Some(found@),
        None => None,
    }
}

/// The view of an image that may be absent.
pub open spec fn image_view(img: Option<&Image>) -> Option<ImageView> {
    match img {
        Some(found) => Some(found@),
        None => None,
    }
}

/// The view of an artist who may be absent.
pub open spec fn artist_view(artist: Option<&Artist>) -> Option<ArtistView> {
    match artist {
        Some(found) => Some(found@),
        None => None,
    }
}

/// The view of an album that may be absent.
pub open spec fn album_view(album: Option<&Album>) -> Option<AlbumView> {
    match album {
        Some(found) => Some(found@),
        None => None,
    }
}

impl Artist {
    /// The album named `name`.
    pub fn album(&self, name: &String) -> (out: Option<&Album>)
        ensures
            album_view(out) == crate::lookup::album_at(self@.albums, name@),
    {
        match find_album(&self.albums, name) {
            Some(i) => Some(&self.albums[i]),
            None => None,
        }
    }

    /// An artist under which nothing is filed yet.
    pub fn new(name: String) -> (out: Artist)
        ensures
            out@ == new_artist(name@),
    {
        let out = Artist { name, albums: Vec::new(), track_ids: Vec::new() };
        assert(out@.albums =~= Seq::empty());
        assert(out@.track_ids =~= Seq::empty());
        out
    }

    /// Files the track `id` under the artist: in the album `album` where
    /// the track names one, else among the artist's loose tracks.
    pub fn add_track(&mut self, album: &Option<String>, id: String, images: Vec<String>)
        ensures
            final(self)@ == old(self)@.with_track(text_of(*album), id@, texts_of(images@)),
    {
        match album {
            Some(name) => {
                put_album_track(&mut self.albums, name, id, images);
            },
            None => {
                self.track_ids.push(id);
                assert(texts_of(self.track_ids@) =~= texts_of(old(self).track_ids@).push(id@));
            },
        }
    }
}

/// Files the track `id` under the artist `name`, who is made on first
/// sight.
pub fn put_artist_track(
    artists: &mut Vec<Artist>,
    name: &String,
    album: &Option<String>,
    id: String,
    images: Vec<String>,
)
    ensures
        views(final(artists)@) == with_artist_track(
            views(old(artists)@),
            name@,
            text_of(*album),
            id@,
            texts_of(images@),
        ),
{
    match find_artist(artists, name) {
        Some(i) => {
            artists[i].add_track(album, id, images);
            assert(views(artists@) =~= views(old(artists)@).update(
                i as int,
                old(artists)@[i as int]@.with_track(text_of(*album), id@, texts_of(images@)),
            ));
        },
        None => {
            let mut artist = Artist::new(name.clone());
            artist.add_track(album, id, images);
            artists.push(artist);
            assert(views(artists@) =~= views(old(artists)@).push(artist@));
        },
    }
}

/// The ids of the images in the bucket of the directory `dir`.
pub fn images_in(directories: &Vec<DirectoryContent>, dir: &String) -> (out: Vec<String>)
    ensures
        texts_of(out@) == bucket_images(views(directories@), dir@),
{
    match find_directory(directories, dir) {
        Some(i) => clone_texts(&directories[i].image_ids),
        None => {
            let out: Vec<String> = Vec::new();
            assert(texts_of(out@) =~= Seq::empty());
            out
        },
    }
}

impl Media {
    /// The directory that holds `path`, relative to `root`.
    pub fn get_relative_parent_path(path: &str, root: &str) -> (out: String)
        ensures
            out@ == relative_parent(path@, root@),
    {
        crate::path::get_relative_parent_path(path, root)
    }

    /// The second pass: links every collected track into the hierarchy of
    /// artists and albums. It begins when the first pass has ended.
    pub fn from_collected(root: &str, c: Collected) -> (out: Media)
        ensures
            out@ == linked(root@, c@),
    {
        let Collected { tracks, images, directories } = c;
        let mut tracks = tracks;
        let ghost before = views(tracks@);
        let ghost buckets = views(directories@);
        let mut artists: Vec<Artist> = Vec::new();
        assert(views(artists@) =~= hierarchy(root@, buckets, before.take(0)));
        let n: usize = tracks.len();
        let mut i: usize = 0;
        while i < n
            invariant
                i <= n,
                n == tracks@.len(),
                n == before.len(),
                buckets == views(directories@),
                forall|j: int| 0 <= j < i ==> tracks@[j]@ == linked_track(root@, buckets, before[j]),
                forall|j: int| i <= j < n ==> tracks@[j]@ == before[j],
                views(artists@) == hierarchy(root@, buckets, before.take(i as int)),
            decreases n - i,
        {
            let dir = crate::path::get_relative_parent_path(tracks[i].path.as_str(), root);
            let nearby = images_in(&directories, &dir);
            let artist = clone_text(&tracks[i].artist);
            let album = clone_text(&tracks[i].album);
            let id = tracks[i].id.clone();
            proof {
                let next = before.take(i + 1);
                assert(next.drop_last() =~= before.take(i as int));
                assert(next.last() == before[i as int]);
            }
            match artist {
                Some(name) => {
                    if album.is_none() {
                        tracks[i].image_ids = clone_texts(&nearby);
                    }
                    put_artist_track(&mut artists, &name, &album, id, nearby);
                },
                None => {},
            }
            i = i + 1;
        }
        assert(before.take(n as int) =~= before);
        assert(views(tracks@) =~= linked_tracks(root@, buckets, before));
        Media { tracks, images, artists }
    }

    /// Builds the catalog of the files found under `root`: the first pass
    /// over all of them, then the second.
    pub fn from_directory(root: String, files: Vec<ScannedFile>) -> (out: Media)
        ensures
            out@ == built(root@, views(files@)),
            out@.well_formed(),
    {
        let c = Collected::from_files(root.as_str(), &files);
        proof {
            crate::snapshot::lemma_built_well_formed(root@, views(files@));
        }
        Media::from_collected(root.as_str(), c)
    }

    /// The track with the id `id`.
    pub fn track(&self, id: &String) -> (out: Option<&Track>)
        ensures
            track_view(out) == crate::lookup::track_at(self@.tracks, id@),
    {
        match crate::catalog::find_track(&self.tracks, id) {
            Some(i) => Some(&self.tracks[i]),
            None => None,
        }
    }

    /// The image with the id `id`.
    pub fn image(&self, id: &String) -> (out: Option<&Image>)
        ensures
            image_view(out) == crate::lookup::image_by_id(self@.images, id@),
    {
        match crate::catalog::find_image(&self.images, id) {
            Some(i) => Some(&self.images[i]),
            None => None,
        }
    }

    /// The artist named `name`.
    pub fn artist(&self, name: &String) -> (out: Option<&Artist>)
        ensures
            artist_view(out) == crate::lookup::artist_at(self@.artists, name@),
    {
        match find_artist(&self.artists, name) {
            Some(i) => Some(&self.artists[i]),
            None => None,
        }
    }
}

} // verus!
