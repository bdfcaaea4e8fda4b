//! The entities of the catalog besides tracks and images: albums, artists
//! and the per-directory buckets, each kept in a list that holds no key
//! twice.

use crate::text::lemma_first_index;
use crate::text::texts_of;
use crate::text::views;
use crate::track::Image;
use crate::track::ImageView;
use crate::track::Track;
use crate::track::TrackView;
use vstd::prelude::*;

verus! {

/// An album of one artist.
#[derive(Debug)]
pub struct Album {
    pub name: String,
    /// The album's tracks, in the order in which they were linked.
    pub track_ids: Vec<String>,
    /// The images of the directory of the album's first track.
    pub image_ids: Vec<String>,
}

pub struct AlbumView {
    pub name: Seq<char>,
    pub track_ids: Seq<Seq<char>>,
    pub image_ids: Seq<Seq<char>>,
}

impl View for Album {
    type V = AlbumView;

    open spec fn view(&self) -> AlbumView {
        AlbumView {
            name: self.name@,
            track_ids: texts_of(self.track_ids@),
            image_ids: texts_of(self.image_ids@),
        }
    }
}

/// An artist, with the albums and the album-less tracks filed under it.
#[derive(Debug)]
pub struct Artist {
    pub name: String,
    /// The artist's albums; no two have the same name.
    pub albums: Vec<Album>,
    /// The artist's tracks that have no album tag.
    pub track_ids: Vec<String>,
}

pub struct ArtistView {
    pub name: Seq<char>,
    pub albums: Seq<AlbumView>,
    pub track_ids: Seq<Seq<char>>,
}

impl View for Artist {
    type V = ArtistView;

    open spec fn view(&self) -> ArtistView {
        ArtistView {
            name: self.name@,
            albums: views(self.albums@),
            track_ids: texts_of(self.track_ids@),
        }
    }
}

/// What was found directly inside one directory.
#[derive(Debug)]
pub struct DirectoryContent {
    /// The directory, relative to the scanned root.
    pub path: String,
    pub image_ids: Vec<String>,
    pub track_ids: Vec<String>,
}

pub struct DirectoryView {
    pub path: Seq<char>,
    pub image_ids: Seq<Seq<char>>,
    pub track_ids: Seq<Seq<char>>,
}

impl View for DirectoryContent {
    type V = DirectoryView;

    open spec fn view(&self) -> DirectoryView {
        DirectoryView {
            path: self.path@,
            image_ids: texts_of(self.image_ids@),
            track_ids: texts_of(self.track_ids@),
        }
    }
}

/// The ids of a list of tracks, in order.
pub open spec fn track_keys(tracks: Seq<TrackView>) -> Seq<Seq<char>> {
    Seq::new(tracks.len(), |i: int| tracks[i].id)
}

/// The ids of a list of images, in order.
pub open spec fn image_keys(images: Seq<ImageView>) -> Seq<Seq<char>> {
    Seq::new(images.len(), |i: int| images[i].id)
}

/// The names of a list of albums, in order.
pub open spec fn album_keys(albums: Seq<AlbumView>) -> Seq<Seq<char>> {
    Seq::new(albums.len(), |i: int| albums[i].name)
}

/// The names of a list of artists, in order.
pub open spec fn artist_keys(artists: Seq<ArtistView>) -> Seq<Seq<char>> {
    Seq::new(artists.len(), |i: int| artists[i].name)
}

/// The paths of a list of directory buckets, in order.
pub open spec fn directory_keys(directories: Seq<DirectoryView>) -> Seq<Seq<char>> {
    Seq::new(directories.len(), |i: int| directories[i].path)
}

/// The result of looking a key up: the place as a machine integer.
pub open spec fn place(found: Option<usize>) -> Option<int> {
    match found {
        Some(i) => Some(i as int),
        None => None,
    }
}

/// Where the track with id `id` stands in `tracks`.
pub fn find_track(tracks: &Vec<Track>, id: &String) -> (found: Option<usize>)
    ensures
        place(found) == track_keys(views(tracks@)).index_of_first(id@),
        found matches Some(i) ==> i < tracks@.len() && tracks@[i as int]@.id == id@,
{
    let ghost keys = track_keys(views(tracks@));
    let mut i: usize = 0;
    while i < tracks.len()
        invariant
            i <= tracks@.len(),
            keys == track_keys(views(tracks@)),
            forall|j: int| 0 <= j < i ==> keys[j] != id@,
        decreases tracks@.len() - i,
    {
        if tracks[i].id == *id {
            proof {
                lemma_first_index(keys, id@, i as int);
            }
            return Some(i);
        }
        i = i + 1;
    }
    proof {
        lemma_first_index(keys, id@, i as int);
    }
    None
}

/// Where the image with id `id` stands in `images`.
pub fn find_image(images: &Vec<Image>, id: &String) -> (found: Option<usize>)
    ensures
        place(found) == image_keys(views(images@)).index_of_first(id@),
        found matches Some(i) ==> i < images@.len() && images@[i as int]@.id == id@,
{
    let ghost keys = image_keys(views(images@));
    let mut i: usize = 0;
    while i < images.len()
        invariant
            i <= images@.len(),
            keys == image_keys(views(images@)),
            forall|j: int| 0 <= j < i ==> keys[j] != id@,
        decreases images@.len() - i,
    {
        if images[i].id == *id {
            proof {
                lemma_first_index(keys, id@, i as int);
            }
            return Some(i);
        }
        i = i + 1;
    }
    proof {
        lemma_first_index(keys, id@, i as int);
    }
    None
}

/// Where the album named `name` stands in `albums`.
pub fn find_album(albums: &Vec<Album>, name: &String) -> (found: Option<usize>)
    ensures
        place(found) == album_keys(views(albums@)).index_of_first(name@),
        found matches Some(i) ==> i < albums@.len() && albums@[i as int]@.name == name@,
{
    let ghost keys = album_keys(views(albums@));
    let mut i: usize = 0;
    while i < albums.len()
        invariant
            i <= albums@.len(),
            keys == album_keys(views(albums@)),
            forall|j: int| 0 <= j < i ==> keys[j] != name@,
        decreases albums@.len() - i,
    {
        if albums[i].name == *name {
            proof {
                lemma_first_index(keys, name@, i as int);
            }
            return Some(i);
        }
        i = i + 1;
    }
    proof {
        lemma_first_index(keys, name@, i as int);
    }
    None
}

/// Where the artist named `name` stands in `artists`.
pub fn find_artist(artists: &Vec<Artist>, name: &String) -> (found: Option<usize>)
    ensures
        place(found) == artist_keys(views(artists@)).index_of_first(name@),
        found matches Some(i) ==> i < artists@.len() && artists@[i as int]@.name == name@,
{
    let ghost keys = artist_keys(views(artists@));
    let mut i: usize = 0;
    while i < artists.len()
        invariant
            i <= artists@.len(),
            keys == artist_keys(views(artists@)),
            forall|j: int| 0 <= j < i ==> keys[j] != name@,
        decreases artists@.len() - i,
    {
        if artists[i].name == *name {
            proof {
                lemma_first_index(keys, name@, i as int);
            }
            return Some(i);
        }
        i = i + 1;
    }
    proof {
        lemma_first_index(keys, name@, i as int);
    }
    None
}

/// Where the bucket of the directory `path` stands in `directories`.
pub fn find_directory(directories: &Vec<DirectoryContent>, path: &String) -> (found: Option<
    usize,
>)
    ensures
        place(found) == directory_keys(views(directories@)).index_of_first(path@),
        found matches Some(i) ==> i < directories@.len() && directories@[i as int]@.path
            == path@,
{
    let ghost keys = directory_keys(views(directories@));
    let mut i: usize = 0;
    while i < directories.len()
        invariant
            i <= directories@.len(),
            keys == directory_keys(views(directories@)),
            forall|j: int| 0 <= j < i ==> keys[j] != path@,
        decreases directories@.len() - i,
    {
        if directories[i].path == *path {
            proof {
                lemma_first_index(keys, path@, i as int);
            }
            return Some(i);
        }
        i = i + 1;
    }
    proof {
        lemma_first_index(keys, path@, i as int);
    }
    None
}

} // verus!
