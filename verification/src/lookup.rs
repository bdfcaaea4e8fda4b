//! Looking records up by their key, and what putting a record into a list
//! does to every lookup.

use crate::catalog::album_keys;
use crate::catalog::artist_keys;
use crate::catalog::directory_keys;
use crate::catalog::image_keys;
use crate::catalog::track_keys;
use crate::catalog::AlbumView;
use crate::catalog::ArtistView;
use crate::catalog::DirectoryView;
use crate::media::bucket_images;
use crate::media::with_album_track;
use crate::media::with_artist_track;
use crate::scan::with_image;
use crate::scan::with_image_noted;
use crate::scan::with_track;
use crate::scan::with_track_noted;
use crate::text::lemma_first_index;
use crate::text::with_id;
use crate::track::ImageView;
use crate::track::TrackView;
use vstd::prelude::*;

verus! {

/// The first place of `other` in a list of keys that got `key` at its end.
pub proof fn lemma_first_after_push(keys: Seq<Seq<char>>, key: Seq<char>, other: Seq<char>)
    ensures
        keys.push(key).index_of_first(other) == (if keys.contains(other) {
            keys.index_of_first(other)
        } else if other == key {
            Some(keys.len() as int)
        } else {
            None
        }),
        keys.push(key).contains(other) <==> keys.contains(other) || other == key,
{
    let longer = keys.push(key);
    keys.index_of_first_ensures(other);
    if keys.contains(other) {
        let i = keys.index_of_first(other).unwrap();
        assert(longer[i] == other);
        assert forall|j: int| 0 <= j < i implies longer[j] != other by {
            assert(keys[j] != other);
        }
        lemma_first_index(longer, other, i);
    } else {
        assert forall|j: int| 0 <= j < keys.len() implies longer[j] != other by {
            if keys[j] == other {
                assert(keys.contains(other));
            }
        }
        if other == key {
            assert(longer[keys.len() as int] == other);
            lemma_first_index(longer, other, keys.len() as int);
        } else {
            lemma_first_index(longer, other, longer.len() as int);
            longer.index_of_first_ensures(other);
        }
    }
}

/// A key that has a first place is in the list, and the other way round.
pub proof fn lemma_first_is_some(keys: Seq<Seq<char>>, key: Seq<char>)
    ensures
        keys.index_of_first(key).is_some() <==> keys.contains(key),
        keys.index_of_first(key) matches Some(i) ==> 0 <= i < keys.len() && keys[i] == key,
{
    keys.index_of_first_ensures(key);
}

/// A list of keys stays free of repetitions when a key it lacks is added.
pub proof fn lemma_push_distinct(keys: Seq<Seq<char>>, key: Seq<char>)
    requires
        keys.no_duplicates(),
        !keys.contains(key),
    ensures
        keys.push(key).no_duplicates(),
{
    let longer = keys.push(key);
    assert forall|i: int, j: int| 0 <= i < longer.len() && 0 <= j < longer.len() && i != j implies longer[i]
        != longer[j] by {
        if i < keys.len() && j < keys.len() {
        } else if i < keys.len() {
            if keys[i] == key {
                assert(keys.contains(key));
            }
        } else {
            if keys[j] == key {
                assert(keys.contains(key));
            }
        }
    }
}

/// The track with id `id`, where `tracks` has one.
pub open spec fn track_at(tracks: Seq<TrackView>, id: Seq<char>) -> Option<TrackView> {
    match track_keys(tracks).index_of_first(id) {
        Some(i) => Some(tracks[i]),
        None => None,
    }
}

/// The image with id `id`, where `images` has one.
pub open spec fn image_by_id(images: Seq<ImageView>, id: Seq<char>) -> Option<ImageView> {
    match image_keys(images).index_of_first(id) {
        Some(i) => Some(images[i]),
        None => None,
    }
}

/// The tracks noted in the bucket of the directory `dir`; none where the
/// directory has no bucket.
pub open spec fn bucket_tracks(directories: Seq<DirectoryView>, dir: Seq<char>) -> Seq<
    Seq<char>,
> {
    match directory_keys(directories).index_of_first(dir) {
        Some(i) => directories[i].track_ids,
        None => Seq::empty(),
    }
}

/// The album named `name`, where `albums` has one.
pub open spec fn album_at(albums: Seq<AlbumView>, name: Seq<char>) -> Option<AlbumView> {
    match album_keys(albums).index_of_first(name) {
        Some(i) => Some(albums[i]),
        None => None,
    }
}

/// The artist named `name`, where `artists` has one.
pub open spec fn artist_at(artists: Seq<ArtistView>, name: Seq<char>) -> Option<ArtistView> {
    match artist_keys(artists).index_of_first(name) {
        Some(i) => Some(artists[i]),
        None => None,
    }
}

/// Putting a track changes the lookup of its id, and of no other; the ids
/// stay distinct.
pub proof fn lemma_with_track(tracks: Seq<TrackView>, t: TrackView, id: Seq<char>)
    ensures
        track_at(with_track(tracks, t), id) == (if id == t.id {
            Some(t)
        } else {
            track_at(tracks, id)
        }),
        track_keys(tracks).no_duplicates() ==> track_keys(with_track(tracks, t)).no_duplicates(),
{
    let keys = track_keys(tracks);
    lemma_first_is_some(keys, t.id);
    lemma_first_is_some(keys, id);
    match keys.index_of_first(t.id) {
        Some(i) => {
            assert(track_keys(tracks.update(i, t)) =~= keys);
        },
        None => {
            assert(track_keys(tracks.push(t)) =~= keys.push(t.id));
            lemma_first_after_push(keys, t.id, id);
            if keys.no_duplicates() {
                lemma_push_distinct(keys, t.id);
            }
        },
    }
}

/// Putting an image changes the lookup of its id, and of no other; the
/// ids stay distinct.
pub proof fn lemma_with_image(images: Seq<ImageView>, img: ImageView, id: Seq<char>)
    ensures
        image_by_id(with_image(images, img), id) == (if id == img.id {
            Some(img)
        } else {
            image_by_id(images, id)
        }),
        image_keys(images).no_duplicates() ==> image_keys(
            with_image(images, img),
        ).no_duplicates(),
{
    let keys = image_keys(images);
    lemma_first_is_some(keys, img.id);
    lemma_first_is_some(keys, id);
    match keys.index_of_first(img.id) {
        Some(i) => {
            assert(image_keys(images.update(i, img)) =~= keys);
        },
        None => {
            assert(image_keys(images.push(img)) =~= keys.push(img.id));
            lemma_first_after_push(keys, img.id, id);
            if keys.no_duplicates() {
                lemma_push_distinct(keys, img.id);
            }
        },
    }
}

/// Noting a track adds its id to the tracks of that one directory, and
/// leaves every bucket's images as they were.
pub proof fn lemma_with_track_noted(
    directories: Seq<DirectoryView>,
    dir: Seq<char>,
    id: Seq<char>,
    other: Seq<char>,
)
    ensures
        bucket_tracks(with_track_noted(directories, dir, id), other) == (if other == dir {
            with_id(bucket_tracks(directories, dir), id)
        } else {
            bucket_tracks(directories, other)
        }),
        bucket_images(with_track_noted(directories, dir, id), other) == bucket_images(
            directories,
            other,
        ),
        directory_keys(directories).no_duplicates() ==> directory_keys(
            with_track_noted(directories, dir, id),
        ).no_duplicates(),
{
    let keys = directory_keys(directories);
    lemma_first_is_some(keys, dir);
    lemma_first_is_some(keys, other);
    let after = with_track_noted(directories, dir, id);
    match keys.index_of_first(dir) {
        Some(i) => {
            assert(directory_keys(after) =~= keys);
        },
        None => {
            assert(directory_keys(after) =~= keys.push(dir));
            lemma_first_after_push(keys, dir, other);
            if keys.no_duplicates() {
                lemma_push_distinct(keys, dir);
            }
            assert(with_id(Seq::<Seq<char>>::empty(), id) =~= seq![id]);
        },
    }
}

/// Noting an image adds its id to the images of that one directory, and
/// leaves every bucket's tracks as they were.
pub proof fn lemma_with_image_noted(
    directories: Seq<DirectoryView>,
    dir: Seq<char>,
    id: Seq<char>,
    other: Seq<char>,
)
    ensures
        bucket_images(with_image_noted(directories, dir, id), other) == (if other == dir {
            with_id(bucket_images(directories, dir), id)
        } else {
            bucket_images(directories, other)
        }),
        bucket_tracks(with_image_noted(directories, dir, id), other) == bucket_tracks(
            directories,
            other,
        ),
        directory_keys(directories).no_duplicates() ==> directory_keys(
            with_image_noted(directories, dir, id),
        ).no_duplicates(),
{
    let keys = directory_keys(directories);
    lemma_first_is_some(keys, dir);
    lemma_first_is_some(keys, other);
    let after = with_image_noted(directories, dir, id);
    match keys.index_of_first(dir) {
        Some(i) => {
            assert(directory_keys(after) =~= keys);
        },
        None => {
            assert(directory_keys(after) =~= keys.push(dir));
            lemma_first_after_push(keys, dir, other);
            if keys.no_duplicates() {
                lemma_push_distinct(keys, dir);
            }
            assert(with_id(Seq::<Seq<char>>::empty(), id) =~= seq![id]);
        },
    }
}

/// The tracks of the album named `name`; none where there is no such
/// album.
pub open spec fn album_tracks(albums: Seq<AlbumView>, name: Seq<char>) -> Seq<Seq<char>> {
    match album_at(albums, name) {
        Some(album) => album.track_ids,
        None => Seq::empty(),
    }
}

/// The images of the album named `name`; none where there is no such
/// album.
pub open spec fn album_images(albums: Seq<AlbumView>, name: Seq<char>) -> Seq<Seq<char>> {
    match album_at(albums, name) {
        Some(album) => album.image_ids,
        None => Seq::empty(),
    }
}

/// The albums of the artist named `name`; none where there is no such
/// artist.
pub open spec fn albums_of(artists: Seq<ArtistView>, name: Seq<char>) -> Seq<AlbumView> {
    match artist_at(artists, name) {
        Some(artist) => artist.albums,
        None => Seq::empty(),
    }
}

/// The tracks filed directly under the artist named `name`; none where
/// there is no such artist.
pub open spec fn loose_tracks(artists: Seq<ArtistView>, name: Seq<char>) -> Seq<Seq<char>> {
    match artist_at(artists, name) {
        Some(artist) => artist.track_ids,
        None => Seq::empty(),
    }
}

/// Filing a track in an album adds its id at the end of that one album.
/// The album's images are those it was made with: `images` if this track
/// is its first, and unchanged otherwise.
pub proof fn lemma_with_album_track(
    albums: Seq<AlbumView>,
    name: Seq<char>,
    id: Seq<char>,
    images: Seq<Seq<char>>,
    other: Seq<char>,
)
    ensures
        album_tracks(with_album_track(albums, name, id, images), other) == (if other == name {
            album_tracks(albums, name).push(id)
        } else {
            album_tracks(albums, other)
        }),
        album_images(with_album_track(albums, name, id, images), other) == (if other == name
            && !album_keys(albums).contains(name) {
            images
        } else {
            album_images(albums, other)
        }),
        album_keys(with_album_track(albums, name, id, images)).contains(other) <==> album_keys(
            albums,
        ).contains(other) || other == name,
        album_keys(albums).no_duplicates() ==> album_keys(
            with_album_track(albums, name, id, images),
        ).no_duplicates(),
{
    let keys = album_keys(albums);
    lemma_first_is_some(keys, name);
    lemma_first_is_some(keys, other);
    let after = with_album_track(albums, name, id, images);
    match keys.index_of_first(name) {
        Some(i) => {
            assert(album_keys(after) =~= keys);
        },
        None => {
            assert(album_keys(after) =~= keys.push(name));
            lemma_first_after_push(keys, name, other);
            if keys.no_duplicates() {
                lemma_push_distinct(keys, name);
            }
            assert(Seq::<Seq<char>>::empty().push(id) =~= seq![id]);
        },
    }
    lemma_first_is_some(album_keys(after), other);
}

/// Filing a track under an artist changes that one artist: the track is
/// added to the album it names, or to the artist's loose tracks where it
/// names none.
pub proof fn lemma_with_artist_track(
    artists: Seq<ArtistView>,
    name: Seq<char>,
    album: Option<Seq<char>>,
    id: Seq<char>,
    images: Seq<Seq<char>>,
    other: Seq<char>,
)
    ensures
        loose_tracks(with_artist_track(artists, name, album, id, images), other) == (if other
            == name && album.is_none() {
            loose_tracks(artists, name).push(id)
        } else {
            loose_tracks(artists, other)
        }),
        albums_of(with_artist_track(artists, name, album, id, images), other) == (if other
            == name && album.is_some() {
            with_album_track(albums_of(artists, name), album.unwrap(), id, images)
        } else {
            albums_of(artists, other)
        }),
        artist_keys(with_artist_track(artists, name, album, id, images)).contains(other)
            <==> artist_keys(artists).contains(other) || other == name,
        artist_keys(artists).no_duplicates() ==> artist_keys(
            with_artist_track(artists, name, album, id, images),
        ).no_duplicates(),
{
    let keys = artist_keys(artists);
    lemma_first_is_some(keys, name);
    lemma_first_is_some(keys, other);
    let after = with_artist_track(artists, name, album, id, images);
    match keys.index_of_first(name) {
        Some(i) => {
            assert(artist_keys(after) =~= keys);
        },
        None => {
            assert(artist_keys(after) =~= keys.push(name));
            lemma_first_after_push(keys, name, other);
            if keys.no_duplicates() {
                lemma_push_distinct(keys, name);
            }
        },
    }
    lemma_first_is_some(artist_keys(after), other);
}

} // verus!
