//! What the second pass guarantees: every list of the hierarchy holds
//! exactly the tracks whose tags send them there.

use crate::catalog::album_keys;
use crate::catalog::artist_keys;
use crate::catalog::track_keys;
use crate::catalog::ArtistView;
use crate::catalog::DirectoryView;
use crate::lookup::album_images;
use crate::lookup::album_tracks;
use crate::lookup::albums_of;
use crate::lookup::lemma_with_album_track;
use crate::lookup::lemma_with_artist_track;
use crate::lookup::loose_tracks;
use crate::media::hierarchy;
use crate::media::is_loose;
use crate::media::linked_track;
use crate::media::nearby_images;
use crate::media::with_linked;
use crate::track::TrackView;
use vstd::prelude::*;

verus! {

/// Whether a track's tags send it to the artist `artist` and the album
/// `album`; to the artist's loose tracks where `album` is `None`.
pub open spec fn goes_to(t: TrackView, artist: Seq<char>, album: Option<Seq<char>>) -> bool {
    t.artist == Some(artist) && t.album == album
}

/// The ids of the tracks that go to `artist` and `album`, in the order of
/// `tracks`.
pub open spec fn filed_ids(tracks: Seq<TrackView>, artist: Seq<char>, album: Option<Seq<char>>)
    -> Seq<Seq<char>>
    decreases tracks.len(),
{
    if tracks.len() == 0 {
        Seq::empty()
    } else if goes_to(tracks.last(), artist, album) {
        filed_ids(tracks.drop_last(), artist, album).push(tracks.last().id)
    } else {
        filed_ids(tracks.drop_last(), artist, album)
    }
}

/// The first of `tracks` that goes to `artist` and the album `album`.
pub open spec fn first_filed(tracks: Seq<TrackView>, artist: Seq<char>, album: Seq<char>)
    -> Option<TrackView>
    decreases tracks.len(),
{
    if tracks.len() == 0 {
        None
    } else if first_filed(tracks.drop_last(), artist, album).is_some() {
        first_filed(tracks.drop_last(), artist, album)
    } else if goes_to(tracks.last(), artist, Some(album)) {
        Some(tracks.last())
    } else {
        None
    }
}

/// An id is among the filed ids just when a track with that id goes there.
pub proof fn lemma_filed_ids_contains(
    tracks: Seq<TrackView>,
    artist: Seq<char>,
    album: Option<Seq<char>>,
    id: Seq<char>,
)
    ensures
        filed_ids(tracks, artist, album).contains(id) <==> exists|j: int|
            0 <= j < tracks.len() && (#[trigger] tracks[j]).id == id && goes_to(
                tracks[j],
                artist,
                album,
            ),
    decreases tracks.len(),
{
    if tracks.len() == 0 {
    } else {
        let front = tracks.drop_last();
        let last = tracks.last();
        lemma_filed_ids_contains(front, artist, album, id);
        let rest = filed_ids(front, artist, album);
        if filed_ids(tracks, artist, album).contains(id) {
            if rest.contains(id) {
                let j = choose|j: int|
                    0 <= j < front.len() && (#[trigger] front[j]).id == id && goes_to(
                        front[j],
                        artist,
                        album,
                    );
                assert(tracks[j] == front[j]);
            } else {
                assert(goes_to(last, artist, album));
                let k = choose|k: int|
                    0 <= k < rest.push(last.id).len() && rest.push(last.id)[k] == id;
                if k < rest.len() {
                    assert(rest[k] == id);
                    assert(rest.contains(id));
                }
                assert(tracks[tracks.len() - 1].id == id);
            }
        }
        if exists|j: int|
            0 <= j < tracks.len() && (#[trigger] tracks[j]).id == id && goes_to(
                tracks[j],
                artist,
                album,
            ) {
            let j = choose|j: int|
                0 <= j < tracks.len() && (#[trigger] tracks[j]).id == id && goes_to(
                    tracks[j],
                    artist,
                    album,
                );
            if j < front.len() {
                assert(front[j] == tracks[j]);
                assert(rest.contains(id));
                if goes_to(last, artist, album) {
                    let k = choose|k: int| 0 <= k < rest.len() && rest[k] == id;
                    assert(rest.push(last.id)[k] == id);
                }
            } else {
                assert(rest.push(last.id)[rest.len() as int] == id);
            }
        }
    }
}

/// The filed ids repeat nothing where no two tracks share an id.
pub proof fn lemma_filed_ids_distinct(
    tracks: Seq<TrackView>,
    artist: Seq<char>,
    album: Option<Seq<char>>,
)
    requires
        track_keys(tracks).no_duplicates(),
    ensures
        filed_ids(tracks, artist, album).no_duplicates(),
    decreases tracks.len(),
{
    if tracks.len() > 0 {
        let front = tracks.drop_last();
        let last = tracks.last();
        assert forall|i: int, j: int|
            0 <= i < front.len() && 0 <= j < front.len() && i != j implies track_keys(front)[i]
            != track_keys(front)[j] by {
            assert(track_keys(tracks)[i] != track_keys(tracks)[j]);
        }
        lemma_filed_ids_distinct(front, artist, album);
        if goes_to(last, artist, album) {
            let rest = filed_ids(front, artist, album);
            lemma_filed_ids_contains(front, artist, album, last.id);
            if rest.contains(last.id) {
                let j = choose|j: int|
                    0 <= j < front.len() && (#[trigger] front[j]).id == last.id && goes_to(
                        front[j],
                        artist,
                        album,
                    );
                assert(track_keys(tracks)[j] == track_keys(tracks)[tracks.len() - 1]);
            }
            crate::lookup::lemma_push_distinct(rest, last.id);
        }
    }
}

/// The hierarchy in closed form. Under every artist name, the loose tracks
/// are the tracks that go there, in order, and so are the tracks of every
/// album; an album exists just when a track goes to it, and its images are
/// those that lie beside its first track. No artist occurs twice, and no
/// album twice under one artist.
pub proof fn lemma_hierarchy(
    root: Seq<char>,
    directories: Seq<DirectoryView>,
    tracks: Seq<TrackView>,
    artist: Seq<char>,
    album: Seq<char>,
)
    ensures
        loose_tracks(hierarchy(root, directories, tracks), artist) == filed_ids(
            tracks,
            artist,
            None,
        ),
        album_tracks(albums_of(hierarchy(root, directories, tracks), artist), album)
            == filed_ids(tracks, artist, Some(album)),
        album_keys(albums_of(hierarchy(root, directories, tracks), artist)).contains(album)
            <==> first_filed(tracks, artist, album).is_some(),
        album_images(albums_of(hierarchy(root, directories, tracks), artist), album) == (
        match first_filed(tracks, artist, album) {
            Some(t) => nearby_images(root, directories, t.path),
            None => Seq::empty(),
        }),
        artist_keys(hierarchy(root, directories, tracks)).contains(artist) <==> exists|j: int|
            0 <= j < tracks.len() && (#[trigger] tracks[j]).artist == Some(artist),
        artist_keys(hierarchy(root, directories, tracks)).no_duplicates(),
        album_keys(albums_of(hierarchy(root, directories, tracks), artist)).no_duplicates(),
    decreases tracks.len(),
{
    if tracks.len() == 0 {
        let h = hierarchy(root, directories, tracks);
        assert(h =~= Seq::empty());
        assert(artist_keys(h) =~= Seq::empty());
        crate::lookup::lemma_first_is_some(artist_keys(h), artist);
        assert(albums_of(h, artist) =~= Seq::empty());
        assert(album_keys(albums_of(h, artist)) =~= Seq::empty());
        crate::lookup::lemma_first_is_some(album_keys(albums_of(h, artist)), album);
    } else {
        let front = tracks.drop_last();
        let last = tracks.last();
        let before = hierarchy(root, directories, front);
        let after = hierarchy(root, directories, tracks);
        lemma_hierarchy(root, directories, front, artist, album);
        assert(after == with_linked(root, directories, before, last));
        assert forall|j: int| 0 <= j < front.len() implies front[j] == tracks[j] by {}
        match last.artist {
            Some(name) => {
                let images = nearby_images(root, directories, last.path);
                lemma_with_artist_track(before, name, last.album, last.id, images, artist);
                if artist == name {
                    assert(tracks[tracks.len() - 1].artist == Some(artist));
                    match last.album {
                        Some(b) => {
                            lemma_with_album_track(
                                albums_of(before, name),
                                b,
                                last.id,
                                images,
                                album,
                            );
                        },
                        None => {},
                    }
                } else {
                    if exists|j: int|
                        0 <= j < tracks.len() && (#[trigger] tracks[j]).artist == Some(artist) {
                        let j = choose|j: int|
                            0 <= j < tracks.len() && (#[trigger] tracks[j]).artist == Some(
                                artist,
                            );
                        assert(front[j].artist == Some(artist));
                    }
                }
                if exists|j: int|
                    0 <= j < front.len() && (#[trigger] front[j]).artist == Some(artist) {
                    let j = choose|j: int|
                        0 <= j < front.len() && (#[trigger] front[j]).artist == Some(artist);
                    assert(tracks[j].artist == Some(artist));
                }
            },
            None => {
                if exists|j: int|
                    0 <= j < tracks.len() && (#[trigger] tracks[j]).artist == Some(artist) {
                    let j = choose|j: int|
                        0 <= j < tracks.len() && (#[trigger] tracks[j]).artist == Some(artist);
                    assert(front[j].artist == Some(artist));
                }
                if exists|j: int|
                    0 <= j < front.len() && (#[trigger] front[j]).artist == Some(artist) {
                    let j = choose|j: int|
                        0 <= j < front.len() && (#[trigger] front[j]).artist == Some(artist);
                    assert(tracks[j].artist == Some(artist));
                }
            },
        }
    }
}

/// The list of the hierarchy that holds the tracks of `artist` and
/// `album`: the album's tracks, or the artist's loose tracks where `album`
/// is `None`. Empty where the hierarchy has no such artist or album.
pub open spec fn filed_under(
    artists: Seq<ArtistView>,
    artist: Seq<char>,
    album: Option<Seq<char>>,
) -> Seq<Seq<char>> {
    match album {
        Some(name) => album_tracks(albums_of(artists, artist), name),
        None => loose_tracks(artists, artist),
    }
}

/// Every track is filed where its tags send it and nowhere else: a track
/// with artist and album is among the tracks of that album of that artist
/// and not among the artist's loose tracks; a track with an artist and no
/// album is among that artist's loose tracks, in none of the albums, and
/// carries the images of its directory; a track without an artist is in
/// no list at all. No list holds a track twice.
pub proof fn lemma_filed_exactly_where_tagged(
    root: Seq<char>,
    directories: Seq<DirectoryView>,
    tracks: Seq<TrackView>,
    j: int,
    artist: Seq<char>,
    album: Option<Seq<char>>,
)
    requires
        track_keys(tracks).no_duplicates(),
        0 <= j < tracks.len(),
    ensures
        filed_under(hierarchy(root, directories, tracks), artist, album).contains(tracks[j].id)
            <==> goes_to(tracks[j], artist, album),
        filed_under(hierarchy(root, directories, tracks), artist, album).no_duplicates(),
        is_loose(tracks[j]) ==> linked_track(root, directories, tracks[j]).image_ids
            == nearby_images(root, directories, tracks[j].path),
        !is_loose(tracks[j]) ==> linked_track(root, directories, tracks[j]) == tracks[j],
{
    let h = hierarchy(root, directories, tracks);
    let id = tracks[j].id;
    match album {
        Some(name) => {
            lemma_hierarchy(root, directories, tracks, artist, name);
        },
        None => {
            lemma_hierarchy(root, directories, tracks, artist, Seq::empty());
        },
    }
    assert(filed_under(h, artist, album) == filed_ids(tracks, artist, album));
    lemma_filed_ids_contains(tracks, artist, album, id);
    lemma_filed_ids_distinct(tracks, artist, album);
    if filed_ids(tracks, artist, album).contains(id) {
        let k = choose|k: int|
            0 <= k < tracks.len() && (#[trigger] tracks[k]).id == id && goes_to(
                tracks[k],
                artist,
                album,
            );
        if k != j {
            assert(track_keys(tracks)[k] == track_keys(tracks)[j]);
        }
    }
}

} // verus!
