//! What holds of every snapshot that a build produces.

use crate::catalog::album_keys;
use crate::catalog::artist_keys;
use crate::catalog::image_keys;
use crate::catalog::track_keys;
use crate::catalog::DirectoryView;
use crate::collection::ids_in;
use crate::collection::is_image_file;
use crate::collection::is_track_file;
use crate::collection::last_image;
use crate::collection::last_track;
use crate::collection::lemma_collected;
use crate::collection::lemma_ids_in;
use crate::collection::lemma_last_image;
use crate::collection::lemma_last_track;
use crate::collection::lemma_track_of_file;
use crate::collection::lies_in;
use crate::hierarchy::filed_ids;
use crate::hierarchy::filed_under;
use crate::hierarchy::goes_to;
use crate::hierarchy::lemma_filed_exactly_where_tagged;
use crate::hierarchy::lemma_filed_ids_distinct;
use crate::hierarchy::lemma_hierarchy;
use crate::lookup::image_by_id;
use crate::lookup::lemma_first_is_some;
use crate::lookup::track_at;
use crate::media::built;
use crate::media::hierarchy;
use crate::media::is_loose;
use crate::media::linked_track;
use crate::media::linked_tracks;
use crate::media::MediaView;
use crate::path::kind_of_path;
use crate::path::relative_parent;
use crate::path::FileKind;
use crate::scan::collected;
use crate::scan::FileView;
use crate::text::lemma_first_index;
use crate::track::bare_track;
use crate::track::first_tag;
use crate::track::TrackView;
use crate::utils::id_of;
use vstd::prelude::*;

verus! {

/// In a list of keys without repetitions every key is found where it
/// stands.
pub proof fn lemma_found_where_it_stands(keys: Seq<Seq<char>>, i: int)
    requires
        keys.no_duplicates(),
        0 <= i < keys.len(),
    ensures
        keys.index_of_first(keys[i]) == Some(i),
{
    lemma_first_index(keys, keys[i], i);
}

impl MediaView {
    /// Whether the track `id` stands in the list that the hierarchy keeps
    /// for `artist` and `album`.
    pub open spec fn files_track(self, artist: Seq<char>, album: Option<Seq<char>>, id: Seq<char>)
        -> bool {
        filed_under(self.artists, artist, album).contains(id)
    }

    /// The invariant of a snapshot. Ids and names are keys: no two tracks
    /// and no two images share an id, no two artists a name, no two albums
    /// of one artist a name. Every list of the hierarchy holds each of its
    /// tracks once, and holds only tracks of the snapshot whose tags name
    /// that artist and that album; no album is empty. A track with an
    /// artist tag stands in the list its tags name. Every id is the id of
    /// the record's path.
    pub open spec fn well_formed(self) -> bool {
        &&& track_keys(self.tracks).no_duplicates()
        &&& image_keys(self.images).no_duplicates()
        &&& forall|j: int|
            0 <= j < self.tracks.len() ==> (#[trigger] self.tracks[j]).id == id_of(
                self.tracks[j].path,
            )
        &&& forall|j: int|
            0 <= j < self.images.len() ==> (#[trigger] self.images[j]).id == id_of(
                self.images[j].path,
            )
        &&& artist_keys(self.artists).no_duplicates()
        &&& forall|a: int|
            0 <= a < self.artists.len() ==> {
                &&& album_keys((#[trigger] self.artists[a]).albums).no_duplicates()
                &&& self.artists[a].track_ids.no_duplicates()
                &&& self.artists[a].track_ids == filed_ids(
                    self.tracks,
                    self.artists[a].name,
                    None,
                )
            }
        &&& forall|a: int, b: int|
            0 <= a < self.artists.len() && 0 <= b < self.artists[a].albums.len() ==> {
                &&& (#[trigger] self.artists[a].albums[b]).track_ids.no_duplicates()
                &&& self.artists[a].albums[b].track_ids.len() > 0
                &&& self.artists[a].albums[b].track_ids == filed_ids(
                    self.tracks,
                    self.artists[a].name,
                    Some(self.artists[a].albums[b].name),
                )
            }
        &&& forall|j: int|
            0 <= j < self.tracks.len() && (#[trigger] self.tracks[j]).artist.is_some()
                ==> self.files_track(
                self.tracks[j].artist.unwrap(),
                self.tracks[j].album,
                self.tracks[j].id,
            )
    }
}

/// Linking changes no id, artist or album of a track, so it changes
/// neither where a track is found nor where it goes.
pub proof fn lemma_linked_tracks(
    root: Seq<char>,
    directories: Seq<DirectoryView>,
    tracks: Seq<TrackView>,
    artist: Seq<char>,
    album: Option<Seq<char>>,
    id: Seq<char>,
)
    ensures
        track_keys(linked_tracks(root, directories, tracks)) == track_keys(tracks),
        track_at(linked_tracks(root, directories, tracks), id) == (match track_at(tracks, id) {
            Some(t) => Some(linked_track(root, directories, t)),
            None => None,
        }),
        filed_ids(linked_tracks(root, directories, tracks), artist, album) == filed_ids(
            tracks,
            artist,
            album,
        ),
    decreases tracks.len(),
{
    let after = linked_tracks(root, directories, tracks);
    assert(track_keys(after) =~= track_keys(tracks));
    lemma_first_is_some(track_keys(tracks), id);
    if tracks.len() > 0 {
        lemma_linked_tracks(root, directories, tracks.drop_last(), artist, album, id);
        assert(after.drop_last() =~= linked_tracks(root, directories, tracks.drop_last()));
        assert(after.last() == linked_track(root, directories, tracks.last()));
    }
}

/// A non-empty list of filed ids has a first track that goes there.
pub proof fn lemma_first_filed(tracks: Seq<TrackView>, artist: Seq<char>, album: Seq<char>)
    ensures
        crate::hierarchy::first_filed(tracks, artist, album).is_some() <==> filed_ids(
            tracks,
            artist,
            Some(album),
        ).len() > 0,
    decreases tracks.len(),
{
    if tracks.len() > 0 {
        lemma_first_filed(tracks.drop_last(), artist, album);
    }
}

/// Every snapshot that a build produces is well formed.
pub proof fn lemma_built_well_formed(root: Seq<char>, files: Seq<FileView>)
    ensures
        built(root, files).well_formed(),
{
    let c = collected(root, files);
    let m = built(root, files);
    let none = Seq::<char>::empty();
    lemma_collected(root, files, none, none);
    lemma_linked_tracks(root, c.directories, c.tracks, none, None, none);
    lemma_hierarchy(root, c.directories, c.tracks, none, none);
    assert forall|j: int| 0 <= j < m.tracks.len() implies (#[trigger] m.tracks[j]).id == id_of(
        m.tracks[j].path,
    ) by {
        let id = c.tracks[j].id;
        assert(track_keys(c.tracks)[j] == id);
        lemma_found_where_it_stands(track_keys(c.tracks), j);
        lemma_collected(root, files, id, none);
        lemma_recorded_under_own_id(files, id);
    }
    assert forall|j: int| 0 <= j < m.images.len() implies (#[trigger] m.images[j]).id == id_of(
        m.images[j].path,
    ) by {
        let id = c.images[j].id;
        assert(image_keys(c.images)[j] == id);
        lemma_found_where_it_stands(image_keys(c.images), j);
        lemma_collected(root, files, id, none);
        lemma_recorded_under_own_id(files, id);
    }
    let names = artist_keys(m.artists);
    assert forall|a: int| 0 <= a < m.artists.len() implies {
        &&& album_keys((#[trigger] m.artists[a]).albums).no_duplicates()
        &&& m.artists[a].track_ids.no_duplicates()
        &&& m.artists[a].track_ids == filed_ids(m.tracks, m.artists[a].name, None)
    } by {
        let name = m.artists[a].name;
        assert(names[a] == name);
        lemma_found_where_it_stands(names, a);
        lemma_hierarchy(root, c.directories, c.tracks, name, none);
        lemma_filed_ids_distinct(c.tracks, name, None);
        lemma_linked_tracks(root, c.directories, c.tracks, name, None, none);
    }
    assert forall|a: int, b: int|
        0 <= a < m.artists.len() && 0 <= b < m.artists[a].albums.len() implies {
        &&& (#[trigger] m.artists[a].albums[b]).track_ids.no_duplicates()
        &&& m.artists[a].albums[b].track_ids.len() > 0
        &&& m.artists[a].albums[b].track_ids == filed_ids(
            m.tracks,
            m.artists[a].name,
            Some(m.artists[a].albums[b].name),
        )
    } by {
        let name = m.artists[a].name;
        let albums = m.artists[a].albums;
        let title = albums[b].name;
        assert(names[a] == name);
        lemma_found_where_it_stands(names, a);
        lemma_hierarchy(root, c.directories, c.tracks, name, title);
        assert(album_keys(albums)[b] == title);
        lemma_found_where_it_stands(album_keys(albums), b);
        lemma_filed_ids_distinct(c.tracks, name, Some(title));
        lemma_linked_tracks(root, c.directories, c.tracks, name, Some(title), none);
        lemma_first_filed(c.tracks, name, title);
    }
    assert forall|j: int|
        0 <= j < m.tracks.len() && (#[trigger] m.tracks[j]).artist.is_some() implies m.files_track(
        m.tracks[j].artist.unwrap(),
        m.tracks[j].album,
        m.tracks[j].id,
    ) by {
        let t = c.tracks[j];
        assert(m.tracks[j] == linked_track(root, c.directories, t));
        lemma_filed_exactly_where_tagged(
            root,
            c.directories,
            c.tracks,
            j,
            t.artist.unwrap(),
            t.album,
        );
    }
}

/// The same files under the same root give the same snapshot: every id
/// and every field of every record.
pub proof fn lemma_build_is_deterministic(
    root: Seq<char>,
    files: Seq<FileView>,
    again_root: Seq<char>,
    again_files: Seq<FileView>,
)
    requires
        root == again_root,
        files == again_files,
    ensures
        built(root, files) == built(again_root, again_files),
        forall|k: int|
            0 <= k < files.len() ==> id_of((#[trigger] files[k]).path) == id_of(
                again_files[k].path,
            ),
{
}

/// The sets that a build produces do not depend on the order in which the
/// files are met: whatever the order, the same ids have a track, the same
/// ids have an image, and every directory's bucket notes the same ids.
pub proof fn lemma_sets_ignore_order(
    root: Seq<char>,
    files: Seq<FileView>,
    shuffled: Seq<FileView>,
    id: Seq<char>,
    dir: Seq<char>,
    kind: FileKind,
)
    requires
        files.to_multiset() == shuffled.to_multiset(),
    ensures
        track_at(built(root, files).tracks, id).is_some() <==> track_at(
            built(root, shuffled).tracks,
            id,
        ).is_some(),
        image_by_id(built(root, files).images, id).is_some() <==> image_by_id(
            built(root, shuffled).images,
            id,
        ).is_some(),
        ids_in(root, files, kind, dir).contains(id) <==> ids_in(
            root,
            shuffled,
            kind,
            dir,
        ).contains(id),
{
    assert forall|f: FileView| files.contains(f) <==> shuffled.contains(f) by {
        vstd::seq_lib::to_multiset_contains(files, f);
        vstd::seq_lib::to_multiset_contains(shuffled, f);
    }
    lemma_one_way(root, files, shuffled, id, dir, kind);
    lemma_one_way(root, shuffled, files, id, dir, kind);
}

proof fn lemma_one_way(
    root: Seq<char>,
    files: Seq<FileView>,
    shuffled: Seq<FileView>,
    id: Seq<char>,
    dir: Seq<char>,
    kind: FileKind,
)
    requires
        forall|f: FileView| files.contains(f) ==> shuffled.contains(f),
    ensures
        track_at(built(root, files).tracks, id).is_some() ==> track_at(
            built(root, shuffled).tracks,
            id,
        ).is_some(),
        image_by_id(built(root, files).images, id).is_some() ==> image_by_id(
            built(root, shuffled).images,
            id,
        ).is_some(),
        ids_in(root, files, kind, dir).contains(id) ==> ids_in(root, shuffled, kind, dir).contains(
            id,
        ),
{
    let c = collected(root, files);
    let d = collected(root, shuffled);
    lemma_collected(root, files, id, dir);
    lemma_collected(root, shuffled, id, dir);
    lemma_linked_tracks(root, c.directories, c.tracks, id, None, id);
    lemma_linked_tracks(root, d.directories, d.tracks, id, None, id);
    lemma_last_track(files, id);
    lemma_last_track(shuffled, id);
    lemma_last_image(files, id);
    lemma_last_image(shuffled, id);
    lemma_ids_in(root, files, kind, dir, id);
    lemma_ids_in(root, shuffled, kind, dir, id);
    if last_track(files, id).is_some() {
        let k = choose|k: int| 0 <= k < files.len() && is_track_file(#[trigger] files[k], id);
        assert(files.contains(files[k]));
        let j = choose|j: int| 0 <= j < shuffled.len() && shuffled[j] == files[k];
        assert(is_track_file(shuffled[j], id));
    }
    if last_image(files, id).is_some() {
        let k = choose|k: int| 0 <= k < files.len() && is_image_file(#[trigger] files[k], id);
        assert(files.contains(files[k]));
        let j = choose|j: int| 0 <= j < shuffled.len() && shuffled[j] == files[k];
        assert(is_image_file(shuffled[j], id));
    }
    if ids_in(root, files, kind, dir).contains(id) {
        let k = choose|k: int|
            0 <= k < files.len() && lies_in(root, #[trigger] files[k], kind, dir) && id_of(
                files[k].path,
            ) == id;
        assert(files.contains(files[k]));
        let j = choose|j: int| 0 <= j < shuffled.len() && shuffled[j] == files[k];
        assert(lies_in(root, shuffled[j], kind, dir) && id_of(shuffled[j].path) == id);
    }
}

/// An audio file whose tag cannot be read is in the snapshot all the
/// same: under its id stands a record with its path and nothing else,
/// unless a later audio file has the same id.
pub proof fn lemma_untagged_file_is_recorded(root: Seq<char>, files: Seq<FileView>, k: int)
    requires
        0 <= k < files.len(),
        kind_of_path(files[k].path) == FileKind::Audio,
        first_tag(files[k].id3, files[k].mp4).is_none(),
        forall|later: int|
            k < later < files.len() ==> !is_track_file(
                #[trigger] files[later],
                id_of(files[k].path),
            ),
    ensures
        track_at(built(root, files).tracks, id_of(files[k].path)) == Some(
            bare_track(files[k].path),
        ),
{
    let c = collected(root, files);
    let id = id_of(files[k].path);
    lemma_collected(root, files, id, id);
    lemma_track_of_file(files, k);
    lemma_linked_tracks(root, c.directories, c.tracks, id, None, id);
}

/// Every audio file has a record in the snapshot, with its id.
pub proof fn lemma_every_audio_file_is_recorded(root: Seq<char>, files: Seq<FileView>, k: int)
    requires
        0 <= k < files.len(),
        kind_of_path(files[k].path) == FileKind::Audio,
    ensures
        track_at(built(root, files).tracks, id_of(files[k].path)).is_some(),
        track_at(built(root, files).tracks, id_of(files[k].path)).unwrap().id == id_of(
            files[k].path,
        ),
{
    let c = collected(root, files);
    let id = id_of(files[k].path);
    lemma_collected(root, files, id, id);
    lemma_last_track(files, id);
    assert(is_track_file(files[k], id));
    lemma_linked_tracks(root, c.directories, c.tracks, id, None, id);
}

/// Where the track `id` of a snapshot stands in the hierarchy: in the
/// list of an artist and an album just when its tags name them, so in one
/// list at most, and in none without an artist tag. A track filed directly
/// under its artist carries the ids of the image files that lie in its own
/// directory; any other track carries none.
pub proof fn lemma_built_files_each_track_once(
    root: Seq<char>,
    files: Seq<FileView>,
    id: Seq<char>,
    artist: Seq<char>,
    album: Option<Seq<char>>,
)
    requires
        track_at(built(root, files).tracks, id).is_some(),
    ensures
        built(root, files).files_track(artist, album, id) <==> goes_to(
            track_at(built(root, files).tracks, id).unwrap(),
            artist,
            album,
        ),
        is_loose(track_at(built(root, files).tracks, id).unwrap()) ==> track_at(
            built(root, files).tracks,
            id,
        ).unwrap().image_ids == ids_in(
            root,
            files,
            FileKind::Image,
            relative_parent(track_at(built(root, files).tracks, id).unwrap().path, root),
        ),
        !is_loose(track_at(built(root, files).tracks, id).unwrap()) ==> track_at(
            built(root, files).tracks,
            id,
        ).unwrap().image_ids.len() == 0,
{
    let c = collected(root, files);
    let m = built(root, files);
    lemma_collected(root, files, id, id);
    lemma_linked_tracks(root, c.directories, c.tracks, artist, album, id);
    lemma_first_is_some(track_keys(c.tracks), id);
    let j = track_keys(c.tracks).index_of_first(id).unwrap();
    let t = c.tracks[j];
    assert(track_keys(c.tracks)[j] == t.id);
    lemma_filed_exactly_where_tagged(root, c.directories, c.tracks, j, artist, album);
    lemma_collected(root, files, id, relative_parent(t.path, root));
    lemma_last_track(files, id);
    lemma_file_tracks_carry_nothing(files, id);
}

/// A record stands under the id of its own path.
pub proof fn lemma_recorded_under_own_id(files: Seq<FileView>, id: Seq<char>)
    ensures
        last_track(files, id) matches Some(t) ==> t.id == id_of(t.path) && t.id == id,
        last_image(files, id) matches Some(img) ==> img.id == id_of(img.path) && img.id == id,
    decreases files.len(),
{
    if files.len() > 0 {
        lemma_recorded_under_own_id(files.drop_last(), id);
    }
}

/// No two tracks of a snapshot have the same path, and no two images.
pub proof fn lemma_paths_are_unique(m: MediaView, i: int, j: int)
    requires
        m.well_formed(),
        i != j,
    ensures
        0 <= i < m.tracks.len() && 0 <= j < m.tracks.len() ==> m.tracks[i].path
            != m.tracks[j].path,
        0 <= i < m.images.len() && 0 <= j < m.images.len() ==> m.images[i].path
            != m.images[j].path,
{
    if 0 <= i < m.tracks.len() && 0 <= j < m.tracks.len() && m.tracks[i].path
        == m.tracks[j].path {
        assert(track_keys(m.tracks)[i] == track_keys(m.tracks)[j]);
    }
    if 0 <= i < m.images.len() && 0 <= j < m.images.len() && m.images[i].path
        == m.images[j].path {
        assert(image_keys(m.images)[i] == image_keys(m.images)[j]);
    }
}

/// A track as the first pass records it carries no image yet.
pub proof fn lemma_file_tracks_carry_nothing(files: Seq<FileView>, id: Seq<char>)
    ensures
        last_track(files, id) matches Some(t) ==> t.image_ids.len() == 0,
    decreases files.len(),
{
    if files.len() > 0 {
        lemma_file_tracks_carry_nothing(files.drop_last(), id);
    }
}

} // verus!
