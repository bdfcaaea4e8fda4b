//! What the first pass guarantees: which records and which bucket entries
//! it leaves, stated without regard to the order of the files.

use crate::catalog::directory_keys;
use crate::catalog::image_keys;
use crate::catalog::track_keys;
use crate::lookup::bucket_tracks;
use crate::lookup::image_by_id;
use crate::lookup::lemma_with_image;
use crate::lookup::lemma_with_image_noted;
use crate::lookup::lemma_with_track;
use crate::lookup::lemma_with_track_noted;
use crate::lookup::track_at;
use crate::media::bucket_images;
use crate::path::kind_of_path;
use crate::path::relative_parent;
use crate::path::FileKind;
use crate::scan::collected;
use crate::scan::file_track;
use crate::scan::FileView;
use crate::text::lemma_with_id;
use crate::text::with_id;
use crate::track::image_at;
use crate::track::ImageView;
use crate::track::TrackView;
use crate::utils::id_of;
use vstd::prelude::*;

verus! {

/// Whether `f` is an audio file whose track has the id `id`.
pub open spec fn is_track_file(f: FileView, id: Seq<char>) -> bool {
    kind_of_path(f.path) == FileKind::Audio && id_of(f.path) == id
}

/// Whether `f` is an image file whose image has the id `id`.
pub open spec fn is_image_file(f: FileView, id: Seq<char>) -> bool {
    kind_of_path(f.path) == FileKind::Image && id_of(f.path) == id
}

/// The track of the last audio file among `files` whose id is `id`.
pub open spec fn last_track(files: Seq<FileView>, id: Seq<char>) -> Option<TrackView>
    decreases files.len(),
{
    if files.len() == 0 {
        None
    } else if is_track_file(files.last(), id) {
        Some(file_track(files.last()))
    } else {
        last_track(files.drop_last(), id)
    }
}

/// The image of the last image file among `files` whose id is `id`.
pub open spec fn last_image(files: Seq<FileView>, id: Seq<char>) -> Option<ImageView>
    decreases files.len(),
{
    if files.len() == 0 {
        None
    } else if is_image_file(files.last(), id) {
        Some(image_at(files.last().path))
    } else {
        last_image(files.drop_last(), id)
    }
}

/// The ids of the files of kind `kind` that lie directly in the directory
/// `dir` under `root`, each once, in the order in which they are first met.
pub open spec fn ids_in(
    root: Seq<char>,
    files: Seq<FileView>,
    kind: FileKind,
    dir: Seq<char>,
) -> Seq<Seq<char>>
    decreases files.len(),
{
    if files.len() == 0 {
        Seq::empty()
    } else if lies_in(root, files.last(), kind, dir) {
        with_id(ids_in(root, files.drop_last(), kind, dir), id_of(files.last().path))
    } else {
        ids_in(root, files.drop_last(), kind, dir)
    }
}

/// Whether `f` is a file of kind `kind` directly in the directory `dir`
/// under `root`.
pub open spec fn lies_in(root: Seq<char>, f: FileView, kind: FileKind, dir: Seq<char>) -> bool {
    kind_of_path(f.path) == kind && relative_parent(f.path, root) == dir
}

/// The first pass in closed form. The track with a given id is that of
/// the last audio file with that id, and likewise for images; the bucket
/// of a directory holds the ids of the audio files and of the image files
/// that lie directly in it. No id occurs twice among the tracks or among
/// the images, and no directory has two buckets.
pub proof fn lemma_collected(
    root: Seq<char>,
    files: Seq<FileView>,
    id: Seq<char>,
    dir: Seq<char>,
)
    ensures
        track_at(collected(root, files).tracks, id) == last_track(files, id),
        image_by_id(collected(root, files).images, id) == last_image(files, id),
        bucket_tracks(collected(root, files).directories, dir) == ids_in(
            root,
            files,
            FileKind::Audio,
            dir,
        ),
        bucket_images(collected(root, files).directories, dir) == ids_in(
            root,
            files,
            FileKind::Image,
            dir,
        ),
        track_keys(collected(root, files).tracks).no_duplicates(),
        image_keys(collected(root, files).images).no_duplicates(),
        directory_keys(collected(root, files).directories).no_duplicates(),
    decreases files.len(),
{
    let c = collected(root, files);
    if files.len() == 0 {
        assert(track_keys(c.tracks) =~= Seq::empty());
        assert(image_keys(c.images) =~= Seq::empty());
        assert(directory_keys(c.directories) =~= Seq::empty());
        crate::lookup::lemma_first_is_some(track_keys(c.tracks), id);
        crate::lookup::lemma_first_is_some(image_keys(c.images), id);
        crate::lookup::lemma_first_is_some(directory_keys(c.directories), dir);
    } else {
        let front = files.drop_last();
        let f = files.last();
        let b = collected(root, front);
        lemma_collected(root, front, id, dir);
        let here = relative_parent(f.path, root);
        match kind_of_path(f.path) {
            FileKind::Audio => {
                lemma_with_track(b.tracks, file_track(f), id);
                lemma_with_track_noted(b.directories, here, file_track(f).id, dir);
            },
            FileKind::Image => {
                lemma_with_image(b.images, image_at(f.path), id);
                lemma_with_image_noted(b.directories, here, image_at(f.path).id, dir);
            },
            FileKind::Unhandled => {},
        }
    }
}

/// An id is noted in a directory just when a file of that kind with that
/// id lies directly in it; and it is noted once.
pub proof fn lemma_ids_in(
    root: Seq<char>,
    files: Seq<FileView>,
    kind: FileKind,
    dir: Seq<char>,
    id: Seq<char>,
)
    ensures
        ids_in(root, files, kind, dir).contains(id) <==> exists|k: int|
            0 <= k < files.len() && lies_in(root, #[trigger] files[k], kind, dir) && id_of(
                files[k].path,
            ) == id,
        ids_in(root, files, kind, dir).no_duplicates(),
    decreases files.len(),
{
    if files.len() > 0 {
        let front = files.drop_last();
        let f = files.last();
        let rest = ids_in(root, front, kind, dir);
        lemma_ids_in(root, front, kind, dir, id);
        assert forall|k: int| 0 <= k < front.len() implies front[k] == files[k] by {}
        if lies_in(root, f, kind, dir) {
            lemma_with_id(rest, id_of(f.path));
        }
        if ids_in(root, files, kind, dir).contains(id) {
            if rest.contains(id) {
                let k = choose|k: int|
                    0 <= k < front.len() && lies_in(root, #[trigger] front[k], kind, dir)
                        && id_of(front[k].path) == id;
                assert(files[k] == front[k]);
            } else {
                assert(lies_in(root, files[files.len() - 1], kind, dir));
            }
        }
        if exists|k: int|
            0 <= k < files.len() && lies_in(root, #[trigger] files[k], kind, dir) && id_of(
                files[k].path,
            ) == id {
            let k = choose|k: int|
                0 <= k < files.len() && lies_in(root, #[trigger] files[k], kind, dir) && id_of(
                    files[k].path,
                ) == id;
            if k < front.len() {
                assert(front[k] == files[k]);
            }
        }
    }
}

/// There is a track with a given id just when an audio file has that id,
/// and the track then has that id.
pub proof fn lemma_last_track(files: Seq<FileView>, id: Seq<char>)
    ensures
        last_track(files, id).is_some() <==> exists|k: int|
            0 <= k < files.len() && is_track_file(#[trigger] files[k], id),
        last_track(files, id) matches Some(t) ==> t.id == id,
    decreases files.len(),
{
    if files.len() > 0 {
        let front = files.drop_last();
        lemma_last_track(front, id);
        assert forall|k: int| 0 <= k < front.len() implies front[k] == files[k] by {}
        if is_track_file(files.last(), id) {
            assert(is_track_file(files[files.len() - 1], id));
        } else {
            if exists|k: int| 0 <= k < files.len() && is_track_file(#[trigger] files[k], id) {
                let k = choose|k: int|
                    0 <= k < files.len() && is_track_file(#[trigger] files[k], id);
                assert(is_track_file(front[k], id));
            }
            if exists|k: int| 0 <= k < front.len() && is_track_file(#[trigger] front[k], id) {
                let k = choose|k: int|
                    0 <= k < front.len() && is_track_file(#[trigger] front[k], id);
                assert(is_track_file(files[k], id));
            }
        }
    }
}

/// There is an image with a given id just when an image file has that id,
/// and the image then has that id.
pub proof fn lemma_last_image(files: Seq<FileView>, id: Seq<char>)
    ensures
        last_image(files, id).is_some() <==> exists|k: int|
            0 <= k < files.len() && is_image_file(#[trigger] files[k], id),
        last_image(files, id) matches Some(img) ==> img.id == id,
    decreases files.len(),
{
    if files.len() > 0 {
        let front = files.drop_last();
        lemma_last_image(front, id);
        assert forall|k: int| 0 <= k < front.len() implies front[k] == files[k] by {}
        if is_image_file(files.last(), id) {
            assert(is_image_file(files[files.len() - 1], id));
        } else {
            if exists|k: int| 0 <= k < files.len() && is_image_file(#[trigger] files[k], id) {
                let k = choose|k: int|
                    0 <= k < files.len() && is_image_file(#[trigger] files[k], id);
                assert(is_image_file(front[k], id));
            }
            if exists|k: int| 0 <= k < front.len() && is_image_file(#[trigger] front[k], id) {
                let k = choose|k: int|
                    0 <= k < front.len() && is_image_file(#[trigger] front[k], id);
                assert(is_image_file(files[k], id));
            }
        }
    }
}

/// The track of the audio file at place `k` is the one recorded under its
/// id, unless a later audio file has the same id.
pub proof fn lemma_track_of_file(files: Seq<FileView>, k: int)
    requires
        0 <= k < files.len(),
        kind_of_path(files[k].path) == FileKind::Audio,
        forall|later: int|
            k < later < files.len() ==> !is_track_file(
                #[trigger] files[later],
                id_of(files[k].path),
            ),
    ensures
        last_track(files, id_of(files[k].path)) == Some(file_track(files[k])),
    decreases files.len(),
{
    if k < files.len() - 1 {
        let front = files.drop_last();
        assert(!is_track_file(files[files.len() - 1], id_of(files[k].path)));
        assert forall|later: int| k < later < front.len() implies !is_track_file(
            #[trigger] front[later],
            id_of(front[k].path),
        ) by {
            assert(front[later] == files[later]);
        }
        lemma_track_of_file(front, k);
    }
}

} // verus!
