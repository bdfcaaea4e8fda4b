//! Paths as text: the directory a file sits in, relative to the scanned
//! root, and the kind of file its extension announces.

use crate::text::or_empty;
use crate::text::same_text;
use crate::text::text_of;
use crate::text::text_or_empty;
use std::path::Path;
use vstd::prelude::*;

verus! {

/// A path without its final component, in the platform's path syntax;
/// `None` where the path is empty or ends in a root.
pub uninterp spec fn path_parent(path: Seq<char>) -> Option<Seq<char>>;

/// What is left of `path` behind the leading components `base`, in the
/// platform's path syntax; `None` where `path` does not start with `base`.
pub uninterp spec fn path_strip_prefix(path: Seq<char>, base: Seq<char>) -> Option<Seq<char>>;

/// The extension of the final component of `path`, without the dot, in the
/// platform's path syntax; `None` where that component has none.
pub uninterp spec fn path_extension(path: Seq<char>) -> Option<Seq<char>>;

/// Calls `std::path::Path::parent`.
/// Trusted: the result is the text of the path that `parent` returns.
#[verifier::external_body]
fn parent_of(path: &str) -> (out: Option<String>)
    ensures
        text_of(out) == path_parent(path@),
{
    match Path::new(path).parent() {
        Some(p) => Some(p.to_string_lossy().into_owned()),
        None => None,
    }
}

/// Calls `std::path::Path::strip_prefix`.
/// Trusted: the result is the text of the path that `strip_prefix` returns,
/// and `None` where it returns its error.
#[verifier::external_body]
fn strip_prefix_of(path: &str, base: &str) -> (out: Option<String>)
    ensures
        text_of(out) == path_strip_prefix(path@, base@),
{
    match Path::new(path).strip_prefix(base) {
        Ok(p) => Some(p.to_string_lossy().into_owned()),
        Err(_) => None,
    }
}

/// Calls `std::path::Path::extension`.
/// Trusted: the result is the text of the extension that `extension` returns.
#[verifier::external_body]
fn extension_of(path: &str) -> (out: Option<String>)
    ensures
        text_of(out) == path_extension(path@),
{
    match Path::new(path).extension() {
        Some(e) => Some(e.to_string_lossy().into_owned()),
        None => None,
    }
}

/// The directory that holds `path`, relative to `root`: the parent of
/// `path` with the leading `root` taken off. Empty where `path` has no
/// parent or its parent does not lie under `root`.
pub open spec fn relative_parent(path: Seq<char>, root: Seq<char>) -> Seq<char> {
    match path_parent(path) {
        Some(parent) => text_or_empty(path_strip_prefix(parent, root)),
        None => Seq::empty(),
    }
}

/// The directory that holds `path`, relative to `root`.
pub fn get_relative_parent_path(path: &str, root: &str) -> (out: String)
    ensures
        out@ == relative_parent(path@, root@),
{
    match parent_of(path) {
        Some(parent) => or_empty(strip_prefix_of(parent.as_str(), root)),
        None => String::new(),
    }
}

/// What the scanner does with a file.
#[derive(Clone, Copy, Debug, PartialEq, Eq)]
pub enum FileKind {
    /// An audio file: it becomes a track.
    Audio,
    /// A raster image: it becomes an image.
    Image,
    /// Anything else: it is left out of the catalog.
    Unhandled,
}

/// The kind of file that an extension announces. Extensions are compared
/// as they are written: `MP3` is not `mp3`.
pub open spec fn kind_of_extension(ext: Seq<char>) -> FileKind {
    if ext == "mp3"@ || ext == "m4a"@ {
        FileKind::Audio
    } else if ext == "jpg"@ || ext == "jpeg"@ || ext == "png"@ {
        FileKind::Image
    } else {
        FileKind::Unhandled
    }
}

/// The kind of the file at `path`: that of its extension, and unhandled
/// where it has none.
pub open spec fn kind_of_path(path: Seq<char>) -> FileKind {
    match path_extension(path) {
        Some(ext) => kind_of_extension(ext),
        None => FileKind::Unhandled,
    }
}

/// Classifies a file by its extension.
pub fn classify_extension(ext: &str) -> (kind: FileKind)
    ensures
        kind == kind_of_extension(ext@),
{
    if same_text(ext, "mp3") || same_text(ext, "m4a") {
        FileKind::Audio
    } else if same_text(ext, "jpg") || same_text(ext, "jpeg") || same_text(ext, "png") {
        FileKind::Image
    } else {
        FileKind::Unhandled
    }
}

/// Classifies the file at `path`.
pub fn classify_path(path: &str) -> (kind: FileKind)
    ensures
        kind == kind_of_path(path@),
{
    match extension_of(path) {
        Some(ext) => classify_extension(ext.as_str()),
        None => FileKind::Unhandled,
    }
}

/// No extension announces two kinds: the audio and the image extensions
/// are five different texts.
pub proof fn lemma_kinds_exclusive(ext: Seq<char>)
    ensures
        kind_of_extension(ext) == FileKind::Audio <==> (ext == "mp3"@ || ext == "m4a"@),
        kind_of_extension(ext) == FileKind::Image <==> (ext == "jpg"@ || ext == "jpeg"@ || ext
            == "png"@),
{
    reveal_strlit("mp3");
    reveal_strlit("m4a");
    reveal_strlit("jpg");
    reveal_strlit("jpeg");
    reveal_strlit("png");
    if ext == "jpg"@ || ext == "jpeg"@ || ext == "png"@ {
        assert(ext[0] != 'm');
    }
}

} // verus!
