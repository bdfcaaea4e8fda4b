//! Path identity: a short, deterministic id computed from a path string.

use base64ct::Base64UrlUnpadded;
use base64ct::Encoding;
use sha1::Digest;
use sha1::Sha1;
use vstd::prelude::*;
use vstd::utf8::encode_utf8;
use vstd::utf8::is_ascii_chars;

verus! {

/// The SHA-1 digest of a byte string.
pub uninterp spec fn sha1_of(data: Seq<u8>) -> Seq<u8>;

/// The unpadded URL-safe Base64 text of a byte string.
pub uninterp spec fn base64url_of(input: Seq<u8>) -> Seq<char>;

/// Number of characters an id has.
pub const ID_LEN: usize = 16;

/// Length of an unpadded Base64 text that encodes `n` bytes.
pub open spec fn base64_unpadded_len(n: nat) -> nat {
    ((4 * n + 2) / 3) as nat
}

/// `text` cut off behind its first `n` characters; a shorter text whole.
pub open spec fn head_of(text: Seq<char>, n: nat) -> Seq<char> {
    if text.len() <= n {
        text
    } else {
        text.take(n as int)
    }
}

/// The id of a path: the first sixteen characters of the URL-safe Base64
/// text of the SHA-1 digest of the path's UTF-8 bytes.
pub open spec fn id_of(path: Seq<char>) -> Seq<char> {
    head_of(base64url_of(sha1_of(encode_utf8(path))), ID_LEN as nat)
}

/// Calls `sha1::Sha1::digest` (the `Digest::digest` one-shot API).
/// Trusted: the output is the SHA-1 digest of `data`, which has 20 bytes.
#[verifier::external_body]
fn sha1_digest(data: &[u8]) -> (out: Vec<u8>)
    ensures
        out@ == sha1_of(data@),
        out@.len() == 20,
{
    Sha1::digest(data).to_vec()
}

/// Calls `base64ct::Base64UrlUnpadded::encode_string`.
/// Trusted: the output is the unpadded URL-safe Base64 text of `input`; it is
/// ASCII and has `ceil(4n / 3)` characters for `n` input bytes. The outside
/// function panics on inputs longer than `usize::MAX / 4`, which are excluded.
#[verifier::external_body]
fn base64url_encode(input: &Vec<u8>) -> (out: String)
    requires
        input@.len() * 4 <= usize::MAX,
    ensures
        out@ == base64url_of(input@),
        out@.len() == base64_unpadded_len(input@.len()),
        is_ascii_chars(out@),
{
    Base64UrlUnpadded::encode_string(input.as_slice())
}

/// The first `n` characters of `text`, or all of it where it has fewer.
pub fn truncated(text: &str, n: usize) -> (out: String)
    ensures
        out@ == head_of(text@, n as nat),
{
    if text.unicode_len() <= n {
        String::from_str(text)
    } else {
        String::from_str(text.substring_char(0, n))
    }
}

/// Computes the id of `s`.
pub fn hash(s: &String) -> (key: String)
    ensures
        key@ == id_of(s@),
        key@.len() == ID_LEN,
{
    let digest = sha1_digest(s.as_str().as_bytes());
    let encoded = base64url_encode(&digest);
    truncated(encoded.as_str(), ID_LEN)
}

/// Equal paths have equal ids: the id depends on nothing but the text of
/// the path.
pub proof fn lemma_id_depends_on_path_alone(path: Seq<char>, again: Seq<char>)
    requires
        path == again,
    ensures
        id_of(path) == id_of(again),
{
}

} // verus!
