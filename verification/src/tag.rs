//! Tag formats and the text normalisation each of them calls for.

use vstd::prelude::*;

verus! {

/// The tag container a track's metadata was read from.
#[derive(Clone, Copy, Debug, PartialEq, Eq)]
pub enum TagType {
    Id3v24,
    Id3v23,
    Id3v22,
    Id3v1,
    Mp4,
}

/// `s` with every NUL character rewritten to a forward slash.
pub open spec fn slash_for_nul(s: Seq<char>) -> Seq<char> {
    Seq::new(s.len(), |i: int| if s[i] == '\0' { '/' } else { s[i] })
}

impl TagType {
    /// The text a field surfaces as under this format: ID3v2.3 separates
    /// multiple values with NUL, which is shown as a slash; every other
    /// format passes text through unchanged.
    pub open spec fn format_text(self, s: Seq<char>) -> Seq<char> {
        match self {
            TagType::Id3v23 => slash_for_nul(s),
            _ => s,
        }
    }

    /// `format_text` lifted to an optional field.
    pub open spec fn format_spec(self, s: Option<Seq<char>>) -> Option<Seq<char>> {
        match s {
            Some(text) => Some(self.format_text(text)),
            None => None,
        }
    }

    /// The display name of the format.
    pub open spec fn name_spec(self) -> Seq<char> {
        match self {
            TagType::Id3v24 => "ID3v2.4"@,
            TagType::Id3v23 => "ID3v2.3"@,
            TagType::Id3v22 => "ID3v2.2"@,
            TagType::Id3v1 => "ID3v1"@,
            TagType::Mp4 => "MP4"@,
        }
    }

    /// Normalises one optional text field of a tag of this format.
    pub fn format_str(&self, s: Option<&str>) -> (out: Option<String>)
        ensures
            out.is_some() == s.is_some(),
            s matches Some(text) ==> out.unwrap()@ == self.format_text(text@),
    {
        match s {
            None => None,
            Some(text) => {
                match *self {
                    TagType::Id3v23 => Some(replace_nul(text)),
                    _ => Some(String::from_str(text)),
                }
            },
        }
    }

    /// The display name of the format, as stored in a track record.
    pub fn name(&self) -> (out: String)
        ensures
            out@ == self.name_spec(),
    {
        match *self {
            TagType::Id3v24 => String::from_str("ID3v2.4"),
            TagType::Id3v23 => String::from_str("ID3v2.3"),
            TagType::Id3v22 => String::from_str("ID3v2.2"),
            TagType::Id3v1 => String::from_str("ID3v1"),
            TagType::Mp4 => String::from_str("MP4"),
        }
    }
}

/// Copies `text`, writing a slash wherever it holds a NUL.
pub fn replace_nul(text: &str) -> (out: String)
    ensures
        out@ == slash_for_nul(text@),
{
    let n: usize = text.unicode_len();
    let mut out = String::new();
    let mut i: usize = 0;
    while i < n
        invariant
            n == text@.len(),
            i <= n,
            out@ == slash_for_nul(text@.take(i as int)),
        decreases n - i,
    {
        let c = text.get_char(i);
        if c == '\0' {
            proof {
                reveal_strlit("/");
            }
            out.append("/");
        } else {
            out.append(text.substring_char(i, i + 1));
        }
        assert(out@ =~= slash_for_nul(text@.take(i + 1)));
        i = i + 1;
    }
    assert(text@.take(n as int) =~= text@);
    out
}

/// Every NUL is gone from normalised ID3v2.3 text, and nothing else changed.
pub proof fn lemma_slash_for_nul(s: Seq<char>)
    ensures
        slash_for_nul(s).len() == s.len(),
        !slash_for_nul(s).contains('\0'),
        forall|i: int| 0 <= i < s.len() && s[i] != '\0' ==> slash_for_nul(s)[i] == s[i],
        !s.contains('\0') ==> slash_for_nul(s) == s,
{
    if !s.contains('\0') {
        assert(slash_for_nul(s) =~= s);
    }
}

} // verus!
