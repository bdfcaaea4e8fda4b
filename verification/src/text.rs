//! Strings as sequences of characters, and lists of strings that hold
//! nothing twice.

use vstd::prelude::*;

verus! {

/// The text of an optional string.
pub open spec fn text_of(s: Option<String>) -> Option<Seq<char>> {
    match s {
        Some(t) => Some(t@),
        None => None,
    }
}

/// The texts of a list of strings, in order.
pub open spec fn texts_of(v: Seq<String>) -> Seq<Seq<char>> {
    Seq::new(v.len(), |i: int| v[i]@)
}

/// `ids` with `id` at its end, unless it is in the list already.
pub open spec fn with_id(ids: Seq<Seq<char>>, id: Seq<char>) -> Seq<Seq<char>> {
    if ids.contains(id) {
        ids
    } else {
        ids.push(id)
    }
}

/// The views of a list of values, in order.
pub open spec fn views<T: View>(s: Seq<T>) -> Seq<T::V> {
    Seq::new(s.len(), |i: int| s[i]@)
}

/// Where a key stands first in a list of keys: at `i`, when no earlier
/// place holds it; nowhere, when `i` is the end of the list.
pub proof fn lemma_first_index(keys: Seq<Seq<char>>, key: Seq<char>, i: int)
    requires
        0 <= i <= keys.len(),
        forall|j: int| 0 <= j < i ==> keys[j] != key,
        i < keys.len() ==> keys[i] == key,
    ensures
        keys.index_of_first(key) == (if i < keys.len() {
            Some(i)
        } else {
            None
        }),
{
    keys.index_of_first_ensures(key);
    if i < keys.len() {
        assert(keys.contains(key));
        let found = keys.index_of_first(key).unwrap();
        if found < i {
            assert(keys[found] != key);
        }
    } else {
        if keys.contains(key) {
            let j = choose|j: int| 0 <= j < keys.len() && keys[j] == key;
            assert(keys[j] != key);
        }
    }
}

/// Whether two strings hold the same text.
pub fn same_text(a: &str, b: &str) -> (out: bool)
    ensures
        out == (a@ == b@),
{
    let n: usize = a.unicode_len();
    if n != b.unicode_len() {
        return false;
    }
    let mut i: usize = 0;
    while i < n
        invariant
            n == a@.len(),
            n == b@.len(),
            i <= n,
            a@.take(i as int) == b@.take(i as int),
        decreases n - i,
    {
        if a.get_char(i) != b.get_char(i) {
            return false;
        }
        assert(a@.take(i + 1) =~= a@.take(i as int).push(a@[i as int]));
        assert(b@.take(i + 1) =~= b@.take(i as int).push(b@[i as int]));
        i = i + 1;
    }
    assert(a@.take(n as int) =~= a@);
    assert(b@.take(n as int) =~= b@);
    true
}

/// The text of an optional string, and the empty text where it is absent.
pub open spec fn text_or_empty(s: Option<Seq<char>>) -> Seq<char> {
    match s {
        Some(t) => t,
        None => Seq::empty(),
    }
}

/// The string, or the empty string where it is absent.
pub fn or_empty(s: Option<String>) -> (out: String)
    ensures
        out@ == text_or_empty(text_of(s)),
{
    match s {
        Some(t) => t,
        None => String::new(),
    }
}

/// A copy of an optional string.
pub fn clone_text(s: &Option<String>) -> (out: Option<String>)
    ensures
        text_of(out) == text_of(*s),
{
    match s {
        Some(t) => Some(t.clone()),
        None => None,
    }
}

/// A copy of a list of strings.
pub fn clone_texts(v: &Vec<String>) -> (out: Vec<String>)
    ensures
        texts_of(out@) == texts_of(v@),
{
    let mut out: Vec<String> = Vec::new();
    let mut i: usize = 0;
    while i < v.len()
        invariant
            i <= v@.len(),
            out@.len() == i,
            texts_of(out@) == texts_of(v@.take(i as int)),
        decreases v@.len() - i,
    {
        let ghost before = out@;
        out.push(v[i].clone());
        assert forall|j: int| 0 <= j < i + 1 implies texts_of(out@)[j] == texts_of(
            v@.take(i + 1),
        )[j] by {
            if j < i {
                assert(texts_of(before)[j] == texts_of(v@.take(i as int))[j]);
            }
        }
        assert(texts_of(out@) =~= texts_of(v@.take(i + 1)));
        i = i + 1;
    }
    assert(v@.take(v@.len() as int) =~= v@);
    out
}

/// Whether a list of strings holds the text `id`.
pub fn has_text(v: &Vec<String>, id: &String) -> (out: bool)
    ensures
        out == texts_of(v@).contains(id@),
{
    let mut i: usize = 0;
    while i < v.len()
        invariant
            i <= v@.len(),
            forall|j: int| 0 <= j < i ==> texts_of(v@)[j] != id@,
        decreases v@.len() - i,
    {
        if v[i] == *id {
            assert(texts_of(v@)[i as int] == id@);
            return true;
        }
        i = i + 1;
    }
    false
}

/// Adds `id` to a list that holds nothing twice, unless it is there already.
pub fn insert_id(v: &mut Vec<String>, id: String)
    ensures
        texts_of(final(v)@) == with_id(texts_of(old(v)@), id@),
{
    if !has_text(v, &id) {
        v.push(id);
        assert(texts_of(v@) =~= texts_of(old(v)@).push(id@));
    }
}

/// Adding an id keeps a list free of repetitions, and the id is then in it.
pub proof fn lemma_with_id(ids: Seq<Seq<char>>, id: Seq<char>)
    requires
        ids.no_duplicates(),
    ensures
        with_id(ids, id).no_duplicates(),
        with_id(ids, id).contains(id),
        forall|other: Seq<char>| ids.contains(other) ==> with_id(ids, id).contains(other),
        forall|other: Seq<char>|
            with_id(ids, id).contains(other) ==> ids.contains(other) || other == id,
{
    if ids.contains(id) {
    } else {
        let out = ids.push(id);
        assert(out[ids.len() as int] == id);
        assert forall|other: Seq<char>| ids.contains(other) implies out.contains(other) by {
            let j = choose|j: int| 0 <= j < ids.len() && ids[j] == other;
            assert(out[j] == other);
        }
    }
}

} // verus!
