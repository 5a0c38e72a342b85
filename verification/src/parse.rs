use vstd::prelude::*;

use crate::PostError;
use vstd::string::StrSliceExecFns;

verus! {

/// The fixed three-character delimiter `+++` stands at position `i` of `s`.
pub open spec fn marker_at(s: Seq<char>, i: int) -> bool {
    &&& 0 <= i
    &&& i + 3 <= s.len()
    &&& s[i] == '+'
    &&& s[i + 1] == '+'
    &&& s[i + 2] == '+'
}

/// Position of the first delimiter occurrence at or after `from`, if any.
pub open spec fn find_marker_spec(s: Seq<char>, from: int) -> Option<int>
    decreases s.len() - from,
{
    if from + 3 > s.len() {
        None
    } else if marker_at(s, from) {
        Some(from)
    } else {
        find_marker_spec(s, from + 1)
    }
}

proof fn lemma_find_skips_non_markers(s: Seq<char>, from: int, i: int)
    requires
        0 <= from <= i,
        forall|j: int| from <= j < i ==> !marker_at(s, j),
    ensures
        find_marker_spec(s, from) == find_marker_spec(s, i),
    decreases i - from,
{
    if from < i {
        if from + 3 > s.len() {
            assert(i + 3 > s.len());
        } else {
            assert(!marker_at(s, from));
            lemma_find_skips_non_markers(s, from + 1, i);
        }
    }
}

fn find_marker(s: &str, from: usize) -> (r: Option<usize>)
    ensures
        match r {
            Some(i) => {
                &&& from <= i
                &&& i + 3 <= s@.len()
                &&& marker_at(s@, i as int)
                &&& find_marker_spec(s@, from as int) == Some(i as int)
            },
            None => find_marker_spec(s@, from as int) is None,
        },
{
    let n = s.unicode_len();
    if n < 3 || from > n - 3 {
        proof {
            lemma_find_skips_non_markers(s@, from as int, from as int);
        }
        return None;
    }
    let mut i: usize = from;
    while i <= n - 3
        invariant
            n == s@.len(),
            n >= 3,
            from <= i,
            i <= n - 2,
            forall|j: int| from <= j < i ==> !marker_at(s@, j),
        decreases n - i,
    {
        if s.get_char(i) == '+' && s.get_char(i + 1) == '+' && s.get_char(i + 2) == '+' {
            proof {
                lemma_find_skips_non_markers(s@, from as int, i as int);
            }
            return Some(i);
        }
        proof {
            assert(!marker_at(s@, i as int));
        }
        i = i + 1;
    }
    proof {
        lemma_find_skips_non_markers(s@, from as int, i as int);
        assert(i + 3 > s@.len());
    }
    None
}

/// What splitting a raw document on the delimiter yields: the metadata block
/// between the first two delimiter occurrences and the body after the second
/// occurrence, or nothing when the delimiter does not occur twice.
pub open spec fn split_spec(s: Seq<char>) -> Option<(Seq<char>, Seq<char>)> {
    match find_marker_spec(s, 0) {
        None => None,
        Some(i) => match find_marker_spec(s, i + 3) {
            None => None,
            Some(j) => Some((s.subrange(i + 3, j), s.subrange(j + 3, s.len() as int))),
        },
    }
}

/// Splits a raw document into its metadata block and its body. A document in
/// which the delimiter occurs fewer than two times is malformed and rejected.
pub fn split_document(raw: &str) -> (r: Result<(String, String), PostError>)
    ensures
        match r {
            Ok(p) => split_spec(raw@) == Some((p.0@, p.1@)),
            Err(e) => split_spec(raw@) is None && e == PostError::MissingDelimiter,
        },
{
    let n = raw.unicode_len();
    match find_marker(raw, 0) {
        None => Err(PostError::MissingDelimiter),
        Some(i) => match find_marker(raw, i + 3) {
            None => Err(PostError::MissingDelimiter),
            Some(j) => {
                let meta = raw.substring_char(i + 3, j).to_owned();
                let body = raw.substring_char(j + 3, n).to_owned();
                Ok((meta, body))
            },
        },
    }
}

} // verus!
