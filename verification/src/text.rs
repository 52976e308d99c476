//! Segments of `/`-delimited text: repository names and file names.

use vstd::prelude::*;
use vstd::string::*;

verus! {

/// The run of characters that follows the last `sep` of `s`: all of `s`
/// where it holds no `sep`, nothing where `s` ends in one.
pub open spec fn tail_after(s: Seq<char>, sep: char) -> Seq<char>
    decreases s.len(),
{
    if s.len() == 0 || s.last() == sep {
        Seq::empty()
    } else {
        tail_after(s.drop_last(), sep).push(s.last())
    }
}

/// The tail is the longest end of `s` that holds no `sep`.
pub proof fn lemma_tail_after(s: Seq<char>, sep: char)
    ensures
        tail_after(s, sep).len() <= s.len(),
        tail_after(s, sep) == s.subrange(s.len() - tail_after(s, sep).len(), s.len() as int),
        forall|i: int| 0 <= i < tail_after(s, sep).len() ==> tail_after(s, sep)[i] != sep,
        tail_after(s, sep).len() < s.len() ==> s[s.len() - tail_after(s, sep).len() - 1] == sep,
    decreases s.len(),
{
    if s.len() > 0 && s.last() != sep {
        lemma_tail_after(s.drop_last(), sep);
    }
}

/// Whether the characters of `s` from `start` up to `end` are its last
/// non-empty segment: they hold no `/`, they start the text or follow a
/// `/`, and only `/` comes after them.
pub open spec fn is_last_segment(s: Seq<char>, start: int, end: int) -> bool {
    &&& 0 <= start < end <= s.len()
    &&& start > 0 ==> s[start - 1] == '/'
    &&& forall|i: int| start <= i < end ==> s[i] != '/'
    &&& forall|j: int| end <= j < s.len() ==> s[j] == '/'
}

/// The last non-empty segment of `/`-delimited text, if it has one.
pub open spec fn spec_last_segment(s: Seq<char>) -> Option<Seq<char>>
    decreases s.len(),
{
    if s.len() == 0 {
        None
    } else if s.last() == '/' {
        spec_last_segment(s.drop_last())
    } else {
        Some(tail_after(s, '/'))
    }
}

/// Text has no last segment exactly where it holds nothing but `/`;
/// otherwise `spec_last_segment` is the segment that `is_last_segment` describes.
pub proof fn lemma_last_segment(s: Seq<char>)
    ensures
        spec_last_segment(s) is None <==> forall|i: int| 0 <= i < s.len() ==> s[i] == '/',
        spec_last_segment(s) matches Some(segment) ==> exists|start: int, end: int|
            #[trigger] is_last_segment(s, start, end) && segment == s.subrange(start, end),
    decreases s.len(),
{
    if s.len() == 0 {
    } else if s.last() == '/' {
        let before = s.drop_last();
        lemma_last_segment(before);
        if spec_last_segment(before) is Some {
            let segment = spec_last_segment(before).unwrap();
            let (start, end) = choose|start: int, end: int|
                #[trigger] is_last_segment(before, start, end) && segment == before.subrange(
                    start,
                    end,
                );
            assert(before[start] != '/');
            assert(s[start] != '/');
            assert forall|i: int| start <= i < end implies s[i] != '/' by {
                assert(before[i] != '/');
            }
            assert forall|j: int| end <= j < s.len() implies s[j] == '/' by {
                if j < before.len() {
                    assert(before[j] == '/');
                }
            }
            assert(start > 0 ==> before[start - 1] == '/');
            assert(is_last_segment(s, start, end));
            assert(segment == s.subrange(start, end));
        } else {
            assert forall|i: int| 0 <= i < s.len() implies s[i] == '/' by {
                if i < before.len() {
                    assert(before[i] == '/');
                }
            }
        }
    } else {
        lemma_tail_after(s, '/');
        let tail = tail_after(s, '/');
        let start = s.len() - tail.len();
        assert(tail.len() > 0);
        assert forall|i: int| start <= i < s.len() implies s[i] != '/' by {
            assert(tail[i - start] == s[i]);
        }
        assert(is_last_segment(s, start, s.len() as int));
    }
}

/// Finds the last non-empty segment of `/`-delimited text.
pub fn last_segment(s: &str) -> (name: Option<String>)
    ensures
        name.deep_view() == spec_last_segment(s@),
{
    let len: usize = s.unicode_len();
    let mut run_start: usize = 0;
    let mut found: Option<(usize, usize)> = None;
    let mut i: usize = 0;
    for c in it: s.chars()
        invariant
            it.seq() == s@,
            s@.len() == len,
            i == it.index(),
            run_start <= i,
            tail_after(s@.take(i as int), '/') == s@.subrange(run_start as int, i as int),
            found is Some <==> spec_last_segment(s@.take(i as int)) is Some,
            found matches Some((a, b)) ==> a < b <= i && spec_last_segment(s@.take(i as int)) == Some(
                s@.subrange(a as int, b as int),
            ),
    {
        proof {
            assert(s@.take(i + 1).drop_last() == s@.take(i as int));
        }
        if c == '/' {
            run_start = i + 1;
        } else {
            found = Some((run_start, i + 1));
        }
        i = i + 1;
    }
    assert(s@.take(i as int) == s@);
    match found {
        Some((a, b)) => Some(s.substring_char(a, b).to_owned()),
        None => None,
    }
}

/// The extension of a file name: what follows its last `.`, where that
/// `.` is not the first character of the name.
pub open spec fn spec_extension(name: Seq<char>) -> Option<Seq<char>> {
    let tail = tail_after(name, '.');
    if tail.len() + 2 <= name.len() {
        Some(tail)
    } else {
        None
    }
}

/// Finds the extension of a file name.
pub fn extension(name: &str) -> (ext: Option<String>)
    ensures
        ext.deep_view() == spec_extension(name@),
{
    let len: usize = name.unicode_len();
    let mut run_start: usize = 0;
    let mut i: usize = 0;
    for c in it: name.chars()
        invariant
            it.seq() == name@,
            name@.len() == len,
            i == it.index(),
            run_start <= i,
            tail_after(name@.take(i as int), '.') == name@.subrange(run_start as int, i as int),
    {
        proof {
            assert(name@.take(i + 1).drop_last() == name@.take(i as int));
        }
        if c == '.' {
            run_start = i + 1;
        }
        i = i + 1;
    }
    assert(name@.take(i as int) == name@);
    if run_start >= 2 {
        Some(name.substring_char(run_start, len).to_owned())
    } else {
        None
    }
}

/// Whether a file name has the extension `wanted`.
pub open spec fn spec_has_extension(name: Seq<char>, wanted: Seq<char>) -> bool {
    spec_extension(name) == Some(wanted)
}

/// Tells whether a file name has the extension `wanted`.
pub fn has_extension(name: &str, wanted: &str) -> (found: bool)
    ensures
        found == spec_has_extension(name@, wanted@),
{
    match extension(name) {
        Some(ext) => ext == wanted.to_owned(),
        None => false,
    }
}

} // verus!
