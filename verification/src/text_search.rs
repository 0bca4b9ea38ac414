//! Case-insensitive substring search over Unicode text.

use vstd::prelude::*;

use crate::chars::chars_of;

verus! {

/// What `str::to_lowercase` returns for a string: its Unicode lowercase mapping.
pub uninterp spec fn unicode_lowercase(s: Seq<char>) -> Seq<char>;

/// Unicode lowercase of `s`.
///
/// Calls `str::to_lowercase`; its result is a function of the text alone (the
/// Unicode `Lowercase` mapping, with the final-sigma rule), named here
/// [`unicode_lowercase`] rather than spelled out.
#[verifier::external_body]
pub(crate) fn to_lowercase(s: &str) -> (r: String)
    ensures
        r@ == unicode_lowercase(s@),
{
    s.to_lowercase()
}

/// Whether `needle` occurs in `hay` as a contiguous run starting at `start`.
pub open spec fn occurs_at(hay: Seq<char>, needle: Seq<char>, start: int) -> bool {
    0 <= start && start + needle.len() <= hay.len() && hay.subrange(start, start + needle.len())
        == needle
}

/// Whether `needle` occurs in `hay` as a contiguous run.
pub open spec fn is_substring(needle: Seq<char>, hay: Seq<char>) -> bool {
    exists|start: int| occurs_at(hay, needle, start)
}

/// Case-insensitive substring test; an empty needle matches everything.
pub open spec fn contains_ignore_case_spec(haystack: Seq<char>, needle: Seq<char>) -> bool {
    needle.len() == 0 || is_substring(unicode_lowercase(needle), unicode_lowercase(haystack))
}

/// Whether `needle` occurs in `hay`.
pub fn seq_contains(hay: &Vec<char>, needle: &Vec<char>) -> (r: bool)
    ensures
        r == is_substring(needle@, hay@),
{
    if needle.len() > hay.len() {
        assert(forall|s: int| !occurs_at(hay@, needle@, s));
        return false;
    }
    let last = hay.len() - needle.len();
    let mut start: usize = 0;
    while start <= last
        invariant
            last == hay.len() - needle.len(),
            needle.len() <= hay.len(),
            start <= last + 1,
            forall|s: int| 0 <= s < start ==> !occurs_at(hay@, needle@, s),
        decreases last + 1 - start,
    {
        let mut j: usize = 0;
        while j < needle.len() && hay[start + j] == needle[j]
            invariant
                start <= last,
                last == hay.len() - needle.len(),
                j <= needle.len(),
                forall|k: int| 0 <= k < j ==> hay@[start + k] == needle@[k],
            decreases needle.len() - j,
        {
            j += 1;
        }
        if j == needle.len() {
            assert(hay@.subrange(start as int, start + needle.len()) =~= needle@);
            assert(occurs_at(hay@, needle@, start as int));
            return true;
        }
        assert(!occurs_at(hay@, needle@, start as int)) by {
            if occurs_at(hay@, needle@, start as int) {
                assert(hay@.subrange(start as int, start + needle.len())[j as int] == needle@[j as int]);
            }
        }
        start += 1;
    }
    assert forall|s: int| !occurs_at(hay@, needle@, s) by {
        if 0 <= s && s < start {
        } else if s >= start {
            assert(s + needle.len() > hay.len());
        }
    }
    false
}

/// Case-insensitive substring test; an empty needle matches everything.
pub fn contains_ignore_case(haystack: &str, needle: &str) -> (r: bool)
    ensures
        r == contains_ignore_case_spec(haystack@, needle@),
{
    if needle.unicode_len() == 0 {
        return true;
    }
    let hay = to_lowercase(haystack);
    let pat = to_lowercase(needle);
    let hay_chars = chars_of(hay.as_str());
    let pat_chars = chars_of(pat.as_str());
    seq_contains(&hay_chars, &pat_chars)
}

} // verus!
