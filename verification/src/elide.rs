//! Character-counted text truncation: counting is by `char`, text that fits is
//! returned unchanged, and the marker is appended only when something was cut.

use vstd::prelude::*;

use crate::chars::chars_of;

verus! {

/// The truncation of `text` to `max_chars` characters: the text itself when it
/// fits, else its first `max_chars` characters followed by `marker`.
pub open spec fn truncated(text: Seq<char>, max_chars: nat, marker: Seq<char>) -> Seq<char> {
    if text.len() <= max_chars {
        text
    } else {
        text.take(max_chars as int) + marker
    }
}

/// The truncation laws: text that fits comes back unchanged; otherwise the
/// result keeps exactly the first `max_chars` characters, whatever the marker,
/// and ends with the marker; so with `max_chars == 0` a non-empty text becomes
/// exactly the marker.
pub proof fn lemma_truncated(text: Seq<char>, max_chars: nat, marker: Seq<char>)
    ensures
        text.len() <= max_chars ==> truncated(text, max_chars, marker) == text,
        text.len() > max_chars ==> truncated(text, max_chars, marker).take(max_chars as int)
            == text.take(max_chars as int),
        text.len() > max_chars ==> truncated(text, max_chars, marker).skip(max_chars as int)
            == marker,
        text.len() > max_chars ==> truncated(text, max_chars, marker).len() == max_chars
            + marker.len(),
        text.len() > 0 && max_chars == 0 ==> truncated(text, max_chars, marker) == marker,
{
    if text.len() > max_chars {
        let r = truncated(text, max_chars, marker);
        assert(r.take(max_chars as int) =~= text.take(max_chars as int));
        assert(r.skip(max_chars as int) =~= marker);
        if max_chars == 0 {
            assert(r =~= marker);
        }
    }
}

/// Truncate `text` to at most `max_chars` characters, appending `marker` when
/// characters were dropped.
pub fn truncate(text: &str, max_chars: usize, marker: &str) -> (out: String)
    ensures
        out@ == truncated(text@, max_chars as nat, marker@),
{
    let cs = chars_of(text);
    if cs.len() <= max_chars {
        return String::from_str(text);
    }
    let mut out = String::new();
    let mut i: usize = 0;
    while i < max_chars
        invariant
            cs@ == text@,
            max_chars < cs.len(),
            i <= max_chars,
            out@ == text@.take(i as int),
        decreases max_chars - i,
    {
        out.push(cs[i]);
        assert(text@.take(i + 1) =~= text@.take(i as int).push(text@[i as int]));
        i += 1;
    }
    out.append(marker);
    out
}

} // verus!
