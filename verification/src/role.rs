//! Toolkit role-name normalization: the wire vocabulary of an accessible node's role.

use vstd::prelude::*;

use crate::chars::{ascii_lower, char_ascii_lower, char_is_ascii_alnum, chars_of, is_ascii_alnum};

verus! {

/// The normalized role of the first `n` characters of `s`: every ASCII letter or
/// digit, lowercased, in order, with one `_` before a letter or digit that follows
/// a character outside `[A-Za-z0-9]`, unless nothing has been kept yet.
pub open spec fn normalized_prefix(s: Seq<char>, n: int) -> Seq<char>
    decreases n,
{
    if n <= 0 {
        Seq::empty()
    } else {
        let kept = normalized_prefix(s, n - 1);
        let c = s[n - 1];
        if !is_ascii_alnum(c) {
            kept
        } else if n >= 2 && !is_ascii_alnum(s[n - 2]) && kept.len() > 0 {
            kept.push('_').push(ascii_lower(c))
        } else {
            kept.push(ascii_lower(c))
        }
    }
}

/// The normalized role name of `s` (see [`normalized_prefix`]).
pub open spec fn normalized_role(s: Seq<char>) -> Seq<char> {
    normalized_prefix(s, s.len() as int)
}

/// Normalize a toolkit role name to the wire form: lowercase, with every run of
/// characters outside `[a-z0-9]` collapsed to a single `_`, and no leading or
/// trailing `_`.
pub fn normalize_role(raw: &str) -> (out: String)
    ensures
        out@ == normalized_role(raw@),
{
    let cs = chars_of(raw);
    let mut out = String::new();
    let mut pending_separator = false;
    let mut i: usize = 0;
    while i < cs.len()
        invariant
            cs@ == raw@,
            i <= cs.len(),
            out@ == normalized_prefix(raw@, i as int),
            pending_separator == (i >= 1 && !is_ascii_alnum(raw@[i - 1])),
        decreases cs.len() - i,
    {
        let ch = cs[i];
        if char_is_ascii_alnum(ch) {
            if pending_separator && out.as_str().unicode_len() > 0 {
                out.push('_');
            }
            pending_separator = false;
            out.push(char_ascii_lower(ch));
        } else {
            pending_separator = true;
        }
        i += 1;
    }
    out
}

/// Whether `c` may appear in a normalized role: a lowercase ASCII letter, an
/// ASCII digit or `_`.
pub open spec fn is_role_char(c: char) -> bool {
    ('a' <= c && c <= 'z') || ('0' <= c && c <= '9') || c == '_'
}

/// The wire form of a role: lowercase ASCII letters, digits and single `_`
/// separators, never leading or trailing.
pub open spec fn is_normal_role(t: Seq<char>) -> bool {
    &&& forall|i: int| 0 <= i < t.len() ==> is_role_char(#[trigger] t[i])
    &&& (t.len() > 0 ==> t[0] != '_' && t.last() != '_')
    &&& forall|i: int| #![trigger t[i]] 0 <= i < t.len() - 1 ==> !(t[i] == '_' && t[i + 1] == '_')
}

proof fn lemma_lower_is_role_char(c: char)
    requires
        is_ascii_alnum(c),
    ensures
        is_role_char(ascii_lower(c)),
        ascii_lower(c) != '_',
{
    if 'A' <= c && c <= 'Z' {
        let x = (c as u32) + 32;
        assert(97 <= x <= 122);
        assert('a' <= (x as char) && (x as char) <= 'z');
    }
}

proof fn lemma_normalized_prefix_normal(s: Seq<char>, n: int)
    requires
        0 <= n <= s.len(),
    ensures
        is_normal_role(normalized_prefix(s, n)),
    decreases n,
{
    if n > 0 {
        lemma_normalized_prefix_normal(s, n - 1);
        let kept = normalized_prefix(s, n - 1);
        let c = s[n - 1];
        if is_ascii_alnum(c) {
            lemma_lower_is_role_char(c);
            let r = normalized_prefix(s, n);
            if n >= 2 && !is_ascii_alnum(s[n - 2]) && kept.len() > 0 {
                assert(r == kept.push('_').push(ascii_lower(c)));
                assert forall|i: int| 0 <= i < r.len() implies is_role_char(#[trigger] r[i]) by {
                    if i < kept.len() {
                        assert(r[i] == kept[i]);
                    }
                }
                assert forall|i: int| #![trigger r[i]] 0 <= i < r.len() - 1 implies !(r[i] == '_' && r[i + 1] == '_') by {
                    if i < kept.len() - 1 {
                        assert(r[i] == kept[i] && r[i + 1] == kept[i + 1]);
                    } else if i == kept.len() - 1 {
                        assert(r[i] == kept.last());
                    }
                }
            } else {
                assert(r == kept.push(ascii_lower(c)));
                assert forall|i: int| 0 <= i < r.len() implies is_role_char(#[trigger] r[i]) by {
                    if i < kept.len() {
                        assert(r[i] == kept[i]);
                    }
                }
                assert forall|i: int| #![trigger r[i]] 0 <= i < r.len() - 1 implies !(r[i] == '_' && r[i + 1] == '_') by {
                    assert(r[i] == kept[i]);
                    if i + 1 < kept.len() {
                        assert(r[i + 1] == kept[i + 1]);
                    }
                }
            }
        }
    }
}

/// Normalization yields the wire form: lowercase ASCII letters, digits and
/// single `_` separators, none leading or trailing.
pub proof fn lemma_normalized_role_is_normal(s: Seq<char>)
    ensures
        is_normal_role(normalized_role(s)),
{
    lemma_normalized_prefix_normal(s, s.len() as int);
}

proof fn lemma_normal_prefix_fixed(t: Seq<char>, n: int)
    requires
        is_normal_role(t),
        0 <= n <= t.len(),
    ensures
        normalized_prefix(t, n) == (if n > 0 && t[n - 1] == '_' {
            t.take(n - 1)
        } else {
            t.take(n)
        }),
    decreases n,
{
    if n > 0 {
        lemma_normal_prefix_fixed(t, n - 1);
        let c = t[n - 1];
        assert(is_role_char(c));
        if c == '_' {
            assert(n >= 2);
            assert(!(t[n - 2] == '_' && t[n - 1] == '_'));
        } else {
            assert(is_ascii_alnum(c));
            assert(ascii_lower(c) == c);
            if n >= 2 && t[n - 2] == '_' {
                assert(n - 2 > 0);
                assert(t.take(n - 2).push('_').push(c) =~= t.take(n));
            } else {
                assert(t.take(n - 1).push(c) =~= t.take(n));
            }
        }
    }
}

/// A role already in the wire form is left as it is, so normalizing twice
/// changes nothing.
pub proof fn lemma_normalize_role_idempotent(s: Seq<char>)
    ensures
        normalized_role(normalized_role(s)) == normalized_role(s),
{
    let t = normalized_role(s);
    lemma_normalized_role_is_normal(s);
    lemma_normal_prefix_fixed(t, t.len() as int);
    assert(t.take(t.len() as int) =~= t);
}

} // verus!
