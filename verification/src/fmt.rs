//! Decimal rendering of integers.

use vstd::prelude::*;

verus! {

/// The ASCII digit for `d` (`0..=9`).
pub open spec fn digit_char(d: nat) -> char {
    if d == 0 { '0' }
    else if d == 1 { '1' }
    else if d == 2 { '2' }
    else if d == 3 { '3' }
    else if d == 4 { '4' }
    else if d == 5 { '5' }
    else if d == 6 { '6' }
    else if d == 7 { '7' }
    else if d == 8 { '8' }
    else { '9' }
}

/// The decimal spelling of `n`, most significant digit first, no leading zeros.
pub open spec fn decimal(n: nat) -> Seq<char>
    decreases n,
{
    if n < 10 {
        seq![digit_char(n)]
    } else {
        decimal(n / 10).push(digit_char(n % 10))
    }
}

/// The decimal spelling of a signed integer: a `-` before the magnitude when negative.
pub open spec fn signed_decimal(i: int) -> Seq<char> {
    if i < 0 {
        seq!['-'] + decimal((-i) as nat)
    } else {
        decimal(i as nat)
    }
}

/// Whether `c` is an ASCII digit.
pub open spec fn is_digit_char(c: char) -> bool {
    '0' <= c && c <= '9'
}

/// The number an ASCII digit stands for.
pub open spec fn digit_value(c: char) -> int {
    (c as int) - ('0' as int)
}

/// The number a string of ASCII digits spells, most significant first.
pub open spec fn digits_value(s: Seq<char>) -> int
    decreases s.len(),
{
    if s.len() == 0 {
        0
    } else {
        digits_value(s.drop_last()) * 10 + digit_value(s.last())
    }
}

/// The number a decimal text spells: digits, after a `-` for a negative one.
pub open spec fn signed_value(s: Seq<char>) -> int {
    if s.len() > 0 && s[0] == '-' {
        -digits_value(s.drop_first())
    } else {
        digits_value(s)
    }
}

/// The digit for `d` is an ASCII digit standing for `d`.
proof fn lemma_digit_char_value(d: nat)
    requires
        d < 10,
    ensures
        is_digit_char(digit_char(d)),
        digit_value(digit_char(d)) == d,
{
}

/// The decimal spelling of `n` is one or more ASCII digits, without a leading
/// zero unless it is `0` itself, and it reads back as `n`.
pub proof fn lemma_decimal_reads_back(n: nat)
    ensures
        decimal(n).len() >= 1,
        forall|k: int| 0 <= k < decimal(n).len() ==> is_digit_char(#[trigger] decimal(n)[k]),
        decimal(n)[0] == '0' ==> n == 0,
        digits_value(decimal(n)) == n,
    decreases n,
{
    if n >= 10 {
        lemma_decimal_reads_back(n / 10);
        lemma_digit_char_value(n % 10);
        let d = decimal(n);
        let p = decimal(n / 10);
        assert(d.drop_last() =~= p);
        assert(d[0] == p[0]);
        assert(d.last() == digit_char(n % 10));
        assert(digits_value(d) == digits_value(p) * 10 + digit_value(d.last()));
        assert(digits_value(d) == (n / 10) * 10 + (n % 10) as int);
        assert((n / 10) * 10 + n % 10 == n) by (nonlinear_arith);
        assert(n / 10 >= 1) by (nonlinear_arith)
            requires
                n >= 10,
        ;
    } else {
        lemma_digit_char_value(n);
        assert(decimal(n).drop_last() =~= Seq::<char>::empty());
        assert(digits_value(decimal(n)) == digits_value(Seq::<char>::empty()) * 10 + digit_value(decimal(n).last()));
    }
}

/// The signed decimal spelling of `i` begins with `-` exactly when `i` is
/// negative, holds ASCII digits after it, and reads back as `i`.
pub proof fn lemma_signed_decimal_reads_back(i: int)
    ensures
        signed_decimal(i).len() >= 1,
        (signed_decimal(i)[0] == '-') == (i < 0),
        forall|k: int| (if i < 0 { 1int } else { 0int }) <= k < signed_decimal(i).len() ==> is_digit_char(
            #[trigger] signed_decimal(i)[k],
        ),
        signed_value(signed_decimal(i)) == i,
{
    if i < 0 {
        let m = (-i) as nat;
        lemma_decimal_reads_back(m);
        let s = signed_decimal(i);
        assert(s.drop_first() =~= decimal(m));
        assert forall|k: int| 1 <= k < s.len() implies is_digit_char(#[trigger] s[k]) by {
            assert(s[k] == decimal(m)[k - 1]);
        }
    } else {
        lemma_decimal_reads_back(i as nat);
        assert(is_digit_char(decimal(i as nat)[0]));
    }
}

fn digit(d: u64) -> (c: char)
    requires
        d < 10,
    ensures
        c == digit_char(d as nat),
{
    if d == 0 { '0' }
    else if d == 1 { '1' }
    else if d == 2 { '2' }
    else if d == 3 { '3' }
    else if d == 4 { '4' }
    else if d == 5 { '5' }
    else if d == 6 { '6' }
    else if d == 7 { '7' }
    else if d == 8 { '8' }
    else { '9' }
}

/// Append the decimal spelling of `n` to `out`.
pub fn push_decimal(out: &mut String, n: u64)
    ensures
        final(out)@ == old(out)@ + decimal(n as nat),
    decreases n,
{
    if n >= 10 {
        push_decimal(out, n / 10);
    }
    let c = digit(n % 10);
    out.push(c);
    proof {
        if n >= 10 {
            assert(old(out)@ + decimal(n as nat) =~= (old(out)@ + decimal((n / 10) as nat)).push(c));
        } else {
            assert(old(out)@ + decimal(n as nat) =~= old(out)@.push(c));
        }
    }
}

/// Append the decimal spelling of a signed `n` to `out`.
pub fn push_signed_decimal(out: &mut String, n: i64)
    ensures
        final(out)@ == old(out)@ + signed_decimal(n as int),
{
    if n < 0 {
        out.push('-');
        let magnitude: u64 = if n == i64::MIN { 9_223_372_036_854_775_808u64 } else { (-n) as u64 };
        push_decimal(out, magnitude);
        assert(old(out)@ + signed_decimal(n as int) =~= old(out)@.push('-') + decimal(magnitude as nat));
    } else {
        push_decimal(out, n as u64);
    }
}

} // verus!
