//! Small text builders: decimal numbers and subscript digits.

use vstd::prelude::*;
use vstd::string::StringExecFns;

verus! {

/// The subscript glyph for a decimal digit; any other character is kept.
pub open spec fn subscript_char(c: char) -> char {
    if c == '0' { '₀' }
    else if c == '1' { '₁' }
    else if c == '2' { '₂' }
    else if c == '3' { '₃' }
    else if c == '4' { '₄' }
    else if c == '5' { '₅' }
    else if c == '6' { '₆' }
    else if c == '7' { '₇' }
    else if c == '8' { '₈' }
    else if c == '9' { '₉' }
    else { c }
}

/// Each character of `s` in order, digits turned into subscript glyphs.
pub open spec fn subscript_of(s: Seq<char>) -> Seq<char> {
    s.map_values(|c: char| subscript_char(c))
}

/// The character of a digit value below ten.
pub open spec fn digit_char(d: nat) -> char {
    if d == 0 { '0' }
    else if d == 1 { '1' }
    else if d == 2 { '2' }
    else if d == 3 { '3' }
    else if d == 4 { '4' }
    else if d == 5 { '5' }
    else if d == 6 { '6' }
    else if d == 7 { '7' }
    else if d == 8 { '8' }
    else { '9' }
}

/// The decimal notation of `n`, without leading zeros.
pub open spec fn decimal(n: nat) -> Seq<char>
    decreases n,
{
    if n < 10 {
        seq![digit_char(n)]
    } else {
        decimal(n / 10).push(digit_char(n % 10))
    }
}

/// Relies on `String::push`: the character is added at the end.
#[verifier::external_body]
pub(crate) fn push_char(s: &mut String, c: char)
    ensures
        final(s)@ == old(s)@.push(c),
{
    s.push(c)
}

/// Appends `s` to `buffer`, each decimal digit written as its subscript glyph.
pub fn write_subscript(buffer: &mut String, s: &str)
    ensures
        final(buffer)@ == old(buffer)@ + subscript_of(s@),
{
    let n = s.unicode_len();
    let mut i: usize = 0;
    while i < n
        invariant
            n == s@.len(),
            0 <= i <= n,
            buffer@ == old(buffer)@ + subscript_of(s@.take(i as int)),
        decreases n - i,
    {
        let c = s.get_char(i);
        let g = if c == '0' { '₀' }
            else if c == '1' { '₁' }
            else if c == '2' { '₂' }
            else if c == '3' { '₃' }
            else if c == '4' { '₄' }
            else if c == '5' { '₅' }
            else if c == '6' { '₆' }
            else if c == '7' { '₇' }
            else if c == '8' { '₈' }
            else if c == '9' { '₉' }
            else { c };
        push_char(buffer, g);
        proof {
            assert(s@.take(i + 1) == s@.take(i as int).push(c));
            assert(subscript_of(s@.take(i + 1)) == subscript_of(s@.take(i as int)).push(g));
        }
        i = i + 1;
    }
    assert(s@.take(n as int) == s@);
}

/// The character of one decimal digit.
fn digit_text(d: usize) -> (r: char)
    requires
        d < 10,
    ensures
        r == digit_char(d as nat),
{
    if d == 0 { '0' }
    else if d == 1 { '1' }
    else if d == 2 { '2' }
    else if d == 3 { '3' }
    else if d == 4 { '4' }
    else if d == 5 { '5' }
    else if d == 6 { '6' }
    else if d == 7 { '7' }
    else if d == 8 { '8' }
    else { '9' }
}

/// Appends the decimal notation of `n` to `buffer`.
pub fn write_decimal(buffer: &mut String, n: usize)
    ensures
        final(buffer)@ == old(buffer)@ + decimal(n as nat),
    decreases n,
{
    if n < 10 {
        push_char(buffer, digit_text(n));
        assert(old(buffer)@.push(digit_char(n as nat)) == old(buffer)@ + seq![digit_char(n as nat)]);
    } else {
        write_decimal(buffer, n / 10);
        push_char(buffer, digit_text(n % 10));
        assert(old(buffer)@ + decimal((n / 10) as nat) + seq![digit_char((n % 10) as nat)]
            == old(buffer)@ + decimal((n / 10) as nat).push(digit_char((n % 10) as nat)));
    }
}

/// The decimal notation of `n` as a new string.
pub fn decimal_text(n: usize) -> (r: String)
    ensures
        r@ == decimal(n as nat),
{
    let mut s = String::new();
    write_decimal(&mut s, n);
    assert(s@ == Seq::<char>::empty() + decimal(n as nat));
    s
}

} // verus!
