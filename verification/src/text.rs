//! Characters and strings: what the standard library does for the solvers.

use vstd::prelude::*;

verus! {

/// Whether the standard library counts a character as alphanumeric: a
/// letter or a number of any script.
pub uninterp spec fn is_alphanumeric(c: char) -> bool;

/// Whether a character is an ASCII character.
pub open spec fn is_ascii(c: char) -> bool {
    c <= '\x7f'
}

/// Whether a character is an ASCII digit or an ASCII letter.
pub open spec fn is_ascii_alphanumeric(c: char) -> bool {
    ||| '0' <= c <= '9'
    ||| 'a' <= c <= 'z'
    ||| 'A' <= c <= 'Z'
}

/// The upper-case form of an ASCII letter; any other character unchanged.
pub open spec fn ascii_uppercase(c: char) -> char {
    if 'a' <= c <= 'z' {
        ((c as u32) - 32) as char
    } else {
        c
    }
}

/// The decimal digit of a value below 10.
pub open spec fn decimal_digit(value: nat) -> char {
    (48 + value) as char
}

/// A number in decimal, without leading zeros.
pub open spec fn decimal_digits(n: nat) -> Seq<char>
    decreases n,
{
    if n < 10 {
        seq![decimal_digit(n)]
    } else {
        decimal_digits(n / 10).push(decimal_digit(n % 10))
    }
}

/// Appends a number in decimal to a text.
pub fn push_decimal(text: &mut String, n: u64)
    ensures
        final(text)@ == old(text)@ + decimal_digits(n as nat),
    decreases n,
{
    if n >= 10 {
        push_decimal(text, n / 10);
    }
    push_char(text, (48 + (n % 10) as u8) as char);
    proof {
        assert(final(text)@ =~= old(text)@ + decimal_digits(n as nat));
    }
}

/// Calls `String::push`, which appends one character.
#[verifier::external_body]
pub(crate) fn push_char(text: &mut String, c: char)
    ensures
        final(text)@ == old(text)@.push(c),
{
    text.push(c)
}

/// Calls `char::is_alphanumeric`. Of an ASCII character it holds exactly
/// when the character is a digit or a letter.
#[verifier::external_body]
pub(crate) fn char_is_alphanumeric(c: char) -> (yes: bool)
    ensures
        yes == is_alphanumeric(c),
        is_ascii(c) ==> yes == is_ascii_alphanumeric(c),
{
    c.is_alphanumeric()
}

/// Calls `char::to_ascii_uppercase`, which maps the letters `a` to `z` to
/// `A` to `Z` and leaves every other character as it is.
#[verifier::external_body]
pub(crate) fn char_to_ascii_uppercase(c: char) -> (upper: char)
    ensures
        upper == ascii_uppercase(c),
{
    c.to_ascii_uppercase()
}

/// Calls `str::eq`, which holds when both hold the same characters.
#[verifier::external_body]
pub(crate) fn str_eq(a: &str, b: &str) -> (same: bool)
    ensures
        same == (a@ == b@),
{
    a == b
}

} // verus!
