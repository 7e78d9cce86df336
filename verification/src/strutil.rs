//! Small string helpers: conversions between `String`, `&str` and
//! `Vec<char>`, and the decimal rendering of machine integers.
//!
//! The specification side is ordinary spec functions over `Seq<char>`;
//! the few places where executable code must lean on the standard
//! library (rendering an integer, collecting characters) are trusted
//! wrappers whose contracts state the result exactly.

use vstd::prelude::*;

verus! {

/// The decimal digits of a non-negative integer, most significant first.
pub open spec fn spec_nat_digits(n: int) -> Seq<char>
    recommends
        n >= 0,
    decreases n,
{
    if n <= 9 {
        seq![spec_digit_char(n)]
    } else {
        spec_nat_digits(n / 10).push(spec_digit_char(n % 10))
    }
}

/// The character for a single decimal digit.
pub open spec fn spec_digit_char(d: int) -> char {
    if d == 0 {
        '0'
    } else if d == 1 {
        '1'
    } else if d == 2 {
        '2'
    } else if d == 3 {
        '3'
    } else if d == 4 {
        '4'
    } else if d == 5 {
        '5'
    } else if d == 6 {
        '6'
    } else if d == 7 {
        '7'
    } else if d == 8 {
        '8'
    } else {
        '9'
    }
}

/// The decimal rendering of a signed integer: a `-` sign for negative
/// values, then the digits without padding.
pub open spec fn spec_int_str(n: int) -> Seq<char> {
    if n < 0 {
        seq!['-'] + spec_nat_digits(-n)
    } else {
        spec_nat_digits(n)
    }
}

/// The character of one decimal digit.
fn digit_char(d: u64) -> (c: char)
    requires
        d <= 9,
    ensures
        c == spec_digit_char(d as int),
{
    if d == 0 {
        '0'
    } else if d == 1 {
        '1'
    } else if d == 2 {
        '2'
    } else if d == 3 {
        '3'
    } else if d == 4 {
        '4'
    } else if d == 5 {
        '5'
    } else if d == 6 {
        '6'
    } else if d == 7 {
        '7'
    } else if d == 8 {
        '8'
    } else {
        '9'
    }
}

/// Appends the decimal digits of a magnitude, most significant first.
fn push_digits(m: u64, buf: &mut Vec<char>)
    ensures
        final(buf)@ == old(buf)@ + spec_nat_digits(m as int),
    decreases m,
{
    let ghost b0 = buf@;
    if m <= 9 {
        buf.push(digit_char(m));
        proof {
            assert(buf@ =~= b0 + spec_nat_digits(m as int));
        }
    } else {
        push_digits(m / 10, buf);
        buf.push(digit_char(m % 10));
        proof {
            assert(buf@ =~= b0 + spec_nat_digits(m as int));
        }
    }
}

/// Renders a signed integer in decimal: a `-` sign for negative values,
/// then the digits without padding.
pub fn int_to_string(n: i64) -> (r: String)
    ensures
        r@ == spec_int_str(n as int),
{
    let mut buf: Vec<char> = Vec::new();
    if n < 0 {
        buf.push('-');
        let m: u64 = if n == i64::MIN {
            9223372036854775808u64
        } else {
            (0 - n) as u64
        };
        proof {
            assert(m as int == -(n as int));
        }
        push_digits(m, &mut buf);
        proof {
            assert(buf@ =~= seq!['-'] + spec_nat_digits(-(n as int)));
        }
    } else {
        push_digits(n as u64, &mut buf);
    }
    chars_to_string(&buf)
}

/// Relies on `char`'s `Display` implementation: the character itself.
#[verifier::external_body]
pub(crate) fn char_to_string(c: char) -> (r: String)
    ensures
        r@ == seq![c],
{
    format!("{}", c)
}

/// Relies on `String`'s `FromIterator<char>`: the characters in order.
#[verifier::external_body]
pub(crate) fn chars_to_string(v: &Vec<char>) -> (r: String)
    ensures
        r@ == v@,
{
    v.iter().collect()
}

/// What `char::is_alphabetic` answers: whether a character is a letter,
/// a fact of the character alone.
pub uninterp spec fn spec_is_alphabetic(c: char) -> bool;

/// Relies on `char::is_alphabetic`: the result depends on the character
/// alone.
#[verifier::external_body]
pub(crate) fn is_alphabetic_char(c: char) -> (r: bool)
    ensures
        r == spec_is_alphabetic(c),
{
    c.is_alphabetic()
}

/// Relies on `str::chars`: the string's characters in order.
#[verifier::external_body]
pub(crate) fn str_to_chars(s: &str) -> (r: Vec<char>)
    ensures
        r@ == s@,
{
    s.chars().collect()
}

/// Relies on `str::chars` and `Iterator::count`: the number of characters.
#[verifier::external_body]
pub(crate) fn char_count(s: &str) -> (r: usize)
    ensures
        r == s@.len(),
{
    s.chars().count()
}

} // verus!
