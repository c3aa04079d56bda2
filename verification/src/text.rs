//! Character classes and small text utilities shared by the other modules.

use vstd::prelude::*;

verus! {

/// The ASCII decimal digits.
pub open spec fn is_digit(c: char) -> bool {
    '0' <= c && c <= '9'
}

/// Whether `c` is one of the ASCII decimal digits.
pub fn digit(c: char) -> (out: bool)
    ensures
        out == is_digit(c),
{
    c >= '0' && c <= '9'
}

/// The Unicode `Alphabetic` property, as the standard library decides it.
pub uninterp spec fn is_alphabetic(c: char) -> bool;

/// The union of the Unicode `Alphabetic` property and the numeric general
/// categories, as the standard library decides it.
pub uninterp spec fn is_alphanumeric(c: char) -> bool;

/// The `Debug` rendering of a string slice: the text between double quotes,
/// with the characters that need it escaped.
pub uninterp spec fn quoted_text(s: Seq<char>) -> Seq<char>;

/// Calls `char::is_alphabetic`. The contract names the answer and claims
/// nothing else of it.
#[verifier::external_body]
pub(crate) fn alphabetic(c: char) -> (out: bool)
    ensures
        out == is_alphabetic(c),
{
    c.is_alphabetic()
}

/// Calls `char::is_alphanumeric`. The contract names the answer and claims
/// nothing else of it.
#[verifier::external_body]
pub(crate) fn alphanumeric(c: char) -> (out: bool)
    ensures
        out == is_alphanumeric(c),
{
    c.is_alphanumeric()
}

/// Formats `s` with `{:?}`. The contract names the resulting text and claims
/// nothing else of it.
#[verifier::external_body]
pub(crate) fn quoted(s: &str) -> (out: String)
    ensures
        out@ == quoted_text(s@),
{
    format!("{:?}", s)
}

/// Calls `String::from_iter` on the characters of `chars`. The contract
/// claims that the string holds exactly those characters, in order.
#[verifier::external_body]
pub(crate) fn string_of(chars: &Vec<char>) -> (out: String)
    ensures
        out@ == chars@,
{
    String::from_iter(chars)
}

/// The characters of `s`, in order.
pub fn chars_of(s: &str) -> (out: Vec<char>)
    ensures
        out@ == s@,
{
    let mut out: Vec<char> = Vec::new();
    for c in it: s.chars()
        invariant
            it.seq() == s@,
            out@ == it.seq().take(it.index()),
    {
        out.push(c);
    }
    out
}

/// The characters of `chars` from `from` up to, not including, `to`.
pub fn slice_of(chars: &Vec<char>, from: usize, to: usize) -> (out: String)
    requires
        from <= to <= chars@.len(),
    ensures
        out@ == chars@.subrange(from as int, to as int),
{
    let mut part: Vec<char> = Vec::new();
    let mut i: usize = from;
    while i < to
        invariant
            from <= i <= to <= chars@.len(),
            part@ == chars@.subrange(from as int, i as int),
        decreases to - i,
    {
        part.push(chars[i]);
        i += 1;
    }
    string_of(&part)
}

/// The character that writes the digit `d`.
pub open spec fn digit_char(d: nat) -> char {
    if d == 0 {
        '0'
    } else if d == 1 {
        '1'
    } else if d == 2 {
        '2'
    } else if d == 3 {
        '3'
    } else if d == 4 {
        '4'
    } else if d == 5 {
        '5'
    } else if d == 6 {
        '6'
    } else if d == 7 {
        '7'
    } else if d == 8 {
        '8'
    } else {
        '9'
    }
}

/// The decimal numeral of `n`, without leading zeros.
pub open spec fn decimal_text(n: nat) -> Seq<char>
    decreases n,
{
    if n < 10 {
        seq![digit_char(n)]
    } else {
        decimal_text(n / 10).push(digit_char(n % 10))
    }
}

fn digit_of(d: usize) -> (out: char)
    requires
        d < 10,
    ensures
        out == digit_char(d as nat),
{
    if d == 0 {
        '0'
    } else if d == 1 {
        '1'
    } else if d == 2 {
        '2'
    } else if d == 3 {
        '3'
    } else if d == 4 {
        '4'
    } else if d == 5 {
        '5'
    } else if d == 6 {
        '6'
    } else if d == 7 {
        '7'
    } else if d == 8 {
        '8'
    } else {
        '9'
    }
}

/// Writes `n` in decimal.
pub fn decimal(n: usize) -> (out: String)
    ensures
        out@ == decimal_text(n as nat),
{
    let mut digits: Vec<char> = Vec::new();
    digits.push(digit_of(n % 10));
    let mut rest: usize = n / 10;
    while rest > 0
        invariant
            decimal_text(n as nat) == (if rest > 0 {
                decimal_text(rest as nat)
            } else {
                Seq::<char>::empty()
            }) + digits@,
        decreases rest,
    {
        digits.insert(0, digit_of(rest % 10));
        rest = rest / 10;
    }
    string_of(&digits)
}

} // verus!
