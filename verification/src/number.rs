//! Numbers as the interpreter carries them.
//!
//! A number is an IEEE-754 binary64 value held as its bit pattern: one sign
//! bit, eleven exponent bits, fifty-two fraction bits. What can be decided on
//! the bit pattern alone (sign change, the test for zero, equality, the total
//! order) is decided here. Rounding arithmetic and the reading of numerals are
//! asked of the embedding program, one [`NumberOp`] at a time.

use vstd::prelude::*;
use crate::text::{is_digit, digit};

verus! {

/// The sign bit of a binary64 bit pattern.
pub const SIGN_BIT: u64 = 0x8000_0000_0000_0000;

/// The bit pattern of positive infinity: every larger magnitude is a NaN.
pub const INFINITY_BITS: u64 = 0x7ff0_0000_0000_0000;

/// The bit pattern without its sign bit.
pub open spec fn magnitude(bits: u64) -> u64 {
    if bits >= SIGN_BIT {
        (bits - SIGN_BIT) as u64
    } else {
        bits
    }
}

/// Positive or negative zero.
pub open spec fn is_zero(bits: u64) -> bool {
    magnitude(bits) == 0
}

/// Any NaN, quiet or signalling, of either sign.
pub open spec fn is_nan(bits: u64) -> bool {
    magnitude(bits) > INFINITY_BITS
}

/// The number with its sign bit flipped.
pub open spec fn negated(bits: u64) -> u64 {
    if bits >= SIGN_BIT {
        (bits - SIGN_BIT) as u64
    } else {
        (bits + SIGN_BIT) as u64
    }
}

/// IEEE-754 equality: a NaN equals nothing, the two zeros are equal, and
/// every other number equals only itself.
pub open spec fn same_number(a: u64, b: u64) -> bool {
    !is_nan(a) && !is_nan(b) && (a == b || (is_zero(a) && is_zero(b)))
}

/// The place of a bit pattern in the IEEE-754 total order: negative numbers
/// in reverse order of magnitude, below the positive ones.
pub open spec fn order_key(bits: u64) -> int {
    if bits >= SIGN_BIT {
        SIGN_BIT - 1 - bits
    } else {
        bits as int
    }
}

/// Whether `bits` is positive or negative zero.
pub fn zero(bits: u64) -> (out: bool)
    ensures
        out == is_zero(bits),
{
    bits == 0 || bits == SIGN_BIT
}

/// Whether `bits` is a NaN.
pub fn nan(bits: u64) -> (out: bool)
    ensures
        out == is_nan(bits),
{
    if bits >= SIGN_BIT {
        bits - SIGN_BIT > INFINITY_BITS
    } else {
        bits > INFINITY_BITS
    }
}

/// Flips the sign of `bits`.
pub fn negate(bits: u64) -> (out: u64)
    ensures
        out == negated(bits),
{
    if bits >= SIGN_BIT {
        bits - SIGN_BIT
    } else {
        bits + SIGN_BIT
    }
}

/// IEEE-754 equality of two bit patterns.
pub fn equal(a: u64, b: u64) -> (out: bool)
    ensures
        out == same_number(a, b),
{
    !nan(a) && !nan(b) && (a == b || (zero(a) && zero(b)))
}

/// Whether `a` comes strictly before `b` in the total order.
pub fn before(a: u64, b: u64) -> (out: bool)
    ensures
        out == (order_key(a) < order_key(b)),
{
    if a >= SIGN_BIT {
        if b >= SIGN_BIT {
            a > b
        } else {
            true
        }
    } else {
        if b >= SIGN_BIT {
            false
        } else {
            a < b
        }
    }
}

/// A decimal numeral: one or more digits, optionally followed by a point and
/// one or more digits.
pub open spec fn is_numeral(s: Seq<char>) -> bool {
    exists|k: int| numeral_with_whole(s, k)
}

/// `s` is a numeral whose whole part is its first `k` characters.
pub open spec fn numeral_with_whole(s: Seq<char>, k: int) -> bool {
    &&& 0 < k <= s.len()
    &&& forall|i: int| 0 <= i < k ==> is_digit(#[trigger] s[i])
    &&& k < s.len() ==> {
        &&& s[k] == '.'
        &&& k + 1 < s.len()
        &&& forall|i: int| k < i < s.len() ==> is_digit(#[trigger] s[i])
    }
}

/// The text of a numeric literal. A value of this type always holds a
/// well-formed decimal numeral.
#[derive(Debug)]
pub struct Numeral {
    text: String,
}

impl View for Numeral {
    type V = Seq<char>;

    closed spec fn view(&self) -> Seq<char> {
        self.text@
    }
}

impl Numeral {
    #[verifier::type_invariant]
    spec fn well_formed(&self) -> bool {
        is_numeral(self.text@)
    }

    /// Accepts `text` if and only if it is a decimal numeral.
    pub fn new(text: &str) -> (out: Option<Numeral>)
        ensures
            out is Some <==> is_numeral(text@),
            out matches Some(n) ==> n@ == text@,
    {
        let len = text.unicode_len();
        let mut k: usize = 0;
        while k < len && digit(text.get_char(k))
            invariant
                len == text@.len(),
                k <= len,
                forall|i: int| 0 <= i < k ==> is_digit(#[trigger] text@[i]),
            decreases len - k,
        {
            k += 1;
        }
        if k == 0 {
            assert forall|j: int| !numeral_with_whole(text@, j) by {
                if numeral_with_whole(text@, j) {
                    assert(is_digit(text@[0]));
                }
            }
            return None;
        }
        if k < len {
            if text.get_char(k) != '.' || k + 1 >= len {
                assert forall|j: int| !numeral_with_whole(text@, j) by {
                    if numeral_with_whole(text@, j) {
                        if j < k {
                            assert(is_digit(text@[j]));
                        } else if j > k {
                            assert(is_digit(text@[k as int]));
                        }
                    }
                }
                return None;
            }
            let mut i: usize = k + 1;
            while i < len
                invariant
                    len == text@.len(),
                    k < i <= len,
                    text@[k as int] == '.',
                    forall|j: int| 0 <= j < k ==> is_digit(#[trigger] text@[j]),
                    forall|j: int| k < j < i ==> is_digit(#[trigger] text@[j]),
                decreases len - i,
            {
                if !digit(text.get_char(i)) {
                    assert forall|j: int| !numeral_with_whole(text@, j) by {
                        if numeral_with_whole(text@, j) {
                            if j < k {
                                assert(is_digit(text@[j]));
                            } else if j > k {
                                assert(is_digit(text@[k as int]));
                            } else {
                                assert(is_digit(text@[i as int]));
                            }
                        }
                    }
                    return None;
                }
                i += 1;
            }
        }
        assert(numeral_with_whole(text@, k as int));
        Some(Numeral { text: text.to_string() })
    }

    /// Wraps a text already known to be a numeral.
    pub(crate) fn from_text(text: String) -> (out: Numeral)
        requires
            is_numeral(text@),
        ensures
            out@ == text@,
    {
        Numeral { text }
    }

    /// The numeral as written.
    pub fn text(&self) -> (out: &str)
        ensures
            out@ == self@,
            is_numeral(out@),
    {
        proof {
            use_type_invariant(self);
        }
        self.text.as_str()
    }
}

impl Clone for Numeral {
    fn clone(&self) -> (out: Self)
        ensures
            out == *self,
    {
        proof {
            use_type_invariant(self);
        }
        Numeral { text: self.text.clone() }
    }
}

/// One request to the embedding program's arithmetic. The answer to each is
/// the bit pattern of a binary64 number.
#[derive(Debug)]
pub enum NumberOp {
    /// The number nearest to a decimal numeral.
    Read(Numeral),
    /// The rounded sum of two numbers.
    Add(u64, u64),
    /// The rounded difference of two numbers.
    Sub(u64, u64),
    /// The rounded product of two numbers.
    Mul(u64, u64),
    /// The rounded quotient of two numbers.
    Div(u64, u64),
}

} // verus!
