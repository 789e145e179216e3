//! Numbers as bit patterns of IEEE-754 doubles: what can be decided of a
//! double without floating-point arithmetic.
use vstd::prelude::*;

verus! {

/// The bit that holds the sign.
pub const SIGN_BIT: u64 = 0x8000_0000_0000_0000;

/// The bit pattern of positive infinity: all exponent bits, no fraction bit.
pub const INFINITY: u64 = 0x7ff0_0000_0000_0000;

/// The bits without the sign: exponent and fraction.
pub open spec fn magnitude(bits: u64) -> int {
    if bits >= SIGN_BIT {
        bits - SIGN_BIT
    } else {
        bits as int
    }
}

/// Not a number: all exponent bits and some fraction bit.
pub open spec fn is_nan(bits: u64) -> bool {
    magnitude(bits) > INFINITY
}

/// An integer that orders the doubles that are numbers as their values
/// are ordered; the two zeros share the key 0.
pub open spec fn order_key(bits: u64) -> int {
    if bits >= SIGN_BIT {
        -magnitude(bits)
    } else {
        magnitude(bits)
    }
}

/// `a == b` on doubles: false if either is not a number.
pub open spec fn number_eq(a: u64, b: u64) -> bool {
    !is_nan(a) && !is_nan(b) && order_key(a) == order_key(b)
}

/// `a < b` on doubles: false if either is not a number.
pub open spec fn number_lt(a: u64, b: u64) -> bool {
    !is_nan(a) && !is_nan(b) && order_key(a) < order_key(b)
}

/// `a <= b` on doubles: false if either is not a number.
pub open spec fn number_le(a: u64, b: u64) -> bool {
    !is_nan(a) && !is_nan(b) && order_key(a) <= order_key(b)
}

/// `-a` on doubles: the sign bit flipped.
pub open spec fn negated(bits: u64) -> u64 {
    if bits >= SIGN_BIT {
        (bits - SIGN_BIT) as u64
    } else {
        (bits + SIGN_BIT) as u64
    }
}

/// Whether a double is not a number.
pub fn not_a_number(bits: u64) -> (r: bool)
    ensures
        r == is_nan(bits),
{
    let magnitude: u64 = if bits >= SIGN_BIT {
        bits - SIGN_BIT
    } else {
        bits
    };
    magnitude > INFINITY
}

/// The ordering key of a double.
pub fn key(bits: u64) -> (r: i128)
    ensures
        r == order_key(bits),
{
    if bits >= SIGN_BIT {
        -((bits - SIGN_BIT) as i128)
    } else {
        bits as i128
    }
}

/// `a == b` on doubles.
pub fn equal(a: u64, b: u64) -> (r: bool)
    ensures
        r == number_eq(a, b),
{
    !not_a_number(a) && !not_a_number(b) && key(a) == key(b)
}

/// `a < b` on doubles.
pub fn less(a: u64, b: u64) -> (r: bool)
    ensures
        r == number_lt(a, b),
{
    !not_a_number(a) && !not_a_number(b) && key(a) < key(b)
}

/// `a <= b` on doubles.
pub fn less_equal(a: u64, b: u64) -> (r: bool)
    ensures
        r == number_le(a, b),
{
    !not_a_number(a) && !not_a_number(b) && key(a) <= key(b)
}

/// `-a` on doubles.
pub fn negate(bits: u64) -> (r: u64)
    ensures
        r == negated(bits),
{
    if bits >= SIGN_BIT {
        bits - SIGN_BIT
    } else {
        bits + SIGN_BIT
    }
}

/// The text of a number as it is printed, given the text that writes the
/// double: a final `.0` is left out.
pub open spec fn printed(text: Seq<char>) -> Seq<char> {
    if text.len() >= 2 && text[text.len() - 2] == '.' && text[text.len() - 1] == '0' {
        text.subrange(0, text.len() - 2)
    } else {
        text
    }
}

/// The text of a number as it is printed, given the text that writes the
/// double.
pub fn number_text(text: &str) -> (r: String)
    ensures
        r@ == printed(text@),
{
    let n: usize = text.unicode_len();
    if n >= 2 && text.get_char(n - 2) == '.' && text.get_char(n - 1) == '0' {
        String::from_str(text.substring_char(0, n - 2))
    } else {
        String::from_str(text)
    }
}

} // verus!
