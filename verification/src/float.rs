//! Floating-point numbers as IEEE-754 binary64 bit patterns: what the library
//! decides about them itself, and the requests by which it leaves their
//! arithmetic to the caller.
use vstd::prelude::*;

use crate::ordering::Order;

verus! {

/// The sign bit of a binary64 pattern.
pub const SIGN_BIT: u64 = 0x8000_0000_0000_0000;

/// The pattern of positive infinity: every pattern whose magnitude is larger
/// is a NaN.
pub const INFINITY_BITS: u64 = 0x7FF0_0000_0000_0000;

/// The pattern without its sign bit.
pub open spec fn float_magnitude(bits: u64) -> int {
    if bits >= SIGN_BIT {
        bits - SIGN_BIT
    } else {
        bits as int
    }
}

/// Whether the pattern is a NaN.
pub open spec fn float_is_nan(bits: u64) -> bool {
    float_magnitude(bits) > INFINITY_BITS
}

/// Whether the pattern is positive or negative zero.
pub open spec fn float_is_zero(bits: u64) -> bool {
    float_magnitude(bits) == 0
}

/// An integer that orders the patterns other than NaN as IEEE-754 orders the
/// numbers: the magnitude, negated under the sign bit, so that both zeros
/// rank alike.
pub open spec fn float_rank(bits: u64) -> int {
    if bits >= SIGN_BIT {
        -float_magnitude(bits)
    } else {
        float_magnitude(bits)
    }
}

/// The IEEE-754 order of two patterns: none where either is a NaN.
pub open spec fn float_order(a: u64, b: u64) -> Option<Order> {
    if float_is_nan(a) || float_is_nan(b) {
        None
    } else if float_rank(a) < float_rank(b) {
        Some(Order::Less)
    } else if float_rank(a) > float_rank(b) {
        Some(Order::Greater)
    } else {
        Some(Order::Equal)
    }
}

/// IEEE-754 equality of two patterns: a NaN equals nothing, the two zeros
/// equal each other.
pub open spec fn float_equal(a: u64, b: u64) -> bool {
    float_order(a, b) == Some(Order::Equal)
}

/// The pattern with its sign bit flipped: the negated number.
pub open spec fn float_negated(bits: u64) -> u64 {
    if bits >= SIGN_BIT {
        (bits - SIGN_BIT) as u64
    } else {
        (bits + SIGN_BIT) as u64
    }
}

/// Whether the pattern is a NaN.
pub fn is_nan(bits: u64) -> (r: bool)
    ensures
        r == float_is_nan(bits),
{
    let magnitude = if bits >= SIGN_BIT {
        bits - SIGN_BIT
    } else {
        bits
    };
    magnitude > INFINITY_BITS
}

/// Whether the pattern is positive or negative zero.
pub fn is_zero(bits: u64) -> (r: bool)
    ensures
        r == float_is_zero(bits),
{
    bits == 0 || bits == SIGN_BIT
}

/// Negates the number: flips the sign bit.
pub fn negate(bits: u64) -> (r: u64)
    ensures
        r == float_negated(bits),
{
    if bits >= SIGN_BIT {
        bits - SIGN_BIT
    } else {
        bits + SIGN_BIT
    }
}

/// The rank of the pattern.
fn rank(bits: u64) -> (r: i128)
    ensures
        r == float_rank(bits),
{
    if bits >= SIGN_BIT {
        -((bits - SIGN_BIT) as i128)
    } else {
        bits as i128
    }
}

/// Orders two numbers as IEEE-754 does.
pub fn order_floats(a: u64, b: u64) -> (r: Option<Order>)
    ensures
        r == float_order(a, b),
{
    if is_nan(a) || is_nan(b) {
        None
    } else {
        let ra = rank(a);
        let rb = rank(b);
        if ra < rb {
            Some(Order::Less)
        } else if ra > rb {
            Some(Order::Greater)
        } else {
            Some(Order::Equal)
        }
    }
}

/// A floating-point operation that an evaluation needs the result of.
/// Operands and results are binary64 bit patterns.
#[derive(Debug, PartialEq, Eq)]
pub enum FloatRequest {
    /// The number nearest to a decimal literal, given as `digits.digits`.
    Literal(String),
    Add(u64, u64),
    Sub(u64, u64),
    Mul(u64, u64),
    Div(u64, u64),
    /// The remainder of a division that truncates toward zero.
    Rem(u64, u64),
    /// The first number raised to the power of the second.
    Pow(u64, u64),
    /// The number raised to the power of the number nearest to an integer.
    PowInt(u64, i64),
}

/// What a [`FloatRequest`] is.
pub ghost enum FloatRequestView {
    Literal(Seq<char>),
    Add(u64, u64),
    Sub(u64, u64),
    Mul(u64, u64),
    Div(u64, u64),
    Rem(u64, u64),
    Pow(u64, u64),
    PowInt(u64, i64),
}

impl View for FloatRequest {
    type V = FloatRequestView;

    open spec fn view(&self) -> FloatRequestView {
        match self {
            FloatRequest::Literal(text) => FloatRequestView::Literal(text@),
            FloatRequest::Add(a, b) => FloatRequestView::Add(*a, *b),
            FloatRequest::Sub(a, b) => FloatRequestView::Sub(*a, *b),
            FloatRequest::Mul(a, b) => FloatRequestView::Mul(*a, *b),
            FloatRequest::Div(a, b) => FloatRequestView::Div(*a, *b),
            FloatRequest::Rem(a, b) => FloatRequestView::Rem(*a, *b),
            FloatRequest::Pow(a, b) => FloatRequestView::Pow(*a, *b),
            FloatRequest::PowInt(a, b) => FloatRequestView::PowInt(*a, *b),
        }
    }
}

} // verus!
