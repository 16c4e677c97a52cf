//! What the operators do to values that have already been evaluated.
//!
//! Integer arithmetic is two's-complement arithmetic on 64 bits. Arithmetic on
//! two floating-point numbers is not done here: the operator answers with the
//! request that names it.
use vstd::prelude::*;
use vstd::string::StringExecFns;

use crate::float::{float_is_zero, float_negated, is_zero, negate, FloatRequest, FloatRequestView};
use crate::model::{
    kind_of, values_view, Error, ErrorView, EvalResult, Kind, Op, OpView, Value, ValueView,
};
use crate::ordering::{order_values, value_equal, value_order, values_equal, Order};

verus! {

/// What an evaluation result is.
pub type ResultView = Result<ValueView, ErrorView>;

/// Where an operation stands: at a result, or at the floating-point operation
/// whose answer it needs.
pub type Outcome = Result<EvalResult, FloatRequest>;

/// What an [`Outcome`] is.
pub type OutcomeView = Result<ResultView, FloatRequestView>;

/// The view of an outcome.
pub open spec fn outcome_view(o: Outcome) -> OutcomeView {
    match o {
        Ok(Ok(v)) => Ok(Ok(v@)),
        Ok(Err(e)) => Ok(Err(e@)),
        Err(request) => Err(request@),
    }
}

/// The 64-bit two's-complement integer that is congruent to `x` modulo 2^64.
pub open spec fn wrapped(x: int) -> i64 {
    let low = x % 0x1_0000_0000_0000_0000;
    if low > i64::MAX {
        (low - 0x1_0000_0000_0000_0000) as i64
    } else {
        low as i64
    }
}

/// The quotient of `x` by `d`, rounded toward zero.
pub open spec fn truncated_quotient(x: int, d: int) -> int
    recommends
        d != 0,
{
    let magnitude = (if x < 0 {
        -x
    } else {
        x
    }) / (if d < 0 {
        -d
    } else {
        d
    });
    if (x < 0) == (d < 0) {
        magnitude
    } else {
        -magnitude
    }
}

/// The remainder that the quotient rounded toward zero leaves: it has the
/// sign of `x`.
pub open spec fn truncated_remainder(x: int, d: int) -> int
    recommends
        d != 0,
{
    let magnitude = (if x < 0 {
        -x
    } else {
        x
    }) % (if d < 0 {
        -d
    } else {
        d
    });
    if x < 0 {
        -magnitude
    } else {
        magnitude
    }
}

/// The operators that take two operands.
#[derive(Debug, PartialEq, Eq, Copy, Clone, Structural)]
pub enum Binary {
    Eq,
    Neq,
    Lt,
    Lte,
    Gte,
    Gt,
    Add,
    Sub,
    Mul,
    Div,
    Mod,
}

/// The name of a binary operator in diagnostics.
pub open spec fn binary_op(op: Binary) -> OpView {
    match op {
        Binary::Eq => OpView::Eq,
        Binary::Neq => OpView::Neq,
        Binary::Lt => OpView::Lt,
        Binary::Lte => OpView::Lte,
        Binary::Gte => OpView::Gte,
        Binary::Gt => OpView::Gt,
        Binary::Add => OpView::Plus,
        Binary::Sub => OpView::Minus,
        Binary::Mul => OpView::Times,
        Binary::Div => OpView::Div,
        Binary::Mod => OpView::Mod,
    }
}

/// The error of a binary operator that does not take this pair of operands.
pub open spec fn mismatch(op: Binary, a: ValueView, b: ValueView) -> ErrorView {
    ErrorView::InvalidTypesForOperator(kind_of(a), kind_of(b), binary_op(op))
}

/// Unary minus: defined on integers and floating-point numbers.
pub open spec fn negated(v: ValueView) -> ResultView {
    match v {
        ValueView::I64(x) => Ok(ValueView::I64(wrapped(-x))),
        ValueView::F64(x) => Ok(ValueView::F64(float_negated(x))),
        _ => Err(ErrorView::InvalidTypeForOperator(kind_of(v), OpView::Neg)),
    }
}

/// Logical not: defined on booleans.
pub open spec fn inverted(v: ValueView) -> ResultView {
    match v {
        ValueView::Bool(x) => Ok(ValueView::Bool(!x)),
        _ => Err(ErrorView::InvalidTypeForOperator(kind_of(v), OpView::Not)),
    }
}

/// What a relational operator says of an order.
pub open spec fn order_satisfies(op: Binary, order: Order) -> bool {
    match op {
        Binary::Lt => order == Order::Less,
        Binary::Lte => order != Order::Greater,
        Binary::Gte => order != Order::Less,
        _ => order == Order::Greater,
    }
}

/// What a binary operator makes of two values.
///
/// Equality and inequality take every pair. The relational operators take the
/// pairs that can be ordered. `+` takes two integers, two floating-point
/// numbers, two strings, two byte sequences or two lists; `-`, `*`, `/` and `%`
/// take two integers or two floating-point numbers. Division and remainder by
/// zero are an error of their own. Every other pair is a mismatch.
pub open spec fn binary_outcome(op: Binary, a: ValueView, b: ValueView) -> OutcomeView {
    match op {
        Binary::Eq => Ok(Ok(ValueView::Bool(value_equal(a, b)))),
        Binary::Neq => Ok(Ok(ValueView::Bool(!value_equal(a, b)))),
        Binary::Lt | Binary::Lte | Binary::Gte | Binary::Gt => match value_order(a, b) {
            Some(order) => Ok(Ok(ValueView::Bool(order_satisfies(op, order)))),
            None => Ok(Err(mismatch(op, a, b))),
        },
        Binary::Add => match (a, b) {
            (ValueView::I64(x), ValueView::I64(y)) => Ok(Ok(ValueView::I64(wrapped(x + y)))),
            (ValueView::F64(x), ValueView::F64(y)) => Err(FloatRequestView::Add(x, y)),
            (ValueView::String(x), ValueView::String(y)) => Ok(Ok(ValueView::String(x + y))),
            (ValueView::Bytes(x), ValueView::Bytes(y)) => Ok(Ok(ValueView::Bytes(x + y))),
            (ValueView::List(x), ValueView::List(y)) => Ok(Ok(ValueView::List(x + y))),
            _ => Ok(Err(mismatch(op, a, b))),
        },
        Binary::Sub => match (a, b) {
            (ValueView::I64(x), ValueView::I64(y)) => Ok(Ok(ValueView::I64(wrapped(x - y)))),
            (ValueView::F64(x), ValueView::F64(y)) => Err(FloatRequestView::Sub(x, y)),
            _ => Ok(Err(mismatch(op, a, b))),
        },
        Binary::Mul => match (a, b) {
            (ValueView::I64(x), ValueView::I64(y)) => Ok(Ok(ValueView::I64(wrapped(x * y)))),
            (ValueView::F64(x), ValueView::F64(y)) => Err(FloatRequestView::Mul(x, y)),
            _ => Ok(Err(mismatch(op, a, b))),
        },
        Binary::Div => match (a, b) {
            (ValueView::I64(x), ValueView::I64(y)) => if y == 0 {
                Ok(Err(ErrorView::DivisionByZero))
            } else {
                Ok(Ok(ValueView::I64(wrapped(truncated_quotient(x as int, y as int)))))
            },
            (ValueView::F64(x), ValueView::F64(y)) => if float_is_zero(y) {
                Ok(Err(ErrorView::DivisionByZero))
            } else {
                Err(FloatRequestView::Div(x, y))
            },
            _ => Ok(Err(mismatch(op, a, b))),
        },
        Binary::Mod => match (a, b) {
            (ValueView::I64(x), ValueView::I64(y)) => if y == 0 {
                Ok(Err(ErrorView::DivisionByZero))
            } else {
                Ok(Ok(ValueView::I64(wrapped(truncated_remainder(x as int, y as int)))))
            },
            (ValueView::F64(x), ValueView::F64(y)) => if float_is_zero(y) {
                Ok(Err(ErrorView::DivisionByZero))
            } else {
                Err(FloatRequestView::Rem(x, y))
            },
            _ => Ok(Err(mismatch(op, a, b))),
        },
    }
}

/// Whether the operator is one of `+ - * / %`.
pub open spec fn is_arithmetic(op: Binary) -> bool {
    op == Binary::Add || op == Binary::Sub || op == Binary::Mul || op == Binary::Div || op
        == Binary::Mod
}

/// Whether an arithmetic operator takes operands of these two kinds: two
/// integers or two floating-point numbers, and for `+` also two strings, two
/// byte sequences or two lists.
pub open spec fn takes(op: Binary, a: Kind, b: Kind) -> bool {
    a == b && (a == Kind::I64 || a == Kind::F64 || (op == Binary::Add && (a == Kind::String || a
        == Kind::Bytes || a == Kind::List)))
}

/// On two integers the arithmetic operators compute in two's complement: the
/// sum, difference and product modulo 2^64, the quotient rounded toward zero
/// and its remainder; a zero divisor is an error of its own.
pub proof fn lemma_integer_arithmetic(x: i64, y: i64)
    ensures
        binary_outcome(Binary::Add, ValueView::I64(x), ValueView::I64(y)) == Ok::<
            ResultView,
            FloatRequestView,
        >(Ok(ValueView::I64(wrapped(x + y)))),
        binary_outcome(Binary::Sub, ValueView::I64(x), ValueView::I64(y)) == Ok::<
            ResultView,
            FloatRequestView,
        >(Ok(ValueView::I64(wrapped(x - y)))),
        binary_outcome(Binary::Mul, ValueView::I64(x), ValueView::I64(y)) == Ok::<
            ResultView,
            FloatRequestView,
        >(Ok(ValueView::I64(wrapped(x * y)))),
        y != 0 ==> binary_outcome(Binary::Div, ValueView::I64(x), ValueView::I64(y)) == Ok::<
            ResultView,
            FloatRequestView,
        >(Ok(ValueView::I64(wrapped(truncated_quotient(x as int, y as int))))),
        y != 0 ==> binary_outcome(Binary::Mod, ValueView::I64(x), ValueView::I64(y)) == Ok::<
            ResultView,
            FloatRequestView,
        >(Ok(ValueView::I64(wrapped(truncated_remainder(x as int, y as int))))),
        y == 0 ==> binary_outcome(Binary::Div, ValueView::I64(x), ValueView::I64(y)) == Ok::<
            ResultView,
            FloatRequestView,
        >(Err(ErrorView::DivisionByZero)),
        y == 0 ==> binary_outcome(Binary::Mod, ValueView::I64(x), ValueView::I64(y)) == Ok::<
            ResultView,
            FloatRequestView,
        >(Err(ErrorView::DivisionByZero)),
        -0x8000_0000_0000_0000 <= x + y < 0x8000_0000_0000_0000 ==> wrapped(x + y) == x + y,
        -0x8000_0000_0000_0000 <= x - y < 0x8000_0000_0000_0000 ==> wrapped(x - y) == x - y,
        -0x8000_0000_0000_0000 <= x * y < 0x8000_0000_0000_0000 ==> wrapped(x * y) == x * y,
{
}

/// An arithmetic operator gives its value on no pair of operands that it
/// does not take: the result is the error that names the two kinds and the
/// operator.
pub proof fn lemma_arithmetic_mismatch(op: Binary, a: ValueView, b: ValueView)
    requires
        is_arithmetic(op),
        !takes(op, kind_of(a), kind_of(b)),
    ensures
        binary_outcome(op, a, b) == Ok::<ResultView, FloatRequestView>(
            Err(ErrorView::InvalidTypesForOperator(kind_of(a), kind_of(b), binary_op(op))),
        ),
{
}

impl Binary {
    /// The name of this operator in diagnostics.
    pub fn op(self) -> (op: Op)
        ensures
            op@ == binary_op(self),
    {
        match self {
            Binary::Eq => Op::Eq,
            Binary::Neq => Op::Neq,
            Binary::Lt => Op::Lt,
            Binary::Lte => Op::Lte,
            Binary::Gte => Op::Gte,
            Binary::Gt => Op::Gt,
            Binary::Add => Op::Plus,
            Binary::Sub => Op::Minus,
            Binary::Mul => Op::Times,
            Binary::Div => Op::Div,
            Binary::Mod => Op::Mod,
        }
    }
}

/// Applies unary minus.
pub fn negate_value(v: Value) -> (r: EvalResult)
    ensures
        crate::model::result_view(r) == negated(v@),
{
    match v {
        Value::I64(x) => Ok(Value::I64(0i64.wrapping_sub(x))),
        Value::F64(x) => Ok(Value::F64(negate(x))),
        other => Err(Error::InvalidTypeForOperator(other.kind(), Op::Neg)),
    }
}

/// Applies logical not.
pub fn invert_value(v: Value) -> (r: EvalResult)
    ensures
        crate::model::result_view(r) == inverted(v@),
{
    match v {
        Value::Bool(x) => Ok(Value::Bool(!x)),
        other => Err(Error::InvalidTypeForOperator(other.kind(), Op::Not)),
    }
}

/// The integer quotient, rounded toward zero and wrapped.
fn divide(x: i64, y: i64) -> (q: i64)
    requires
        y != 0,
    ensures
        q == wrapped(truncated_quotient(x as int, y as int)),
{
    match x.checked_div(y) {
        Some(q) => q,
        None => i64::MIN,
    }
}

/// The integer remainder of the quotient rounded toward zero.
fn remainder(x: i64, y: i64) -> (r: i64)
    requires
        y != 0,
    ensures
        r == wrapped(truncated_remainder(x as int, y as int)),
{
    match x.checked_rem(y) {
        Some(r) => r,
        None => 0,
    }
}

/// The result of an operator that does not take this pair of operands.
fn reject(op: Binary, a: &Value, b: &Value) -> (o: Outcome)
    ensures
        outcome_view(o) == Ok::<ResultView, FloatRequestView>(Err(mismatch(op, a@, b@))),
{
    Ok(Err(Error::InvalidTypesForOperator(a.kind(), b.kind(), op.op())))
}

/// Applies a binary operator to two values.
pub fn apply_binary(op: Binary, a: Value, b: Value) -> (o: Outcome)
    ensures
        outcome_view(o) == binary_outcome(op, a@, b@),
{
    match op {
        Binary::Eq => Ok(Ok(Value::Bool(values_equal(&a, &b)))),
        Binary::Neq => Ok(Ok(Value::Bool(!values_equal(&a, &b)))),
        Binary::Lt | Binary::Lte | Binary::Gte | Binary::Gt => match order_values(&a, &b) {
            Some(order) => {
                let holds = match op {
                    Binary::Lt => order == Order::Less,
                    Binary::Lte => order != Order::Greater,
                    Binary::Gte => order != Order::Less,
                    _ => order == Order::Greater,
                };
                Ok(Ok(Value::Bool(holds)))
            },
            None => reject(op, &a, &b),
        },
        Binary::Add => match (a, b) {
            (Value::I64(x), Value::I64(y)) => Ok(Ok(Value::I64(x.wrapping_add(y)))),
            (Value::F64(x), Value::F64(y)) => Err(FloatRequest::Add(x, y)),
            (Value::String(x), Value::String(y)) => {
                let mut joined = x;
                joined.append(y.as_str());
                Ok(Ok(Value::String(joined)))
            },
            (Value::Bytes(x), Value::Bytes(y)) => {
                let mut joined = x;
                let mut rest = y;
                joined.append(&mut rest);
                Ok(Ok(Value::Bytes(joined)))
            },
            (Value::List(x), Value::List(y)) => {
                let ghost xs = values_view(&x);
                let ghost ys = values_view(&y);
                let mut joined = x;
                let mut rest = y;
                joined.append(&mut rest);
                assert(values_view(&joined) =~= xs + ys);
                Ok(Ok(Value::List(joined)))
            },
            (a, b) => reject(op, &a, &b),
        },
        Binary::Sub => match (a, b) {
            (Value::I64(x), Value::I64(y)) => Ok(Ok(Value::I64(x.wrapping_sub(y)))),
            (Value::F64(x), Value::F64(y)) => Err(FloatRequest::Sub(x, y)),
            (a, b) => reject(op, &a, &b),
        },
        Binary::Mul => match (a, b) {
            (Value::I64(x), Value::I64(y)) => Ok(Ok(Value::I64(x.wrapping_mul(y)))),
            (Value::F64(x), Value::F64(y)) => Err(FloatRequest::Mul(x, y)),
            (a, b) => reject(op, &a, &b),
        },
        Binary::Div => match (a, b) {
            (Value::I64(x), Value::I64(y)) => if y == 0 {
                Ok(Err(Error::DivisionByZero))
            } else {
                Ok(Ok(Value::I64(divide(x, y))))
            },
            (Value::F64(x), Value::F64(y)) => if is_zero(y) {
                Ok(Err(Error::DivisionByZero))
            } else {
                Err(FloatRequest::Div(x, y))
            },
            (a, b) => reject(op, &a, &b),
        },
        Binary::Mod => match (a, b) {
            (Value::I64(x), Value::I64(y)) => if y == 0 {
                Ok(Err(Error::DivisionByZero))
            } else {
                Ok(Ok(Value::I64(remainder(x, y))))
            },
            (Value::F64(x), Value::F64(y)) => if is_zero(y) {
                Ok(Err(Error::DivisionByZero))
            } else {
                Err(FloatRequest::Rem(x, y))
            },
            (a, b) => reject(op, &a, &b),
        },
    }
}

} // verus!
