//! Order and equality of runtime values.
//!
//! Values are ordered only within one kind: integers by numeric order, booleans
//! with `false` first, strings and byte sequences by lexical byte order,
//! floating-point numbers by IEEE-754 order. Lists, dictionaries and null are
//! never ordered. Equality is defined across all kinds.
use std::cmp::Ordering;
use vstd::prelude::*;
use vstd::utf8::encode_utf8;

use crate::float::{float_equal, float_order, order_floats};
use crate::model::{kind_of, values_view, Value, ValueView};

verus! {

/// How one value stands to another of its kind.
#[derive(Debug, PartialEq, Eq, Copy, Clone, Structural)]
pub enum Order {
    Less,
    Equal,
    Greater,
}

/// The lexical order of two byte sequences from index `i` on, given that they
/// agree before it: the first differing byte decides, and a proper prefix
/// comes first.
pub open spec fn lex_order_from(a: Seq<u8>, b: Seq<u8>, i: int) -> Order
    decreases a.len() - i,
{
    if i < 0 || (i >= a.len() && i >= b.len()) {
        Order::Equal
    } else if i >= a.len() {
        Order::Less
    } else if i >= b.len() {
        Order::Greater
    } else if a[i] < b[i] {
        Order::Less
    } else if a[i] > b[i] {
        Order::Greater
    } else {
        lex_order_from(a, b, i + 1)
    }
}

/// The lexical order of two byte sequences.
pub open spec fn lex_order(a: Seq<u8>, b: Seq<u8>) -> Order {
    lex_order_from(a, b, 0)
}

/// The order of two strings: the lexical order of their UTF-8 encodings.
pub open spec fn text_order(a: Seq<char>, b: Seq<char>) -> Order {
    lex_order(encode_utf8(a), encode_utf8(b))
}

proof fn lemma_lex_equal_from(a: Seq<u8>, b: Seq<u8>, i: int)
    requires
        0 <= i,
        i <= a.len(),
        i <= b.len(),
        a.take(i) == b.take(i),
    ensures
        lex_order_from(a, b, i) == Order::Equal <==> a == b,
    decreases a.len() - i,
{
    if i >= a.len() && i >= b.len() {
        assert(a.take(i) == a);
        assert(b.take(i) == b);
    } else if i >= a.len() || i >= b.len() {
        assert(a.len() != b.len());
    } else if a[i] != b[i] {
    } else {
        assert(a.take(i + 1) == a.take(i).push(a[i]));
        assert(b.take(i + 1) == b.take(i).push(b[i]));
        lemma_lex_equal_from(a, b, i + 1);
    }
}

proof fn lemma_lex_flip_from(a: Seq<u8>, b: Seq<u8>, i: int)
    requires
        0 <= i,
    ensures
        lex_order_from(a, b, i) == Order::Less <==> lex_order_from(b, a, i) == Order::Greater,
        lex_order_from(a, b, i) == Order::Equal <==> lex_order_from(b, a, i) == Order::Equal,
    decreases a.len() - i,
{
    if i < a.len() && i < b.len() && a[i] == b[i] {
        lemma_lex_flip_from(a, b, i + 1);
    }
}

proof fn lemma_lex_chain_from(a: Seq<u8>, b: Seq<u8>, c: Seq<u8>, i: int)
    requires
        0 <= i,
        lex_order_from(a, b, i) == Order::Less,
        lex_order_from(b, c, i) == Order::Less,
    ensures
        lex_order_from(a, c, i) == Order::Less,
    decreases a.len() - i,
{
    if i < a.len() && i < b.len() && i < c.len() && a[i] == b[i] && b[i] == c[i] {
        lemma_lex_chain_from(a, b, c, i + 1);
    }
}

/// Two byte sequences are in lexical order `Equal` exactly when they are the
/// same sequence.
pub proof fn lemma_lex_order_equal(a: Seq<u8>, b: Seq<u8>)
    ensures
        lex_order(a, b) == Order::Equal <==> a == b,
{
    assert(a.take(0) == b.take(0));
    lemma_lex_equal_from(a, b, 0);
}

/// Swapping the operands of the lexical order swaps `Less` and `Greater`.
pub proof fn lemma_lex_order_flip(a: Seq<u8>, b: Seq<u8>)
    ensures
        lex_order(a, b) == Order::Less <==> lex_order(b, a) == Order::Greater,
        lex_order(a, b) == Order::Equal <==> lex_order(b, a) == Order::Equal,
{
    lemma_lex_flip_from(a, b, 0);
}

/// The lexical order is transitive.
pub proof fn lemma_lex_order_chain(a: Seq<u8>, b: Seq<u8>, c: Seq<u8>)
    requires
        lex_order(a, b) == Order::Less,
        lex_order(b, c) == Order::Less,
    ensures
        lex_order(a, c) == Order::Less,
{
    lemma_lex_chain_from(a, b, c, 0);
}

/// Two strings are in order `Equal` exactly when they are the same string.
pub proof fn lemma_text_order_equal(a: Seq<char>, b: Seq<char>)
    ensures
        text_order(a, b) == Order::Equal <==> a == b,
{
    broadcast use vstd::utf8::encode_utf8_decode_utf8;

    lemma_lex_order_equal(encode_utf8(a), encode_utf8(b));
    assert(vstd::utf8::decode_utf8(encode_utf8(a)) == a);
    assert(vstd::utf8::decode_utf8(encode_utf8(b)) == b);
}

/// Orders two byte slices lexically.
pub fn order_bytes(a: &[u8], b: &[u8]) -> (r: Order)
    ensures
        r == lex_order(a@, b@),
{
    let mut i: usize = 0;
    while i < a.len() && i < b.len()
        invariant
            i <= a@.len(),
            i <= b@.len(),
            lex_order(a@, b@) == lex_order_from(a@, b@, i as int),
        decreases a@.len() - i,
    {
        if a[i] < b[i] {
            return Order::Less;
        }
        if a[i] > b[i] {
            return Order::Greater;
        }
        i += 1;
    }
    if i < b.len() {
        Order::Less
    } else if i < a.len() {
        Order::Greater
    } else {
        Order::Equal
    }
}

/// Orders two strings by their bytes.
pub fn order_text(a: &str, b: &str) -> (r: Order)
    ensures
        r == text_order(a@, b@),
{
    order_bytes(a.as_bytes(), b.as_bytes())
}

/// The order of two values: defined within one kind only, and there only
/// for integers, floating-point numbers other than NaN, booleans, strings and
/// byte sequences.
pub open spec fn value_order(a: ValueView, b: ValueView) -> Option<Order> {
    match (a, b) {
        (ValueView::I64(x), ValueView::I64(y)) => Some(
            if x < y {
                Order::Less
            } else if x > y {
                Order::Greater
            } else {
                Order::Equal
            },
        ),
        (ValueView::F64(x), ValueView::F64(y)) => float_order(x, y),
        (ValueView::Bool(x), ValueView::Bool(y)) => Some(
            if !x && y {
                Order::Less
            } else if x && !y {
                Order::Greater
            } else {
                Order::Equal
            },
        ),
        (ValueView::String(x), ValueView::String(y)) => Some(text_order(x, y)),
        (ValueView::Bytes(x), ValueView::Bytes(y)) => Some(lex_order(x, y)),
        _ => None,
    }
}

/// Equality of two values: within one kind only. Floating-point numbers are
/// equal as IEEE-754 has it, lists where they have equal elements in the same
/// order, dictionaries where they have the same keys with equal values.
pub open spec fn value_equal(a: ValueView, b: ValueView) -> bool
    decreases a,
{
    match (a, b) {
        (ValueView::I64(x), ValueView::I64(y)) => x == y,
        (ValueView::F64(x), ValueView::F64(y)) => float_equal(x, y),
        (ValueView::Bool(x), ValueView::Bool(y)) => x == y,
        (ValueView::String(x), ValueView::String(y)) => x == y,
        (ValueView::Bytes(x), ValueView::Bytes(y)) => x == y,
        (ValueView::List(xs), ValueView::List(ys)) => {
            &&& xs.len() == ys.len()
            &&& forall|i: int| 0 <= i < xs.len() ==> value_equal(#[trigger] xs[i], ys[i])
        },
        (ValueView::Dict(d), ValueView::Dict(e)) => {
            &&& d.len() == e.len()
            &&& forall|i: int|
                0 <= i < d.len() ==> (#[trigger] d[i]).0 == e[i].0 && value_equal(d[i].1, e[i].1)
        },
        (ValueView::Null, ValueView::Null) => true,
        _ => false,
    }
}

/// Of two comparable values of one kind, exactly one of three holds: the
/// first is less than the second, the two are equal, or the second is less
/// than the first.
pub proof fn lemma_order_trichotomy(a: ValueView, b: ValueView)
    requires
        kind_of(a) == kind_of(b),
        value_order(a, b).is_some(),
    ensures
        value_order(b, a).is_some(),
        value_order(a, b) == Some(Order::Less) <==> value_order(b, a) == Some(Order::Greater),
        value_order(a, b) == Some(Order::Greater) <==> value_order(b, a) == Some(Order::Less),
        value_order(a, b) == Some(Order::Equal) <==> value_equal(a, b),
        value_equal(a, b) <==> value_equal(b, a),
{
    match (a, b) {
        (ValueView::String(x), ValueView::String(y)) => {
            lemma_text_order_equal(x, y);
            lemma_text_order_equal(y, x);
            lemma_lex_order_flip(encode_utf8(x), encode_utf8(y));
            lemma_lex_order_flip(encode_utf8(y), encode_utf8(x));
        },
        (ValueView::Bytes(x), ValueView::Bytes(y)) => {
            lemma_lex_order_equal(x, y);
            lemma_lex_order_equal(y, x);
            lemma_lex_order_flip(x, y);
            lemma_lex_order_flip(y, x);
        },
        _ => {},
    }
}

/// Whether two values are equal.
pub fn values_equal(a: &Value, b: &Value) -> (r: bool)
    ensures
        r == value_equal(a@, b@),
    decreases a,
{
    match (a, b) {
        (Value::I64(x), Value::I64(y)) => *x == *y,
        (Value::F64(x), Value::F64(y)) => {
            match order_floats(*x, *y) {
                Some(Order::Equal) => true,
                _ => false,
            }
        },
        (Value::Bool(x), Value::Bool(y)) => *x == *y,
        (Value::String(x), Value::String(y)) => {
            proof {
                lemma_text_order_equal(x@, y@);
            }
            match order_text(x.as_str(), y.as_str()) {
                Order::Equal => true,
                _ => false,
            }
        },
        (Value::Bytes(x), Value::Bytes(y)) => {
            proof {
                lemma_lex_order_equal(x@, y@);
            }
            match order_bytes(x.as_slice(), y.as_slice()) {
                Order::Equal => true,
                _ => false,
            }
        },
        (Value::List(xs), Value::List(ys)) => {
            if xs.len() != ys.len() {
                assert(values_view(xs).len() != values_view(ys).len());
                return false;
            }
            let mut i: usize = 0;
            #[verifier::loop_isolation(false)]
            while i < xs.len()
                invariant
                    i <= xs.len(),
                    forall|j: int| 0 <= j < i ==> value_equal(xs[j]@, ys[j]@),
                decreases xs.len() - i,
            {
                if !values_equal(&xs[i], &ys[i]) {
                    assert(!value_equal(values_view(xs)[i as int], values_view(ys)[i as int]));
                    return false;
                }
                i += 1;
            }
            true
        },
        (Value::Dict(d), Value::Dict(e)) => {
            if d.len() != e.len() {
                return false;
            }
            let mut i: usize = 0;
            #[verifier::loop_isolation(false)]
            while i < d.len()
                invariant
                    i <= d@.len(),
                    forall|j: int|
                        0 <= j < i ==> d@[j].0 == e@[j].0 && value_equal(d@[j].1, e@[j].1),
                decreases d@.len() - i,
            {
                proof {
                    lemma_text_order_equal(d@[i as int].0, e@[i as int].0);
                }
                let same_key = match order_text(d.key_at(i).as_str(), e.key_at(i).as_str()) {
                    Order::Equal => true,
                    _ => false,
                };
                if !same_key || !values_equal(d.value_at(i), e.value_at(i)) {
                    assert(!(d@[i as int].0 == e@[i as int].0 && value_equal(
                        d@[i as int].1,
                        e@[i as int].1,
                    )));
                    return false;
                }
                i += 1;
            }
            true
        },
        (Value::Null, Value::Null) => true,
        _ => false,
    }
}

/// How `a` stands to `b`, if the two can be ordered.
pub fn order_values(a: &Value, b: &Value) -> (r: Option<Order>)
    ensures
        r == value_order(a@, b@),
{
    match (a, b) {
        (Value::I64(x), Value::I64(y)) => Some(
            if *x < *y {
                Order::Less
            } else if *x > *y {
                Order::Greater
            } else {
                Order::Equal
            },
        ),
        (Value::F64(x), Value::F64(y)) => order_floats(*x, *y),
        (Value::Bool(x), Value::Bool(y)) => Some(
            if !*x && *y {
                Order::Less
            } else if *x && !*y {
                Order::Greater
            } else {
                Order::Equal
            },
        ),
        (Value::String(x), Value::String(y)) => Some(order_text(x.as_str(), y.as_str())),
        (Value::Bytes(x), Value::Bytes(y)) => Some(order_bytes(x.as_slice(), y.as_slice())),
        _ => None,
    }
}

impl PartialEq for Value {
    fn eq(&self, other: &Value) -> (r: bool) {
        values_equal(self, other)
    }
}

impl vstd::std_specs::cmp::PartialEqSpecImpl for Value {
    open spec fn obeys_eq_spec() -> bool {
        true
    }

    open spec fn eq_spec(&self, other: &Value) -> bool {
        value_equal(self@, other@)
    }
}

impl PartialOrd for Value {
    fn partial_cmp(&self, other: &Value) -> (r: Option<Ordering>) {
        match order_values(self, other) {
            Some(Order::Less) => Some(Ordering::Less),
            Some(Order::Equal) => Some(Ordering::Equal),
            Some(Order::Greater) => Some(Ordering::Greater),
            None => None,
        }
    }
}

impl vstd::std_specs::cmp::PartialOrdSpecImpl for Value {
    open spec fn obeys_partial_cmp_spec() -> bool {
        true
    }

    open spec fn partial_cmp_spec(&self, other: &Value) -> Option<Ordering> {
        match value_order(self@, other@) {
            Some(Order::Less) => Some(Ordering::Less),
            Some(Order::Equal) => Some(Ordering::Equal),
            Some(Order::Greater) => Some(Ordering::Greater),
            None => None,
        }
    }
}

} // verus!
