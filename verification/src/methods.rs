//! The built-in methods: `contains`, `keys`, `len` and `pow`. Each checks the
//! number of its arguments first, then the kind of its operand, then the
//! kinds of its arguments.
use vstd::arithmetic::div_mod::lemma_mul_mod_noop_general;
use vstd::arithmetic::mul::lemma_mul_is_associative;
use vstd::arithmetic::power::{lemma_pow_mod_noop, lemma_pow_multiplies, lemma_square_is_pow2, pow};
use vstd::prelude::*;
use vstd::string::StrSliceExecFns;

use crate::dict::Entries;
use crate::float::{FloatRequest, FloatRequestView};
use crate::model::{kind_of, lemma_values_view, values_view, Error, ErrorView, Identifier, Kind, Value, ValueView};
use crate::operators::{outcome_view, wrapped, Outcome, OutcomeView};
use crate::ordering::{lemma_text_order_equal, order_text, value_equal, values_equal, Order};

verus! {

/// The kinds of a sequence of values, in order.
pub open spec fn kinds_of(args: Seq<ValueView>) -> Seq<Kind> {
    Seq::new(args.len(), |i: int| kind_of(args[i]))
}

/// The error of a method that takes no such arguments on such an operand.
pub open spec fn no_signature(name: Seq<char>, operand: ValueView, args: Seq<ValueView>) -> ErrorView {
    ErrorView::NoMethodWithSignature(kind_of(operand), name, kinds_of(args))
}

/// The error of a method that operands of this kind do not have.
pub open spec fn no_method_on(name: Seq<char>, operand: ValueView) -> ErrorView {
    ErrorView::NoMethodOnType(kind_of(operand), name)
}

/// The keys of a dictionary as a list of strings, in the order of the entries.
pub open spec fn key_list(d: Entries) -> Seq<ValueView> {
    Seq::new(d.len(), |i: int| ValueView::String(d[i].0))
}

/// Whether any element of `elems` equals `x`.
pub open spec fn list_contains(elems: Seq<ValueView>, x: ValueView) -> bool {
    exists|i: int| 0 <= i < elems.len() && value_equal(#[trigger] elems[i], x)
}

/// `contains(x)`: on a list, whether any element equals `x`.
pub open spec fn contains_outcome(operand: ValueView, args: Seq<ValueView>) -> OutcomeView {
    if args.len() != 1 {
        Ok(Err(no_signature("contains"@, operand, args)))
    } else {
        match operand {
            ValueView::List(elems) => Ok(Ok(ValueView::Bool(list_contains(elems, args[0])))),
            _ => Ok(Err(no_method_on("contains"@, operand))),
        }
    }
}

/// `keys()`: on a dictionary, its keys in ascending order.
pub open spec fn keys_outcome(operand: ValueView, args: Seq<ValueView>) -> OutcomeView {
    if args.len() != 0 {
        Ok(Err(no_signature("keys"@, operand, args)))
    } else {
        match operand {
            ValueView::Dict(d) => Ok(Ok(ValueView::List(key_list(d)))),
            _ => Ok(Err(no_method_on("keys"@, operand))),
        }
    }
}

/// `len()`: the number of characters of a string, of bytes of a byte
/// sequence, of elements of a list, of entries of a dictionary.
pub open spec fn len_outcome(operand: ValueView, args: Seq<ValueView>) -> OutcomeView {
    if args.len() != 0 {
        Ok(Err(no_signature("len"@, operand, args)))
    } else {
        match operand {
            ValueView::List(elems) => Ok(Ok(ValueView::I64(wrapped(elems.len() as int)))),
            ValueView::String(s) => Ok(Ok(ValueView::I64(wrapped(s.len() as int)))),
            ValueView::Bytes(b) => Ok(Ok(ValueView::I64(wrapped(b.len() as int)))),
            ValueView::Dict(d) => Ok(Ok(ValueView::I64(wrapped(d.len() as int)))),
            _ => Ok(Err(no_method_on("len"@, operand))),
        }
    }
}

/// `pow(x)`: an integer to a non-negative integer power, in two's-complement
/// arithmetic; a floating-point number to an integer or floating-point power,
/// which is asked for. An integer has no negative power.
pub open spec fn pow_outcome(operand: ValueView, args: Seq<ValueView>) -> OutcomeView {
    if args.len() != 1 {
        Ok(Err(no_signature("pow"@, operand, args)))
    } else {
        match operand {
            ValueView::I64(base) => match args[0] {
                ValueView::I64(exp) if exp >= 0 => Ok(
                    Ok(ValueView::I64(wrapped(pow(base as int, exp as nat)))),
                ),
                _ => Ok(Err(no_signature("pow"@, operand, args))),
            },
            ValueView::F64(base) => match args[0] {
                ValueView::I64(exp) => Err(FloatRequestView::PowInt(base, exp)),
                ValueView::F64(exp) => Err(FloatRequestView::Pow(base, exp)),
                _ => Ok(Err(no_signature("pow"@, operand, args))),
            },
            _ => Ok(Err(no_method_on("pow"@, operand))),
        }
    }
}

/// What the method of this name makes of an operand and its arguments. A name
/// that is none of the four is an error, whatever the operand.
pub open spec fn method_outcome(name: Seq<char>, operand: ValueView, args: Seq<ValueView>) -> OutcomeView {
    if name == "contains"@ {
        contains_outcome(operand, args)
    } else if name == "keys"@ {
        keys_outcome(operand, args)
    } else if name == "len"@ {
        len_outcome(operand, args)
    } else if name == "pow"@ {
        pow_outcome(operand, args)
    } else {
        Ok(Err(ErrorView::NoMethod(name)))
    }
}

/// Whether two strings are the same.
fn same_text(a: &str, b: &str) -> (r: bool)
    ensures
        r == (a@ == b@),
{
    proof {
        lemma_text_order_equal(a@, b@);
    }
    match order_text(a, b) {
        Order::Equal => true,
        _ => false,
    }
}

/// The kinds of the arguments, in order.
fn arg_kinds(args: &Vec<Value>) -> (kinds: Vec<Kind>)
    ensures
        kinds@ == kinds_of(values_view(args)),
{
    let mut kinds: Vec<Kind> = Vec::new();
    let mut i: usize = 0;
    while i < args.len()
        invariant
            i <= args.len(),
            kinds@ == kinds_of(values_view(args)).take(i as int),
        decreases args.len() - i,
    {
        kinds.push(args[i].kind());
        assert(kinds@ =~= kinds_of(values_view(args)).take(i + 1));
        i += 1;
    }
    assert(kinds@ =~= kinds_of(values_view(args)));
    kinds
}

/// The error of a method that takes no such arguments on such an operand.
fn reject_signature(name: &str, operand: &Value, args: &Vec<Value>) -> (o: Outcome)
    ensures
        outcome_view(o) == Ok::<Result<ValueView, ErrorView>, FloatRequestView>(
            Err(no_signature(name@, operand@, values_view(args))),
        ),
{
    Ok(Err(Error::NoMethodWithSignature(operand.kind(), Identifier::new(name), arg_kinds(args))))
}

/// The error of a method that operands of this kind do not have.
fn reject_operand(name: &str, operand: &Value) -> (o: Outcome)
    ensures
        outcome_view(o) == Ok::<Result<ValueView, ErrorView>, FloatRequestView>(
            Err(no_method_on(name@, operand@)),
        ),
{
    Ok(Err(Error::NoMethodOnType(operand.kind(), Identifier::new(name))))
}

/// A count as an integer value.
fn count(n: usize) -> (o: Outcome)
    ensures
        outcome_view(o) == Ok::<Result<ValueView, ErrorView>, FloatRequestView>(
            Ok(ValueView::I64(wrapped(n as int))),
        ),
{
    let wide = n as u64;
    let signed: i64 = if wide <= 0x7FFF_FFFF_FFFF_FFFF {
        wide as i64
    } else {
        i64::MIN + ((wide - 0x8000_0000_0000_0000) as i64)
    };
    Ok(Ok(Value::I64(signed)))
}

fn evaluate_method_contains(operand: Value, args: Vec<Value>) -> (o: Outcome)
    ensures
        outcome_view(o) == contains_outcome(operand@, values_view(&args)),
{
    proof {
        lemma_values_view(&args);
    }
    if args.len() != 1 {
        return reject_signature("contains", &operand, &args);
    }
    match &operand {
        Value::List(elems) => {
            proof {
                lemma_values_view(elems);
            }
            let mut i: usize = 0;
            #[verifier::loop_isolation(false)]
            while i < elems.len()
                invariant
                    i <= elems.len(),
                    args.len() == 1,
                    forall|j: int| 0 <= j < i ==> !value_equal(elems[j]@, args[0]@),
                decreases elems.len() - i,
            {
                if values_equal(&elems[i], &args[0]) {
                    let ghost found = i as int;
                    assert(0 <= found < values_view(elems).len() && value_equal(
                        values_view(elems)[found],
                        values_view(&args)[0],
                    ));
                    assert(list_contains(values_view(elems), values_view(&args)[0]));
                    return Ok(Ok(Value::Bool(true)));
                }
                i += 1;
            }
            assert(!list_contains(values_view(elems), values_view(&args)[0]));
            Ok(Ok(Value::Bool(false)))
        },
        _ => reject_operand("contains", &operand),
    }
}

fn evaluate_method_keys(operand: Value, args: Vec<Value>) -> (o: Outcome)
    ensures
        outcome_view(o) == keys_outcome(operand@, values_view(&args)),
{
    if args.len() != 0 {
        return reject_signature("keys", &operand, &args);
    }
    match &operand {
        Value::Dict(fields) => {
            let mut keys: Vec<Value> = Vec::new();
            let mut i: usize = 0;
            while i < fields.len()
                invariant
                    i <= fields@.len(),
                    keys.len() == i,
                    forall|j: int| 0 <= j < i ==> keys[j]@ == ValueView::String(fields@[j].0),
                decreases fields@.len() - i,
            {
                keys.push(Value::String(fields.key_at(i).clone()));
                i += 1;
            }
            assert(values_view(&keys) =~= key_list(fields@));
            Ok(Ok(Value::List(keys)))
        },
        _ => reject_operand("keys", &operand),
    }
}

fn evaluate_method_len(operand: Value, args: Vec<Value>) -> (o: Outcome)
    ensures
        outcome_view(o) == len_outcome(operand@, values_view(&args)),
{
    proof {
        lemma_values_view(&args);
    }
    if args.len() != 0 {
        return reject_signature("len", &operand, &args);
    }
    match &operand {
        Value::List(elems) => {
            proof {
                lemma_values_view(elems);
            }
            count(elems.len())
        },
        Value::String(s) => count(s.as_str().unicode_len()),
        Value::Bytes(b) => count(b.len()),
        Value::Dict(fields) => count(fields.len()),
        _ => reject_operand("len", &operand),
    }
}

/// One step of exponentiation by squaring keeps the product of the result so
/// far and the power still to be taken, modulo 2^64.
proof fn lemma_power_step(result: int, b: int, e: nat, next_result: int, next_b: int)
    requires
        e > 0,
        next_b % 0x1_0000_0000_0000_0000 == (b * b) % 0x1_0000_0000_0000_0000,
        next_result % 0x1_0000_0000_0000_0000 == (if e % 2 == 1 {
            result * b
        } else {
            result
        }) % 0x1_0000_0000_0000_0000,
    ensures
        (next_result * pow(next_b, e / 2)) % 0x1_0000_0000_0000_0000 == (result * pow(b, e))
            % 0x1_0000_0000_0000_0000,
{
    let m = 0x1_0000_0000_0000_0000int;
    let k = e / 2;
    let carried = if e % 2 == 1 {
        result * b
    } else {
        result
    };
    // pow(b * b, k) == pow(b, 2 * k)
    lemma_square_is_pow2(b);
    lemma_pow_multiplies(b, 2, k);
    assert(pow(b * b, k) == pow(b, 2 * k));
    // pow(next_b, k) agrees with pow(b * b, k) modulo m
    lemma_pow_mod_noop(next_b, k, m);
    lemma_pow_mod_noop(b * b, k, m);
    assert(pow(next_b, k) % m == pow(b * b, k) % m);
    lemma_mul_mod_noop_general(next_result, pow(next_b, k), m);
    lemma_mul_mod_noop_general(carried, pow(b * b, k), m);
    assert((next_result * pow(next_b, k)) % m == (carried * pow(b * b, k)) % m);
    if e % 2 == 1 {
        assert(e == 2 * k + 1);
        assert(pow(b, e) == b * pow(b, (e - 1) as nat)) by {
            reveal(pow);
        }
        lemma_mul_is_associative(result, b, pow(b, 2 * k));
    } else {
        assert(e == 2 * k);
    }
}

/// An integer to a non-negative integer power, wrapped to 64 bits.
fn int_power(base: i64, exp: i64) -> (r: i64)
    requires
        exp >= 0,
    ensures
        r == wrapped(pow(base as int, exp as nat)),
{
    let mut result: i64 = 1;
    let mut b: i64 = base;
    let mut e: i64 = exp;
    assert(pow(base as int, exp as nat) == 1 * pow(base as int, exp as nat));
    while e > 0
        invariant
            e >= 0,
            (result * pow(b as int, e as nat)) % 0x1_0000_0000_0000_0000 == pow(
                base as int,
                exp as nat,
            ) % 0x1_0000_0000_0000_0000,
        decreases e,
    {
        let next_result = if e % 2 == 1 {
            result.wrapping_mul(b)
        } else {
            result
        };
        let next_b = b.wrapping_mul(b);
        proof {
            lemma_power_step(result as int, b as int, e as nat, next_result as int, next_b as int);
        }
        result = next_result;
        b = next_b;
        e = e / 2;
    }
    assert(pow(b as int, 0) == 1) by {
        reveal(pow);
    }
    result
}

fn evaluate_method_pow(operand: Value, args: Vec<Value>) -> (o: Outcome)
    ensures
        outcome_view(o) == pow_outcome(operand@, values_view(&args)),
{
    if args.len() != 1 {
        return reject_signature("pow", &operand, &args);
    }
    match &operand {
        Value::I64(base) => match &args[0] {
            Value::I64(exp) => {
                if *exp >= 0 {
                    Ok(Ok(Value::I64(int_power(*base, *exp))))
                } else {
                    reject_signature("pow", &operand, &args)
                }
            },
            _ => reject_signature("pow", &operand, &args),
        },
        Value::F64(base) => match &args[0] {
            Value::I64(exp) => Err(FloatRequest::PowInt(*base, *exp)),
            Value::F64(exp) => Err(FloatRequest::Pow(*base, *exp)),
            _ => reject_signature("pow", &operand, &args),
        },
        _ => reject_operand("pow", &operand),
    }
}

/// Applies the method named `method` to an operand and its arguments.
pub fn evaluate_method(method: Identifier, operand: Value, args: Vec<Value>) -> (o: Outcome)
    ensures
        outcome_view(o) == method_outcome(method@, operand@, values_view(&args)),
{
    if same_text(method.0.as_str(), "contains") {
        evaluate_method_contains(operand, args)
    } else if same_text(method.0.as_str(), "keys") {
        evaluate_method_keys(operand, args)
    } else if same_text(method.0.as_str(), "len") {
        evaluate_method_len(operand, args)
    } else if same_text(method.0.as_str(), "pow") {
        evaluate_method_pow(operand, args)
    } else {
        Ok(Err(Error::NoMethod(method)))
    }
}

} // verus!
