use wasm_cel::float::FloatRequest;
use wasm_cel::interpreter::EvalContext;
use wasm_cel::model::{Error, EvalResult, Identifier, Kind, Op, Value};
use wasm_cel::parser::parse;

fn answer(request: &FloatRequest) -> u64 {
    let number = match request {
        FloatRequest::Literal(text) => text.parse::<f64>().expect("decimal"),
        FloatRequest::Add(a, b) => f64::from_bits(*a) + f64::from_bits(*b),
        FloatRequest::Sub(a, b) => f64::from_bits(*a) - f64::from_bits(*b),
        FloatRequest::Mul(a, b) => f64::from_bits(*a) * f64::from_bits(*b),
        FloatRequest::Div(a, b) => f64::from_bits(*a) / f64::from_bits(*b),
        FloatRequest::Rem(a, b) => f64::from_bits(*a) % f64::from_bits(*b),
        FloatRequest::Pow(a, b) => f64::from_bits(*a).powf(f64::from_bits(*b)),
        FloatRequest::PowInt(a, n) => f64::from_bits(*a).powf(*n as f64),
    };
    number.to_bits()
}

fn evaluate(input: &str) -> EvalResult {
    let expr = parse(input).expect("parse");
    let mut answers: Vec<u64> = Vec::new();
    loop {
        let mut ctx = EvalContext::with_answers(answers.clone());
        match ctx.evaluate(&expr) {
            Ok(result) => return result,
            Err(request) => answers.push(answer(&request)),
        }
    }
}

#[test]
fn smoke() {
    let input = r#" 1 + 2 + 3 + 4 + 5 "#;
    assert_eq!(evaluate(input), Ok(Value::I64(1 + 2 + 3 + 4 + 5)));
}

#[test]
fn unary_negative_i64() {
    let input = r#" -5 + 8 "#;
    assert_eq!(evaluate(input), Ok(Value::I64(3)));
}

#[test]
fn unary_negative_f64() {
    let input = r#" -5.1 + 8.1 "#;
    assert_eq!(evaluate(input), Ok(Value::F64(3.0f64.to_bits())));
}

#[test]
fn unary_not() {
    let input = r#" !(5 + 5 == 10) "#;
    assert_eq!(evaluate(input), Ok(Value::Bool(false)));
}

#[test]
fn string_addition() {
    let input = r#" "asdf" + "pqrs" + "tuvw" == "asdfpqrstuvw" "#;
    assert_eq!(evaluate(input), Ok(Value::Bool(true)));
}

#[test]
fn bytes_addition() {
    let input = r#" b"asdf" + b"pqrs" + b"tuvw" == b"asdfpqrstuvw" "#;
    assert_eq!(evaluate(input), Ok(Value::Bool(true)));
}

#[test]
fn list_addition() {
    let input = r#" [1,2,3] + ["a", "b", "c"] == [1, 2, 3, "a", "b", "c"] "#;
    assert_eq!(evaluate(input), Ok(Value::Bool(true)));
}

#[test]
fn addition_and_subtraction() {
    let input = r#" 1 - 2 + 3 - 4 + 5 "#;
    assert_eq!(evaluate(input), Ok(Value::I64(1 - 2 + 3 - 4 + 5)));
}

#[test]
fn multiplication_and_division() {
    let input = r#" 1.0 / 2.0 * 3.0 / 4.0 * 5.0 "#;
    assert_eq!(evaluate(input), Ok(Value::F64((1.0f64 / 2.0 * 3.0 / 4.0 * 5.0).to_bits())));
}

#[test]
fn string_len() {
    let input = r#" "asdf".len() + "pqrs".len() "#;
    assert_eq!(evaluate(input), Ok(Value::I64(8)));
}

#[test]
fn bytes_len() {
    let input = r#" b"\xFF".len() "#;
    assert_eq!(evaluate(input), Ok(Value::I64(1)));
}

#[test]
fn bytes_eq() {
    let input = r#" b"¢" == b'\xC2\xA2' "#;
    assert_eq!(evaluate(input), Ok(Value::Bool(true)));
}

#[test]
fn bytes_cmp() {
    assert_eq!(evaluate(r#" b"\x00" < b"\x01" "#), Ok(Value::Bool(true)));
    assert_eq!(evaluate(r#" b"asdf" < b"pqrs" "#), Ok(Value::Bool(true)));
    assert_eq!(evaluate(r#" b"" < b"asdf" "#), Ok(Value::Bool(true)));
    assert_eq!(
        evaluate(r#" b"\xFE\xFF\xFF\xFF\xFF" < b"\xFF" "#),
        Ok(Value::Bool(true))
    );
}

#[test]
fn int_pow() {
    let input = r#" 42.pow(2) "#;
    assert_eq!(evaluate(input), Ok(Value::I64(42 * 42)));
}

#[test]
fn float_powf() {
    let input = r#" 3.1415926.pow(3.1415926) "#;
    assert_eq!(
        evaluate(input),
        Ok(Value::F64(3.1415926f64.powf(3.1415926).to_bits())),
    );
}

#[test]
fn float_powi() {
    let input = r#" 3.1415926.pow(2) "#;
    assert_eq!(evaluate(input), Ok(Value::F64(3.1415926f64.powf(2.0).to_bits())));
}

#[test]
fn list_len() {
    let input = r#" ["a", 3, false].len() "#;
    assert_eq!(evaluate(input), Ok(Value::I64(3)));
}

#[test]
fn map_len() {
    let input = r#" { "a": 1, "b": 2 }.len() "#;
    assert_eq!(evaluate(input), Ok(Value::I64(2)));
}

#[test]
fn map_keys() {
    let input = r#" { "a": 1, "b": 2 }.keys() "#;
    assert_eq!(
        evaluate(input),
        Ok(Value::List(vec![
            Value::String("a".to_owned()),
            Value::String("b".to_owned())
        ]))
    );
}

#[test]
fn list_contains_true() {
    let input = r#" ["a", 3, false].contains(3) "#;
    assert_eq!(evaluate(input), Ok(Value::Bool(true)));
}

#[test]
fn list_contains_false() {
    let input = r#" ["a", 3, false].contains(4) "#;
    assert_eq!(evaluate(input), Ok(Value::Bool(false)));
}

#[test]
fn list_contains_true_with_error() {
    let input = r#" ["a", 3, 1 / 0].contains(3) "#;
    assert_eq!(evaluate(input), Err(Error::DivisionByZero));
}

#[test]
fn list_contains_false_with_error() {
    let input = r#" ["a", 3, 1 / 0].contains(2) "#;
    assert_eq!(evaluate(input), Err(Error::DivisionByZero));
}

#[test]
fn list_contains_error() {
    let input = r#" ["a", 3, false].contains(1 / 0) "#;
    assert_eq!(evaluate(input), Err(Error::DivisionByZero));
}

#[test]
fn type_error_adding_string_and_int() {
    let input = r#" "asdf" + 5 "#;
    assert_eq!(
        evaluate(input),
        Err(Error::InvalidTypesForOperator(
            Kind::String,
            Kind::I64,
            Op::Plus,
        ))
    );
}

#[test]
fn type_error_subtracting_strings() {
    let input = r#" "asdf" - "pqrs" "#;
    assert_eq!(
        evaluate(input),
        Err(Error::InvalidTypesForOperator(
            Kind::String,
            Kind::String,
            Op::Minus,
        ))
    );
}

#[test]
fn eval_error_divide_by_zero_int() {
    let input = r#" 1 / 0 "#;
    assert_eq!(evaluate(input), Err(Error::DivisionByZero));
}

#[test]
fn or_true_with_error() {
    let input = r#" true || 1 / 0 "#;
    assert_eq!(evaluate(input), Ok(Value::Bool(true)));
}

#[test]
fn or_false_with_error() {
    let input = r#" false || 1 / 0 "#;
    assert_eq!(evaluate(input), Err(Error::DivisionByZero));
}

#[test]
fn and_false_with_error() {
    let input = r#" false && 1 / 0 "#;
    assert_eq!(evaluate(input), Ok(Value::Bool(false)));
}

#[test]
fn and_true_with_error() {
    let input = r#" true && 1 / 0 "#;
    assert_eq!(evaluate(input), Err(Error::DivisionByZero));
}

#[test]
fn eq_mismatched_types() {
    let input = r#" 1 == false "#;
    assert_eq!(evaluate(input), Ok(Value::Bool(false)));
}

#[test]
fn eq_mismatched_values() {
    let input = r#" 1 == 2 "#;
    assert_eq!(evaluate(input), Ok(Value::Bool(false)));
}

#[test]
fn neq_mismatched_types() {
    let input = r#" 1 != false "#;
    assert_eq!(evaluate(input), Ok(Value::Bool(true)));
}

#[test]
fn neq_mismatched_values() {
    let input = r#" 1 != 2 "#;
    assert_eq!(evaluate(input), Ok(Value::Bool(true)));
}

#[test]
fn neq_matching_values() {
    let input = r#" 1 != 1 "#;
    assert_eq!(evaluate(input), Ok(Value::Bool(false)));
}

#[test]
fn map_literal() {
    let input = r#" { "foo": "bar" }.len() "#;
    assert_eq!(evaluate(input), Ok(Value::I64(1)));
}

#[test]
fn map_unbound_key() {
    let input = r#" { foo: "bar" }.len() "#;
    assert_eq!(
        evaluate(input),
        Err(Error::NoSuchBinding(Identifier::new("foo")))
    );
}

#[test]
fn map_non_string_key() {
    let input = r#" { 1: "bar" }.len() "#;
    assert_eq!(evaluate(input), Err(Error::InvalidMapKey(Kind::I64)));
}

#[test]
fn map_expression_key() {
    let input = r#" { ("asdf" + "pqrs"): "bar" }.len() "#;
    assert_eq!(evaluate(input), Ok(Value::I64(1)));
}

#[test]
fn map_duplicate_keys() {
    let input = r#" { "a": 0, "a": 1 }.len() "#;
    assert_eq!(evaluate(input), Err(Error::DuplicateMapKey("a".to_owned())));
}

#[test]
fn map_member_present() {
    let input = r#" { "a": 0, "b": 1 }.a "#;
    assert_eq!(evaluate(input), Ok(Value::I64(0)));
}

#[test]
fn map_member_missing() {
    let input = r#" { "a": 0, "b": 1 }.c "#;
    assert_eq!(
        evaluate(input),
        Err(Error::NoSuchMember(Identifier::new("c")))
    );
}

#[test]
fn non_map_member() {
    let input = r#" 42.a "#;
    assert_eq!(
        evaluate(input),
        Err(Error::InvalidTypeForOperator(
            Kind::I64,
            Op::Member(Identifier::new("a"))
        ))
    );
}

#[test]
fn interpreter_let_binding_smoke() {
    let input = r#" let x = 42; x "#;
    assert_eq!(evaluate(input), Ok(Value::I64(42)));
}

#[test]
fn let_binding_error() {
    let input = r#" let x = 1 / 0; x == 4 || true "#;
    assert_eq!(evaluate(input), Ok(Value::Bool(true)));
}

#[test]
fn multiple_let_bindings() {
    let input = r#" let a = 1; let b = 2; let c = a + b; a + b + c "#;
    assert_eq!(evaluate(input), Ok(Value::I64(1 + 2 + 3)));
}

#[test]
fn interpreter_let_rebinding() {
    let input = r#" let x = 42; let x = x + x; x "#;
    assert_eq!(evaluate(input), Ok(Value::I64(42 + 42)));
}

#[test]
fn ternary_smoke() {
    let input = r#" true ? 1 : 2 "#;
    assert_eq!(evaluate(input), Ok(Value::I64(1)));
}

#[test]
fn ternary_chain() {
    let input = r#"
        let x = "c";
        x == "a" ? 0 :
        x == "b" ? 1 :
        x == "c" ? 2 :
        x == "d" ? 3 :
        x == "e" ? 4 :
                   5
    "#;
    assert_eq!(evaluate(input), Ok(Value::I64(2)));
}

#[test]
fn ternary_operator_map_key() {
    let input = r#" { true ? "a" : "b" : "foo"  } "#;
    assert_eq!(evaluate(input), evaluate(r#" { "a": "foo" } "#));
}

#[test]
fn ternary_operator_map_value() {
    let input = r#" { "a": true ? "foo" : "bar"  } "#;
    assert_eq!(evaluate(input), evaluate(r#" { "a": "foo" } "#));
}

#[test]
fn value_size_explosion() {
    // 16 ** 8 == 2 ** 32 values, should _definitely_ overflow
    let input = r#"
    let x = [0];
    let x = x + x + x + x + x + x + x + x + x + x + x + x + x + x + x + x;
    let x = x + x + x + x + x + x + x + x + x + x + x + x + x + x + x + x;
    let x = x + x + x + x + x + x + x + x + x + x + x + x + x + x + x + x;
    let x = x + x + x + x + x + x + x + x + x + x + x + x + x + x + x + x;
    let x = x + x + x + x + x + x + x + x + x + x + x + x + x + x + x + x;
    let x = x + x + x + x + x + x + x + x + x + x + x + x + x + x + x + x;
    let x = x + x + x + x + x + x + x + x + x + x + x + x + x + x + x + x;
    let x = x + x + x + x + x + x + x + x + x + x + x + x + x + x + x + x;
    x
    "#;
    assert_eq!(evaluate(input), Err(Error::EvaluationTooLarge));
}
