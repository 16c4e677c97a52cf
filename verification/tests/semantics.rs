use wasm_cel::dict::ValueMap;
use wasm_cel::float::FloatRequest;
use wasm_cel::interpreter::EvalContext;
use wasm_cel::methods::evaluate_method;
use wasm_cel::model::{Error, EvalResult, Expression, Identifier, Kind, Literal, Op, Value};
use wasm_cel::operators::{apply_binary, Binary};
use wasm_cel::ordering::{order_values, values_equal, Order};
use wasm_cel::parser::parse;
use wasm_cel::trace::explore;

fn answer(request: &FloatRequest) -> u64 {
    let number = match request {
        FloatRequest::Literal(text) => text.parse::<f64>().expect("decimal"),
        FloatRequest::Add(a, b) => f64::from_bits(*a) + f64::from_bits(*b),
        FloatRequest::Sub(a, b) => f64::from_bits(*a) - f64::from_bits(*b),
        FloatRequest::Mul(a, b) => f64::from_bits(*a) * f64::from_bits(*b),
        FloatRequest::Div(a, b) => f64::from_bits(*a) / f64::from_bits(*b),
        FloatRequest::Rem(a, b) => f64::from_bits(*a) % f64::from_bits(*b),
        FloatRequest::Pow(a, b) => f64::from_bits(*a).powf(f64::from_bits(*b)),
        FloatRequest::PowInt(a, n) => f64::from_bits(*a).powf(*n as f64),
    };
    number.to_bits()
}

fn evaluate(input: &str) -> EvalResult {
    let expr = parse(input).expect("parse");
    let mut answers: Vec<u64> = Vec::new();
    loop {
        let mut ctx = EvalContext::with_answers(answers.clone());
        match ctx.evaluate(&expr) {
            Ok(result) => return result,
            Err(request) => answers.push(answer(&request)),
        }
    }
}

fn float(x: f64) -> Value {
    Value::F64(x.to_bits())
}

fn text(s: &str) -> Value {
    Value::String(s.to_owned())
}

#[test]
fn integer_arithmetic_wraps() {
    assert_eq!(evaluate("9223372036854775807 + 1"), Ok(Value::I64(i64::MIN)));
    assert_eq!(evaluate("-9223372036854775807 - 2"), Ok(Value::I64(i64::MAX)));
    assert_eq!(
        evaluate("4611686018427387904 * 4"),
        Ok(Value::I64(4611686018427387904i64.wrapping_mul(4)))
    );
    assert_eq!(
        evaluate("(-9223372036854775807 - 1) / -1"),
        Ok(Value::I64(i64::MIN))
    );
    assert_eq!(evaluate("(-9223372036854775807 - 1) % -1"), Ok(Value::I64(0)));
    assert_eq!(evaluate("-(-9223372036854775807 - 1)"), Ok(Value::I64(i64::MIN)));
}

#[test]
fn integer_division_rounds_toward_zero() {
    assert_eq!(evaluate("7 / 2"), Ok(Value::I64(3)));
    assert_eq!(evaluate("7 / -2"), Ok(Value::I64(-3)));
    assert_eq!(evaluate("-7 / 2"), Ok(Value::I64(-3)));
    assert_eq!(evaluate("-7 / -2"), Ok(Value::I64(3)));
    assert_eq!(evaluate("7 % 2"), Ok(Value::I64(1)));
    assert_eq!(evaluate("7 % -2"), Ok(Value::I64(1)));
    assert_eq!(evaluate("-7 % 2"), Ok(Value::I64(-1)));
    assert_eq!(evaluate("-7 % -2"), Ok(Value::I64(-1)));
}

#[test]
fn division_by_zero_is_its_own_error() {
    assert_eq!(evaluate("1 / 0"), Err(Error::DivisionByZero));
    assert_eq!(evaluate("1 % 0"), Err(Error::DivisionByZero));
    assert_eq!(evaluate("1.0 / 0.0"), Err(Error::DivisionByZero));
    assert_eq!(evaluate("1.0 / -0.0"), Err(Error::DivisionByZero));
    assert_eq!(evaluate("1.5 % 0.0"), Err(Error::DivisionByZero));
}

#[test]
fn float_arithmetic_is_the_hosts() {
    assert_eq!(evaluate("5.5 - 2.25"), Ok(float(3.25)));
    assert_eq!(evaluate("1.5 * 4.0"), Ok(float(6.0)));
    assert_eq!(evaluate("7.5 / 2.5"), Ok(float(3.0)));
    assert_eq!(evaluate("7.5 % 2.0"), Ok(float(1.5)));
    assert_eq!(evaluate("-1.5"), Ok(float(-1.5)));
    assert_eq!(evaluate("0.0 == -0.0"), Ok(Value::Bool(true)));
}

#[test]
fn cross_kind_arithmetic_is_a_type_error() {
    assert_eq!(
        evaluate("1 + 1.0"),
        Err(Error::InvalidTypesForOperator(Kind::I64, Kind::F64, Op::Plus))
    );
    assert_eq!(
        evaluate("{} + {}"),
        Err(Error::InvalidTypesForOperator(Kind::Dict, Kind::Dict, Op::Plus))
    );
    assert_eq!(
        evaluate("[1] - [1]"),
        Err(Error::InvalidTypesForOperator(Kind::List, Kind::List, Op::Minus))
    );
    assert_eq!(
        evaluate("null * null"),
        Err(Error::InvalidTypesForOperator(Kind::Null, Kind::Null, Op::Times))
    );
    assert_eq!(
        evaluate("true / 1"),
        Err(Error::InvalidTypesForOperator(Kind::Bool, Kind::I64, Op::Div))
    );
    assert_eq!(
        evaluate("b'a' % 'a'"),
        Err(Error::InvalidTypesForOperator(Kind::Bytes, Kind::String, Op::Mod))
    );
}

#[test]
fn apply_binary_on_values() {
    assert_eq!(
        apply_binary(Binary::Add, Value::I64(2), Value::I64(3)),
        Ok(Ok(Value::I64(5)))
    );
    assert_eq!(
        apply_binary(Binary::Add, float(1.0), float(2.0)),
        Err(FloatRequest::Add(1.0f64.to_bits(), 2.0f64.to_bits()))
    );
    assert_eq!(
        apply_binary(Binary::Add, Value::Bytes(vec![1]), Value::Bytes(vec![2, 3])),
        Ok(Ok(Value::Bytes(vec![1, 2, 3])))
    );
    assert_eq!(
        apply_binary(Binary::Neq, Value::Null, Value::Null),
        Ok(Ok(Value::Bool(false)))
    );
}

#[test]
fn order_is_within_one_kind() {
    assert_eq!(evaluate("1 < 2"), Ok(Value::Bool(true)));
    assert_eq!(evaluate("2 <= 2"), Ok(Value::Bool(true)));
    assert_eq!(evaluate("2 >= 3"), Ok(Value::Bool(false)));
    assert_eq!(evaluate("true > false"), Ok(Value::Bool(true)));
    assert_eq!(evaluate("'a' < 'b'"), Ok(Value::Bool(true)));
    assert_eq!(evaluate("'ab' > 'a'"), Ok(Value::Bool(true)));
    assert_eq!(evaluate("1.5 < 2.5"), Ok(Value::Bool(true)));
    assert_eq!(evaluate("-1.5 < -2.5"), Ok(Value::Bool(false)));
    assert_eq!(evaluate("-0.0 >= 0.0"), Ok(Value::Bool(true)));
    assert_eq!(
        evaluate("1 < 1.0"),
        Err(Error::InvalidTypesForOperator(Kind::I64, Kind::F64, Op::Lt))
    );
    assert_eq!(
        evaluate("null <= null"),
        Err(Error::InvalidTypesForOperator(Kind::Null, Kind::Null, Op::Lte))
    );
    assert_eq!(
        evaluate("[1] > [0]"),
        Err(Error::InvalidTypesForOperator(Kind::List, Kind::List, Op::Gt))
    );
    assert_eq!(
        evaluate("{} >= {}"),
        Err(Error::InvalidTypesForOperator(Kind::Dict, Kind::Dict, Op::Gte))
    );
}

#[test]
fn nan_is_neither_ordered_nor_equal() {
    let nan = float(f64::NAN);
    assert_eq!(order_values(&nan, &float(1.0)), None);
    assert_eq!(order_values(&float(1.0), &nan), None);
    assert!(!values_equal(&nan, &nan));
    assert!(nan != nan);
    assert_eq!(
        evaluate("let x = (0.0 - 1.0).pow(0.5); x < x"),
        Err(Error::InvalidTypesForOperator(Kind::F64, Kind::F64, Op::Lt))
    );
    assert_eq!(
        evaluate("let x = (0.0 - 1.0).pow(0.5); x == x"),
        Ok(Value::Bool(false))
    );
}

#[test]
fn exactly_one_of_less_equal_greater() {
    let values = vec![
        Value::I64(-1),
        Value::I64(7),
        float(-2.5),
        float(-0.0),
        float(0.0),
        float(f64::INFINITY),
        Value::Bool(false),
        Value::Bool(true),
        text(""),
        text("a"),
        text("¢"),
        Value::Bytes(vec![]),
        Value::Bytes(vec![0xFE, 0xFF]),
        Value::Bytes(vec![0xFF]),
    ];
    for a in &values {
        for b in &values {
            if a.kind() != b.kind() {
                assert_eq!(order_values(a, b), None);
                assert!(!values_equal(a, b));
                continue;
            }
            let less = order_values(a, b) == Some(Order::Less);
            let greater = order_values(b, a) == Some(Order::Less);
            let equal = values_equal(a, b);
            let holding = [less, equal, greater].iter().filter(|x| **x).count();
            assert_eq!(holding, 1, "{:?} and {:?}", a, b);
            assert_eq!(order_values(a, b) == Some(Order::Equal), equal);
            assert_eq!(order_values(a, b) == Some(Order::Greater), greater);
        }
    }
}

#[test]
fn partial_cmp_follows_the_order() {
    assert_eq!(
        Value::I64(1).partial_cmp(&Value::I64(2)),
        Some(std::cmp::Ordering::Less)
    );
    assert_eq!(
        text("b").partial_cmp(&text("a")),
        Some(std::cmp::Ordering::Greater)
    );
    assert_eq!(Value::Null.partial_cmp(&Value::Null), None);
    assert_eq!(Value::I64(1).partial_cmp(&float(1.0)), None);
}

#[test]
fn equality_is_structural() {
    assert_eq!(evaluate("[1, [2, 'a']] == [1, [2, 'a']]"), Ok(Value::Bool(true)));
    assert_eq!(evaluate("[1, 2] == [1, 2, 3]"), Ok(Value::Bool(false)));
    assert_eq!(evaluate("null == null"), Ok(Value::Bool(true)));
    assert_eq!(
        evaluate("{'a': 1, 'b': [2]} == {'b': [2], 'a': 1}"),
        Ok(Value::Bool(true))
    );
    assert_eq!(
        evaluate("{'a': 1} == {'a': 2}"),
        Ok(Value::Bool(false))
    );
    assert_eq!(evaluate("{'a': 1} != {'b': 1}"), Ok(Value::Bool(true)));
    assert_eq!(evaluate("'a' == b'a'"), Ok(Value::Bool(false)));
}

#[test]
fn pow_on_integers() {
    assert_eq!(evaluate("2.pow(10)"), Ok(Value::I64(1024)));
    assert_eq!(evaluate("7.pow(0)"), Ok(Value::I64(1)));
    assert_eq!(evaluate("0.pow(0)"), Ok(Value::I64(1)));
    assert_eq!(evaluate("(-3).pow(3)"), Ok(Value::I64(-27)));
    assert_eq!(evaluate("2.pow(63)"), Ok(Value::I64(i64::MIN)));
    assert_eq!(evaluate("2.pow(64)"), Ok(Value::I64(0)));
    assert_eq!(evaluate("3.pow(40)"), Ok(Value::I64(3i64.wrapping_pow(40))));
    assert_eq!(
        evaluate("3.pow(4294967297)"),
        Ok(Value::I64(3i64.wrapping_pow(u32::MAX).wrapping_mul(9)))
    );
    assert_eq!(
        evaluate("2.pow(-1)"),
        Err(Error::NoMethodWithSignature(
            Kind::I64,
            Identifier::new("pow"),
            vec![Kind::I64]
        ))
    );
    assert_eq!(
        evaluate("2.pow('x')"),
        Err(Error::NoMethodWithSignature(
            Kind::I64,
            Identifier::new("pow"),
            vec![Kind::String]
        ))
    );
    assert_eq!(
        evaluate("2.5.pow(null)"),
        Err(Error::NoMethodWithSignature(
            Kind::F64,
            Identifier::new("pow"),
            vec![Kind::Null]
        ))
    );
    assert_eq!(
        evaluate("'x'.pow(2)"),
        Err(Error::NoMethodOnType(Kind::String, Identifier::new("pow")))
    );
    assert_eq!(
        evaluate("2.pow()"),
        Err(Error::NoMethodWithSignature(
            Kind::I64,
            Identifier::new("pow"),
            vec![]
        ))
    );
}

#[test]
fn methods_check_arity_then_operand() {
    assert_eq!(
        evaluate("1.len(2, 'a')"),
        Err(Error::NoMethodWithSignature(
            Kind::I64,
            Identifier::new("len"),
            vec![Kind::I64, Kind::String]
        ))
    );
    assert_eq!(
        evaluate("1.len()"),
        Err(Error::NoMethodOnType(Kind::I64, Identifier::new("len")))
    );
    assert_eq!(
        evaluate("1.keys()"),
        Err(Error::NoMethodOnType(Kind::I64, Identifier::new("keys")))
    );
    assert_eq!(
        evaluate("{}.keys(1)"),
        Err(Error::NoMethodWithSignature(
            Kind::Dict,
            Identifier::new("keys"),
            vec![Kind::I64]
        ))
    );
    assert_eq!(
        evaluate("'a'.contains('a')"),
        Err(Error::NoMethodOnType(Kind::String, Identifier::new("contains")))
    );
    assert_eq!(
        evaluate("[].contains()"),
        Err(Error::NoMethodWithSignature(
            Kind::List,
            Identifier::new("contains"),
            vec![]
        ))
    );
    assert_eq!(
        evaluate("[1].frobnicate(1)"),
        Err(Error::NoMethod(Identifier::new("frobnicate")))
    );
    assert_eq!(
        evaluate_method(Identifier::new("len"), text("asdf"), vec![]),
        Ok(Ok(Value::I64(4)))
    );
}

#[test]
fn len_counts_characters_of_strings_and_bytes_of_bytes() {
    assert_eq!(evaluate("'¢¢'.len()"), Ok(Value::I64(2)));
    assert_eq!(evaluate("b'¢¢'.len()"), Ok(Value::I64(4)));
    assert_eq!(evaluate("''.len()"), Ok(Value::I64(0)));
    assert_eq!(evaluate("{}.len()"), Ok(Value::I64(0)));
    assert_eq!(evaluate("[[], []].len()"), Ok(Value::I64(2)));
}

#[test]
fn keys_come_in_ascending_order() {
    assert_eq!(
        evaluate("{'b': 1, 'a': 2, 'ab': 3, '': 4}.keys()"),
        Ok(Value::List(vec![text(""), text("a"), text("ab"), text("b")]))
    );
    assert_eq!(evaluate("{}.keys()"), Ok(Value::List(vec![])));
}

#[test]
fn contains_compares_by_equality() {
    assert_eq!(evaluate("[1, 'a', [2]].contains([2])"), Ok(Value::Bool(true)));
    assert_eq!(evaluate("[1, 'a', [2]].contains('b')"), Ok(Value::Bool(false)));
    assert_eq!(evaluate("[1].contains(1.0)"), Ok(Value::Bool(false)));
    assert_eq!(evaluate("[].contains(null)"), Ok(Value::Bool(false)));
}

#[test]
fn unary_operators_check_their_operand() {
    assert_eq!(
        evaluate("-true"),
        Err(Error::InvalidTypeForOperator(Kind::Bool, Op::Neg))
    );
    assert_eq!(
        evaluate("!1"),
        Err(Error::InvalidTypeForOperator(Kind::I64, Op::Not))
    );
    assert_eq!(evaluate("!!true"), Ok(Value::Bool(true)));
    assert_eq!(evaluate("- - 5"), Ok(Value::I64(5)));
}

#[test]
fn logical_operators_keep_the_first_failure() {
    assert_eq!(evaluate("1 / 0 || true"), Ok(Value::Bool(true)));
    assert_eq!(evaluate("1 / 0 && false"), Ok(Value::Bool(false)));
    assert_eq!(evaluate("false || false"), Ok(Value::Bool(false)));
    assert_eq!(evaluate("true && true && true"), Ok(Value::Bool(true)));
    assert_eq!(
        evaluate("false || 5"),
        Err(Error::InvalidTypeForOperator(Kind::I64, Op::Or))
    );
    assert_eq!(
        evaluate("true && 'a'"),
        Err(Error::InvalidTypeForOperator(Kind::String, Op::And))
    );
    assert_eq!(evaluate("1 / 0 || nope"), Err(Error::DivisionByZero));
    assert_eq!(
        evaluate("nope || 1 / 0 || false"),
        Err(Error::NoSuchBinding(Identifier::new("nope")))
    );
    assert_eq!(
        evaluate("5 || 1 / 0"),
        Err(Error::InvalidTypeForOperator(Kind::I64, Op::Or))
    );
    assert_eq!(evaluate("true || nope"), Ok(Value::Bool(true)));
}

#[test]
fn ternary_takes_a_failed_condition_as_false() {
    assert_eq!(evaluate("1 / 0 ? 1 : 2"), Ok(Value::I64(2)));
    assert_eq!(evaluate("5 ? 1 : 2"), Ok(Value::I64(2)));
    assert_eq!(evaluate("false ? 1 / 0 : 2"), Ok(Value::I64(2)));
    assert_eq!(evaluate("true ? 1 : 1 / 0"), Ok(Value::I64(1)));
    assert_eq!(evaluate("true ? 1 / 0 : 2"), Err(Error::DivisionByZero));
}

#[test]
fn let_binds_a_result_even_an_error() {
    assert_eq!(evaluate("let x = 1 / 0; 5"), Ok(Value::I64(5)));
    assert_eq!(evaluate("let x = 1 / 0; x"), Err(Error::DivisionByZero));
    assert_eq!(evaluate("let x = 1; let y = x + 1; let x = y * 10; x + y"), Ok(Value::I64(22)));
    assert_eq!(
        evaluate("y"),
        Err(Error::NoSuchBinding(Identifier::new("y")))
    );
}

#[test]
fn dictionary_literals_check_their_keys() {
    assert_eq!(
        evaluate(r#" { "a": 0, "a": 1 } "#),
        Err(Error::DuplicateMapKey("a".to_owned()))
    );
    assert_eq!(
        evaluate(r#" { 1: "x" } "#),
        Err(Error::InvalidMapKey(Kind::I64))
    );
    assert_eq!(
        evaluate(r#" { ("a" + "b"): "x" }.len() "#),
        Ok(Value::I64(1))
    );
    assert_eq!(
        evaluate(r#" { ("a" + "b"): "x" }.ab "#),
        Ok(text("x"))
    );
    assert_eq!(evaluate("{ 1: 1 / 0 }"), Err(Error::DivisionByZero));
    assert_eq!(
        evaluate("{ 'a': 1, null: 2, 'a': 3 }"),
        Err(Error::InvalidMapKey(Kind::Null))
    );
}

#[test]
fn list_literals_stop_at_the_first_failure() {
    assert_eq!(evaluate("[1, 1 / 0, nope]"), Err(Error::DivisionByZero));
    assert_eq!(
        evaluate(r#" ["a", 3, 1/0].contains(2) "#),
        Err(Error::DivisionByZero)
    );
    assert_eq!(
        evaluate("[1].contains(nope, 1 / 0)"),
        Err(Error::NoSuchBinding(Identifier::new("nope")))
    );
}

#[test]
fn arithmetic_scenarios() {
    assert_eq!(evaluate("22 * (4 + 15)"), Ok(Value::I64(418)));
    assert_eq!(evaluate(r#" "asdf".len() + "pqrs".len() "#), Ok(Value::I64(8)));
    assert_eq!(evaluate("1 + 2 * 3 - 4 / 2 % 3"), Ok(Value::I64(5)));
}

#[test]
fn evaluation_stops_at_the_weight_ceiling() {
    let mut list = String::from("[0");
    for _ in 0..20000 {
        list.push_str(", 0");
    }
    list.push(']');
    assert_eq!(evaluate(&list), Err(Error::EvaluationTooLarge));
    let input = format!("false || {} == [] || true", list);
    assert_eq!(evaluate(&input), Err(Error::EvaluationTooLarge));
    let input = format!("let x = {}; 1", list);
    assert_eq!(evaluate(&input), Err(Error::EvaluationTooLarge));
}

#[test]
fn weights_add_up() {
    assert_eq!(text("¢").size(), 64 + 2);
    let mut m = ValueMap::new();
    m.insert("ab".to_owned(), Value::List(vec![Value::I64(1), text("xyz")]));
    m.insert("c".to_owned(), Value::Bytes(vec![1, 2]));
    assert_eq!(Value::Dict(m).size(), 64 + (2 + 64 + 64 + 64 + 3) + (1 + 64 + 2));
}

#[test]
fn kinds_of_values() {
    assert_eq!(Value::I64(1).kind(), Kind::I64);
    assert_eq!(float(1.0).kind(), Kind::F64);
    assert_eq!(Value::Bool(true).kind(), Kind::Bool);
    assert_eq!(text("").kind(), Kind::String);
    assert_eq!(Value::Bytes(vec![]).kind(), Kind::Bytes);
    assert_eq!(Value::List(vec![]).kind(), Kind::List);
    assert_eq!(Value::Dict(ValueMap::new()).kind(), Kind::Dict);
    assert_eq!(Value::Null.kind(), Kind::Null);
}

#[test]
fn dictionary_insert_and_get() {
    let mut m = ValueMap::new();
    assert_eq!(m.insert("b".to_owned(), Value::I64(1)), None);
    assert_eq!(m.insert("a".to_owned(), Value::I64(2)), None);
    assert_eq!(m.insert("c".to_owned(), Value::I64(3)), None);
    assert_eq!(m.insert("b".to_owned(), Value::I64(4)), Some(Value::I64(1)));
    assert_eq!(m.len(), 3);
    assert_eq!(m.get("a"), Some(&Value::I64(2)));
    assert_eq!(m.get("b"), Some(&Value::I64(4)));
    assert_eq!(m.get("d"), None);
    assert_eq!(m.key_at(0), "a");
    assert_eq!(m.key_at(1), "b");
    assert_eq!(m.key_at(2), "c");
    assert_eq!(m.value_at(2), &Value::I64(3));
    let copy = m.clone();
    assert_eq!(Value::Dict(copy), Value::Dict(m));
}

#[test]
fn a_float_operation_is_asked_for() {
    let expr = parse("1.5 + 2.5").expect("parse");
    let one = 1.5f64.to_bits();
    let two = 2.5f64.to_bits();
    assert_eq!(
        EvalContext::default().evaluate(&expr),
        Err(FloatRequest::Literal("1.5".to_owned()))
    );
    assert_eq!(
        EvalContext::with_answers(vec![one]).evaluate(&expr),
        Err(FloatRequest::Literal("2.5".to_owned()))
    );
    assert_eq!(
        EvalContext::with_answers(vec![one, two]).evaluate(&expr),
        Err(FloatRequest::Add(one, two))
    );
    assert_eq!(
        EvalContext::with_answers(vec![one, two, 42]).evaluate(&expr),
        Ok(Ok(Value::F64(42)))
    );
    let expr = parse("2.0.pow(3)").expect("parse");
    assert_eq!(
        EvalContext::with_answers(vec![2.0f64.to_bits()]).evaluate(&expr),
        Err(FloatRequest::PowInt(2.0f64.to_bits(), 3))
    );
    let expr = parse("7.5 % 2.0 - 1.0 * 3.0 / 4.0").expect("parse");
    let asked = EvalContext::with_answers(vec![7.5f64.to_bits(), two, 9]).evaluate(&expr);
    assert_eq!(asked, Err(FloatRequest::Literal("1.0".to_owned())));
    let asked = EvalContext::with_answers(vec![7.5f64.to_bits(), two]).evaluate(&expr);
    assert_eq!(asked, Err(FloatRequest::Rem(7.5f64.to_bits(), two)));
}

#[test]
fn bindings_of_a_context() {
    let root = EvalContext::default();
    let outer = root.with_binding(Identifier::new("x"), Ok(Value::I64(1)));
    let mut inner = outer.with_binding(Identifier::new("x"), Err(Error::DivisionByZero));
    let mut outer = outer;
    let x = parse("x").expect("parse");
    assert_eq!(outer.evaluate(&x), Ok(Ok(Value::I64(1))));
    assert_eq!(inner.evaluate(&x), Ok(Err(Error::DivisionByZero)));
    inner.unbind();
    assert_eq!(inner.evaluate(&x), Ok(Ok(Value::I64(1))));
    inner.bind(Identifier::new("y"), Ok(text("a")));
    assert_eq!(
        inner.evaluate(&parse("y + y").expect("parse")),
        Ok(Ok(text("aa")))
    );
}

#[test]
fn operators_of_expressions() {
    assert_eq!(parse("1 + 2").unwrap().op(), Op::Plus);
    assert_eq!(parse("a.b").unwrap().op(), Op::Member(Identifier::new("b")));
    assert_eq!(parse("a.b()").unwrap().op(), Op::Method(Identifier::new("b")));
    assert_eq!(parse("a").unwrap().op(), Op::Lookup);
    assert_eq!(parse("1").unwrap().op(), Op::Lit);
    assert_eq!(parse("let a = 1; a").unwrap().op(), Op::LetBinding);
    assert_eq!(parse("a ? 1 : 2").unwrap().op(), Op::Ternary);
    assert_eq!(parse("a || b").unwrap().op(), Op::Or);
    assert_eq!(parse("a && b").unwrap().op(), Op::And);
    assert_eq!(parse("!a").unwrap().op(), Op::Not);
    assert_eq!(parse("-a").unwrap().op(), Op::Neg);
    assert_eq!(
        Expression::Lit(Literal::Null).op(),
        Op::Lit
    );
}

#[test]
fn trace_mirrors_the_tree() {
    let expr = parse("let x = 2; x + 3 == 5 || nope").expect("parse");
    let mut ctx = EvalContext::default();
    let traced = explore(&mut ctx, &expr).expect("no floats");
    assert_eq!(traced.op, Op::Or);
    assert_eq!(traced.result, Ok(Value::Bool(true)));
    assert_eq!(traced.children.len(), 2);
    let eq = &traced.children[0];
    assert_eq!(eq.op, Op::Eq);
    assert_eq!(eq.result, Ok(Value::Bool(true)));
    let sum = &eq.children[0];
    assert_eq!(sum.op, Op::Plus);
    assert_eq!(sum.result, Ok(Value::I64(5)));
    let x = &sum.children[0];
    assert_eq!(x.op, Op::Lookup);
    assert_eq!(x.result, Ok(Value::I64(2)));
    assert_eq!(x.children.len(), 1);
    assert_eq!(x.children[0].op, Op::Lookup);
    assert_eq!(x.children[0].result, Ok(text("x")));
    assert_eq!(x.children[0].children.len(), 0);
    assert_eq!(sum.children[1].op, Op::Lit);
    assert_eq!(sum.children[1].children.len(), 0);
    let nope = &traced.children[1];
    assert_eq!(nope.result, Err(Error::NoSuchBinding(Identifier::new("nope"))));
    let expr = parse("[1].len(2).a").expect("parse");
    let traced = explore(&mut EvalContext::default(), &expr).expect("no floats");
    assert_eq!(traced.op, Op::Member(Identifier::new("a")));
    assert_eq!(traced.children.len(), 1);
    assert_eq!(traced.children[0].op, Op::Method(Identifier::new("len")));
    assert_eq!(traced.children[0].children.len(), 2);
    let expr = parse("1.5 < 2.0").expect("parse");
    assert_eq!(
        explore(&mut EvalContext::default(), &expr).err(),
        Some(FloatRequest::Literal("1.5".to_owned()))
    );
}

#[test]
fn copies_are_equal() {
    let expr = parse("let x = [1, 'a', {b: 2.5}]; x.len() > 0 ? -x : !x.b(1, b'c')").expect("parse");
    assert_eq!(expr.clone(), expr);
    let value = evaluate("[1, 'a', {'b': [null, true, b'c']}]").expect("value");
    assert_eq!(value.clone(), value);
    let error = Error::NoMethodWithSignature(Kind::I64, Identifier::new("pow"), vec![Kind::Null]);
    assert_eq!(error.clone(), error);
    assert_eq!("name".parse::<Identifier>(), Ok(Identifier::new("name")));
    assert_eq!(Identifier::new("name").clone().0, "name");
}

#[test]
fn answers_not_taken_change_nothing() {
    let expr = parse("1 + 2").expect("parse");
    assert_eq!(
        EvalContext::with_answers(vec![7, 8]).evaluate(&expr),
        EvalContext::default().evaluate(&expr)
    );
    let expr = parse("1.5 + 2.5 == 4.0 || nope").expect("parse");
    let needed = vec![
        1.5f64.to_bits(),
        2.5f64.to_bits(),
        4.0f64.to_bits(),
        4.0f64.to_bits(),
    ];
    let mut longer = needed.clone();
    longer.push(1);
    longer.push(2);
    assert_eq!(
        EvalContext::with_answers(needed).evaluate(&expr),
        Ok(Ok(Value::Bool(true)))
    );
    assert_eq!(
        EvalContext::with_answers(longer).evaluate(&expr),
        Ok(Ok(Value::Bool(true)))
    );
}
