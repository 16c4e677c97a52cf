use wasm_cel::model::{Expression, Literal};
use wasm_cel::parser::{parse, ParseError};

fn assert_valid(input: &str) {
    parse(input).expect("failed to parse");
}

fn assert_invalid(input: &str) {
    let parsed = parse(input);
    assert!(parsed.is_err(), "{} was accepted as {:?}", input, parsed);
}

fn string_literal(s: &str) -> Expression {
    Expression::Lit(Literal::String(String::from(s)))
}

fn bytes_literal(b: &[u8]) -> Expression {
    Expression::Lit(Literal::Bytes(b.to_vec()))
}

#[test]
fn cel_valid() {
    assert_valid("22 * (4 + 15)");
    assert_valid("22 * -4");
    assert_valid("!false");
}

#[test]
fn valid_floats() {
    assert_valid("3.1415926");
    assert_invalid(".1415926");
    assert_invalid("3.");
}

#[test]
fn null_literal() {
    assert_valid("null");
}

#[test]
fn int_literals() {
    assert_valid("1");
    assert_valid("31415");
}

#[test]
fn int_literal_overflow_is_an_error() {
    assert_eq!(
        parse("9999999999999999999999999"),
        Err(ParseError { position: 0 })
    );
    assert_eq!(
        parse("9223372036854775807"),
        Ok(Expression::Lit(Literal::I64(i64::MAX)))
    );
    assert_invalid("9223372036854775808");
}

#[test]
fn cel_smoke() {
    let input = "22 * (4 + 15)";
    assert_eq!(
        parse(input),
        Ok(Expression::Mul(
            Box::new(Expression::Lit(Literal::I64(22))),
            Box::new(Expression::Add(
                Box::new(Expression::Lit(Literal::I64(4))),
                Box::new(Expression::Lit(Literal::I64(15))),
            ))
        ))
    );
}

#[test]
fn cel_list() {
    let input = "[0, false || true]";
    assert_eq!(
        parse(input),
        Ok(Expression::Lit(Literal::List(vec![
            Expression::Lit(Literal::I64(0)),
            Expression::Or(vec![
                Expression::Lit(Literal::Bool(false)),
                Expression::Lit(Literal::Bool(true)),
            ])
        ])))
    );
}

#[test]
fn valid_list() {
    assert_valid(r#" [] "#); // empty
    assert_valid(r#" [x, y, z] "#); // bindings
    assert_valid(r#" [ "a", "b", "c",  ] "#); // trailing comma
    assert_valid(r#" [[[[[0]]]]] "#); // nested
}

#[test]
fn valid_maps() {
    assert_valid(r#" { "foo": "bar" } "#); // string literals
    assert_valid(r#" { foo: bar } "#); // bindings
    assert_valid(r#" { a: b, c: d, e: f } "#); // multiple fields
    assert_valid(r#" {} "#); // empty
    assert_valid(
        r#" {
      "a": "b",
      "p": "q"
    } "#,
    ); // multi-line
    assert_valid(
        r#" {
      "a": "b",
      "p": "q",
    } "#,
    ); // trailing comma
}

#[test]
fn cel_string() {
    let input = r#""asdf""#;
    assert_eq!(
        parse(input),
        Ok(Expression::Lit(Literal::String(String::from("asdf"))))
    );
}

#[test]
fn valid_string_literals() {
    assert_valid(r#" "asdf" "#);
    assert_valid(r#" 'asdf' "#);
    assert_valid(r#" '¢' "#);
}

#[test]
fn cel_escaped_quote_string() {
    let input = r#""as\"df""#;
    assert_eq!(
        parse(input),
        Ok(Expression::Lit(Literal::String(String::from("as\"df"))))
    );
}

#[test]
fn invalid_octal_escapes() {
    assert_invalid(r#" "\0" "#);
    assert_invalid(r#" "\7" "#);
    assert_invalid(r#" "\07" "#);
    assert_invalid(r#" "\77" "#);
    assert_invalid(r#" "\8" "#);
    assert_invalid(r#" "\378" "#);
    assert_invalid(r#" "\400" "#);
}

#[test]
fn valid_octal_escapes() {
    assert_eq!(parse(r#" "\000" "#).unwrap(), string_literal("\u{0000}"));
    assert_eq!(parse(r#" "\007" "#).unwrap(), string_literal("\u{0007}"));
    assert_eq!(parse(r#" "\377" "#).unwrap(), string_literal("\u{00FF}"));
}

#[test]
fn valid_hex_escapes() {
    assert_eq!(parse(r#" "\x00" "#).unwrap(), string_literal("\u{0000}"));
    assert_eq!(parse(r#" "\xFF" "#).unwrap(), string_literal("\u{00FF}"));
}

#[test]
fn valid_unicode_escapes() {
    assert_eq!(parse(r#" "\u0000" "#).unwrap(), string_literal("\u{0000}"));
    assert_eq!(parse(r#" "\u00FF" "#).unwrap(), string_literal("\u{00FF}"));
    assert_eq!(parse(r#" "\uFF00" "#).unwrap(), string_literal("\u{FF00}"));
    assert_eq!(parse(r#" "\uFFFF" "#).unwrap(), string_literal("\u{FFFF}"));
}

#[test]
fn valid_bytes() {
    assert_eq!(parse(r#" b"asdf" "#).unwrap(), bytes_literal("asdf".as_bytes()));
}

#[test]
fn method_call() {
    assert_valid(r#" [1, 2, 3].len() "#);
    assert_valid(r#" 42.pow(42) "#);
    assert_valid(r#" ([1] + [2]).len() "#);
    assert_valid(r#" ([1] + [2]).len().pow(2) "#);
    assert_valid(r#" ([1] + [2]).foo.bar.baz(1,2,3).length.asdf("asdf") "#);
}

#[test]
fn member_access() {
    assert_valid(r#" foo "#);
    assert_valid(r#" foo.bar.baz "#);
}

#[test]
fn multi_conjunction() {
    assert_valid(r#" true && true && true && true "#);
}

#[test]
fn multi_disjunction() {
    assert_valid(r#" true || true || true || true "#);
}

#[test]
fn relations() {
    assert_valid(r#" 0 < 1 && 1 <= 2 && 3 == 3 && 4 >= 3 && 4 > 3 && 0 != 0 "#);
}

#[test]
fn parser_let_binding_smoke() {
    assert_valid(r#" let x = 42; x "#);
}

#[test]
fn let_binding_no_expression() {
    assert_invalid(r#" let x = 42; "#);
}

#[test]
fn parser_let_rebinding() {
    assert_valid(r#" let x = 42; let x = x*x; x "#);
}
