use wasm_cel::model::{Expression, Identifier, Literal};
use wasm_cel::parser::{parse, ParseError};

fn lit(x: i64) -> Box<Expression> {
    Box::new(Expression::Lit(Literal::I64(x)))
}

fn name(s: &str) -> Expression {
    Expression::Binding(Identifier::new(s))
}

fn fails_at(input: &str, position: usize) {
    assert_eq!(parse(input), Err(ParseError { position }), "{}", input);
}

#[test]
fn operators_group_from_the_left() {
    assert_eq!(
        parse("1 - 2 + 3"),
        Ok(Expression::Add(
            Box::new(Expression::Sub(lit(1), lit(2))),
            lit(3)
        ))
    );
    assert_eq!(
        parse("1 / 2 * 3 % 4"),
        Ok(Expression::Mod(
            Box::new(Expression::Mul(
                Box::new(Expression::Div(lit(1), lit(2))),
                lit(3)
            )),
            lit(4)
        ))
    );
    assert_eq!(
        parse("1 + 2 * 3"),
        Ok(Expression::Add(
            lit(1),
            Box::new(Expression::Mul(lit(2), lit(3)))
        ))
    );
}

#[test]
fn unary_operators_nest() {
    assert_eq!(
        parse("-!- 1"),
        Ok(Expression::Neg(Box::new(Expression::Not(Box::new(
            Expression::Neg(lit(1))
        )))))
    );
    assert_eq!(
        parse("2 - -1"),
        Ok(Expression::Sub(lit(2), Box::new(Expression::Neg(lit(1)))))
    );
}

#[test]
fn logical_operators_stay_flat() {
    assert_eq!(
        parse("a || b && c && d || e"),
        Ok(Expression::Or(vec![
            name("a"),
            Expression::And(vec![name("b"), name("c"), name("d")]),
            name("e"),
        ]))
    );
}

#[test]
fn relations_do_not_chain() {
    assert_eq!(
        parse("1 <= 2"),
        Ok(Expression::Lte(lit(1), lit(2)))
    );
    assert_eq!(parse("1 >= 2"), Ok(Expression::Gte(lit(1), lit(2))));
    assert_eq!(parse("1 != 2"), Ok(Expression::Neq(lit(1), lit(2))));
    assert_eq!(parse("1 > 2"), Ok(Expression::Gt(lit(1), lit(2))));
    fails_at("1 < 2 < 3", 6);
    assert_eq!(
        parse("(1 < 2) == (3 < 4)"),
        Ok(Expression::Eq(
            Box::new(Expression::Lt(lit(1), lit(2))),
            Box::new(Expression::Lt(lit(3), lit(4)))
        ))
    );
}

#[test]
fn parentheses_hold_a_relation() {
    fails_at("(true || false)", 6);
    fails_at("(let x = 1; x)", 1);
    assert!(parse("[true || false]").is_ok());
    assert!(parse("(1 == 2) || (3 > 4)").is_ok());
}

#[test]
fn ternaries_nest_to_the_right() {
    assert_eq!(
        parse("a ? 1 : b ? 2 : 3"),
        Ok(Expression::Ternary {
            condition: Box::new(name("a")),
            true_branch: lit(1),
            else_branch: Box::new(Expression::Ternary {
                condition: Box::new(name("b")),
                true_branch: lit(2),
                else_branch: lit(3),
            }),
        })
    );
    fails_at("a ? 1", 5);
    fails_at("a ? : 1", 4);
}

#[test]
fn let_bindings_wrap_the_body() {
    assert_eq!(
        parse("let a = 1; let b = a; b"),
        Ok(Expression::LetBinding {
            id: Identifier::new("a"),
            value: lit(1),
            body: Box::new(Expression::LetBinding {
                id: Identifier::new("b"),
                value: Box::new(name("a")),
                body: Box::new(name("b")),
            }),
        })
    );
    fails_at("let x = 42;", 11);
    fails_at("let = 1; 2", 4);
    fails_at("let x 1; 2", 6);
    fails_at("let x = 1 2", 10);
    fails_at("let true = 1; 2", 4);
    assert_eq!(parse("letx"), Ok(name("letx")));
    assert_eq!(parse("truex"), Ok(name("truex")));
    assert_eq!(parse("_null1"), Ok(name("_null1")));
    fails_at("1 + let", 4);
}

#[test]
fn suffixes_chain() {
    assert_eq!(
        parse("a.b.c(1, d).e"),
        Ok(Expression::Member(
            Box::new(Expression::Method(
                Box::new(Expression::Member(
                    Box::new(name("a")),
                    Identifier::new("b")
                )),
                Identifier::new("c"),
                vec![*lit(1), name("d")]
            )),
            Identifier::new("e")
        ))
    );
    assert_eq!(
        parse("a . b ( )"),
        Ok(Expression::Method(
            Box::new(name("a")),
            Identifier::new("b"),
            vec![]
        ))
    );
    fails_at("a.b(1,)", 6);
    fails_at("a.b(1 2)", 6);
    fails_at("a.", 2);
    fails_at("a.1", 2);
}

#[test]
fn numbers() {
    assert_eq!(parse("007"), Ok(*lit(7)));
    assert_eq!(
        parse("3.25"),
        Ok(Expression::Lit(Literal::F64("3.25".to_owned())))
    );
    assert_eq!(
        parse("1.5.pow(2)"),
        Ok(Expression::Method(
            Box::new(Expression::Lit(Literal::F64("1.5".to_owned()))),
            Identifier::new("pow"),
            vec![*lit(2)]
        ))
    );
    assert_eq!(
        parse("1.len()"),
        Ok(Expression::Method(lit(1), Identifier::new("len"), vec![]))
    );
    fails_at("3.", 2);
    fails_at(".5", 0);
    fails_at("1 + 99999999999999999999", 4);
}

#[test]
fn lists_and_dictionaries() {
    assert_eq!(parse("[ ]"), Ok(Expression::Lit(Literal::List(vec![]))));
    assert_eq!(
        parse("[1, 2,]"),
        Ok(Expression::Lit(Literal::List(vec![*lit(1), *lit(2)])))
    );
    assert_eq!(
        parse("{a: 1, 'b': a ? 1 : 2}"),
        Ok(Expression::Lit(Literal::Dict(vec![
            (name("a"), *lit(1)),
            (
                Expression::Lit(Literal::String("b".to_owned())),
                Expression::Ternary {
                    condition: Box::new(name("a")),
                    true_branch: lit(1),
                    else_branch: lit(2),
                }
            ),
        ])))
    );
    fails_at("[,]", 1);
    fails_at("[1,,2]", 3);
    fails_at("[1 2]", 3);
    fails_at("[1", 2);
    fails_at("{a}", 2);
    fails_at("{a: }", 4);
    fails_at("{a: 1 b: 2}", 6);
}

#[test]
fn string_escapes() {
    assert_eq!(
        parse(r#" "a\tb\nc\"d'e" "#),
        Ok(Expression::Lit(Literal::String("a\tb\nc\"d'e".to_owned())))
    );
    assert_eq!(
        parse(r#" 'a"b' "#),
        Ok(Expression::Lit(Literal::String("a\"b".to_owned())))
    );
    assert_eq!(
        parse(r#" "\x41é\101" "#),
        Ok(Expression::Lit(Literal::String("A\u{e9}A".to_owned())))
    );
    assert_eq!(
        parse(r#" "\xe9" "#),
        Ok(Expression::Lit(Literal::String("\u{e9}".to_owned())))
    );
    fails_at(r#""\q""#, 2);
    fails_at(r#""\x4""#, 2);
    fails_at(r#""\xg0""#, 2);
    fails_at(r#""\u12""#, 2);
    fails_at(r#""\uD800""#, 2);
    fails_at(r#""\uDFFF""#, 2);
    fails_at(r#""\'""#, 2);
    fails_at(r#""\\""#, 2);
    fails_at(r#""abc"#, 4);
    fails_at(r#""abc'"#, 5);
    assert!(parse(r#""퟿""#).is_ok());
}

#[test]
fn bytes_escapes() {
    assert_eq!(
        parse(r#" b"\xff\377aéé\t" "#),
        Ok(Expression::Lit(Literal::Bytes(vec![
            0xFF, 0xFF, b'a', 0xC3, 0xA9, 0xC3, 0xA9, 9
        ])))
    );
    assert_eq!(
        parse("b'\\uFFFF'"),
        Ok(Expression::Lit(Literal::Bytes(vec![0xEF, 0xBF, 0xBF])))
    );
    assert_eq!(parse("b''"), Ok(Expression::Lit(Literal::Bytes(vec![]))));
    assert_eq!(parse("b"), Ok(name("b")));
    fails_at("b 'a'", 2);
}

#[test]
fn white_space_and_ends() {
    fails_at("", 0);
    fails_at("   ", 3);
    fails_at("1 +", 3);
    fails_at("1 2", 2);
    fails_at("1 )", 2);
    fails_at("1 = 2", 2);
    fails_at("1 & 2", 2);
    fails_at("1 | 2", 2);
    fails_at("#", 0);
    assert_eq!(parse("\t1\r\n+\n2 "), Ok(Expression::Add(lit(1), lit(2))));
    assert_eq!(
        parse("null"),
        Ok(Expression::Lit(Literal::Null))
    );
    assert_eq!(
        parse("!false"),
        Ok(Expression::Not(Box::new(Expression::Lit(Literal::Bool(false)))))
    );
    assert_eq!(parse("é"), Err(ParseError { position: 0 }));
    assert_eq!(parse("'é' é"), Err(ParseError { position: 4 }));
}
