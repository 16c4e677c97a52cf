//! The grammar of the expression language, as functions from a text and a
//! position to what stands there.
//!
//! Each function skips the white space before its first token, and gives
//! either what it recognised with the position behind it, or the position at
//! which the text stopped being what the grammar asks for. From loosest to
//! tightest: `let` bindings, the ternary, `||`, `&&`, one relation, `+ -`,
//! `* / %`, unary `- !`, member and method suffixes, and the operands: a
//! literal, a name, or a relation in parentheses.
//!
//! The functions call each other, so each has to be seen to end. They do,
//! because every call is either at a later position or to a tighter form at
//! the same position. Where a function goes on behind what another one
//! recognised, it first tests that the position it was given lies behind its
//! own and within the text; the parser shows that this test never fails.
use vstd::prelude::*;
use vstd::utf8::encode_utf8;

use crate::model::{ExpressionView, LiteralView};

verus! {

/// What was recognised, with the position behind it, or the position of the
/// failure.
pub type Parsed<T> = Result<(T, int), int>;

/// One unit of a string or bytes literal: a byte that an escape gave, or a
/// character.
#[derive(Debug, PartialEq, Eq, Copy, Clone, Structural)]
pub enum Unescaped {
    Byte(u8),
    Unicode(char),
}

/// Whether the character `c` stands at `pos`.
pub open spec fn at(s: Seq<char>, pos: int, c: char) -> bool {
    0 <= pos < s.len() && s[pos] == c
}

/// Whether `c` is white space: a blank, a tab or a line end.
pub open spec fn is_space(c: char) -> bool {
    c == ' ' || c == '\t' || c == '\n' || c == '\r'
}

/// Whether `c` is a decimal digit.
pub open spec fn is_digit(c: char) -> bool {
    '0' <= c <= '9'
}

/// Whether an identifier may begin with `c`.
pub open spec fn is_name_start(c: char) -> bool {
    ('a' <= c <= 'z') || ('A' <= c <= 'Z') || c == '_'
}

/// Whether an identifier may go on with `c`.
pub open spec fn is_name_part(c: char) -> bool {
    is_name_start(c) || is_digit(c)
}

/// The first position from `pos` on that holds no white space.
pub open spec fn skip_space(s: Seq<char>, pos: int) -> int
    decreases s.len() - pos,
{
    if 0 <= pos < s.len() && is_space(s[pos]) {
        skip_space(s, pos + 1)
    } else {
        pos
    }
}

/// The first position from `pos` on that holds no character of a name.
pub open spec fn name_end(s: Seq<char>, pos: int) -> int
    decreases s.len() - pos,
{
    if 0 <= pos < s.len() && is_name_part(s[pos]) {
        name_end(s, pos + 1)
    } else {
        pos
    }
}

/// The first position from `pos` on that holds no digit.
pub open spec fn digits_end(s: Seq<char>, pos: int) -> int
    decreases s.len() - pos,
{
    if 0 <= pos < s.len() && is_digit(s[pos]) {
        digits_end(s, pos + 1)
    } else {
        pos
    }
}

/// A name ends at or behind the position at which it is looked for, and
/// within the text.
pub proof fn lemma_name_end(s: Seq<char>, pos: int)
    ensures
        pos <= name_end(s, pos),
        pos <= s.len() ==> name_end(s, pos) <= s.len(),
    decreases s.len() - pos,
{
    if 0 <= pos < s.len() && is_name_part(s[pos]) {
        lemma_name_end(s, pos + 1);
    }
}

/// Digits end at or behind the position at which they are looked for, and
/// within the text.
pub proof fn lemma_digits_end(s: Seq<char>, pos: int)
    ensures
        pos <= digits_end(s, pos),
        pos <= s.len() ==> digits_end(s, pos) <= s.len(),
    decreases s.len() - pos,
{
    if 0 <= pos < s.len() && is_digit(s[pos]) {
        lemma_digits_end(s, pos + 1);
    }
}

/// Whether `word` is one of the words that are no identifiers.
pub open spec fn is_reserved(word: Seq<char>) -> bool {
    word == seq!['l', 'e', 't'] || word == seq!['t', 'r', 'u', 'e'] || word == seq![
        'f',
        'a',
        'l',
        's',
        'e',
    ] || word == seq!['n', 'u', 'l', 'l']
}

/// Whether the whole name at `pos` is `word`.
pub open spec fn word_at(s: Seq<char>, pos: int, word: Seq<char>) -> bool {
    0 <= pos < s.len() && is_name_start(s[pos]) && s.subrange(pos, name_end(s, pos)) == word
}

/// An identifier: a letter or `_`, then letters, digits and `_`; none of
/// `let`, `true`, `false` and `null`.
pub open spec fn identifier_at(s: Seq<char>, pos: int) -> Parsed<Seq<char>> {
    let p = skip_space(s, pos);
    if 0 <= p < s.len() && is_name_start(s[p]) && !is_reserved(s.subrange(p, name_end(s, p))) {
        Ok((s.subrange(p, name_end(s, p)), name_end(s, p)))
    } else {
        Err(p)
    }
}

/// The number that the digits from `from` up to `to` denote.
pub open spec fn digits_value(s: Seq<char>, from: int, to: int) -> nat
    decreases to - from,
{
    if to <= from || to > s.len() || from < 0 {
        0
    } else {
        (10 * digits_value(s, from, to - 1) + (s[to - 1] as u32 - '0' as u32)) as nat
    }
}

/// The value of `c` as a digit in the given base, if it is one.
pub open spec fn digit_in(c: char, base: int) -> Option<int> {
    let v: int = if '0' <= c <= '9' {
        c as u32 - '0' as u32
    } else if 'a' <= c <= 'f' {
        c as u32 - 'a' as u32 + 10
    } else if 'A' <= c <= 'F' {
        c as u32 - 'A' as u32 + 10
    } else {
        base
    };
    if v < base {
        Some(v)
    } else {
        None
    }
}

/// The number that the `n` digits from `pos` on denote in the given base,
/// if they are `n` such digits.
pub open spec fn number_in(s: Seq<char>, pos: int, n: nat, base: int) -> Option<int>
    decreases n,
{
    if n == 0 {
        Some(0)
    } else if !(0 <= pos && pos + n <= s.len()) {
        None
    } else {
        match (number_in(s, pos, (n - 1) as nat, base), digit_in(s[pos + n - 1], base)) {
            (Some(high), Some(low)) => Some(high * base + low),
            _ => None,
        }
    }
}

/// Whether `code` is a Unicode scalar value: no surrogate.
pub open spec fn is_scalar_value(code: int) -> bool {
    0 <= code <= 0x10FFFF && !(0xD800 <= code <= 0xDFFF)
}

/// A bound on the numbers that `n` digits denote, for `n` up to four.
pub open spec fn digits_bound(n: nat) -> int {
    if n == 0 {
        1
    } else if n == 1 {
        16
    } else if n == 2 {
        256
    } else if n == 3 {
        4096
    } else {
        65536
    }
}

/// The escape whose first character, behind the backslash, stands at `pos`:
/// `t`, `n`, `"`, `x` with two hexadecimal digits, `u` with four hexadecimal
/// digits that are a scalar value, or three octal digits from `000` to `377`.
pub open spec fn escape_at(s: Seq<char>, pos: int) -> Parsed<Unescaped> {
    if !(0 <= pos < s.len()) {
        Err(pos)
    } else if s[pos] == 't' {
        Ok((Unescaped::Byte(9), pos + 1))
    } else if s[pos] == 'n' {
        Ok((Unescaped::Byte(10), pos + 1))
    } else if s[pos] == '"' {
        Ok((Unescaped::Byte(34), pos + 1))
    } else if s[pos] == 'x' {
        match number_in(s, pos + 1, 2, 16) {
            Some(v) => Ok((Unescaped::Byte(v as u8), pos + 3)),
            None => Err(pos),
        }
    } else if s[pos] == 'u' {
        match number_in(s, pos + 1, 4, 16) {
            Some(v) if is_scalar_value(v) => Ok((Unescaped::Unicode(v as u32 as char), pos + 5)),
            _ => Err(pos),
        }
    } else {
        match number_in(s, pos, 3, 8) {
            Some(v) if v < 256 => Ok((Unescaped::Byte(v as u8), pos + 3)),
            _ => Err(pos),
        }
    }
}

/// The units of a literal from `pos` up to the closing `quote`, behind the
/// units `done`. A character other than the quote and the backslash stands
/// for itself.
pub open spec fn units_at(s: Seq<char>, pos: int, quote: char, done: Seq<Unescaped>) -> Parsed<
    Seq<Unescaped>,
>
    decreases s.len() - pos,
{
    if !(0 <= pos < s.len()) {
        Err(pos)
    } else if s[pos] == quote {
        Ok((done, pos + 1))
    } else if s[pos] == '\\' {
        match escape_at(s, pos + 1) {
            Ok((unit, next)) => if pos < next <= s.len() {
                units_at(s, next, quote, done.push(unit))
            } else {
                Err(pos)
            },
            Err(e) => Err(e),
        }
    } else {
        units_at(s, pos + 1, quote, done.push(Unescaped::Unicode(s[pos])))
    }
}

/// The characters that the first `n` units stand for in a string: a byte is
/// the character of that code.
pub open spec fn units_text(units: Seq<Unescaped>, n: nat) -> Seq<char>
    decreases n,
{
    if n == 0 || n > units.len() {
        Seq::empty()
    } else {
        units_text(units, (n - 1) as nat).push(
            match units[n - 1] {
                Unescaped::Byte(b) => b as char,
                Unescaped::Unicode(c) => c,
            },
        )
    }
}

/// The bytes that the first `n` units stand for in a bytes literal: a
/// character is its UTF-8 encoding.
pub open spec fn units_bytes(units: Seq<Unescaped>, n: nat) -> Seq<u8>
    decreases n,
{
    if n == 0 || n > units.len() {
        Seq::empty()
    } else {
        units_bytes(units, (n - 1) as nat) + match units[n - 1] {
            Unescaped::Byte(b) => seq![b],
            Unescaped::Unicode(c) => encode_utf8(seq![c]),
        }
    }
}

/// Whether `c` opens a string: a double or a single quote.
pub open spec fn is_quote(c: char) -> bool {
    c == '"' || c == '\''
}

/// A literal that is no list and no dictionary: a string or bytes literal, a
/// number, `true`, `false` or `null`. A number is digits, and a
/// floating-point number where a point and more digits follow; an integer
/// that no `i64` holds is a failure.
pub open spec fn scalar_at(s: Seq<char>, p: int) -> Parsed<LiteralView> {
    if !(0 <= p < s.len()) {
        Err(p)
    } else if is_quote(s[p]) {
        match units_at(s, p + 1, s[p], Seq::empty()) {
            Ok((units, next)) => Ok((LiteralView::String(units_text(units, units.len())), next)),
            Err(e) => Err(e),
        }
    } else if s[p] == 'b' && p + 1 < s.len() && is_quote(s[p + 1]) {
        match units_at(s, p + 2, s[p + 1], Seq::empty()) {
            Ok((units, next)) => Ok((LiteralView::Bytes(units_bytes(units, units.len())), next)),
            Err(e) => Err(e),
        }
    } else if is_digit(s[p]) {
        let end = digits_end(s, p);
        if at(s, end, '.') && end + 1 < s.len() && is_digit(s[end + 1]) {
            Ok((LiteralView::F64(s.subrange(p, digits_end(s, end + 1))), digits_end(s, end + 1)))
        } else if digits_value(s, p, end) <= i64::MAX {
            Ok((LiteralView::I64(digits_value(s, p, end) as i64), end))
        } else {
            Err(p)
        }
    } else if word_at(s, p, seq!['t', 'r', 'u', 'e']) {
        Ok((LiteralView::Bool(true), p + 4))
    } else if word_at(s, p, seq!['f', 'a', 'l', 's', 'e']) {
        Ok((LiteralView::Bool(false), p + 5))
    } else if word_at(s, p, seq!['n', 'u', 'l', 'l']) {
        Ok((LiteralView::Null, p + 4))
    } else {
        Err(p)
    }
}

/// Whether a literal begins with the character at `p`.
pub open spec fn literal_starts(s: Seq<char>, p: int) -> bool {
    0 <= p < s.len() && (is_quote(s[p]) || (s[p] == 'b' && p + 1 < s.len() && is_quote(s[p + 1]))
        || is_digit(s[p]) || s[p] == '[' || s[p] == '{' || word_at(s, p, seq!['t', 'r', 'u', 'e'])
        || word_at(s, p, seq!['f', 'a', 'l', 's', 'e']) || word_at(s, p, seq!['n', 'u', 'l', 'l']))
}

/// The relational operator at `p`, if any, with its length.
pub open spec fn relation_op_at(s: Seq<char>, p: int) -> Option<(crate::operators::Binary, int)> {
    if at(s, p, '=') && at(s, p + 1, '=') {
        Some((crate::operators::Binary::Eq, 2))
    } else if at(s, p, '!') && at(s, p + 1, '=') {
        Some((crate::operators::Binary::Neq, 2))
    } else if at(s, p, '<') && at(s, p + 1, '=') {
        Some((crate::operators::Binary::Lte, 2))
    } else if at(s, p, '>') && at(s, p + 1, '=') {
        Some((crate::operators::Binary::Gte, 2))
    } else if at(s, p, '<') {
        Some((crate::operators::Binary::Lt, 1))
    } else if at(s, p, '>') {
        Some((crate::operators::Binary::Gt, 1))
    } else {
        None
    }
}

/// The node of a binary operator over two expressions.
pub open spec fn binary_node(op: crate::operators::Binary, a: ExpressionView, b: ExpressionView) -> ExpressionView {
    match op {
        crate::operators::Binary::Eq => ExpressionView::Eq(Box::new(a), Box::new(b)),
        crate::operators::Binary::Neq => ExpressionView::Neq(Box::new(a), Box::new(b)),
        crate::operators::Binary::Lt => ExpressionView::Lt(Box::new(a), Box::new(b)),
        crate::operators::Binary::Lte => ExpressionView::Lte(Box::new(a), Box::new(b)),
        crate::operators::Binary::Gte => ExpressionView::Gte(Box::new(a), Box::new(b)),
        crate::operators::Binary::Gt => ExpressionView::Gt(Box::new(a), Box::new(b)),
        crate::operators::Binary::Add => ExpressionView::Add(Box::new(a), Box::new(b)),
        crate::operators::Binary::Sub => ExpressionView::Sub(Box::new(a), Box::new(b)),
        crate::operators::Binary::Mul => ExpressionView::Mul(Box::new(a), Box::new(b)),
        crate::operators::Binary::Div => ExpressionView::Div(Box::new(a), Box::new(b)),
        crate::operators::Binary::Mod => ExpressionView::Mod(Box::new(a), Box::new(b)),
    }
}

/// The operands of a flattened logical operator as one expression: a single
/// operand stands for itself.
pub open spec fn logic_node(items: Seq<ExpressionView>, disjunction: bool) -> ExpressionView {
    if items.len() == 1 {
        items[0]
    } else if disjunction {
        ExpressionView::Or(items)
    } else {
        ExpressionView::And(items)
    }
}

/// An expression: `let` bindings, each `let name = value;`, and then the
/// expression that they are in scope of.
pub open spec fn expression_at(s: Seq<char>, pos: int) -> Parsed<ExpressionView>
    decreases s.len() - pos, 20int,
{
    let p = skip_space(s, pos);
    if word_at(s, p, seq!['l', 'e', 't']) {
        match identifier_at(s, p + 3) {
            Err(e) => Err(e),
            Ok((id, a)) => {
                let b = skip_space(s, a);
                if !at(s, b, '=') {
                    Err(b)
                } else if b < pos {
                    Err(b)
                } else {
                    match ternary_at(s, b + 1) {
                        Err(e) => Err(e),
                        Ok((value, c)) => {
                            let d = skip_space(s, c);
                            if !at(s, d, ';') {
                                Err(d)
                            } else if d < pos {
                                Err(d)
                            } else {
                                match expression_at(s, d + 1) {
                                    Err(e) => Err(e),
                                    Ok((body, end)) => Ok(
                                        (
                                            ExpressionView::LetBinding {
                                                id,
                                                value: Box::new(value),
                                                body: Box::new(body),
                                            },
                                            end,
                                        ),
                                    ),
                                }
                            }
                        },
                    }
                }
            },
        }
    } else {
        ternary_at(s, pos)
    }
}

/// A disjunction, or a ternary: a disjunction, `?`, a ternary, `:` and a
/// ternary.
pub open spec fn ternary_at(s: Seq<char>, pos: int) -> Parsed<ExpressionView>
    decreases s.len() - pos, 19int,
{
    match disjunction_at(s, pos) {
        Err(e) => Err(e),
        Ok((condition, a)) => {
            let b = skip_space(s, a);
            if !at(s, b, '?') {
                Ok((condition, a))
            } else if b < pos {
                Err(b)
            } else {
                match ternary_at(s, b + 1) {
                    Err(e) => Err(e),
                    Ok((true_branch, c)) => {
                        let d = skip_space(s, c);
                        if !at(s, d, ':') {
                            Err(d)
                        } else if d < pos {
                            Err(d)
                        } else {
                            match ternary_at(s, d + 1) {
                                Err(e) => Err(e),
                                Ok((else_branch, end)) => Ok(
                                    (
                                        ExpressionView::Ternary {
                                            condition: Box::new(condition),
                                            true_branch: Box::new(true_branch),
                                            else_branch: Box::new(else_branch),
                                        },
                                        end,
                                    ),
                                ),
                            }
                        }
                    },
                }
            }
        },
    }
}

/// Conjunctions joined by `||`, kept flat.
pub open spec fn disjunction_at(s: Seq<char>, pos: int) -> Parsed<ExpressionView>
    decreases s.len() - pos, 18int,
{
    match conjunction_at(s, pos) {
        Err(e) => Err(e),
        Ok((first, a)) => if a < pos || a > s.len() {
            Err(a)
        } else {
            match disjunction_rest(s, a, seq![first]) {
                Err(e) => Err(e),
                Ok((items, end)) => Ok((logic_node(items, true), end)),
            }
        },
    }
}

/// The further operands of a disjunction, behind the operands `done`.
pub open spec fn disjunction_rest(s: Seq<char>, pos: int, done: Seq<ExpressionView>) -> Parsed<
    Seq<ExpressionView>,
>
    decreases s.len() - pos, 17int,
{
    let p = skip_space(s, pos);
    if at(s, p, '|') && at(s, p + 1, '|') && p >= pos {
        match conjunction_at(s, p + 2) {
            Err(e) => Err(e),
            Ok((next, a)) => if pos < a <= s.len() {
                disjunction_rest(s, a, done.push(next))
            } else {
                Err(a)
            },
        }
    } else {
        Ok((done, pos))
    }
}

/// Relations joined by `&&`, kept flat.
pub open spec fn conjunction_at(s: Seq<char>, pos: int) -> Parsed<ExpressionView>
    decreases s.len() - pos, 16int,
{
    match relation_at(s, pos) {
        Err(e) => Err(e),
        Ok((first, a)) => if a < pos || a > s.len() {
            Err(a)
        } else {
            match conjunction_rest(s, a, seq![first]) {
                Err(e) => Err(e),
                Ok((items, end)) => Ok((logic_node(items, false), end)),
            }
        },
    }
}

/// The further operands of a conjunction, behind the operands `done`.
pub open spec fn conjunction_rest(s: Seq<char>, pos: int, done: Seq<ExpressionView>) -> Parsed<
    Seq<ExpressionView>,
>
    decreases s.len() - pos, 15int,
{
    let p = skip_space(s, pos);
    if at(s, p, '&') && at(s, p + 1, '&') && p >= pos {
        match relation_at(s, p + 2) {
            Err(e) => Err(e),
            Ok((next, a)) => if pos < a <= s.len() {
                conjunction_rest(s, a, done.push(next))
            } else {
                Err(a)
            },
        }
    } else {
        Ok((done, pos))
    }
}

/// An addition, or two of them with one relational operator between.
pub open spec fn relation_at(s: Seq<char>, pos: int) -> Parsed<ExpressionView>
    decreases s.len() - pos, 14int,
{
    match addition_at(s, pos) {
        Err(e) => Err(e),
        Ok((left, a)) => {
            let p = skip_space(s, a);
            match relation_op_at(s, p) {
                Some((op, width)) => if p < pos {
                    Err(p)
                } else {
                    match addition_at(s, p + width) {
                        Err(e) => Err(e),
                        Ok((right, end)) => Ok((binary_node(op, left, right), end)),
                    }
                },
                None => Ok((left, a)),
            }
        },
    }
}

/// Multiplications joined by `+` and `-`, grouped from the left.
pub open spec fn addition_at(s: Seq<char>, pos: int) -> Parsed<ExpressionView>
    decreases s.len() - pos, 13int,
{
    match multiplication_at(s, pos) {
        Err(e) => Err(e),
        Ok((first, a)) => if a < pos || a > s.len() {
            Err(a)
        } else {
            addition_rest(s, a, first)
        },
    }
}

/// The further operands of an addition, applied to `left`.
pub open spec fn addition_rest(s: Seq<char>, pos: int, left: ExpressionView) -> Parsed<
    ExpressionView,
>
    decreases s.len() - pos, 12int,
{
    let p = skip_space(s, pos);
    if (at(s, p, '+') || at(s, p, '-')) && p >= pos {
        match multiplication_at(s, p + 1) {
            Err(e) => Err(e),
            Ok((right, a)) => if pos < a <= s.len() {
                addition_rest(
                    s,
                    a,
                    if s[p] == '+' {
                        ExpressionView::Add(Box::new(left), Box::new(right))
                    } else {
                        ExpressionView::Sub(Box::new(left), Box::new(right))
                    },
                )
            } else {
                Err(a)
            },
        }
    } else {
        Ok((left, pos))
    }
}

/// Unary expressions joined by `*`, `/` and `%`, grouped from the left.
pub open spec fn multiplication_at(s: Seq<char>, pos: int) -> Parsed<ExpressionView>
    decreases s.len() - pos, 11int,
{
    match unary_at(s, pos) {
        Err(e) => Err(e),
        Ok((first, a)) => if a < pos || a > s.len() {
            Err(a)
        } else {
            multiplication_rest(s, a, first)
        },
    }
}

/// The further operands of a multiplication, applied to `left`.
pub open spec fn multiplication_rest(s: Seq<char>, pos: int, left: ExpressionView) -> Parsed<
    ExpressionView,
>
    decreases s.len() - pos, 10int,
{
    let p = skip_space(s, pos);
    if (at(s, p, '*') || at(s, p, '/') || at(s, p, '%')) && p >= pos {
        match unary_at(s, p + 1) {
            Err(e) => Err(e),
            Ok((right, a)) => if pos < a <= s.len() {
                multiplication_rest(
                    s,
                    a,
                    if s[p] == '*' {
                        ExpressionView::Mul(Box::new(left), Box::new(right))
                    } else if s[p] == '/' {
                        ExpressionView::Div(Box::new(left), Box::new(right))
                    } else {
                        ExpressionView::Mod(Box::new(left), Box::new(right))
                    },
                )
            } else {
                Err(a)
            },
        }
    } else {
        Ok((left, pos))
    }
}

/// A member expression behind any number of `-` and `!`.
pub open spec fn unary_at(s: Seq<char>, pos: int) -> Parsed<ExpressionView>
    decreases s.len() - pos, 9int,
{
    let p = skip_space(s, pos);
    if (at(s, p, '-') || at(s, p, '!')) && p >= pos {
        match unary_at(s, p + 1) {
            Err(e) => Err(e),
            Ok((inner, end)) => Ok(
                (
                    if s[p] == '-' {
                        ExpressionView::Neg(Box::new(inner))
                    } else {
                        ExpressionView::Not(Box::new(inner))
                    },
                    end,
                ),
            ),
        }
    } else {
        member_at(s, pos)
    }
}

/// An operand with its suffixes.
pub open spec fn member_at(s: Seq<char>, pos: int) -> Parsed<ExpressionView>
    decreases s.len() - pos, 8int,
{
    match operand_at(s, pos) {
        Err(e) => Err(e),
        Ok((first, a)) => if a < pos || a > s.len() {
            Err(a)
        } else {
            member_rest(s, a, first)
        },
    }
}

/// The further suffixes of a member expression, applied to `left`: `.name`
/// is a member, `.name(arguments)` a method call.
pub open spec fn member_rest(s: Seq<char>, pos: int, left: ExpressionView) -> Parsed<
    ExpressionView,
>
    decreases s.len() - pos, 7int,
{
    let p = skip_space(s, pos);
    if at(s, p, '.') && p >= pos {
        match identifier_at(s, p + 1) {
            Err(e) => Err(e),
            Ok((name, a)) => {
                let b = skip_space(s, a);
                if at(s, b, '(') && b >= pos {
                    match arguments_at(s, b + 1) {
                        Err(e) => Err(e),
                        Ok((args, c)) => if pos < c <= s.len() {
                            member_rest(s, c, ExpressionView::Method(Box::new(left), name, args))
                        } else {
                            Err(c)
                        },
                    }
                } else if pos < a <= s.len() {
                    member_rest(s, a, ExpressionView::Member(Box::new(left), name))
                } else {
                    Err(a)
                }
            },
        }
    } else {
        Ok((left, pos))
    }
}

/// The arguments of a method call, behind the opening parenthesis: none, or
/// relations with commas between, and the closing parenthesis.
pub open spec fn arguments_at(s: Seq<char>, pos: int) -> Parsed<Seq<ExpressionView>>
    decreases s.len() - pos, 23int,
{
    let p = skip_space(s, pos);
    if at(s, p, ')') {
        Ok((Seq::empty(), p + 1))
    } else {
        arguments_rest(s, pos, Seq::empty())
    }
}

/// One argument and what follows it, behind the arguments `done`.
pub open spec fn arguments_rest(s: Seq<char>, pos: int, done: Seq<ExpressionView>) -> Parsed<
    Seq<ExpressionView>,
>
    decreases s.len() - pos, 22int,
{
    match relation_at(s, pos) {
        Err(e) => Err(e),
        Ok((arg, a)) => {
            let p = skip_space(s, a);
            if at(s, p, ')') {
                Ok((done.push(arg), p + 1))
            } else if at(s, p, ',') && p >= pos && p < s.len() {
                arguments_rest(s, p + 1, done.push(arg))
            } else {
                Err(p)
            }
        },
    }
}

/// An operand: a literal, an identifier, or a relation in parentheses.
pub open spec fn operand_at(s: Seq<char>, pos: int) -> Parsed<ExpressionView>
    decreases s.len() - pos, 4int,
{
    let p = skip_space(s, pos);
    if at(s, p, '(') && p >= pos {
        match relation_at(s, p + 1) {
            Err(e) => Err(e),
            Ok((inner, a)) => {
                let b = skip_space(s, a);
                if at(s, b, ')') {
                    Ok((inner, b + 1))
                } else {
                    Err(b)
                }
            },
        }
    } else if literal_starts(s, p) && p >= pos {
        match literal_at(s, p) {
            Err(e) => Err(e),
            Ok((lit, end)) => Ok((ExpressionView::Lit(lit), end)),
        }
    } else {
        match identifier_at(s, pos) {
            Err(e) => Err(e),
            Ok((name, end)) => Ok((ExpressionView::Binding(name), end)),
        }
    }
}

/// The literal that begins at `p`: a list in brackets, a dictionary in
/// braces, or one of the others.
pub open spec fn literal_at(s: Seq<char>, p: int) -> Parsed<LiteralView>
    decreases s.len() - p, 3int,
{
    if at(s, p, '[') {
        match items_at(s, p + 1, Seq::empty()) {
            Err(e) => Err(e),
            Ok((items, end)) => Ok((LiteralView::List(items), end)),
        }
    } else if at(s, p, '{') {
        match fields_at(s, p + 1, Seq::empty()) {
            Err(e) => Err(e),
            Ok((fields, end)) => Ok((LiteralView::Dict(fields), end)),
        }
    } else {
        scalar_at(s, p)
    }
}

/// The elements of a list literal up to the closing bracket, behind the
/// elements `done`: ternaries with commas between; a comma may follow the
/// last.
pub open spec fn items_at(s: Seq<char>, pos: int, done: Seq<ExpressionView>) -> Parsed<
    Seq<ExpressionView>,
>
    decreases s.len() - pos, 21int,
{
    let p = skip_space(s, pos);
    if at(s, p, ']') {
        Ok((done, p + 1))
    } else {
        match ternary_at(s, pos) {
            Err(e) => Err(e),
            Ok((item, a)) => {
                let q = skip_space(s, a);
                if at(s, q, ',') && q >= pos {
                    items_at(s, q + 1, done.push(item))
                } else if at(s, q, ']') {
                    Ok((done.push(item), q + 1))
                } else {
                    Err(q)
                }
            },
        }
    }
}

/// The fields of a dictionary literal up to the closing brace, behind the
/// fields `done`: each a ternary, `:` and a ternary, with commas between; a
/// comma may follow the last.
pub open spec fn fields_at(
    s: Seq<char>,
    pos: int,
    done: Seq<(ExpressionView, ExpressionView)>,
) -> Parsed<Seq<(ExpressionView, ExpressionView)>>
    decreases s.len() - pos, 21int,
{
    let p = skip_space(s, pos);
    if at(s, p, '}') {
        Ok((done, p + 1))
    } else {
        match ternary_at(s, pos) {
            Err(e) => Err(e),
            Ok((key, a)) => {
                let b = skip_space(s, a);
                if !at(s, b, ':') {
                    Err(b)
                } else if b < pos {
                    Err(b)
                } else {
                    match ternary_at(s, b + 1) {
                        Err(e) => Err(e),
                        Ok((value, c)) => {
                            let q = skip_space(s, c);
                            if at(s, q, ',') && q >= pos {
                                fields_at(s, q + 1, done.push((key, value)))
                            } else if at(s, q, '}') {
                                Ok((done.push((key, value)), q + 1))
                            } else {
                                Err(q)
                            }
                        },
                    }
                }
            },
        }
    }
}

/// What a whole text is: one expression and nothing but white space behind
/// it, or the position of the failure.
pub open spec fn parsed(s: Seq<char>) -> Result<ExpressionView, int> {
    match expression_at(s, 0) {
        Err(e) => Err(e),
        Ok((e, end)) => if skip_space(s, end) == s.len() {
            Ok(e)
        } else {
            Err(skip_space(s, end))
        },
    }
}

} // verus!
