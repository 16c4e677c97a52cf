//! The parser: turns a text into the syntax tree that the grammar gives it, or
//! into the position at which the text fails the grammar.
use vstd::prelude::*;
use vstd::string::StrSliceExecFns;

use crate::grammar::{
    addition_at, addition_rest, arguments_at, arguments_rest, at, binary_node, conjunction_at,
    conjunction_rest, digit_in, digits_end, digits_value, disjunction_at, disjunction_rest, escape_at,
    expression_at, fields_at, identifier_at, is_digit, is_name_start, is_quote,
    digits_bound, is_reserved, is_scalar_value, items_at, lemma_digits_end, lemma_name_end,
    literal_at, literal_starts, logic_node, member_at, member_rest,
    multiplication_at, multiplication_rest, name_end, number_in, operand_at, parsed, relation_at,
    relation_op_at, scalar_at, skip_space, ternary_at, unary_at, units_at, units_bytes, units_text,
    word_at, Parsed, Unescaped,
};
use crate::model::{
    expressions_view, fields_view, lemma_expressions_view, lemma_fields_view, Expression,
    ExpressionView, Identifier, Literal, LiteralView,
};
use crate::operators::Binary;

verus! {

/// Why a text is no expression: the position, counted in characters, at which
/// it stopped being one.
#[derive(Debug, PartialEq, Eq, Copy, Clone, Structural)]
pub struct ParseError {
    pub position: usize,
}

/// What was recognised, with the position behind it, or the position of the
/// failure.
pub type Step<T> = Result<(T, usize), usize>;

/// The view of a step that gave an expression.
pub open spec fn expression_step(r: Step<Expression>) -> Parsed<ExpressionView> {
    match r {
        Ok((e, next)) => Ok((e@, next as int)),
        Err(e) => Err(e as int),
    }
}

/// The view of a step that gave expressions.
pub open spec fn expressions_step(r: Step<Vec<Expression>>) -> Parsed<Seq<ExpressionView>> {
    match r {
        Ok((es, next)) => Ok((expressions_view(&es), next as int)),
        Err(e) => Err(e as int),
    }
}

/// The view of a step that gave a literal.
pub open spec fn literal_step(r: Step<Literal>) -> Parsed<LiteralView> {
    match r {
        Ok((lit, next)) => Ok((lit@, next as int)),
        Err(e) => Err(e as int),
    }
}

/// Appends a character to a string: `String::push`.
#[verifier::external_body]
fn push_char(text: &mut String, c: char)
    ensures
        final(text)@ == old(text)@.push(c),
{
    text.push(c)
}

/// The character of a code, where the code is a Unicode scalar value:
/// `char::from_u32`, which gives none for a surrogate and for a code over
/// `0x10FFFF`.
#[verifier::external_body]
fn char_of(code: u32) -> (r: Option<char>)
    ensures
        match r {
            Some(c) => is_scalar_value(code as int) && c == code as char,
            None => !is_scalar_value(code as int),
        },
{
    char::from_u32(code)
}

/// The characters of a text, in order.
fn characters(input: &str) -> (chars: Vec<char>)
    ensures
        chars@ == input@,
{
    let mut chars: Vec<char> = Vec::new();
    for c in it: input.chars()
        invariant
            it.seq() == input@,
            chars@ == it.seq().take(it.index()),
    {
        chars.push(c);
    }
    chars
}

/// Whether the character `c` stands at `p`.
fn is_at(s: &Vec<char>, p: usize, c: char) -> (r: bool)
    ensures
        r == at(s@, p as int, c),
{
    p < s.len() && s[p] == c
}

fn is_digit_char(c: char) -> (r: bool)
    ensures
        r == is_digit(c),
{
    '0' <= c && c <= '9'
}

fn is_name_start_char(c: char) -> (r: bool)
    ensures
        r == is_name_start(c),
{
    ('a' <= c && c <= 'z') || ('A' <= c && c <= 'Z') || c == '_'
}

fn is_quote_char(c: char) -> (r: bool)
    ensures
        r == is_quote(c),
{
    c == '"' || c == '\''
}

/// The first position from `pos` on that holds no white space.
fn skip(s: &Vec<char>, pos: usize) -> (p: usize)
    requires
        pos <= s.len(),
    ensures
        p == skip_space(s@, pos as int),
        pos <= p <= s.len(),
{
    let mut p = pos;
    while p < s.len() && (s[p] == ' ' || s[p] == '\t' || s[p] == '\n' || s[p] == '\r')
        invariant
            pos <= p <= s.len(),
            skip_space(s@, pos as int) == skip_space(s@, p as int),
        decreases s.len() - p,
    {
        p += 1;
    }
    p
}

/// The first position from `pos` on that holds no character of a name.
fn scan_name(s: &Vec<char>, pos: usize) -> (p: usize)
    requires
        pos <= s.len(),
    ensures
        p == name_end(s@, pos as int),
        pos <= p <= s.len(),
{
    let mut p = pos;
    while p < s.len() && (is_name_start_char(s[p]) || is_digit_char(s[p]))
        invariant
            pos <= p <= s.len(),
            name_end(s@, pos as int) == name_end(s@, p as int),
        decreases s.len() - p,
    {
        p += 1;
    }
    p
}

/// The first position from `pos` on that holds no digit.
fn scan_digits(s: &Vec<char>, pos: usize) -> (p: usize)
    requires
        pos <= s.len(),
    ensures
        p == digits_end(s@, pos as int),
        pos <= p <= s.len(),
        forall|i: int| pos <= i < p ==> is_digit(s@[i]),
{
    let mut p = pos;
    while p < s.len() && is_digit_char(s[p])
        invariant
            pos <= p <= s.len(),
            digits_end(s@, pos as int) == digits_end(s@, p as int),
            forall|i: int| pos <= i < p ==> is_digit(s@[i]),
        decreases s.len() - p,
    {
        p += 1;
    }
    p
}

/// The characters from `from` up to `to` as a string.
fn slice_text(s: &Vec<char>, from: usize, to: usize) -> (text: String)
    requires
        from <= to <= s.len(),
    ensures
        text@ == s@.subrange(from as int, to as int),
{
    let mut text = String::new();
    let mut i = from;
    while i < to
        invariant
            from <= i <= to <= s.len(),
            text@ == s@.subrange(from as int, i as int),
        decreases to - i,
    {
        push_char(&mut text, s[i]);
        assert(s@.subrange(from as int, i + 1) =~= s@.subrange(from as int, i as int).push(
            s@[i as int],
        ));
        i += 1;
    }
    text
}

/// The words that are no identifiers.
#[derive(Debug, PartialEq, Eq, Copy, Clone, Structural)]
pub enum Keyword {
    Let,
    True,
    False,
    Null,
}

/// The keyword that the name at `p` is, if it is one.
pub open spec fn keyword_at(s: Seq<char>, p: int) -> Option<Keyword> {
    if word_at(s, p, seq!['l', 'e', 't']) {
        Some(Keyword::Let)
    } else if word_at(s, p, seq!['t', 'r', 'u', 'e']) {
        Some(Keyword::True)
    } else if word_at(s, p, seq!['f', 'a', 'l', 's', 'e']) {
        Some(Keyword::False)
    } else if word_at(s, p, seq!['n', 'u', 'l', 'l']) {
        Some(Keyword::Null)
    } else {
        None
    }
}

/// The keyword that the name at `p` is, if it is one.
fn keyword(s: &Vec<char>, p: usize) -> (k: Option<Keyword>)
    ensures
        k == keyword_at(s@, p as int),
        k.is_some() <==> (p < s.len() && is_name_start(s@[p as int]) && is_reserved(
            s@.subrange(p as int, name_end(s@, p as int)),
        )),
        k == Some(Keyword::Let) ==> p + 3 == name_end(s@, p as int),
        k == Some(Keyword::True) ==> p + 4 == name_end(s@, p as int),
        k == Some(Keyword::False) ==> p + 5 == name_end(s@, p as int),
        k == Some(Keyword::Null) ==> p + 4 == name_end(s@, p as int),
        k.is_some() ==> name_end(s@, p as int) <= s.len(),
{
    if p >= s.len() || !is_name_start_char(s[p]) {
        return None;
    }
    let end = scan_name(s, p);
    let ghost word = s@.subrange(p as int, end as int);
    let n = end - p;
    if n == 3 && s[p] == 'l' && s[p + 1] == 'e' && s[p + 2] == 't' {
        assert(word =~= seq!['l', 'e', 't']);
        Some(Keyword::Let)
    } else if n == 4 && s[p] == 't' && s[p + 1] == 'r' && s[p + 2] == 'u' && s[p + 3] == 'e' {
        assert(word =~= seq!['t', 'r', 'u', 'e']);
        Some(Keyword::True)
    } else if n == 5 && s[p] == 'f' && s[p + 1] == 'a' && s[p + 2] == 'l' && s[p + 3] == 's' && s[p
        + 4] == 'e' {
        assert(word =~= seq!['f', 'a', 'l', 's', 'e']);
        Some(Keyword::False)
    } else if n == 4 && s[p] == 'n' && s[p + 1] == 'u' && s[p + 2] == 'l' && s[p + 3] == 'l' {
        assert(word =~= seq!['n', 'u', 'l', 'l']);
        Some(Keyword::Null)
    } else {
        proof {
        assert(word.len() == n);
        assert(forall|i: int| 0 <= i < n ==> word[i] == s@[p + i]);
        if word == seq!['l', 'e', 't'] {
            assert(seq!['l', 'e', 't'].len() == 3);
            assert(word[0] == 'l' && word[1] == 'e' && word[2] == 't');
        }
        if word == seq!['t', 'r', 'u', 'e'] {
            assert(seq!['t', 'r', 'u', 'e'].len() == 4);
            assert(word[0] == 't' && word[1] == 'r' && word[2] == 'u' && word[3] == 'e');
        }
        if word == seq!['f', 'a', 'l', 's', 'e'] {
            assert(seq!['f', 'a', 'l', 's', 'e'].len() == 5);
            assert(word[0] == 'f' && word[1] == 'a' && word[2] == 'l' && word[3] == 's' && word[4]
                == 'e');
        }
        if word == seq!['n', 'u', 'l', 'l'] {
            assert(seq!['n', 'u', 'l', 'l'].len() == 4);
            assert(word[0] == 'n' && word[1] == 'u' && word[2] == 'l' && word[3] == 'l');
        }
        }
        None
    }
}

/// The view of a step that gave an identifier.
pub open spec fn identifier_step(r: Step<Identifier>) -> Parsed<Seq<char>> {
    match r {
        Ok((id, next)) => Ok((id@, next as int)),
        Err(e) => Err(e as int),
    }
}

/// Recognises an identifier.
fn extract_identifier(s: &Vec<char>, pos: usize) -> (r: Step<Identifier>)
    requires
        pos <= s.len(),
    ensures
        identifier_step(r) == identifier_at(s@, pos as int),
        r matches Ok((_, next)) ==> pos < next <= s.len(),
{
    let p = skip(s, pos);
    if p < s.len() && is_name_start_char(s[p]) && keyword(s, p).is_none() {
        proof {
            lemma_name_end(s@, p + 1);
        }
        let end = scan_name(s, p);
        Ok((Identifier(slice_text(s, p, end)), end))
    } else {
        Err(p)
    }
}

/// The value of a character as a digit in the given base, if it is one.
fn digit(c: char, base: u32) -> (d: Option<u32>)
    requires
        base <= 16,
    ensures
        match d {
            Some(v) => digit_in(c, base as int) == Some(v as int),
            None => digit_in(c, base as int).is_none(),
        },
{
    let v: u32 = if '0' <= c && c <= '9' {
        c as u32 - '0' as u32
    } else if 'a' <= c && c <= 'f' {
        c as u32 - 'a' as u32 + 10
    } else if 'A' <= c && c <= 'F' {
        c as u32 - 'A' as u32 + 10
    } else {
        base
    };
    if v < base {
        Some(v)
    } else {
        None
    }
}

/// The number that the `n` digits from `pos` on denote in the given base.
fn number(s: &Vec<char>, pos: usize, n: usize, base: u32) -> (r: Option<u32>)
    requires
        pos <= s.len(),
        n <= 4,
        2 <= base <= 16,
    ensures
        match r {
            Some(v) => number_in(s@, pos as int, n as nat, base as int) == Some(v as int),
            None => number_in(s@, pos as int, n as nat, base as int).is_none(),
        },
        r matches Some(v) ==> pos + n <= s.len() && v < digits_bound(n as nat),
{
    if n > s.len() - pos {
        assert(number_in(s@, pos as int, n as nat, base as int).is_none());
        return None;
    }
    let mut value: u32 = 0;
    let mut i: usize = 0;
    while i < n
        invariant
            i <= n <= 4,
            pos + n <= s.len(),
            2 <= base <= 16,
            number_in(s@, pos as int, i as nat, base as int) == Some(value as int),
            value < digits_bound(i as nat),
        decreases n - i,
    {
        match digit(s[pos + i], base) {
            Some(d) => {
                assert(value * base + d < 16 * (value + 1)) by (nonlinear_arith)
                    requires
                        d < base,
                        base <= 16,
                ;
                value = value * base + d;
            },
            None => {
                proof {
                    lemma_number_fails(s@, pos as int, (i + 1) as nat, n as nat, base as int);
                }
                return None;
            },
        }
        i += 1;
    }
    Some(value)
}

/// Where the first `m` digits are no number, no more of them are.
proof fn lemma_number_fails(s: Seq<char>, pos: int, m: nat, n: nat, base: int)
    requires
        m <= n,
        number_in(s, pos, m, base).is_none(),
    ensures
        number_in(s, pos, n, base).is_none(),
    decreases n,
{
    if m < n {
        lemma_number_fails(s, pos, m, (n - 1) as nat, base);
    }
}

/// More digits denote no smaller number.
proof fn lemma_digits_value_grows(s: Seq<char>, from: int, mid: int, to: int)
    requires
        0 <= from <= mid <= to <= s.len(),
        forall|i: int| from <= i < to ==> is_digit(s[i]),
    ensures
        digits_value(s, from, mid) <= digits_value(s, from, to),
    decreases to - mid,
{
    if mid < to {
        lemma_digits_value_grows(s, from, mid, to - 1);
    }
}

/// The integer that the digits from `from` up to `to` denote, if an `i64`
/// holds it.
fn extract_int(s: &Vec<char>, from: usize, to: usize) -> (r: Option<i64>)
    requires
        from <= to <= s.len(),
        forall|i: int| from <= i < to ==> is_digit(s@[i]),
    ensures
        match r {
            Some(v) => digits_value(s@, from as int, to as int) == v,
            None => digits_value(s@, from as int, to as int) > i64::MAX,
        },
{
    let mut value: i64 = 0;
    let mut i = from;
    while i < to
        invariant
            from <= i <= to <= s.len(),
            forall|i: int| from <= i < to ==> is_digit(s@[i]),
            value == digits_value(s@, from as int, i as int),
        decreases to - i,
    {
        let d = (s[i] as u32 - '0' as u32) as i64;
        let next = match value.checked_mul(10) {
            Some(m) => m.checked_add(d),
            None => None,
        };
        match next {
            Some(v) => {
                value = v;
            },
            None => {
                proof {
                    lemma_digits_value_grows(s@, from as int, i + 1, to as int);
                }
                return None;
            },
        }
        i += 1;
    }
    Some(value)
}

/// The view of a step that gave a unit of a literal.
pub open spec fn unit_step(r: Step<Unescaped>) -> Parsed<Unescaped> {
    match r {
        Ok((unit, next)) => Ok((unit, next as int)),
        Err(e) => Err(e as int),
    }
}

/// Recognises the escape whose first character, behind the backslash, stands
/// at `pos`.
fn unescape_sequence(s: &Vec<char>, pos: usize) -> (r: Step<Unescaped>)
    requires
        pos <= s.len(),
    ensures
        unit_step(r) == escape_at(s@, pos as int),
        r matches Ok((_, next)) ==> pos < next <= s.len(),
{
    if pos >= s.len() {
        return Err(pos);
    }
    let c = s[pos];
    if c == 't' {
        Ok((Unescaped::Byte(9), pos + 1))
    } else if c == 'n' {
        Ok((Unescaped::Byte(10), pos + 1))
    } else if c == '"' {
        Ok((Unescaped::Byte(34), pos + 1))
    } else if c == 'x' {
        match number(s, pos + 1, 2, 16) {
            Some(v) => Ok((Unescaped::Byte(v as u8), pos + 3)),
            None => Err(pos),
        }
    } else if c == 'u' {
        match number(s, pos + 1, 4, 16) {
            Some(v) => match char_of(v) {
                Some(ch) => Ok((Unescaped::Unicode(ch), pos + 5)),
                None => Err(pos),
            },
            None => Err(pos),
        }
    } else {
        match number(s, pos, 3, 8) {
            Some(v) => if v < 256 {
                Ok((Unescaped::Byte(v as u8), pos + 3))
            } else {
                Err(pos)
            },
            None => Err(pos),
        }
    }
}

/// The view of a step that gave the units of a literal.
pub open spec fn units_step(r: Step<Vec<Unescaped>>) -> Parsed<Seq<Unescaped>> {
    match r {
        Ok((units, next)) => Ok((units@, next as int)),
        Err(e) => Err(e as int),
    }
}

/// Recognises the units of a string or bytes literal up to the closing quote.
fn extract_units(s: &Vec<char>, pos: usize, quote: char) -> (r: Step<Vec<Unescaped>>)
    requires
        pos <= s.len(),
    ensures
        units_step(r) == units_at(s@, pos as int, quote, Seq::empty()),
        r matches Ok((_, next)) ==> pos < next <= s.len(),
{
    let mut units: Vec<Unescaped> = Vec::new();
    let mut p = pos;
    loop
        invariant
            pos <= p <= s.len(),
            units_at(s@, p as int, quote, units@) == units_at(s@, pos as int, quote, Seq::empty()),
        decreases s.len() - p,
    {
        if p >= s.len() {
            return Err(p);
        }
        let c = s[p];
        if c == quote {
            return Ok((units, p + 1));
        }
        if c == '\\' {
            match unescape_sequence(s, p + 1) {
                Ok((unit, next)) => {
                    units.push(unit);
                    p = next;
                },
                Err(e) => {
                    return Err(e);
                },
            }
        } else {
            units.push(Unescaped::Unicode(c));
            p += 1;
        }
    }
}

/// The string that the units of a string literal stand for.
fn extract_string(units: &Vec<Unescaped>) -> (text: String)
    ensures
        text@ == units_text(units@, units@.len()),
{
    let mut text = String::new();
    let mut i: usize = 0;
    while i < units.len()
        invariant
            i <= units.len(),
            text@ == units_text(units@, i as nat),
        decreases units.len() - i,
    {
        match units[i] {
            Unescaped::Byte(b) => push_char(&mut text, b as char),
            Unescaped::Unicode(c) => push_char(&mut text, c),
        }
        i += 1;
    }
    text
}

/// The bytes that the units of a bytes literal stand for.
fn extract_bytes(units: &Vec<Unescaped>) -> (bytes: Vec<u8>)
    ensures
        bytes@ == units_bytes(units@, units@.len()),
{
    let mut bytes: Vec<u8> = Vec::new();
    let mut i: usize = 0;
    while i < units.len()
        invariant
            i <= units.len(),
            bytes@ == units_bytes(units@, i as nat),
        decreases units.len() - i,
    {
        match units[i] {
            Unescaped::Byte(b) => {
                let ghost before = bytes@;
                bytes.push(b);
                assert(bytes@ =~= before + seq![b]);
            },
            Unescaped::Unicode(c) => {
                let mut one = String::new();
                push_char(&mut one, c);
                assert(one@ =~= seq![c]);
                let mut encoded = one.as_str().as_bytes_vec();
                bytes.append(&mut encoded);
            },
        }
        i += 1;
    }
    bytes
}

/// Recognises a literal that is no list and no dictionary.
fn extract_scalar(s: &Vec<char>, p: usize) -> (r: Step<Literal>)
    requires
        p <= s.len(),
    ensures
        literal_step(r) == scalar_at(s@, p as int),
        r matches Ok((_, next)) ==> p < next <= s.len(),
{
    if p >= s.len() {
        return Err(p);
    }
    let c = s[p];
    if is_quote_char(c) {
        match extract_units(s, p + 1, c) {
            Ok((units, next)) => Ok((Literal::String(extract_string(&units)), next)),
            Err(e) => Err(e),
        }
    } else if c == 'b' && p + 1 < s.len() && is_quote_char(s[p + 1]) {
        match extract_units(s, p + 2, s[p + 1]) {
            Ok((units, next)) => Ok((Literal::Bytes(extract_bytes(&units)), next)),
            Err(e) => Err(e),
        }
    } else if is_digit_char(c) {
        proof {
            lemma_digits_end(s@, p + 1);
        }
        let end = scan_digits(s, p);
        if is_at(s, end, '.') && end + 1 < s.len() && is_digit_char(s[end + 1]) {
            proof {
                lemma_digits_end(s@, end + 2);
            }
            let last = scan_digits(s, end + 1);
            Ok((Literal::F64(slice_text(s, p, last)), last))
        } else {
            match extract_int(s, p, end) {
                Some(v) => Ok((Literal::I64(v), end)),
                None => Err(p),
            }
        }
    } else {
        match keyword(s, p) {
            Some(Keyword::True) => Ok((Literal::Bool(true), p + 4)),
            Some(Keyword::False) => Ok((Literal::Bool(false), p + 5)),
            Some(Keyword::Null) => Ok((Literal::Null, p + 4)),
            _ => Err(p),
        }
    }
}

/// Whether a literal begins with the character at `p`.
fn starts_literal(s: &Vec<char>, p: usize) -> (r: bool)
    ensures
        r == literal_starts(s@, p as int),
{
    if p >= s.len() {
        return false;
    }
    let c = s[p];
    if is_quote_char(c) || (c == 'b' && p + 1 < s.len() && is_quote_char(s[p + 1]))
        || is_digit_char(c) || c == '[' || c == '{' {
        true
    } else {
        match keyword(s, p) {
            Some(Keyword::True) | Some(Keyword::False) | Some(Keyword::Null) => true,
            _ => false,
        }
    }
}

/// The view of a step that gave the fields of a dictionary literal.
pub open spec fn fields_step(r: Step<Vec<(Expression, Expression)>>) -> Parsed<
    Seq<(ExpressionView, ExpressionView)>,
> {
    match r {
        Ok((fs, next)) => Ok((fields_view(&fs), next as int)),
        Err(e) => Err(e as int),
    }
}

/// The node of a binary operator over two expressions.
fn binary_expression(op: Binary, a: Expression, b: Expression) -> (e: Expression)
    ensures
        e@ == binary_node(op, a@, b@),
{
    match op {
        Binary::Eq => Expression::Eq(Box::new(a), Box::new(b)),
        Binary::Neq => Expression::Neq(Box::new(a), Box::new(b)),
        Binary::Lt => Expression::Lt(Box::new(a), Box::new(b)),
        Binary::Lte => Expression::Lte(Box::new(a), Box::new(b)),
        Binary::Gte => Expression::Gte(Box::new(a), Box::new(b)),
        Binary::Gt => Expression::Gt(Box::new(a), Box::new(b)),
        Binary::Add => Expression::Add(Box::new(a), Box::new(b)),
        Binary::Sub => Expression::Sub(Box::new(a), Box::new(b)),
        Binary::Mul => Expression::Mul(Box::new(a), Box::new(b)),
        Binary::Div => Expression::Div(Box::new(a), Box::new(b)),
        Binary::Mod => Expression::Mod(Box::new(a), Box::new(b)),
    }
}

/// The operands of a flattened logical operator as one expression.
fn logic_expression(items: Vec<Expression>, disjunction: bool) -> (e: Expression)
    requires
        items.len() >= 1,
    ensures
        e@ == logic_node(expressions_view(&items), disjunction),
{
    proof {
        lemma_expressions_view(&items);
    }
    let mut items = items;
    if items.len() == 1 {
        items.remove(0)
    } else if disjunction {
        Expression::Or(items)
    } else {
        Expression::And(items)
    }
}

/// The relational operator at `p`, if any, with its length.
fn relation_op(s: &Vec<char>, p: usize) -> (r: Option<(Binary, usize)>)
    ensures
        match r {
            Some((op, width)) => relation_op_at(s@, p as int) == Some((op, width as int)) && p
                + width <= s.len() && width >= 1,
            None => relation_op_at(s@, p as int).is_none(),
        },
{
    if p >= s.len() {
        return None;
    }
    let second = p + 1 < s.len() && s[p + 1] == '=';
    let c = s[p];
    if c == '=' && second {
        Some((Binary::Eq, 2))
    } else if c == '!' && second {
        Some((Binary::Neq, 2))
    } else if c == '<' && second {
        Some((Binary::Lte, 2))
    } else if c == '>' && second {
        Some((Binary::Gte, 2))
    } else if c == '<' {
        Some((Binary::Lt, 1))
    } else if c == '>' {
        Some((Binary::Gt, 1))
    } else {
        None
    }
}

/// Recognises an expression: `let` bindings and what they are in scope of.
fn extract_expression(s: &Vec<char>, pos: usize) -> (r: Step<Expression>)
    requires
        pos <= s.len(),
    ensures
        expression_step(r) == expression_at(s@, pos as int),
        r matches Ok((_, next)) ==> pos < next <= s.len(),
    decreases s.len() - pos, 20int,
{
    let p = skip(s, pos);
    match keyword(s, p) {
        Some(Keyword::Let) => {
            let (id, a) = match extract_identifier(s, p + 3) {
                Ok(found) => found,
                Err(e) => {
                    return Err(e);
                },
            };
            let b = skip(s, a);
            if !is_at(s, b, '=') {
                return Err(b);
            }
            let (value, c) = match extract_ternary(s, b + 1) {
                Ok(found) => found,
                Err(e) => {
                    return Err(e);
                },
            };
            let d = skip(s, c);
            if !is_at(s, d, ';') {
                return Err(d);
            }
            match extract_expression(s, d + 1) {
                Ok((body, end)) => Ok(
                    (
                        Expression::LetBinding {
                            id,
                            value: Box::new(value),
                            body: Box::new(body),
                        },
                        end,
                    ),
                ),
                Err(e) => Err(e),
            }
        },
        _ => extract_ternary(s, pos),
    }
}

/// Recognises a disjunction or a ternary.
fn extract_ternary(s: &Vec<char>, pos: usize) -> (r: Step<Expression>)
    requires
        pos <= s.len(),
    ensures
        expression_step(r) == ternary_at(s@, pos as int),
        r matches Ok((_, next)) ==> pos < next <= s.len(),
    decreases s.len() - pos, 19int,
{
    let (condition, a) = match extract_disjunction(s, pos) {
        Ok(found) => found,
        Err(e) => {
            return Err(e);
        },
    };
    let b = skip(s, a);
    if !is_at(s, b, '?') {
        return Ok((condition, a));
    }
    let (true_branch, c) = match extract_ternary(s, b + 1) {
        Ok(found) => found,
        Err(e) => {
            return Err(e);
        },
    };
    let d = skip(s, c);
    if !is_at(s, d, ':') {
        return Err(d);
    }
    match extract_ternary(s, d + 1) {
        Ok((else_branch, end)) => Ok(
            (
                Expression::Ternary {
                    condition: Box::new(condition),
                    true_branch: Box::new(true_branch),
                    else_branch: Box::new(else_branch),
                },
                end,
            ),
        ),
        Err(e) => Err(e),
    }
}

/// Recognises conjunctions joined by `||`.
fn extract_disjunction(s: &Vec<char>, pos: usize) -> (r: Step<Expression>)
    requires
        pos <= s.len(),
    ensures
        expression_step(r) == disjunction_at(s@, pos as int),
        r matches Ok((_, next)) ==> pos < next <= s.len(),
    decreases s.len() - pos, 18int,
{
    let (first, a) = match extract_conjunction(s, pos) {
        Ok(found) => found,
        Err(e) => {
            return Err(e);
        },
    };
    let ghost head = first@;
    let mut items: Vec<Expression> = Vec::new();
    items.push(first);
    let mut end = a;
    proof {
        lemma_expressions_view(&items);
        assert(expressions_view(&items) =~= seq![head]);
    }
    #[verifier::loop_isolation(false)]
    loop
        invariant
            pos < end <= s.len(),
            items.len() >= 1,
            disjunction_rest(s@, end as int, expressions_view(&items)) == disjunction_rest(
                s@,
                a as int,
                seq![head],
            ),
        decreases s.len() - end,
    {
        let p = skip(s, end);
        if !(is_at(s, p, '|') && is_at(s, p + 1, '|')) {
            return Ok((logic_expression(items, true), end));
        }
        match extract_conjunction(s, p + 2) {
            Ok((next, b)) => {
                let ghost before = expressions_view(&items);
                let ghost added = next@;
                proof {
                    lemma_expressions_view(&items);
                }
                items.push(next);
                proof {
                    lemma_expressions_view(&items);
                    assert(expressions_view(&items) =~= before.push(added));
                }
                end = b;
            },
            Err(e) => {
                return Err(e);
            },
        }
    }
}

/// Recognises relations joined by `&&`.
fn extract_conjunction(s: &Vec<char>, pos: usize) -> (r: Step<Expression>)
    requires
        pos <= s.len(),
    ensures
        expression_step(r) == conjunction_at(s@, pos as int),
        r matches Ok((_, next)) ==> pos < next <= s.len(),
    decreases s.len() - pos, 16int,
{
    let (first, a) = match extract_relation(s, pos) {
        Ok(found) => found,
        Err(e) => {
            return Err(e);
        },
    };
    let ghost head = first@;
    let mut items: Vec<Expression> = Vec::new();
    items.push(first);
    let mut end = a;
    proof {
        lemma_expressions_view(&items);
        assert(expressions_view(&items) =~= seq![head]);
    }
    #[verifier::loop_isolation(false)]
    loop
        invariant
            pos < end <= s.len(),
            items.len() >= 1,
            conjunction_rest(s@, end as int, expressions_view(&items)) == conjunction_rest(
                s@,
                a as int,
                seq![head],
            ),
        decreases s.len() - end,
    {
        let p = skip(s, end);
        if !(is_at(s, p, '&') && is_at(s, p + 1, '&')) {
            return Ok((logic_expression(items, false), end));
        }
        match extract_relation(s, p + 2) {
            Ok((next, b)) => {
                let ghost before = expressions_view(&items);
                let ghost added = next@;
                proof {
                    lemma_expressions_view(&items);
                }
                items.push(next);
                proof {
                    lemma_expressions_view(&items);
                    assert(expressions_view(&items) =~= before.push(added));
                }
                end = b;
            },
            Err(e) => {
                return Err(e);
            },
        }
    }
}

/// Recognises an addition, or two with a relational operator between.
fn extract_relation(s: &Vec<char>, pos: usize) -> (r: Step<Expression>)
    requires
        pos <= s.len(),
    ensures
        expression_step(r) == relation_at(s@, pos as int),
        r matches Ok((_, next)) ==> pos < next <= s.len(),
    decreases s.len() - pos, 14int,
{
    let (left, a) = match extract_addition(s, pos) {
        Ok(found) => found,
        Err(e) => {
            return Err(e);
        },
    };
    let p = skip(s, a);
    match relation_op(s, p) {
        Some((op, width)) => match extract_addition(s, p + width) {
            Ok((right, end)) => Ok((binary_expression(op, left, right), end)),
            Err(e) => Err(e),
        },
        None => Ok((left, a)),
    }
}

/// Recognises multiplications joined by `+` and `-`.
fn extract_addition(s: &Vec<char>, pos: usize) -> (r: Step<Expression>)
    requires
        pos <= s.len(),
    ensures
        expression_step(r) == addition_at(s@, pos as int),
        r matches Ok((_, next)) ==> pos < next <= s.len(),
    decreases s.len() - pos, 13int,
{
    let (first, a) = match extract_multiplication(s, pos) {
        Ok(found) => found,
        Err(e) => {
            return Err(e);
        },
    };
    let ghost head = first@;
    let mut left = first;
    let mut end = a;
    #[verifier::loop_isolation(false)]
    loop
        invariant
            pos < end <= s.len(),
            addition_rest(s@, end as int, left@) == addition_rest(s@, a as int, head),
        decreases s.len() - end,
    {
        let p = skip(s, end);
        let plus = is_at(s, p, '+');
        if !(plus || is_at(s, p, '-')) {
            return Ok((left, end));
        }
        match extract_multiplication(s, p + 1) {
            Ok((right, b)) => {
                left = if plus {
                    Expression::Add(Box::new(left), Box::new(right))
                } else {
                    Expression::Sub(Box::new(left), Box::new(right))
                };
                end = b;
            },
            Err(e) => {
                return Err(e);
            },
        }
    }
}

/// Recognises unary expressions joined by `*`, `/` and `%`.
fn extract_multiplication(s: &Vec<char>, pos: usize) -> (r: Step<Expression>)
    requires
        pos <= s.len(),
    ensures
        expression_step(r) == multiplication_at(s@, pos as int),
        r matches Ok((_, next)) ==> pos < next <= s.len(),
    decreases s.len() - pos, 11int,
{
    let (first, a) = match extract_unary(s, pos) {
        Ok(found) => found,
        Err(e) => {
            return Err(e);
        },
    };
    let ghost head = first@;
    let mut left = first;
    let mut end = a;
    #[verifier::loop_isolation(false)]
    loop
        invariant
            pos < end <= s.len(),
            multiplication_rest(s@, end as int, left@) == multiplication_rest(s@, a as int, head),
        decreases s.len() - end,
    {
        let p = skip(s, end);
        let times = is_at(s, p, '*');
        let over = is_at(s, p, '/');
        if !(times || over || is_at(s, p, '%')) {
            return Ok((left, end));
        }
        match extract_unary(s, p + 1) {
            Ok((right, b)) => {
                left = if times {
                    Expression::Mul(Box::new(left), Box::new(right))
                } else if over {
                    Expression::Div(Box::new(left), Box::new(right))
                } else {
                    Expression::Mod(Box::new(left), Box::new(right))
                };
                end = b;
            },
            Err(e) => {
                return Err(e);
            },
        }
    }
}

/// Recognises a member expression behind any number of `-` and `!`.
fn extract_unary(s: &Vec<char>, pos: usize) -> (r: Step<Expression>)
    requires
        pos <= s.len(),
    ensures
        expression_step(r) == unary_at(s@, pos as int),
        r matches Ok((_, next)) ==> pos < next <= s.len(),
    decreases s.len() - pos, 9int,
{
    let p = skip(s, pos);
    let minus = is_at(s, p, '-');
    if minus || is_at(s, p, '!') {
        match extract_unary(s, p + 1) {
            Ok((inner, end)) => Ok(
                (
                    if minus {
                        Expression::Neg(Box::new(inner))
                    } else {
                        Expression::Not(Box::new(inner))
                    },
                    end,
                ),
            ),
            Err(e) => Err(e),
        }
    } else {
        extract_member(s, pos)
    }
}

/// Recognises an operand with its member and method suffixes.
fn extract_member(s: &Vec<char>, pos: usize) -> (r: Step<Expression>)
    requires
        pos <= s.len(),
    ensures
        expression_step(r) == member_at(s@, pos as int),
        r matches Ok((_, next)) ==> pos < next <= s.len(),
    decreases s.len() - pos, 8int,
{
    let (first, a) = match extract_operand(s, pos) {
        Ok(found) => found,
        Err(e) => {
            return Err(e);
        },
    };
    let ghost head = first@;
    let mut left = first;
    let mut end = a;
    #[verifier::loop_isolation(false)]
    loop
        invariant
            pos < end <= s.len(),
            member_rest(s@, end as int, left@) == member_rest(s@, a as int, head),
        decreases s.len() - end,
    {
        let p = skip(s, end);
        if !is_at(s, p, '.') {
            return Ok((left, end));
        }
        let (name, b) = match extract_identifier(s, p + 1) {
            Ok(found) => found,
            Err(e) => {
                return Err(e);
            },
        };
        let c = skip(s, b);
        if is_at(s, c, '(') {
            match extract_args(s, c + 1) {
                Ok((args, d)) => {
                    left = Expression::Method(Box::new(left), name, args);
                    end = d;
                },
                Err(e) => {
                    return Err(e);
                },
            }
        } else {
            left = Expression::Member(Box::new(left), name);
            end = b;
        }
    }
}

/// Recognises the arguments of a method call, behind the opening
/// parenthesis.
fn extract_args(s: &Vec<char>, pos: usize) -> (r: Step<Vec<Expression>>)
    requires
        pos <= s.len(),
    ensures
        expressions_step(r) == arguments_at(s@, pos as int),
        r matches Ok((_, next)) ==> pos < next <= s.len(),
    decreases s.len() - pos, 23int,
{
    let mut args: Vec<Expression> = Vec::new();
    proof {
        lemma_expressions_view(&args);
        assert(expressions_view(&args) =~= Seq::<ExpressionView>::empty());
    }
    let p = skip(s, pos);
    if is_at(s, p, ')') {
        return Ok((args, p + 1));
    }
    let mut from = pos;
    #[verifier::loop_isolation(false)]
    loop
        invariant
            pos <= from <= s.len(),
            arguments_rest(s@, from as int, expressions_view(&args)) == arguments_rest(
                s@,
                pos as int,
                Seq::empty(),
            ),
        decreases s.len() - from,
    {
        let (arg, a) = match extract_relation(s, from) {
            Ok(found) => found,
            Err(e) => {
                return Err(e);
            },
        };
        let ghost before = expressions_view(&args);
        let ghost added = arg@;
        args.push(arg);
        proof {
            lemma_expressions_view(&args);
            assert(expressions_view(&args) =~= before.push(added)) by {
                lemma_expressions_view(&args);
            }
        }
        let q = skip(s, a);
        if is_at(s, q, ')') {
            return Ok((args, q + 1));
        }
        if !is_at(s, q, ',') {
            return Err(q);
        }
        from = q + 1;
    }
}

/// Recognises an operand: a literal, an identifier, or a relation in
/// parentheses.
fn extract_operand(s: &Vec<char>, pos: usize) -> (r: Step<Expression>)
    requires
        pos <= s.len(),
    ensures
        expression_step(r) == operand_at(s@, pos as int),
        r matches Ok((_, next)) ==> pos < next <= s.len(),
    decreases s.len() - pos, 4int,
{
    let p = skip(s, pos);
    if is_at(s, p, '(') {
        let (inner, a) = match extract_relation(s, p + 1) {
            Ok(found) => found,
            Err(e) => {
                return Err(e);
            },
        };
        let b = skip(s, a);
        if is_at(s, b, ')') {
            Ok((inner, b + 1))
        } else {
            Err(b)
        }
    } else if starts_literal(s, p) {
        match extract_literal(s, p) {
            Ok((lit, end)) => Ok((Expression::Lit(lit), end)),
            Err(e) => Err(e),
        }
    } else {
        match extract_identifier(s, pos) {
            Ok((name, end)) => Ok((Expression::Binding(name), end)),
            Err(e) => Err(e),
        }
    }
}

/// Recognises the literal that begins at `p`.
fn extract_literal(s: &Vec<char>, p: usize) -> (r: Step<Literal>)
    requires
        p <= s.len(),
    ensures
        literal_step(r) == literal_at(s@, p as int),
        r matches Ok((_, next)) ==> p < next <= s.len(),
    decreases s.len() - p, 3int,
{
    if is_at(s, p, '[') {
        match extract_list(s, p + 1) {
            Ok((items, end)) => {
                let ghost seen = expressions_view(&items);
                let lit = Literal::List(items);
                assert(lit@ == LiteralView::List(seen));
                Ok((lit, end))
            },
            Err(e) => Err(e),
        }
    } else if is_at(s, p, '{') {
        match extract_map(s, p + 1) {
            Ok((fields, end)) => {
                let ghost seen = fields_view(&fields);
                let lit = Literal::Dict(fields);
                assert(lit@ == LiteralView::Dict(seen));
                Ok((lit, end))
            },
            Err(e) => Err(e),
        }
    } else {
        extract_scalar(s, p)
    }
}

/// Recognises the elements of a list literal, behind the opening bracket.
fn extract_list(s: &Vec<char>, pos: usize) -> (r: Step<Vec<Expression>>)
    requires
        pos <= s.len(),
    ensures
        expressions_step(r) == items_at(s@, pos as int, Seq::empty()),
        r matches Ok((_, next)) ==> pos < next <= s.len(),
    decreases s.len() - pos, 21int,
{
    let mut items: Vec<Expression> = Vec::new();
    proof {
        lemma_expressions_view(&items);
        assert(expressions_view(&items) =~= Seq::<ExpressionView>::empty());
    }
    let mut from = pos;
    #[verifier::loop_isolation(false)]
    loop
        invariant
            pos <= from <= s.len(),
            items_at(s@, from as int, expressions_view(&items)) == items_at(
                s@,
                pos as int,
                Seq::empty(),
            ),
        decreases s.len() - from,
    {
        let p = skip(s, from);
        if is_at(s, p, ']') {
            return Ok((items, p + 1));
        }
        let (item, a) = match extract_ternary(s, from) {
            Ok(found) => found,
            Err(e) => {
                return Err(e);
            },
        };
        let ghost before = expressions_view(&items);
        let ghost added = item@;
        items.push(item);
        proof {
            lemma_expressions_view(&items);
            assert(expressions_view(&items) =~= before.push(added));
        }
        let q = skip(s, a);
        if is_at(s, q, ',') {
            from = q + 1;
        } else if is_at(s, q, ']') {
            return Ok((items, q + 1));
        } else {
            return Err(q);
        }
    }
}

/// Recognises the fields of a dictionary literal, behind the opening brace.
fn extract_map(s: &Vec<char>, pos: usize) -> (r: Step<Vec<(Expression, Expression)>>)
    requires
        pos <= s.len(),
    ensures
        fields_step(r) == fields_at(s@, pos as int, Seq::empty()),
        r matches Ok((_, next)) ==> pos < next <= s.len(),
    decreases s.len() - pos, 21int,
{
    let mut fields: Vec<(Expression, Expression)> = Vec::new();
    proof {
        lemma_fields_view(&fields);
        assert(fields_view(&fields) =~= Seq::<(ExpressionView, ExpressionView)>::empty());
    }
    let mut from = pos;
    #[verifier::loop_isolation(false)]
    loop
        invariant
            pos <= from <= s.len(),
            fields_at(s@, from as int, fields_view(&fields)) == fields_at(
                s@,
                pos as int,
                Seq::empty(),
            ),
        decreases s.len() - from,
    {
        let p = skip(s, from);
        if is_at(s, p, '}') {
            return Ok((fields, p + 1));
        }
        let (key, a) = match extract_ternary(s, from) {
            Ok(found) => found,
            Err(e) => {
                return Err(e);
            },
        };
        let b = skip(s, a);
        if !is_at(s, b, ':') {
            return Err(b);
        }
        let (value, c) = match extract_ternary(s, b + 1) {
            Ok(found) => found,
            Err(e) => {
                return Err(e);
            },
        };
        let ghost before = fields_view(&fields);
        let ghost added = (key@, value@);
        fields.push((key, value));
        proof {
            lemma_fields_view(&fields);
            assert(fields_view(&fields) =~= before.push(added));
        }
        let q = skip(s, c);
        if is_at(s, q, ',') {
            from = q + 1;
        } else if is_at(s, q, '}') {
            return Ok((fields, q + 1));
        } else {
            return Err(q);
        }
    }
}

/// What a parse gave, as the grammar has it.
pub open spec fn parse_view(r: Result<Expression, ParseError>) -> Result<ExpressionView, int> {
    match r {
        Ok(e) => Ok(e@),
        Err(e) => Err(e.position as int),
    }
}

/// Parses a text: the expression that the grammar finds in it, or the
/// position at which the text fails the grammar.
pub fn parse(input: &str) -> (r: Result<Expression, ParseError>)
    ensures
        parse_view(r) == parsed(input@),
{
    let s = characters(input);
    match extract_expression(&s, 0) {
        Ok((e, end)) => {
            let p = skip(&s, end);
            if p == s.len() {
                Ok(e)
            } else {
                Err(ParseError { position: p })
            }
        },
        Err(e) => Err(ParseError { position: e }),
    }
}

} // verus!
