//! The data model: syntax trees, runtime values, kinds and errors, each with
//! the mathematical view that the contracts of this crate speak of.
use vstd::prelude::*;
use vstd::utf8::encode_utf8;

use crate::dict::ValueMap;

verus! {

/// A name, compared character by character. Bindings, members and methods are
/// all named by identifiers.
#[derive(Debug, PartialEq, Eq, Hash)]
pub struct Identifier(pub String);

impl View for Identifier {
    type V = Seq<char>;

    open spec fn view(&self) -> Seq<char> {
        self.0@
    }
}

impl Identifier {
    pub fn new(name: &str) -> (id: Identifier)
        ensures
            id@ == name@,
    {
        Identifier(name.to_owned())
    }
}

impl std::str::FromStr for Identifier {
    type Err = ();

    fn from_str(input: &str) -> (r: Result<Identifier, ()>)
        ensures
            r matches Ok(id) && id@ == input@,
    {
        Ok(Identifier::new(input))
    }
}

impl Clone for Identifier {
    fn clone(&self) -> (res: Identifier)
        ensures
            res@ == self@,
    {
        Identifier(self.0.clone())
    }
}

/// The nominal tag of a runtime value.
#[derive(Debug, PartialEq, Eq, Copy, Clone, Structural)]
pub enum Kind {
    I64,
    F64,
    Bool,
    String,
    Bytes,
    List,
    Dict,
    Null,
}

/// The operator of a syntax tree node, as diagnostics name it.
#[derive(Debug, PartialEq, Eq)]
pub enum Op {
    Not,
    Neg,
    Plus,
    Minus,
    Times,
    Div,
    Mod,
    Or,
    And,
    Eq,
    Neq,
    Lte,
    Lt,
    Gt,
    Gte,
    Lit,
    Lookup,
    Member(Identifier),
    Method(Identifier),
    LetBinding,
    Ternary,
}

/// What an [`Op`] is, with names as character sequences.
pub ghost enum OpView {
    Not,
    Neg,
    Plus,
    Minus,
    Times,
    Div,
    Mod,
    Or,
    And,
    Eq,
    Neq,
    Lte,
    Lt,
    Gt,
    Gte,
    Lit,
    Lookup,
    Member(Seq<char>),
    Method(Seq<char>),
    LetBinding,
    Ternary,
}

impl View for Op {
    type V = OpView;

    open spec fn view(&self) -> OpView {
        match self {
            Op::Not => OpView::Not,
            Op::Neg => OpView::Neg,
            Op::Plus => OpView::Plus,
            Op::Minus => OpView::Minus,
            Op::Times => OpView::Times,
            Op::Div => OpView::Div,
            Op::Mod => OpView::Mod,
            Op::Or => OpView::Or,
            Op::And => OpView::And,
            Op::Eq => OpView::Eq,
            Op::Neq => OpView::Neq,
            Op::Lte => OpView::Lte,
            Op::Lt => OpView::Lt,
            Op::Gt => OpView::Gt,
            Op::Gte => OpView::Gte,
            Op::Lit => OpView::Lit,
            Op::Lookup => OpView::Lookup,
            Op::Member(id) => OpView::Member(id@),
            Op::Method(id) => OpView::Method(id@),
            Op::LetBinding => OpView::LetBinding,
            Op::Ternary => OpView::Ternary,
        }
    }
}

impl Clone for Op {
    fn clone(&self) -> (res: Op)
        ensures
            res@ == self@,
    {
        match self {
            Op::Not => Op::Not,
            Op::Neg => Op::Neg,
            Op::Plus => Op::Plus,
            Op::Minus => Op::Minus,
            Op::Times => Op::Times,
            Op::Div => Op::Div,
            Op::Mod => Op::Mod,
            Op::Or => Op::Or,
            Op::And => Op::And,
            Op::Eq => Op::Eq,
            Op::Neq => Op::Neq,
            Op::Lte => Op::Lte,
            Op::Lt => Op::Lt,
            Op::Gt => Op::Gt,
            Op::Gte => Op::Gte,
            Op::Lit => Op::Lit,
            Op::Lookup => Op::Lookup,
            Op::Member(id) => Op::Member(id.clone()),
            Op::Method(id) => Op::Method(id.clone()),
            Op::LetBinding => Op::LetBinding,
            Op::Ternary => Op::Ternary,
        }
    }
}

/// A literal as written. A list holds its element expressions and a
/// dictionary its key and value expressions, in source order. A
/// floating-point literal keeps its decimal text.
#[derive(Debug, PartialEq)]
pub enum Literal {
    I64(i64),
    F64(String),
    Bool(bool),
    String(String),
    Bytes(Vec<u8>),
    List(Vec<Expression>),
    Dict(Vec<(Expression, Expression)>),
    Null,
}

/// A node of the syntax tree.
#[derive(Debug, PartialEq)]
pub enum Expression {
    LetBinding { id: Identifier, value: Box<Expression>, body: Box<Expression> },
    Ternary { condition: Box<Expression>, true_branch: Box<Expression>, else_branch: Box<Expression> },
    Or(Vec<Expression>),
    And(Vec<Expression>),
    Eq(Box<Expression>, Box<Expression>),
    Neq(Box<Expression>, Box<Expression>),
    Lt(Box<Expression>, Box<Expression>),
    Lte(Box<Expression>, Box<Expression>),
    Gte(Box<Expression>, Box<Expression>),
    Gt(Box<Expression>, Box<Expression>),
    Add(Box<Expression>, Box<Expression>),
    Sub(Box<Expression>, Box<Expression>),
    Mul(Box<Expression>, Box<Expression>),
    Div(Box<Expression>, Box<Expression>),
    Mod(Box<Expression>, Box<Expression>),
    Neg(Box<Expression>),
    Not(Box<Expression>),
    Member(Box<Expression>, Identifier),
    Method(Box<Expression>, Identifier, Vec<Expression>),
    Lit(Literal),
    Binding(Identifier),
}

/// What a [`Literal`] is.
pub ghost enum LiteralView {
    I64(i64),
    F64(Seq<char>),
    Bool(bool),
    String(Seq<char>),
    Bytes(Seq<u8>),
    List(Seq<ExpressionView>),
    Dict(Seq<(ExpressionView, ExpressionView)>),
    Null,
}

/// What an [`Expression`] is.
pub ghost enum ExpressionView {
    LetBinding { id: Seq<char>, value: Box<ExpressionView>, body: Box<ExpressionView> },
    Ternary {
        condition: Box<ExpressionView>,
        true_branch: Box<ExpressionView>,
        else_branch: Box<ExpressionView>,
    },
    Or(Seq<ExpressionView>),
    And(Seq<ExpressionView>),
    Eq(Box<ExpressionView>, Box<ExpressionView>),
    Neq(Box<ExpressionView>, Box<ExpressionView>),
    Lt(Box<ExpressionView>, Box<ExpressionView>),
    Lte(Box<ExpressionView>, Box<ExpressionView>),
    Gte(Box<ExpressionView>, Box<ExpressionView>),
    Gt(Box<ExpressionView>, Box<ExpressionView>),
    Add(Box<ExpressionView>, Box<ExpressionView>),
    Sub(Box<ExpressionView>, Box<ExpressionView>),
    Mul(Box<ExpressionView>, Box<ExpressionView>),
    Div(Box<ExpressionView>, Box<ExpressionView>),
    Mod(Box<ExpressionView>, Box<ExpressionView>),
    Neg(Box<ExpressionView>),
    Not(Box<ExpressionView>),
    Member(Box<ExpressionView>, Seq<char>),
    Method(Box<ExpressionView>, Seq<char>, Seq<ExpressionView>),
    Lit(LiteralView),
    Binding(Seq<char>),
}

/// The views of a vector of expressions, in order.
pub open spec fn expressions_view(es: &Vec<Expression>) -> Seq<ExpressionView>
    decreases es,
{
    Seq::new(
        es.len() as nat,
        |i: int|
            if 0 <= i < es.len() {
                expression_view(es[i])
            } else {
                ExpressionView::Lit(LiteralView::Null)
            },
    )
}

/// The views of a vector of key and value expressions, in order.
pub open spec fn fields_view(fs: &Vec<(Expression, Expression)>) -> Seq<
    (ExpressionView, ExpressionView),
>
    decreases fs,
{
    Seq::new(
        fs.len() as nat,
        |i: int|
            if 0 <= i < fs.len() {
                (expression_view(fs[i].0), expression_view(fs[i].1))
            } else {
                (ExpressionView::Lit(LiteralView::Null), ExpressionView::Lit(LiteralView::Null))
            },
    )
}

/// The view of a vector of expressions has the vector's length and holds the
/// views of its elements.
pub proof fn lemma_expressions_view(es: &Vec<Expression>)
    ensures
        expressions_view(es).len() == es.len(),
        forall|i: int| 0 <= i < es.len() ==> #[trigger] expressions_view(es)[i] == es[i]@,
{
}

/// The view of a vector of fields has the vector's length and holds the
/// views of its keys and values.
pub proof fn lemma_fields_view(fs: &Vec<(Expression, Expression)>)
    ensures
        fields_view(fs).len() == fs.len(),
        forall|i: int| 0 <= i < fs.len() ==> #[trigger] fields_view(fs)[i] == (fs[i].0@, fs[i].1@),
{
}

/// The view of a literal.
pub open spec fn literal_view(lit: Literal) -> LiteralView
    decreases lit,
{
    match lit {
        Literal::I64(x) => LiteralView::I64(x),
        Literal::F64(text) => LiteralView::F64(text@),
        Literal::Bool(x) => LiteralView::Bool(x),
        Literal::String(s) => LiteralView::String(s@),
        Literal::Bytes(b) => LiteralView::Bytes(b@),
        Literal::List(es) => LiteralView::List(expressions_view(&es)),
        Literal::Dict(fs) => LiteralView::Dict(fields_view(&fs)),
        Literal::Null => LiteralView::Null,
    }
}

/// The view of an expression.
pub open spec fn expression_view(e: Expression) -> ExpressionView
    decreases e,
{
    match e {
        Expression::LetBinding { id, value, body } => ExpressionView::LetBinding {
            id: id@,
            value: Box::new(expression_view(*value)),
            body: Box::new(expression_view(*body)),
        },
        Expression::Ternary { condition, true_branch, else_branch } => ExpressionView::Ternary {
            condition: Box::new(expression_view(*condition)),
            true_branch: Box::new(expression_view(*true_branch)),
            else_branch: Box::new(expression_view(*else_branch)),
        },
        Expression::Or(es) => ExpressionView::Or(expressions_view(&es)),
        Expression::And(es) => ExpressionView::And(expressions_view(&es)),
        Expression::Eq(a, b) => ExpressionView::Eq(Box::new(expression_view(*a)), Box::new(expression_view(*b))),
        Expression::Neq(a, b) => ExpressionView::Neq(Box::new(expression_view(*a)), Box::new(expression_view(*b))),
        Expression::Lt(a, b) => ExpressionView::Lt(Box::new(expression_view(*a)), Box::new(expression_view(*b))),
        Expression::Lte(a, b) => ExpressionView::Lte(Box::new(expression_view(*a)), Box::new(expression_view(*b))),
        Expression::Gte(a, b) => ExpressionView::Gte(Box::new(expression_view(*a)), Box::new(expression_view(*b))),
        Expression::Gt(a, b) => ExpressionView::Gt(Box::new(expression_view(*a)), Box::new(expression_view(*b))),
        Expression::Add(a, b) => ExpressionView::Add(Box::new(expression_view(*a)), Box::new(expression_view(*b))),
        Expression::Sub(a, b) => ExpressionView::Sub(Box::new(expression_view(*a)), Box::new(expression_view(*b))),
        Expression::Mul(a, b) => ExpressionView::Mul(Box::new(expression_view(*a)), Box::new(expression_view(*b))),
        Expression::Div(a, b) => ExpressionView::Div(Box::new(expression_view(*a)), Box::new(expression_view(*b))),
        Expression::Mod(a, b) => ExpressionView::Mod(Box::new(expression_view(*a)), Box::new(expression_view(*b))),
        Expression::Neg(a) => ExpressionView::Neg(Box::new(expression_view(*a))),
        Expression::Not(a) => ExpressionView::Not(Box::new(expression_view(*a))),
        Expression::Member(a, id) => ExpressionView::Member(Box::new(expression_view(*a)), id@),
        Expression::Method(a, id, args) => ExpressionView::Method(
            Box::new(expression_view(*a)),
            id@,
            expressions_view(&args),
        ),
        Expression::Lit(lit) => ExpressionView::Lit(literal_view(lit)),
        Expression::Binding(id) => ExpressionView::Binding(id@),
    }
}

impl View for Literal {
    type V = LiteralView;

    open spec fn view(&self) -> LiteralView {
        literal_view(*self)
    }
}

impl View for Expression {
    type V = ExpressionView;

    open spec fn view(&self) -> ExpressionView {
        expression_view(*self)
    }
}

/// A copy of a vector of expressions.
pub fn copy_expressions(es: &Vec<Expression>) -> (res: Vec<Expression>)
    ensures
        expressions_view(&res) == expressions_view(es),
    decreases es,
{
    let mut res: Vec<Expression> = Vec::new();
    let mut i: usize = 0;
    #[verifier::loop_isolation(false)]
    while i < es.len()
        invariant
            i <= es.len(),
            res.len() == i,
            forall|j: int| 0 <= j < i ==> res[j]@ == es[j]@,
        decreases es.len() - i,
    {
        res.push(copy_expression(&es[i]));
        i += 1;
    }
    assert(expressions_view(&res) =~= expressions_view(es));
    res
}

/// A copy of a vector of fields.
pub fn copy_fields(fs: &Vec<(Expression, Expression)>) -> (res: Vec<(Expression, Expression)>)
    ensures
        fields_view(&res) == fields_view(fs),
    decreases fs,
{
    let mut res: Vec<(Expression, Expression)> = Vec::new();
    let mut i: usize = 0;
    #[verifier::loop_isolation(false)]
    while i < fs.len()
        invariant
            i <= fs.len(),
            res.len() == i,
            forall|j: int| 0 <= j < i ==> res[j].0@ == fs[j].0@ && res[j].1@ == fs[j].1@,
        decreases fs.len() - i,
    {
        res.push((copy_expression(&fs[i].0), copy_expression(&fs[i].1)));
        i += 1;
    }
    assert(fields_view(&res) =~= fields_view(fs));
    res
}

/// A copy of a literal.
pub fn copy_literal(lit: &Literal) -> (res: Literal)
    ensures
        res@ == lit@,
    decreases lit,
{
    match lit {
        Literal::I64(x) => Literal::I64(*x),
        Literal::F64(text) => Literal::F64(text.clone()),
        Literal::Bool(x) => Literal::Bool(*x),
        Literal::String(s) => Literal::String(s.clone()),
        Literal::Bytes(b) => Literal::Bytes(copy_bytes(b)),
        Literal::List(es) => Literal::List(copy_expressions(es)),
        Literal::Dict(fs) => Literal::Dict(copy_fields(fs)),
        Literal::Null => Literal::Null,
    }
}

/// A copy of an expression.
pub fn copy_expression(e: &Expression) -> (res: Expression)
    ensures
        res@ == e@,
    decreases e,
{
    match e {
        Expression::LetBinding { id, value, body } => Expression::LetBinding {
            id: id.clone(),
            value: Box::new(copy_expression(value)),
            body: Box::new(copy_expression(body)),
        },
        Expression::Ternary { condition, true_branch, else_branch } => Expression::Ternary {
            condition: Box::new(copy_expression(condition)),
            true_branch: Box::new(copy_expression(true_branch)),
            else_branch: Box::new(copy_expression(else_branch)),
        },
        Expression::Or(es) => Expression::Or(copy_expressions(es)),
        Expression::And(es) => Expression::And(copy_expressions(es)),
        Expression::Eq(a, b) => Expression::Eq(
            Box::new(copy_expression(a)),
            Box::new(copy_expression(b)),
        ),
        Expression::Neq(a, b) => Expression::Neq(
            Box::new(copy_expression(a)),
            Box::new(copy_expression(b)),
        ),
        Expression::Lt(a, b) => Expression::Lt(
            Box::new(copy_expression(a)),
            Box::new(copy_expression(b)),
        ),
        Expression::Lte(a, b) => Expression::Lte(
            Box::new(copy_expression(a)),
            Box::new(copy_expression(b)),
        ),
        Expression::Gte(a, b) => Expression::Gte(
            Box::new(copy_expression(a)),
            Box::new(copy_expression(b)),
        ),
        Expression::Gt(a, b) => Expression::Gt(
            Box::new(copy_expression(a)),
            Box::new(copy_expression(b)),
        ),
        Expression::Add(a, b) => Expression::Add(
            Box::new(copy_expression(a)),
            Box::new(copy_expression(b)),
        ),
        Expression::Sub(a, b) => Expression::Sub(
            Box::new(copy_expression(a)),
            Box::new(copy_expression(b)),
        ),
        Expression::Mul(a, b) => Expression::Mul(
            Box::new(copy_expression(a)),
            Box::new(copy_expression(b)),
        ),
        Expression::Div(a, b) => Expression::Div(
            Box::new(copy_expression(a)),
            Box::new(copy_expression(b)),
        ),
        Expression::Mod(a, b) => Expression::Mod(
            Box::new(copy_expression(a)),
            Box::new(copy_expression(b)),
        ),
        Expression::Neg(a) => Expression::Neg(Box::new(copy_expression(a))),
        Expression::Not(a) => Expression::Not(Box::new(copy_expression(a))),
        Expression::Member(a, id) => Expression::Member(Box::new(copy_expression(a)), id.clone()),
        Expression::Method(a, id, args) => Expression::Method(
            Box::new(copy_expression(a)),
            id.clone(),
            copy_expressions(args),
        ),
        Expression::Lit(lit) => Expression::Lit(copy_literal(lit)),
        Expression::Binding(id) => Expression::Binding(id.clone()),
    }
}

impl Clone for Literal {
    fn clone(&self) -> (res: Literal)
        ensures
            res@ == self@,
    {
        copy_literal(self)
    }
}

impl Clone for Expression {
    fn clone(&self) -> (res: Expression)
        ensures
            res@ == self@,
    {
        copy_expression(self)
    }
}

/// The operator of an expression.
pub open spec fn op_of(e: ExpressionView) -> OpView {
    match e {
        ExpressionView::Ternary { .. } => OpView::Ternary,
        ExpressionView::LetBinding { .. } => OpView::LetBinding,
        ExpressionView::Or(_) => OpView::Or,
        ExpressionView::And(_) => OpView::And,
        ExpressionView::Eq(_, _) => OpView::Eq,
        ExpressionView::Neq(_, _) => OpView::Neq,
        ExpressionView::Lt(_, _) => OpView::Lt,
        ExpressionView::Lte(_, _) => OpView::Lte,
        ExpressionView::Gte(_, _) => OpView::Gte,
        ExpressionView::Gt(_, _) => OpView::Gt,
        ExpressionView::Add(_, _) => OpView::Plus,
        ExpressionView::Sub(_, _) => OpView::Minus,
        ExpressionView::Mul(_, _) => OpView::Times,
        ExpressionView::Div(_, _) => OpView::Div,
        ExpressionView::Mod(_, _) => OpView::Mod,
        ExpressionView::Neg(_) => OpView::Neg,
        ExpressionView::Not(_) => OpView::Not,
        ExpressionView::Member(_, id) => OpView::Member(id),
        ExpressionView::Method(_, id, _) => OpView::Method(id),
        ExpressionView::Lit(_) => OpView::Lit,
        ExpressionView::Binding(_) => OpView::Lookup,
    }
}

impl Expression {
    /// The operator of this node.
    pub fn op(&self) -> (op: Op)
        ensures
            op@ == op_of(self@),
    {
        match self {
            Expression::Ternary { .. } => Op::Ternary,
            Expression::LetBinding { .. } => Op::LetBinding,
            Expression::Or(_) => Op::Or,
            Expression::And(_) => Op::And,
            Expression::Eq(_, _) => Op::Eq,
            Expression::Neq(_, _) => Op::Neq,
            Expression::Lt(_, _) => Op::Lt,
            Expression::Lte(_, _) => Op::Lte,
            Expression::Gte(_, _) => Op::Gte,
            Expression::Gt(_, _) => Op::Gt,
            Expression::Add(_, _) => Op::Plus,
            Expression::Sub(_, _) => Op::Minus,
            Expression::Mul(_, _) => Op::Times,
            Expression::Div(_, _) => Op::Div,
            Expression::Mod(_, _) => Op::Mod,
            Expression::Neg(_) => Op::Neg,
            Expression::Not(_) => Op::Not,
            Expression::Member(_, id) => Op::Member(id.clone()),
            Expression::Method(_, id, _) => Op::Method(id.clone()),
            Expression::Lit(_) => Op::Lit,
            Expression::Binding(_) => Op::Lookup,
        }
    }
}

/// A runtime value. A floating-point number is held as its IEEE-754 binary64
/// bit pattern.
#[derive(Debug)]
pub enum Value {
    I64(i64),
    F64(u64),
    Bool(bool),
    String(String),
    Bytes(Vec<u8>),
    List(Vec<Value>),
    Dict(ValueMap),
    Null,
}

/// What a [`Value`] is. A dictionary is the sequence of its entries in
/// ascending order of their keys.
pub ghost enum ValueView {
    I64(i64),
    F64(u64),
    Bool(bool),
    String(Seq<char>),
    Bytes(Seq<u8>),
    List(Seq<ValueView>),
    Dict(Seq<(Seq<char>, ValueView)>),
    Null,
}

/// The views of a vector of values, in order.
pub open spec fn values_view(vs: &Vec<Value>) -> Seq<ValueView>
    decreases vs,
{
    Seq::new(
        vs.len() as nat,
        |i: int|
            if 0 <= i < vs.len() {
                vs[i]@
            } else {
                ValueView::Null
            },
    )
}

/// The view of a vector of values has the vector's length and holds the
/// views of its elements.
pub proof fn lemma_values_view(vs: &Vec<Value>)
    ensures
        values_view(vs).len() == vs.len(),
        forall|i: int| 0 <= i < vs.len() ==> #[trigger] values_view(vs)[i] == vs[i]@,
{
}

impl View for Value {
    type V = ValueView;

    open spec fn view(&self) -> ValueView
        decreases self,
    {
        match self {
            Value::I64(x) => ValueView::I64(*x),
            Value::F64(x) => ValueView::F64(*x),
            Value::Bool(x) => ValueView::Bool(*x),
            Value::String(s) => ValueView::String(s@),
            Value::Bytes(b) => ValueView::Bytes(b@),
            Value::List(vs) => ValueView::List(values_view(vs)),
            Value::Dict(m) => ValueView::Dict(m@),
            Value::Null => ValueView::Null,
        }
    }
}

/// The kind of a value.
pub open spec fn kind_of(v: ValueView) -> Kind {
    match v {
        ValueView::I64(_) => Kind::I64,
        ValueView::F64(_) => Kind::F64,
        ValueView::Bool(_) => Kind::Bool,
        ValueView::String(_) => Kind::String,
        ValueView::Bytes(_) => Kind::Bytes,
        ValueView::List(_) => Kind::List,
        ValueView::Dict(_) => Kind::Dict,
        ValueView::Null => Kind::Null,
    }
}

/// The weight that every value carries, whatever it holds.
pub const NODE_WEIGHT: usize = 64;

/// The weight of a value: a fixed amount for the value itself, the byte length
/// of a string or byte sequence, the weights of the elements of a list, and
/// for each entry of a dictionary the byte length of its key and the weight
/// of its value.
pub open spec fn weight(v: ValueView) -> nat
    decreases v, 0nat,
{
    NODE_WEIGHT as nat + match v {
        ValueView::String(s) => encode_utf8(s).len(),
        ValueView::Bytes(b) => b.len(),
        ValueView::List(vs) => list_weight(vs, vs.len()),
        ValueView::Dict(d) => dict_weight(d, d.len()),
        _ => 0,
    }
}

/// The sum of the weights of the first `n` values of `vs`.
pub open spec fn list_weight(vs: Seq<ValueView>, n: nat) -> nat
    decreases vs, n,
{
    if n == 0 || n > vs.len() {
        0
    } else {
        list_weight(vs, (n - 1) as nat) + weight(vs[n - 1])
    }
}

/// The sum, over the first `n` entries of `d`, of the byte length of the key
/// and the weight of the value.
pub open spec fn dict_weight(d: Seq<(Seq<char>, ValueView)>, n: nat) -> nat
    decreases d, n,
{
    if n == 0 || n > d.len() {
        0
    } else {
        dict_weight(d, (n - 1) as nat) + encode_utf8(d[n - 1].0).len() + weight(d[n - 1].1)
    }
}

/// `n` as a `usize`, or the largest `usize` where `n` does not fit.
pub open spec fn saturated(n: nat) -> usize {
    if n <= usize::MAX {
        n as usize
    } else {
        usize::MAX
    }
}

/// A copy of a byte vector.
pub fn copy_bytes(b: &Vec<u8>) -> (res: Vec<u8>)
    ensures
        res@ == b@,
{
    let mut res: Vec<u8> = Vec::new();
    let mut i: usize = 0;
    while i < b.len()
        invariant
            i <= b.len(),
            res@ == b@.take(i as int),
        decreases b.len() - i,
    {
        res.push(b[i]);
        i += 1;
    }
    res
}

/// A copy of a vector of values.
pub fn copy_values(vs: &Vec<Value>) -> (res: Vec<Value>)
    ensures
        values_view(&res) == values_view(vs),
    decreases vs,
{
    let mut res: Vec<Value> = Vec::new();
    let mut i: usize = 0;
    #[verifier::loop_isolation(false)]
    while i < vs.len()
        invariant
            i <= vs.len(),
            res.len() == i,
            forall|j: int| 0 <= j < i ==> res[j]@ == vs[j]@,
        decreases vs.len() - i,
    {
        res.push(vs[i].clone());
        i += 1;
    }
    assert(values_view(&res) =~= values_view(vs));
    res
}

impl Value {
    /// The kind of this value.
    pub fn kind(&self) -> (k: Kind)
        ensures
            k == kind_of(self@),
    {
        match self {
            Value::I64(_) => Kind::I64,
            Value::F64(_) => Kind::F64,
            Value::Bool(_) => Kind::Bool,
            Value::String(_) => Kind::String,
            Value::Bytes(_) => Kind::Bytes,
            Value::List(_) => Kind::List,
            Value::Dict(_) => Kind::Dict,
            Value::Null => Kind::Null,
        }
    }

    /// The weight of this value, or the largest `usize` where the weight does
    /// not fit.
    pub fn size(&self) -> (n: usize)
        ensures
            n == saturated(weight(self@)),
        decreases self,
    {
        let transitive: usize = match self {
            Value::String(s) => s.as_str().as_bytes().len(),
            Value::Bytes(b) => b.len(),
            Value::List(vs) => {
                let mut sum: usize = 0;
                let mut i: usize = 0;
                #[verifier::loop_isolation(false)]
                while i < vs.len()
                    invariant
                        i <= vs.len(),
                        sum == saturated(list_weight(values_view(vs), i as nat)),
                    decreases vs.len() - i,
                {
                    sum = sum.saturating_add(vs[i].size());
                    i += 1;
                }
                sum
            },
            Value::Dict(m) => {
                let mut sum: usize = 0;
                let mut i: usize = 0;
                #[verifier::loop_isolation(false)]
                while i < m.len()
                    invariant
                        i <= m@.len(),
                        sum == saturated(dict_weight(m@, i as nat)),
                    decreases m@.len() - i,
                {
                    sum = sum.saturating_add(m.key_at(i).as_str().as_bytes().len());
                    sum = sum.saturating_add(m.value_at(i).size());
                    i += 1;
                }
                sum
            },
            _ => 0,
        };
        NODE_WEIGHT.saturating_add(transitive)
    }
}

impl Clone for Value {
    fn clone(&self) -> (res: Value)
        ensures
            res@ == self@,
        decreases self,
    {
        match self {
            Value::I64(x) => Value::I64(*x),
            Value::F64(x) => Value::F64(*x),
            Value::Bool(x) => Value::Bool(*x),
            Value::String(s) => Value::String(s.clone()),
            Value::Bytes(b) => Value::Bytes(copy_bytes(b)),
            Value::List(vs) => Value::List(copy_values(vs)),
            Value::Dict(m) => Value::Dict(m.clone()),
            Value::Null => Value::Null,
        }
    }
}

/// Why an evaluation failed.
#[derive(Debug, PartialEq, Eq)]
pub enum Error {
    /// No method has this name.
    NoMethod(Identifier),
    /// The method exists, but not on an operand of this kind.
    NoMethodOnType(Kind, Identifier),
    /// The method exists on this kind, but not with arguments of these kinds.
    NoMethodWithSignature(Kind, Identifier, Vec<Kind>),
    /// A unary operator, a logical operator or a member access met an operand
    /// of a kind that it does not take.
    InvalidTypeForOperator(Kind, Op),
    /// A binary operator met a pair of kinds that it does not take.
    InvalidTypesForOperator(Kind, Kind, Op),
    DivisionByZero,
    /// No binding of this name is in scope.
    NoSuchBinding(Identifier),
    /// The dictionary has no entry of this name.
    NoSuchMember(Identifier),
    /// A dictionary key evaluated to a value of this kind, not to a string.
    InvalidMapKey(Kind),
    /// A dictionary literal gives this key twice.
    DuplicateMapKey(String),
    /// The values produced so far weigh more than an evaluation may.
    EvaluationTooLarge,
}

/// What an [`Error`] is.
pub ghost enum ErrorView {
    NoMethod(Seq<char>),
    NoMethodOnType(Kind, Seq<char>),
    NoMethodWithSignature(Kind, Seq<char>, Seq<Kind>),
    InvalidTypeForOperator(Kind, OpView),
    InvalidTypesForOperator(Kind, Kind, OpView),
    DivisionByZero,
    NoSuchBinding(Seq<char>),
    NoSuchMember(Seq<char>),
    InvalidMapKey(Kind),
    DuplicateMapKey(Seq<char>),
    EvaluationTooLarge,
}

impl View for Error {
    type V = ErrorView;

    open spec fn view(&self) -> ErrorView {
        match self {
            Error::NoMethod(id) => ErrorView::NoMethod(id@),
            Error::NoMethodOnType(k, id) => ErrorView::NoMethodOnType(*k, id@),
            Error::NoMethodWithSignature(k, id, ks) => ErrorView::NoMethodWithSignature(
                *k,
                id@,
                ks@,
            ),
            Error::InvalidTypeForOperator(k, op) => ErrorView::InvalidTypeForOperator(*k, op@),
            Error::InvalidTypesForOperator(a, b, op) => ErrorView::InvalidTypesForOperator(
                *a,
                *b,
                op@,
            ),
            Error::DivisionByZero => ErrorView::DivisionByZero,
            Error::NoSuchBinding(id) => ErrorView::NoSuchBinding(id@),
            Error::NoSuchMember(id) => ErrorView::NoSuchMember(id@),
            Error::InvalidMapKey(k) => ErrorView::InvalidMapKey(*k),
            Error::DuplicateMapKey(s) => ErrorView::DuplicateMapKey(s@),
            Error::EvaluationTooLarge => ErrorView::EvaluationTooLarge,
        }
    }
}

/// A copy of a vector of kinds.
pub fn copy_kinds(ks: &Vec<Kind>) -> (res: Vec<Kind>)
    ensures
        res@ == ks@,
{
    let mut res: Vec<Kind> = Vec::new();
    let mut i: usize = 0;
    while i < ks.len()
        invariant
            i <= ks.len(),
            res@ == ks@.take(i as int),
        decreases ks.len() - i,
    {
        res.push(ks[i]);
        i += 1;
    }
    res
}

impl Clone for Error {
    fn clone(&self) -> (res: Error)
        ensures
            res@ == self@,
    {
        match self {
            Error::NoMethod(id) => Error::NoMethod(id.clone()),
            Error::NoMethodOnType(k, id) => Error::NoMethodOnType(*k, id.clone()),
            Error::NoMethodWithSignature(k, id, ks) => Error::NoMethodWithSignature(
                *k,
                id.clone(),
                copy_kinds(ks),
            ),
            Error::InvalidTypeForOperator(k, op) => Error::InvalidTypeForOperator(*k, op.clone()),
            Error::InvalidTypesForOperator(a, b, op) => Error::InvalidTypesForOperator(
                *a,
                *b,
                op.clone(),
            ),
            Error::DivisionByZero => Error::DivisionByZero,
            Error::NoSuchBinding(id) => Error::NoSuchBinding(id.clone()),
            Error::NoSuchMember(id) => Error::NoSuchMember(id.clone()),
            Error::InvalidMapKey(k) => Error::InvalidMapKey(*k),
            Error::DuplicateMapKey(s) => Error::DuplicateMapKey(s.clone()),
            Error::EvaluationTooLarge => Error::EvaluationTooLarge,
        }
    }
}

/// The result of an evaluation: a value or the reason why there is none.
pub type EvalResult = Result<Value, Error>;

/// What an [`EvalResult`] is.
pub open spec fn result_view(r: EvalResult) -> Result<ValueView, ErrorView> {
    match r {
        Ok(v) => Ok(v@),
        Err(e) => Err(e@),
    }
}

/// A copy of a result.
pub fn copy_result(r: &EvalResult) -> (res: EvalResult)
    ensures
        result_view(res) == result_view(*r),
{
    match r {
        Ok(v) => Ok(v.clone()),
        Err(e) => Err(e.clone()),
    }
}

} // verus!
