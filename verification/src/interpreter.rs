//! The evaluator: reduces a syntax tree, in an environment of `let` bindings,
//! to a value or an error.
//!
//! Every evaluation of a node first checks the weight of the values produced so
//! far against a ceiling, and afterwards adds the weight of the value it
//! produced. Operands are evaluated eagerly and from left to right; only the
//! logical operators and the ternary stop early or pass over an error.
//!
//! The evaluator does no floating-point arithmetic. Where it needs the result
//! of such an operation it takes the next of the answers that the context was
//! given; where none is left, the evaluation ends with the request. Running
//! it again with one more answer takes it one operation further.
use vstd::prelude::*;

use crate::dict::{dict_get, dict_has, dict_insert, Entries, ValueMap};
use crate::float::{FloatRequest, FloatRequestView};
use crate::methods::{evaluate_method, method_outcome};
use crate::model::{
    copy_result, kind_of, result_view, values_view, weight, Error, ErrorView, EvalResult, Expression,
    ExpressionView, Identifier, Literal, LiteralView, Op, OpView, Value, ValueView,
};
use crate::operators::{
    apply_binary, binary_outcome, invert_value, inverted, negate_value, negated, outcome_view, Binary,
    Outcome, OutcomeView, ResultView,
};

verus! {

/// The weight of the values that one evaluation may produce before it fails.
pub const WEIGHT_LIMIT: usize = 0x10_0000;

/// The bindings in scope, innermost last: each a name and the result that
/// its expression evaluated to.
pub type Env = Seq<(Seq<char>, ResultView)>;

/// How far an evaluation has come: the weight of the values produced, counted
/// no further than one past the ceiling, and the number of floating-point
/// answers taken.
pub ghost struct Progress {
    pub weight: nat,
    pub answered: nat,
}

/// Where an evaluation of a sequence of expressions stands.
pub type ListOutcome = Result<Result<Seq<ValueView>, ErrorView>, FloatRequestView>;

/// The weight produced after `added` more: past the ceiling it is not counted
/// further.
pub open spec fn charge(used: nat, added: nat) -> nat {
    if used + added > WEIGHT_LIMIT {
        (WEIGHT_LIMIT + 1) as nat
    } else {
        used + added
    }
}

/// The progress after an outcome: a value adds its weight.
pub open spec fn charged(outcome: OutcomeView, at: Progress) -> Progress {
    match outcome {
        Ok(Ok(v)) => Progress { weight: charge(at.weight, weight(v)), answered: at.answered },
        _ => at,
    }
}

/// Settles a request with the next answer, if one is left.
pub open spec fn settle(outcome: OutcomeView, answers: Seq<u64>, at: Progress) -> (
    OutcomeView,
    Progress,
) {
    match outcome {
        Err(request) => if at.answered < answers.len() {
            (
                Ok(Ok(ValueView::F64(answers[at.answered as int]))),
                Progress { weight: at.weight, answered: at.answered + 1 },
            )
        } else {
            (Err(request), at)
        },
        Ok(result) => (Ok(result), at),
    }
}

/// The result bound to `name` among the first `n` bindings, the last of them
/// first.
pub open spec fn lookup(env: Env, name: Seq<char>, n: nat) -> ResultView
    decreases n,
{
    if n == 0 || n > env.len() {
        Err(ErrorView::NoSuchBinding(name))
    } else if env[n - 1].0 == name {
        env[n - 1].1
    } else {
        lookup(env, name, (n - 1) as nat)
    }
}

/// The member `name` of a value: the entry of a dictionary.
pub open spec fn member(v: ValueView, name: Seq<char>) -> ResultView {
    match v {
        ValueView::Dict(d) => match dict_get(d, name) {
            Some(found) => Ok(found),
            None => Err(ErrorView::NoSuchMember(name)),
        },
        _ => Err(ErrorView::InvalidTypeForOperator(kind_of(v), OpView::Member(name))),
    }
}

/// What a unary minus makes of its evaluated operand.
pub open spec fn after_negation(first: (OutcomeView, Progress)) -> (OutcomeView, Progress) {
    match first.0 {
        Ok(Ok(v)) => (Ok(negated(v)), first.1),
        failed => (failed, first.1),
    }
}

/// What a logical not makes of its evaluated operand.
pub open spec fn after_inversion(first: (OutcomeView, Progress)) -> (OutcomeView, Progress) {
    match first.0 {
        Ok(Ok(v)) => (Ok(inverted(v)), first.1),
        failed => (failed, first.1),
    }
}

/// What a member access makes of its evaluated operand.
pub open spec fn after_member(first: (OutcomeView, Progress), name: Seq<char>) -> (
    OutcomeView,
    Progress,
) {
    match first.0 {
        Ok(Ok(v)) => (Ok(member(v, name)), first.1),
        failed => (failed, first.1),
    }
}

/// What a binary operator makes of its two evaluated operands: the first
/// failure, or else what the operator makes of the two values.
pub open spec fn after_binary(
    op: Binary,
    first: (OutcomeView, Progress),
    second: (OutcomeView, Progress),
    answers: Seq<u64>,
) -> (OutcomeView, Progress) {
    match first.0 {
        Ok(Ok(a)) => match second.0 {
            Ok(Ok(b)) => settle(binary_outcome(op, a, b), answers, second.1),
            failed => (failed, second.1),
        },
        failed => (failed, first.1),
    }
}

/// The failure that a logical operator keeps for the end: the first operand
/// that failed or was no boolean.
pub open spec fn first_failure(kept: Option<ErrorView>, result: ResultView, op: OpView) -> Option<
    ErrorView,
> {
    match kept {
        Some(e) => Some(e),
        None => match result {
            Err(e) => Some(e),
            Ok(ValueView::Bool(_)) => None,
            Ok(v) => Some(ErrorView::InvalidTypeForOperator(kind_of(v), op)),
        },
    }
}

/// The result of evaluating an expression in an environment, with the
/// progress made: too large where the weight produced before is over the
/// ceiling, else what the node evaluates to, its weight added.
pub open spec fn eval(e: ExpressionView, env: Env, answers: Seq<u64>, at: Progress) -> (
    OutcomeView,
    Progress,
)
    decreases e, 1int,
{
    if at.weight > WEIGHT_LIMIT {
        (Ok(Err(ErrorView::EvaluationTooLarge)), at)
    } else {
        let done = eval_node(e, env, answers, at);
        (done.0, charged(done.0, done.1))
    }
}

/// What a node evaluates to, by its form.
pub open spec fn eval_node(e: ExpressionView, env: Env, answers: Seq<u64>, at: Progress) -> (
    OutcomeView,
    Progress,
)
    decreases e, 0int,
{
    match e {
        ExpressionView::LetBinding { id, value, body } => {
            let first = eval(*value, env, answers, at);
            match first.0 {
                Err(request) => (Err(request), first.1),
                Ok(bound) => eval(*body, env.push((id, bound)), answers, first.1),
            }
        },
        ExpressionView::Ternary { condition, true_branch, else_branch } => {
            let first = eval(*condition, env, answers, at);
            match first.0 {
                Err(request) => (Err(request), first.1),
                Ok(Ok(ValueView::Bool(true))) => eval(*true_branch, env, answers, first.1),
                Ok(_) => eval(*else_branch, env, answers, first.1),
            }
        },
        ExpressionView::Or(es) => eval_logic(es, 0, true, env, answers, at, None),
        ExpressionView::And(es) => eval_logic(es, 0, false, env, answers, at, None),
        ExpressionView::Eq(a, b) => {
            let first = eval(*a, env, answers, at);
            after_binary(Binary::Eq, first, eval(*b, env, answers, first.1), answers)
        },
        ExpressionView::Neq(a, b) => {
            let first = eval(*a, env, answers, at);
            after_binary(Binary::Neq, first, eval(*b, env, answers, first.1), answers)
        },
        ExpressionView::Lt(a, b) => {
            let first = eval(*a, env, answers, at);
            after_binary(Binary::Lt, first, eval(*b, env, answers, first.1), answers)
        },
        ExpressionView::Lte(a, b) => {
            let first = eval(*a, env, answers, at);
            after_binary(Binary::Lte, first, eval(*b, env, answers, first.1), answers)
        },
        ExpressionView::Gte(a, b) => {
            let first = eval(*a, env, answers, at);
            after_binary(Binary::Gte, first, eval(*b, env, answers, first.1), answers)
        },
        ExpressionView::Gt(a, b) => {
            let first = eval(*a, env, answers, at);
            after_binary(Binary::Gt, first, eval(*b, env, answers, first.1), answers)
        },
        ExpressionView::Add(a, b) => {
            let first = eval(*a, env, answers, at);
            after_binary(Binary::Add, first, eval(*b, env, answers, first.1), answers)
        },
        ExpressionView::Sub(a, b) => {
            let first = eval(*a, env, answers, at);
            after_binary(Binary::Sub, first, eval(*b, env, answers, first.1), answers)
        },
        ExpressionView::Mul(a, b) => {
            let first = eval(*a, env, answers, at);
            after_binary(Binary::Mul, first, eval(*b, env, answers, first.1), answers)
        },
        ExpressionView::Div(a, b) => {
            let first = eval(*a, env, answers, at);
            after_binary(Binary::Div, first, eval(*b, env, answers, first.1), answers)
        },
        ExpressionView::Mod(a, b) => {
            let first = eval(*a, env, answers, at);
            after_binary(Binary::Mod, first, eval(*b, env, answers, first.1), answers)
        },
        ExpressionView::Neg(a) => after_negation(eval(*a, env, answers, at)),
        ExpressionView::Not(a) => after_inversion(eval(*a, env, answers, at)),
        ExpressionView::Member(a, name) => after_member(eval(*a, env, answers, at), name),
        ExpressionView::Method(a, name, args) => {
            let first = eval(*a, env, answers, at);
            match first.0 {
                Ok(Ok(operand)) => {
                    let rest = eval_all(args, 0, env, answers, first.1, Seq::empty());
                    match rest.0 {
                        Ok(Ok(values)) => settle(
                            method_outcome(name, operand, values),
                            answers,
                            rest.1,
                        ),
                        Ok(Err(e)) => (Ok(Err(e)), rest.1),
                        Err(request) => (Err(request), rest.1),
                    }
                },
                failed => (failed, first.1),
            }
        },
        ExpressionView::Lit(lit) => eval_literal(lit, env, answers, at),
        ExpressionView::Binding(name) => (Ok(lookup(env, name, env.len())), at),
    }
}

/// What a logical operator evaluates to from its operand `i` on. `decisive`
/// is the boolean that ends the evaluation at once: `true` for `||`, `false`
/// for `&&`. Without it, the first operand that failed or was no boolean
/// gives the error, and where there is none the result is the other boolean.
pub open spec fn eval_logic(
    es: Seq<ExpressionView>,
    i: int,
    decisive: bool,
    env: Env,
    answers: Seq<u64>,
    at: Progress,
    kept: Option<ErrorView>,
) -> (OutcomeView, Progress)
    decreases es, es.len() - i,
{
    if i < 0 || i >= es.len() {
        match kept {
            Some(e) => (Ok(Err(e)), at),
            None => (Ok(Ok(ValueView::Bool(!decisive))), at),
        }
    } else {
        let first = eval(es[i], env, answers, at);
        match first.0 {
            Err(request) => (Err(request), first.1),
            Ok(result) => if result == Ok::<ValueView, ErrorView>(ValueView::Bool(decisive)) {
                (Ok(result), first.1)
            } else {
                eval_logic(
                    es,
                    i + 1,
                    decisive,
                    env,
                    answers,
                    first.1,
                    first_failure(
                        kept,
                        result,
                        if decisive {
                            OpView::Or
                        } else {
                            OpView::And
                        },
                    ),
                )
            },
        }
    }
}

/// The values of the expressions from `i` on, behind the values `done`: each
/// is evaluated in turn, and the first failure ends the evaluation.
pub open spec fn eval_all(
    es: Seq<ExpressionView>,
    i: int,
    env: Env,
    answers: Seq<u64>,
    at: Progress,
    done: Seq<ValueView>,
) -> (ListOutcome, Progress)
    decreases es, es.len() - i,
{
    if i < 0 || i >= es.len() {
        (Ok(Ok(done)), at)
    } else {
        let first = eval(es[i], env, answers, at);
        match first.0 {
            Err(request) => (Err(request), first.1),
            Ok(Err(e)) => (Ok(Err(e)), first.1),
            Ok(Ok(v)) => eval_all(es, i + 1, env, answers, first.1, done.push(v)),
        }
    }
}

/// The dictionary of the fields from `i` on, added to the entries `done`. Of
/// each field the key is evaluated, then the value; then the key has to be a
/// string that no earlier field gave.
pub open spec fn eval_fields(
    fs: Seq<(ExpressionView, ExpressionView)>,
    i: int,
    env: Env,
    answers: Seq<u64>,
    at: Progress,
    done: Entries,
) -> (OutcomeView, Progress)
    decreases fs, fs.len() - i,
{
    if i < 0 || i >= fs.len() {
        (Ok(Ok(ValueView::Dict(done))), at)
    } else {
        let first = eval(fs[i].0, env, answers, at);
        match first.0 {
            Ok(Ok(key)) => {
                let second = eval(fs[i].1, env, answers, first.1);
                match second.0 {
                    Ok(Ok(value)) => match key {
                        ValueView::String(k) => if dict_has(done, k) {
                            (Ok(Err(ErrorView::DuplicateMapKey(k))), second.1)
                        } else {
                            eval_fields(fs, i + 1, env, answers, second.1, dict_insert(done, k, value))
                        },
                        _ => (Ok(Err(ErrorView::InvalidMapKey(kind_of(key)))), second.1),
                    },
                    failed => (failed, second.1),
                }
            },
            failed => (failed, first.1),
        }
    }
}

/// What a literal evaluates to. A floating-point literal is a request for the
/// number that its text denotes.
pub open spec fn eval_literal(lit: LiteralView, env: Env, answers: Seq<u64>, at: Progress) -> (
    OutcomeView,
    Progress,
)
    decreases lit, 0int,
{
    match lit {
        LiteralView::Null => (Ok(Ok(ValueView::Null)), at),
        LiteralView::String(s) => (Ok(Ok(ValueView::String(s))), at),
        LiteralView::Bytes(b) => (Ok(Ok(ValueView::Bytes(b))), at),
        LiteralView::Bool(b) => (Ok(Ok(ValueView::Bool(b))), at),
        LiteralView::I64(x) => (Ok(Ok(ValueView::I64(x))), at),
        LiteralView::F64(text) => settle(Err(FloatRequestView::Literal(text)), answers, at),
        LiteralView::List(es) => {
            let all = eval_all(es, 0, env, answers, at, Seq::empty());
            match all.0 {
                Ok(Ok(values)) => (Ok(Ok(ValueView::List(values))), all.1),
                Ok(Err(e)) => (Ok(Err(e)), all.1),
                Err(request) => (Err(request), all.1),
            }
        },
        LiteralView::Dict(fs) => eval_fields(fs, 0, env, answers, at, Seq::empty()),
    }
}

/// What a `let` evaluates to: the bound expression is evaluated, whether or
/// not the body names it, and its result, a value or an error, is what the
/// name stands for in the body.
spec fn eval_let(
    id: Seq<char>,
    value: ExpressionView,
    body: ExpressionView,
    env: Env,
    answers: Seq<u64>,
    at: Progress,
) -> (OutcomeView, Progress)
{
    let first = eval(value, env, answers, at);
    match first.0 {
        Err(request) => (Err(request), first.1),
        Ok(bound) => eval(body, env.push((id, bound)), answers, first.1),
    }
}

/// What a ternary evaluates to: the first branch where the condition is
/// `true`; the other branch where it is anything else, an error too.
spec fn eval_ternary(
    condition: ExpressionView,
    true_branch: ExpressionView,
    else_branch: ExpressionView,
    env: Env,
    answers: Seq<u64>,
    at: Progress,
) -> (OutcomeView, Progress)
{
    let first = eval(condition, env, answers, at);
    match first.0 {
        Err(request) => (Err(request), first.1),
        Ok(Ok(ValueView::Bool(true))) => eval(true_branch, env, answers, first.1),
        Ok(_) => eval(else_branch, env, answers, first.1),
    }
}

/// What a method call evaluates to: the operand is evaluated, then every
/// argument, and the first failure ends the evaluation before the method is
/// looked at.
spec fn eval_call(
    a: ExpressionView,
    name: Seq<char>,
    args: Seq<ExpressionView>,
    env: Env,
    answers: Seq<u64>,
    at: Progress,
) -> (OutcomeView, Progress)
{
    let first = eval(a, env, answers, at);
    match first.0 {
        Ok(Ok(operand)) => {
            let rest = eval_all(args, 0, env, answers, first.1, Seq::empty());
            match rest.0 {
                Ok(Ok(values)) => settle(method_outcome(name, operand, values), answers, rest.1),
                Ok(Err(e)) => (Ok(Err(e)), rest.1),
                Err(request) => (Err(request), rest.1),
            }
        },
        failed => (failed, first.1),
    }
}

/// Answers that an evaluation does not take change nothing: where it comes
/// to a result, it comes to the same result, with the same progress, when
/// more answers stand behind those that it was given.
pub proof fn lemma_more_answers(
    e: ExpressionView,
    env: Env,
    answers: Seq<u64>,
    more: Seq<u64>,
    at: Progress,
)
    requires
        eval(e, env, answers, at).0.is_ok(),
    ensures
        eval(e, env, answers + more, at) == eval(e, env, answers, at),
    decreases e, 1int,
{
    if at.weight <= WEIGHT_LIMIT {
        lemma_more_answers_node(e, env, answers, more, at);
    }
}

proof fn lemma_more_answers_node(
    e: ExpressionView,
    env: Env,
    answers: Seq<u64>,
    more: Seq<u64>,
    at: Progress,
)
    requires
        eval_node(e, env, answers, at).0.is_ok(),
    ensures
        eval_node(e, env, answers + more, at) == eval_node(e, env, answers, at),
    decreases e, 0int,
{
    match e {
        ExpressionView::LetBinding { id, value, body } => {
            let first = eval(*value, env, answers, at);
            lemma_more_answers(*value, env, answers, more, at);
            lemma_more_answers(*body, env.push((id, first.0->Ok_0)), answers, more, first.1);
        },
        ExpressionView::Ternary { condition, true_branch, else_branch } => {
            let first = eval(*condition, env, answers, at);
            lemma_more_answers(*condition, env, answers, more, at);
            if first.0 == Ok::<ResultView, FloatRequestView>(Ok(ValueView::Bool(true))) {
                lemma_more_answers(*true_branch, env, answers, more, first.1);
            } else {
                lemma_more_answers(*else_branch, env, answers, more, first.1);
            }
        },
        ExpressionView::Or(es) => {
            lemma_more_answers_logic(es, 0, true, env, answers, more, at, None);
        },
        ExpressionView::And(es) => {
            lemma_more_answers_logic(es, 0, false, env, answers, more, at, None);
        },
        ExpressionView::Eq(a, b)
        | ExpressionView::Neq(a, b)
        | ExpressionView::Lt(a, b)
        | ExpressionView::Lte(a, b)
        | ExpressionView::Gte(a, b)
        | ExpressionView::Gt(a, b)
        | ExpressionView::Add(a, b)
        | ExpressionView::Sub(a, b)
        | ExpressionView::Mul(a, b)
        | ExpressionView::Div(a, b)
        | ExpressionView::Mod(a, b) => {
            let first = eval(*a, env, answers, at);
            lemma_more_answers(*a, env, answers, more, at);
            if first.0 matches Ok(Ok(_)) {
                lemma_more_answers(*b, env, answers, more, first.1);
            }
        },
        ExpressionView::Neg(a) | ExpressionView::Not(a) | ExpressionView::Member(a, _) => {
            lemma_more_answers(*a, env, answers, more, at);
        },
        ExpressionView::Method(a, name, args) => {
            let first = eval(*a, env, answers, at);
            lemma_more_answers(*a, env, answers, more, at);
            if first.0 matches Ok(Ok(_)) {
                lemma_more_answers_all(args, 0, env, answers, more, first.1, Seq::empty());
            }
        },
        ExpressionView::Lit(lit) => {
            lemma_more_answers_literal(lit, env, answers, more, at);
        },
        ExpressionView::Binding(_) => {},
    }
}

proof fn lemma_more_answers_logic(
    es: Seq<ExpressionView>,
    i: int,
    decisive: bool,
    env: Env,
    answers: Seq<u64>,
    more: Seq<u64>,
    at: Progress,
    kept: Option<ErrorView>,
)
    requires
        eval_logic(es, i, decisive, env, answers, at, kept).0.is_ok(),
    ensures
        eval_logic(es, i, decisive, env, answers + more, at, kept) == eval_logic(
            es,
            i,
            decisive,
            env,
            answers,
            at,
            kept,
        ),
    decreases es, es.len() - i,
{
    if 0 <= i < es.len() {
        let first = eval(es[i], env, answers, at);
        lemma_more_answers(es[i], env, answers, more, at);
        let result = first.0->Ok_0;
        if result != Ok::<ValueView, ErrorView>(ValueView::Bool(decisive)) {
            lemma_more_answers_logic(
                es,
                i + 1,
                decisive,
                env,
                answers,
                more,
                first.1,
                first_failure(
                    kept,
                    result,
                    if decisive {
                        OpView::Or
                    } else {
                        OpView::And
                    },
                ),
            );
        }
    }
}

proof fn lemma_more_answers_all(
    es: Seq<ExpressionView>,
    i: int,
    env: Env,
    answers: Seq<u64>,
    more: Seq<u64>,
    at: Progress,
    done: Seq<ValueView>,
)
    requires
        eval_all(es, i, env, answers, at, done).0.is_ok(),
    ensures
        eval_all(es, i, env, answers + more, at, done) == eval_all(es, i, env, answers, at, done),
    decreases es, es.len() - i,
{
    if 0 <= i < es.len() {
        let first = eval(es[i], env, answers, at);
        lemma_more_answers(es[i], env, answers, more, at);
        match first.0 {
            Ok(Ok(v)) => {
                lemma_more_answers_all(es, i + 1, env, answers, more, first.1, done.push(v));
            },
            _ => {},
        }
    }
}

proof fn lemma_more_answers_fields(
    fs: Seq<(ExpressionView, ExpressionView)>,
    i: int,
    env: Env,
    answers: Seq<u64>,
    more: Seq<u64>,
    at: Progress,
    done: Entries,
)
    requires
        eval_fields(fs, i, env, answers, at, done).0.is_ok(),
    ensures
        eval_fields(fs, i, env, answers + more, at, done) == eval_fields(
            fs,
            i,
            env,
            answers,
            at,
            done,
        ),
    decreases fs, fs.len() - i,
{
    if 0 <= i < fs.len() {
        let first = eval(fs[i].0, env, answers, at);
        lemma_more_answers(fs[i].0, env, answers, more, at);
        match first.0 {
            Ok(Ok(key)) => {
                let second = eval(fs[i].1, env, answers, first.1);
                lemma_more_answers(fs[i].1, env, answers, more, first.1);
                match (second.0, key) {
                    (Ok(Ok(value)), ValueView::String(k)) => {
                        if !dict_has(done, k) {
                            lemma_more_answers_fields(
                                fs,
                                i + 1,
                                env,
                                answers,
                                more,
                                second.1,
                                dict_insert(done, k, value),
                            );
                        }
                    },
                    _ => {},
                }
            },
            _ => {},
        }
    }
}

proof fn lemma_more_answers_literal(
    lit: LiteralView,
    env: Env,
    answers: Seq<u64>,
    more: Seq<u64>,
    at: Progress,
)
    requires
        eval_literal(lit, env, answers, at).0.is_ok(),
    ensures
        eval_literal(lit, env, answers + more, at) == eval_literal(lit, env, answers, at),
    decreases lit, 0int,
{
    match lit {
        LiteralView::List(es) => {
            lemma_more_answers_all(es, 0, env, answers, more, at, Seq::empty());
        },
        LiteralView::Dict(fs) => {
            lemma_more_answers_fields(fs, 0, env, answers, more, at, Seq::empty());
        },
        _ => {},
    }
}

/// The view of a kept failure.
pub open spec fn kept_view(kept: Option<Error>) -> Option<ErrorView> {
    match kept {
        Some(e) => Some(e@),
        None => None,
    }
}

/// The view of the outcome of evaluating a sequence of expressions.
pub open spec fn list_outcome_view(o: Result<Result<Vec<Value>, Error>, FloatRequest>) -> ListOutcome {
    match o {
        Ok(Ok(vs)) => Ok(Ok(values_view(&vs))),
        Ok(Err(e)) => Ok(Err(e@)),
        Err(request) => Err(request@),
    }
}

/// The state of an evaluation: the bindings in scope, the weight of the
/// values produced so far, and the floating-point answers, with the number of
/// them already taken.
#[derive(Debug)]
pub struct EvalContext {
    bindings: Vec<(Identifier, EvalResult)>,
    bytes_processed: usize,
    answers: Vec<u64>,
    answered: usize,
}

impl EvalContext {
    /// The bindings in scope, innermost last.
    pub closed spec fn env(&self) -> Env {
        Seq::new(
            self.bindings.len() as nat,
            |i: int| (self.bindings[i].0@, result_view(self.bindings[i].1)),
        )
    }

    /// The floating-point answers that the context was given.
    pub closed spec fn answers(&self) -> Seq<u64> {
        self.answers@
    }

    /// How far the evaluations in this context have come.
    pub closed spec fn progress(&self) -> Progress {
        Progress { weight: self.bytes_processed as nat, answered: self.answered as nat }
    }

    /// A context with no bindings, no weight and no answers.
    pub fn new() -> (ctx: EvalContext)
        ensures
            ctx.env() == Seq::<(Seq<char>, ResultView)>::empty(),
            ctx.answers() == Seq::<u64>::empty(),
            ctx.progress() == (Progress { weight: 0, answered: 0 }),
    {
        EvalContext::with_answers(Vec::new())
    }

    /// A context with no bindings and no weight, and with the answers to the
    /// floating-point operations that the evaluation will meet, in the order
    /// in which it meets them.
    pub fn with_answers(answers: Vec<u64>) -> (ctx: EvalContext)
        ensures
            ctx.env() == Seq::<(Seq<char>, ResultView)>::empty(),
            ctx.answers() == answers@,
            ctx.progress() == (Progress { weight: 0, answered: 0 }),
    {
        let ctx = EvalContext { bindings: Vec::new(), bytes_processed: 0, answers, answered: 0 };
        assert(ctx.env() =~= Seq::<(Seq<char>, ResultView)>::empty());
        ctx
    }

    /// This context with one more binding, innermost: the same answers, and
    /// the same progress.
    pub fn with_binding(&self, name: Identifier, result: EvalResult) -> (ctx: EvalContext)
        ensures
            ctx.env() == self.env().push((name@, result_view(result))),
            ctx.answers() == self.answers(),
            ctx.progress() == self.progress(),
    {
        let mut bindings: Vec<(Identifier, EvalResult)> = Vec::new();
        let mut i: usize = 0;
        while i < self.bindings.len()
            invariant
                i <= self.bindings.len(),
                bindings.len() == i,
                forall|j: int|
                    0 <= j < i ==> bindings[j].0@ == self.bindings[j].0@ && result_view(
                        bindings[j].1,
                    ) == result_view(self.bindings[j].1),
            decreases self.bindings.len() - i,
        {
            bindings.push((self.bindings[i].0.clone(), copy_result(&self.bindings[i].1)));
            i += 1;
        }
        bindings.push((name, result));
        let mut answers: Vec<u64> = Vec::new();
        let mut k: usize = 0;
        while k < self.answers.len()
            invariant
                k <= self.answers.len(),
                answers@ == self.answers@.take(k as int),
            decreases self.answers.len() - k,
        {
            answers.push(self.answers[k]);
            k += 1;
        }
        let ctx = EvalContext {
            bindings,
            bytes_processed: self.bytes_processed,
            answers,
            answered: self.answered,
        };
        assert(ctx.env() =~= self.env().push((name@, result_view(result))));
        ctx
    }

    /// Brings a binding into scope, innermost.
    pub fn bind(&mut self, name: Identifier, result: EvalResult)
        ensures
            final(self).env() == old(self).env().push((name@, result_view(result))),
            final(self).answers() == old(self).answers(),
            final(self).progress() == old(self).progress(),
    {
        let ghost inner = self.env().push((name@, result_view(result)));
        self.bindings.push((name, result));
        assert(self.env() =~= inner);
    }

    /// Takes the innermost binding, if there is one, out of scope.
    pub fn unbind(&mut self)
        ensures
            final(self).env() == (if old(self).env().len() > 0 {
                old(self).env().drop_last()
            } else {
                old(self).env()
            }),
            final(self).answers() == old(self).answers(),
            final(self).progress() == old(self).progress(),
    {
        let ghost before = self.env();
        self.bindings.pop();
        assert(self.env() =~= (if before.len() > 0 {
            before.drop_last()
        } else {
            before
        }));
    }

    /// Fails where the weight produced so far is over the ceiling.
    fn check_limits(&self) -> (r: Result<(), Error>)
        ensures
            r.is_err() <==> self.progress().weight > WEIGHT_LIMIT,
            r matches Err(e) ==> e@ == ErrorView::EvaluationTooLarge,
    {
        if self.bytes_processed > WEIGHT_LIMIT {
            return Err(Error::EvaluationTooLarge);
        }
        Ok(())
    }

    /// Adds the weight of a value that an evaluation produced.
    fn add_weight(&mut self, value: &Value)
        ensures
            final(self).progress() == charged(
                Ok::<ResultView, FloatRequestView>(Ok(value@)),
                old(self).progress(),
            ),
            final(self).env() == old(self).env(),
            final(self).answers() == old(self).answers(),
    {
        let size = value.size();
        if size > WEIGHT_LIMIT || self.bytes_processed > WEIGHT_LIMIT - size {
            self.bytes_processed = WEIGHT_LIMIT + 1;
        } else {
            self.bytes_processed = self.bytes_processed + size;
        }
    }

    /// Settles a request with the next answer, if one is left.
    fn answer(&mut self, outcome: Outcome) -> (settled: Outcome)
        ensures
            (outcome_view(settled), final(self).progress()) == settle(
                outcome_view(outcome),
                old(self).answers(),
                old(self).progress(),
            ),
            final(self).env() == old(self).env(),
            final(self).answers() == old(self).answers(),
    {
        match outcome {
            Err(request) => {
                if self.answered < self.answers.len() {
                    let bits = self.answers[self.answered];
                    self.answered = self.answered + 1;
                    Ok(Ok(Value::F64(bits)))
                } else {
                    Err(request)
                }
            },
            Ok(result) => Ok(result),
        }
    }

    /// The result bound to `name`: that of the innermost binding of that
    /// name.
    fn lookup_binding(&self, name: &Identifier) -> (r: EvalResult)
        ensures
            result_view(r) == lookup(self.env(), name@, self.env().len()),
    {
        let mut n: usize = self.bindings.len();
        while n > 0
            invariant
                n <= self.bindings.len(),
                lookup(self.env(), name@, self.env().len()) == lookup(self.env(), name@, n as nat),
            decreases n,
        {
            if self.bindings[n - 1].0.0 == name.0 {
                return copy_result(&self.bindings[n - 1].1);
            }
            n -= 1;
        }
        Err(Error::NoSuchBinding(name.clone()))
    }

    /// Evaluates an expression in this context. The bindings in scope are the
    /// same afterwards; the progress is that of the evaluation.
    pub fn evaluate(&mut self, expr: &Expression) -> (outcome: Outcome)
        ensures
            (outcome_view(outcome), final(self).progress()) == eval(
                expr@,
                old(self).env(),
                old(self).answers(),
                old(self).progress(),
            ),
            final(self).env() == old(self).env(),
            final(self).answers() == old(self).answers(),
        decreases expr, 2nat,
    {
        match self.check_limits() {
            Err(e) => {
                return Ok(Err(e));
            },
            Ok(_) => {},
        }
        let outcome = self.evaluate_node(expr);
        match &outcome {
            Ok(Ok(value)) => {
                self.add_weight(value);
            },
            _ => {},
        }
        outcome
    }

    /// Evaluates a node by its form.
    #[verifier::rlimit(60)]
    #[verifier::spinoff_prover]
    fn evaluate_node(&mut self, expr: &Expression) -> (outcome: Outcome)
        ensures
            (outcome_view(outcome), final(self).progress()) == eval_node(
                expr@,
                old(self).env(),
                old(self).answers(),
                old(self).progress(),
            ),
            final(self).env() == old(self).env(),
            final(self).answers() == old(self).answers(),
        decreases expr, 1nat,
    {
        match expr {
            Expression::LetBinding { id, value, body } => self.evaluate_let(
                id,
                value,
                body,
                Ghost(*expr),
            ),
            Expression::Ternary { condition, true_branch, else_branch } => self.evaluate_ternary(
                condition,
                true_branch,
                else_branch,
                Ghost(*expr),
            ),
            Expression::Or(es) => self.evaluate_logic(es, true),
            Expression::And(es) => self.evaluate_logic(es, false),
            Expression::Eq(a, b) => self.evaluate_binary(Binary::Eq, a, b, Ghost(*expr)),
            Expression::Neq(a, b) => self.evaluate_binary(Binary::Neq, a, b, Ghost(*expr)),
            Expression::Lt(a, b) => self.evaluate_binary(Binary::Lt, a, b, Ghost(*expr)),
            Expression::Lte(a, b) => self.evaluate_binary(Binary::Lte, a, b, Ghost(*expr)),
            Expression::Gte(a, b) => self.evaluate_binary(Binary::Gte, a, b, Ghost(*expr)),
            Expression::Gt(a, b) => self.evaluate_binary(Binary::Gt, a, b, Ghost(*expr)),
            Expression::Add(a, b) => self.evaluate_binary(Binary::Add, a, b, Ghost(*expr)),
            Expression::Sub(a, b) => self.evaluate_binary(Binary::Sub, a, b, Ghost(*expr)),
            Expression::Mul(a, b) => self.evaluate_binary(Binary::Mul, a, b, Ghost(*expr)),
            Expression::Div(a, b) => self.evaluate_binary(Binary::Div, a, b, Ghost(*expr)),
            Expression::Mod(a, b) => self.evaluate_binary(Binary::Mod, a, b, Ghost(*expr)),
            Expression::Neg(a) => {
                match self.evaluate(a) {
                    Ok(Ok(v)) => Ok(negate_value(v)),
                    failed => failed,
                }
            },
            Expression::Not(a) => {
                match self.evaluate(a) {
                    Ok(Ok(v)) => Ok(invert_value(v)),
                    failed => failed,
                }
            },
            Expression::Member(a, name) => {
                match self.evaluate(a) {
                    Ok(Ok(v)) => Ok(member_of(v, name)),
                    failed => failed,
                }
            },
            Expression::Method(a, name, args) => self.evaluate_call(a, name, args, Ghost(*expr)),
            Expression::Lit(lit) => self.evaluate_literal(lit),
            Expression::Binding(name) => Ok(self.lookup_binding(name)),
        }
    }

    /// Evaluates a `let`: the bound expression, then the body with the
    /// binding in scope.
    fn evaluate_let(
        &mut self,
        id: &Identifier,
        value: &Expression,
        body: &Expression,
        Ghost(parent): Ghost<Expression>,
    ) -> (outcome: Outcome)
        requires
            decreases_to!(parent => *value),
            decreases_to!(parent => *body),
        ensures
            (outcome_view(outcome), final(self).progress()) == eval_let(
                id@,
                value@,
                body@,
                old(self).env(),
                old(self).answers(),
                old(self).progress(),
            ),
            final(self).env() == old(self).env(),
            final(self).answers() == old(self).answers(),
        decreases parent, 0nat,
    {
        let ghost env = self.env();
        let bound = match self.evaluate(value) {
            Err(request) => {
                return Err(request);
            },
            Ok(bound) => bound,
        };
        let ghost inner = env.push((id@, result_view(bound)));
        self.bindings.push((id.clone(), bound));
        assert(self.env() =~= inner);
        let outcome = self.evaluate(body);
        let ghost held = self.bindings@;
        assert(self.env() == inner);
        assert(held.len() == inner.len());
        assert forall|j: int| 0 <= j < env.len() implies (held[j].0@, result_view(held[j].1))
            == env[j] by {
            assert(self.env()[j] == inner[j]);
        }
        self.bindings.pop();
        assert(self.bindings@ =~= held.drop_last());
        assert(self.env() =~= env);
        outcome
    }

    /// Evaluates a ternary: the condition, then one of the branches.
    fn evaluate_ternary(
        &mut self,
        condition: &Expression,
        true_branch: &Expression,
        else_branch: &Expression,
        Ghost(parent): Ghost<Expression>,
    ) -> (outcome: Outcome)
        requires
            decreases_to!(parent => *condition),
            decreases_to!(parent => *true_branch),
            decreases_to!(parent => *else_branch),
        ensures
            (outcome_view(outcome), final(self).progress()) == eval_ternary(
                condition@,
                true_branch@,
                else_branch@,
                old(self).env(),
                old(self).answers(),
                old(self).progress(),
            ),
            final(self).env() == old(self).env(),
            final(self).answers() == old(self).answers(),
        decreases parent, 0nat,
    {
        let first = match self.evaluate(condition) {
            Err(request) => {
                return Err(request);
            },
            Ok(first) => first,
        };
        match first {
            Ok(Value::Bool(true)) => self.evaluate(true_branch),
            _ => self.evaluate(else_branch),
        }
    }

    /// Evaluates a method call: the operand, then the arguments, then the
    /// method.
    fn evaluate_call(
        &mut self,
        a: &Expression,
        name: &Identifier,
        args: &Vec<Expression>,
        Ghost(parent): Ghost<Expression>,
    ) -> (outcome: Outcome)
        requires
            decreases_to!(parent => *a),
            decreases_to!(parent => *args),
        ensures
            (outcome_view(outcome), final(self).progress()) == eval_call(
                a@,
                name@,
                crate::model::expressions_view(args),
                old(self).env(),
                old(self).answers(),
                old(self).progress(),
            ),
            final(self).env() == old(self).env(),
            final(self).answers() == old(self).answers(),
        decreases parent, 0nat,
    {
        let operand = match self.evaluate(a) {
            Ok(Ok(operand)) => operand,
            failed => {
                return failed;
            },
        };
        let values = match self.evaluate_all(args) {
            Ok(Ok(values)) => values,
            Ok(Err(e)) => {
                return Ok(Err(e));
            },
            Err(request) => {
                return Err(request);
            },
        };
        let outcome = evaluate_method(name.clone(), operand, values);
        self.answer(outcome)
    }

    /// Evaluates the two operands of a binary operator and applies it.
    fn evaluate_binary(
        &mut self,
        op: Binary,
        a: &Expression,
        b: &Expression,
        Ghost(parent): Ghost<Expression>,
    ) -> (outcome: Outcome)
        requires
            decreases_to!(parent => *a),
            decreases_to!(parent => *b),
        ensures
            (outcome_view(outcome), final(self).progress()) == after_binary(
                op,
                eval(a@, old(self).env(), old(self).answers(), old(self).progress()),
                eval(
                    b@,
                    old(self).env(),
                    old(self).answers(),
                    eval(a@, old(self).env(), old(self).answers(), old(self).progress()).1,
                ),
                old(self).answers(),
            ),
            final(self).env() == old(self).env(),
            final(self).answers() == old(self).answers(),
        decreases parent, 0nat,
    {
        let first = match self.evaluate(a) {
            Ok(Ok(first)) => first,
            failed => {
                return failed;
            },
        };
        let second = match self.evaluate(b) {
            Ok(Ok(second)) => second,
            failed => {
                return failed;
            },
        };
        let outcome = apply_binary(op, first, second);
        self.answer(outcome)
    }

    /// Evaluates the operands of `||` (`decisive` is `true`) or `&&`
    /// (`decisive` is `false`).
    fn evaluate_logic(&mut self, es: &Vec<Expression>, decisive: bool) -> (outcome: Outcome)
        ensures
            (outcome_view(outcome), final(self).progress()) == eval_logic(
                crate::model::expressions_view(es),
                0,
                decisive,
                old(self).env(),
                old(self).answers(),
                old(self).progress(),
                None,
            ),
            final(self).env() == old(self).env(),
            final(self).answers() == old(self).answers(),
        decreases es, 0nat,
    {
        let ghost env = self.env();
        let ghost answers = self.answers();
        let ghost start = self.progress();
        let ghost esv = crate::model::expressions_view(es);
        let mut kept: Option<Error> = None;
        let mut i: usize = 0;
        #[verifier::loop_isolation(false)]
        while i < es.len()
            invariant
                i <= es.len(),
                esv == crate::model::expressions_view(es),
                self.env() == env,
                self.answers() == answers,
                eval_logic(esv, i as int, decisive, env, answers, self.progress(), kept_view(kept))
                    == eval_logic(esv, 0, decisive, env, answers, start, None),
            decreases es.len() - i,
        {
            let result = match self.evaluate(&es[i]) {
                Err(request) => {
                    return Err(request);
                },
                Ok(result) => result,
            };
            let decides = match &result {
                Ok(Value::Bool(b)) => *b == decisive,
                _ => false,
            };
            if decides {
                return Ok(result);
            }
            if kept.is_none() {
                kept = match result {
                    Err(e) => Some(e),
                    Ok(Value::Bool(_)) => None,
                    Ok(v) => Some(
                        Error::InvalidTypeForOperator(
                            v.kind(),
                            if decisive {
                                Op::Or
                            } else {
                                Op::And
                            },
                        ),
                    ),
                };
            }
            i += 1;
        }
        match kept {
            Some(e) => Ok(Err(e)),
            None => Ok(Ok(Value::Bool(!decisive))),
        }
    }

    /// Evaluates expressions in turn, up to the first failure.
    fn evaluate_all(&mut self, es: &Vec<Expression>) -> (outcome: Result<
        Result<Vec<Value>, Error>,
        FloatRequest,
    >)
        ensures
            (list_outcome_view(outcome), final(self).progress()) == eval_all(
                crate::model::expressions_view(es),
                0,
                old(self).env(),
                old(self).answers(),
                old(self).progress(),
                Seq::empty(),
            ),
            final(self).env() == old(self).env(),
            final(self).answers() == old(self).answers(),
        decreases es, 0nat,
    {
        let ghost env = self.env();
        let ghost answers = self.answers();
        let ghost start = self.progress();
        let ghost esv = crate::model::expressions_view(es);
        let mut done: Vec<Value> = Vec::new();
        let mut i: usize = 0;
        assert(values_view(&done) =~= Seq::<ValueView>::empty());
        #[verifier::loop_isolation(false)]
        while i < es.len()
            invariant
                i <= es.len(),
                esv == crate::model::expressions_view(es),
                self.env() == env,
                self.answers() == answers,
                eval_all(esv, i as int, env, answers, self.progress(), values_view(&done))
                    == eval_all(esv, 0, env, answers, start, Seq::empty()),
            decreases es.len() - i,
        {
            let ghost before = values_view(&done);
            match self.evaluate(&es[i]) {
                Err(request) => {
                    return Err(request);
                },
                Ok(Err(e)) => {
                    return Ok(Err(e));
                },
                Ok(Ok(v)) => {
                    let ghost added = v@;
                    done.push(v);
                    assert(values_view(&done) =~= before.push(added));
                },
            }
            i += 1;
        }
        Ok(Ok(done))
    }

    /// Evaluates the fields of a dictionary literal in turn.
    fn evaluate_fields(&mut self, fs: &Vec<(Expression, Expression)>) -> (outcome: Outcome)
        ensures
            (outcome_view(outcome), final(self).progress()) == eval_fields(
                crate::model::fields_view(fs),
                0,
                old(self).env(),
                old(self).answers(),
                old(self).progress(),
                Seq::empty(),
            ),
            final(self).env() == old(self).env(),
            final(self).answers() == old(self).answers(),
        decreases fs, 0nat,
    {
        let ghost env = self.env();
        let ghost answers = self.answers();
        let ghost start = self.progress();
        let ghost fsv = crate::model::fields_view(fs);
        let mut done = ValueMap::new();
        let mut i: usize = 0;
        #[verifier::loop_isolation(false)]
        while i < fs.len()
            invariant
                i <= fs.len(),
                fsv == crate::model::fields_view(fs),
                self.env() == env,
                self.answers() == answers,
                eval_fields(fsv, i as int, env, answers, self.progress(), done@) == eval_fields(
                    fsv,
                    0,
                    env,
                    answers,
                    start,
                    Seq::empty(),
                ),
            decreases fs.len() - i,
        {
            let key = match self.evaluate(&fs[i].0) {
                Ok(Ok(key)) => key,
                failed => {
                    return failed;
                },
            };
            let value = match self.evaluate(&fs[i].1) {
                Ok(Ok(value)) => value,
                failed => {
                    return failed;
                },
            };
            match key {
                Value::String(k) => {
                    let name = k.clone();
                    match done.insert(k, value) {
                        Some(_) => {
                            return Ok(Err(Error::DuplicateMapKey(name)));
                        },
                        None => {},
                    }
                },
                other => {
                    return Ok(Err(Error::InvalidMapKey(other.kind())));
                },
            }
            i += 1;
        }
        Ok(Ok(Value::Dict(done)))
    }

    /// Evaluates a literal.
    fn evaluate_literal(&mut self, lit: &Literal) -> (outcome: Outcome)
        ensures
            (outcome_view(outcome), final(self).progress()) == eval_literal(
                lit@,
                old(self).env(),
                old(self).answers(),
                old(self).progress(),
            ),
            final(self).env() == old(self).env(),
            final(self).answers() == old(self).answers(),
        decreases lit, 1nat,
    {
        match lit {
            Literal::Null => Ok(Ok(Value::Null)),
            Literal::String(v) => Ok(Ok(Value::String(v.clone()))),
            Literal::Bytes(v) => Ok(Ok(Value::Bytes(crate::model::copy_bytes(v)))),
            Literal::Bool(v) => Ok(Ok(Value::Bool(*v))),
            Literal::I64(v) => Ok(Ok(Value::I64(*v))),
            Literal::F64(text) => self.answer(Err(FloatRequest::Literal(text.clone()))),
            Literal::List(es) => {
                match self.evaluate_all(es) {
                    Ok(Ok(values)) => Ok(Ok(Value::List(values))),
                    Ok(Err(e)) => Ok(Err(e)),
                    Err(request) => Err(request),
                }
            },
            Literal::Dict(fs) => self.evaluate_fields(fs),
        }
    }
}

impl Default for EvalContext {
    fn default() -> (ctx: EvalContext)
        ensures
            ctx.env() == Seq::<(Seq<char>, ResultView)>::empty(),
            ctx.answers() == Seq::<u64>::empty(),
            ctx.progress() == (Progress { weight: 0, answered: 0 }),
    {
        EvalContext::new()
    }
}

/// The member `name` of a value.
pub fn member_of(v: Value, name: &Identifier) -> (r: EvalResult)
    ensures
        result_view(r) == member(v@, name@),
{
    match &v {
        Value::Dict(fields) => match fields.get(name.0.as_str()) {
            Some(found) => Ok(found.clone()),
            None => Err(Error::NoSuchMember(name.clone())),
        },
        _ => Err(Error::InvalidTypeForOperator(v.kind(), Op::Member(name.clone()))),
    }
}

} // verus!
