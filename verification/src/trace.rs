//! The trace of an evaluation: a tree of the shape of the syntax tree, in
//! which every node carries what it evaluated to by itself.
use vstd::prelude::*;

use crate::float::{FloatRequest, FloatRequestView};
use crate::interpreter::{eval, Env, EvalContext, Progress};
use crate::model::{
    expressions_view, op_of, result_view, EvalResult, Expression, ExpressionView, Op,
    OpView, Value, ValueView,
};
use crate::operators::ResultView;

verus! {

/// A node of a trace: the operator of the syntax tree node, what the node
/// evaluated to, and the traces of its operands.
#[derive(Debug)]
pub struct EvaluatedAst {
    pub op: Op,
    pub result: EvalResult,
    pub children: Vec<EvaluatedAst>,
}

/// What an [`EvaluatedAst`] is.
pub ghost struct TraceView {
    pub op: OpView,
    pub result: ResultView,
    pub children: Seq<TraceView>,
}

/// The views of a vector of traces, in order.
pub open spec fn traces_view(ts: &Vec<EvaluatedAst>) -> Seq<TraceView>
    decreases ts,
{
    Seq::new(
        ts.len() as nat,
        |i: int|
            if 0 <= i < ts.len() {
                trace_view(ts[i])
            } else {
                arbitrary()
            },
    )
}

/// The view of a trace.
pub open spec fn trace_view(t: EvaluatedAst) -> TraceView
    decreases t,
{
    TraceView { op: t.op@, result: result_view(t.result), children: traces_view(&t.children) }
}

impl View for EvaluatedAst {
    type V = TraceView;

    open spec fn view(&self) -> TraceView {
        trace_view(*self)
    }
}

/// Where the tracing of one expression stands: at a trace, or at the
/// floating-point operation whose answer it needs.
pub type Traced = (Result<TraceView, FloatRequestView>, Progress);

/// Where the tracing of a sequence of expressions stands.
pub type TracedAll = (Result<Seq<TraceView>, FloatRequestView>, Progress);

/// The leaf under a binding reference: it records the name as a string.
pub open spec fn lookup_leaf(name: Seq<char>) -> TraceView {
    TraceView { op: OpView::Lookup, result: Ok(ValueView::String(name)), children: Seq::empty() }
}

/// The traces `done` with one more behind them, or the first request.
pub open spec fn then(done: TracedAll, next: Traced) -> TracedAll {
    match done.0 {
        Err(request) => (Err(request), done.1),
        Ok(traces) => match next.0 {
            Err(request) => (Err(request), next.1),
            Ok(t) => (Ok(traces.push(t)), next.1),
        },
    }
}

/// The node over the traces of its operands, or the first request.
pub open spec fn node(op: OpView, result: ResultView, children: TracedAll) -> Traced {
    match children.0 {
        Err(request) => (Err(request), children.1),
        Ok(traces) => (Ok(TraceView { op, result, children: traces }), children.1),
    }
}

/// The trace of an expression. The node is evaluated by itself first; then,
/// whatever came of that, every operand is traced in turn, further operands
/// of a logical operator and both branches of a ternary too. A `let` has no
/// node of its own: its trace is that of its body, with the binding in
/// scope. Every evaluation counts toward the weight produced.
pub open spec fn trace(e: ExpressionView, env: Env, answers: Seq<u64>, at: Progress) -> Traced
    decreases e, 1int,
{
    let own = eval(e, env, answers, at);
    match own.0 {
        Err(request) => (Err(request), own.1),
        Ok(result) => match e {
            ExpressionView::LetBinding { id, value, body } => {
                let bound = eval(*value, env, answers, own.1);
                match bound.0 {
                    Err(request) => (Err(request), bound.1),
                    Ok(b) => trace(*body, env.push((id, b)), answers, bound.1),
                }
            },
            ExpressionView::Ternary { condition, true_branch, else_branch } => {
                let first = trace(*condition, env, answers, own.1);
                let second = trace(*true_branch, env, answers, first.1);
                let third = trace(*else_branch, env, answers, second.1);
                node(
                    op_of(e),
                    result,
                    then(then(then((Ok(Seq::empty()), own.1), first), second), third),
                )
            },
            ExpressionView::Or(es) | ExpressionView::And(es) => node(
                op_of(e),
                result,
                trace_all(es, 0, env, answers, own.1, Seq::empty()),
            ),
            ExpressionView::Eq(a, b)
            | ExpressionView::Neq(a, b)
            | ExpressionView::Lt(a, b)
            | ExpressionView::Lte(a, b)
            | ExpressionView::Gte(a, b)
            | ExpressionView::Gt(a, b)
            | ExpressionView::Add(a, b)
            | ExpressionView::Sub(a, b)
            | ExpressionView::Mul(a, b)
            | ExpressionView::Div(a, b)
            | ExpressionView::Mod(a, b) => {
                let first = trace(*a, env, answers, own.1);
                let second = trace(*b, env, answers, first.1);
                node(op_of(e), result, then(then((Ok(Seq::empty()), own.1), first), second))
            },
            ExpressionView::Neg(a) | ExpressionView::Not(a) | ExpressionView::Member(a, _) => {
                let first = trace(*a, env, answers, own.1);
                node(op_of(e), result, then((Ok(Seq::empty()), own.1), first))
            },
            ExpressionView::Method(a, _, args) => {
                let first = trace(*a, env, answers, own.1);
                match first.0 {
                    Err(request) => (Err(request), first.1),
                    Ok(t) => node(
                        op_of(e),
                        result,
                        trace_all(args, 0, env, answers, first.1, seq![t]),
                    ),
                }
            },
            ExpressionView::Lit(_) => node(op_of(e), result, (Ok(Seq::empty()), own.1)),
            ExpressionView::Binding(name) => node(
                op_of(e),
                result,
                (Ok(seq![lookup_leaf(name)]), own.1),
            ),
        },
    }
}

/// The traces of the expressions from `i` on, behind the traces `done`.
pub open spec fn trace_all(
    es: Seq<ExpressionView>,
    i: int,
    env: Env,
    answers: Seq<u64>,
    at: Progress,
    done: Seq<TraceView>,
) -> TracedAll
    decreases es, es.len() - i,
{
    if i < 0 || i >= es.len() {
        (Ok(done), at)
    } else {
        let first = trace(es[i], env, answers, at);
        match first.0 {
            Err(request) => (Err(request), first.1),
            Ok(t) => trace_all(es, i + 1, env, answers, first.1, done.push(t)),
        }
    }
}

/// The view of a vector of traces has the vector's length and holds the
/// views of its elements.
pub proof fn lemma_traces_view(ts: &Vec<EvaluatedAst>)
    ensures
        traces_view(ts).len() == ts.len(),
        forall|i: int| 0 <= i < ts.len() ==> #[trigger] traces_view(ts)[i] == ts[i]@,
{
}

/// The view of where a tracing stands.
pub open spec fn traced_view(r: Result<EvaluatedAst, FloatRequest>) -> Result<
    TraceView,
    FloatRequestView,
> {
    match r {
        Ok(t) => Ok(t@),
        Err(request) => Err(request@),
    }
}

/// The view of where the tracing of a sequence stands.
pub open spec fn traced_all_view(r: Result<Vec<EvaluatedAst>, FloatRequest>) -> Result<
    Seq<TraceView>,
    FloatRequestView,
> {
    match r {
        Ok(ts) => Ok(traces_view(&ts)),
        Err(request) => Err(request@),
    }
}

/// Puts one more trace behind the traces `done`.
fn append(done: Vec<EvaluatedAst>, t: EvaluatedAst) -> (all: Vec<EvaluatedAst>)
    ensures
        traces_view(&all) == traces_view(&done).push(t@),
{
    let ghost before = traces_view(&done);
    let ghost added = t@;
    proof {
        lemma_traces_view(&done);
    }
    let mut all = done;
    all.push(t);
    proof {
        lemma_traces_view(&all);
        assert(traces_view(&all) =~= before.push(added));
    }
    all
}

/// No traces.
fn none() -> (all: Vec<EvaluatedAst>)
    ensures
        traces_view(&all) == Seq::<TraceView>::empty(),
{
    let all: Vec<EvaluatedAst> = Vec::new();
    proof {
        lemma_traces_view(&all);
        assert(traces_view(&all) =~= Seq::<TraceView>::empty());
    }
    all
}

/// Traces an evaluation of `expr` in the context `ctx`. The bindings in scope
/// are the same afterwards; the progress is that of all the evaluations
/// made.
pub fn explore(ctx: &mut EvalContext, expr: &Expression) -> (r: Result<EvaluatedAst, FloatRequest>)
    ensures
        (traced_view(r), final(ctx).progress()) == trace(
            expr@,
            old(ctx).env(),
            old(ctx).answers(),
            old(ctx).progress(),
        ),
        final(ctx).env() == old(ctx).env(),
        final(ctx).answers() == old(ctx).answers(),
    decreases expr, 1int,
{
    let ghost env = ctx.env();
    let result = match ctx.evaluate(expr) {
        Ok(result) => result,
        Err(request) => {
            return Err(request);
        },
    };
    let children = match expr {
        Expression::LetBinding { id, value, body } => {
            let bound = match ctx.evaluate(value) {
                Ok(bound) => bound,
                Err(request) => {
                    return Err(request);
                },
            };
            ctx.bind(id.clone(), bound);
            let traced = explore(ctx, body);
            ctx.unbind();
            assert(ctx.env() =~= env);
            return traced;
        },
        Expression::Ternary { condition, true_branch, else_branch } => {
            let first = match explore(ctx, condition) {
                Ok(t) => t,
                Err(request) => {
                    return Err(request);
                },
            };
            let second = match explore(ctx, true_branch) {
                Ok(t) => t,
                Err(request) => {
                    return Err(request);
                },
            };
            let third = match explore(ctx, else_branch) {
                Ok(t) => t,
                Err(request) => {
                    return Err(request);
                },
            };
            append(append(append(none(), first), second), third)
        },
        Expression::Or(es) | Expression::And(es) => {
            match explore_all(ctx, es, none()) {
                Ok(ts) => ts,
                Err(request) => {
                    return Err(request);
                },
            }
        },
        Expression::Eq(a, b)
        | Expression::Neq(a, b)
        | Expression::Lt(a, b)
        | Expression::Lte(a, b)
        | Expression::Gte(a, b)
        | Expression::Gt(a, b)
        | Expression::Add(a, b)
        | Expression::Sub(a, b)
        | Expression::Mul(a, b)
        | Expression::Div(a, b)
        | Expression::Mod(a, b) => {
            let first = match explore(ctx, a) {
                Ok(t) => t,
                Err(request) => {
                    return Err(request);
                },
            };
            let second = match explore(ctx, b) {
                Ok(t) => t,
                Err(request) => {
                    return Err(request);
                },
            };
            append(append(none(), first), second)
        },
        Expression::Neg(a) | Expression::Not(a) | Expression::Member(a, _) => {
            match explore(ctx, a) {
                Ok(t) => append(none(), t),
                Err(request) => {
                    return Err(request);
                },
            }
        },
        Expression::Method(a, _, args) => {
            let first = match explore(ctx, a) {
                Ok(t) => t,
                Err(request) => {
                    return Err(request);
                },
            };
            let ghost head = first@;
            let done = append(none(), first);
            assert(traces_view(&done) =~= seq![head]);
            match explore_all(ctx, args, done) {
                Ok(ts) => ts,
                Err(request) => {
                    return Err(request);
                },
            }
        },
        Expression::Lit(_) => none(),
        Expression::Binding(id) => {
            let leaf = EvaluatedAst {
                op: Op::Lookup,
                result: Ok(Value::String(id.0.clone())),
                children: none(),
            };
            let done = append(none(), leaf);
            assert(traces_view(&done) =~= seq![lookup_leaf(id@)]);
            done
        },
    };
    Ok(EvaluatedAst { op: expr.op(), result, children })
}

/// Traces expressions in turn, behind the traces `done`.
fn explore_all(ctx: &mut EvalContext, es: &Vec<Expression>, done: Vec<EvaluatedAst>) -> (r: Result<
    Vec<EvaluatedAst>,
    FloatRequest,
>)
    ensures
        (traced_all_view(r), final(ctx).progress()) == trace_all(
            expressions_view(es),
            0,
            old(ctx).env(),
            old(ctx).answers(),
            old(ctx).progress(),
            traces_view(&done),
        ),
        final(ctx).env() == old(ctx).env(),
        final(ctx).answers() == old(ctx).answers(),
    decreases es, 0int,
{
    let ghost env = ctx.env();
    let ghost answers = ctx.answers();
    let ghost start = ctx.progress();
    let ghost esv = expressions_view(es);
    let ghost first = traces_view(&done);
    let mut all = done;
    let mut i: usize = 0;
    #[verifier::loop_isolation(false)]
    while i < es.len()
        invariant
            i <= es.len(),
            ctx.env() == env,
            ctx.answers() == answers,
            trace_all(esv, i as int, env, answers, ctx.progress(), traces_view(&all)) == trace_all(
                esv,
                0,
                env,
                answers,
                start,
                first,
            ),
        decreases es.len() - i,
    {
        match explore(ctx, &es[i]) {
            Ok(t) => {
                all = append(all, t);
            },
            Err(request) => {
                return Err(request);
            },
        }
        i += 1;
    }
    Ok(all)
}

} // verus!
