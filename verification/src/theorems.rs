//! Theorems about what programs mean.
//!
//! The instruction budget: no run lowers the count, a run ends in an
//! instruction-limit error exactly where it had to count beyond the limit,
//! and neither a host function nor any operator can make such an error.
//! Evaluation order: `and` and `or` short-circuit, every other operator
//! evaluates its operands from left to right. Determinism: a run is a
//! function of the program, the context and the state.
use vstd::prelude::*;
use crate::ast::{BinOp, Span, SpecExpr, SpecStmt, UnaryOp};
use crate::error::{ErrorKind, SpecError};
use crate::semantics::{
    binary_op,
    budget,
    builtin_vec3,
    compare_op,
    element_of,
    extends,
    field_of,
    fresh,
    later,
    numeric_op,
    sem_assign,
    sem_assign_field,
    sem_assign_index,
    sem_assignment,
    sem_block,
    sem_bound,
    sem_build,
    sem_call,
    sem_clauses,
    sem_counted,
    sem_expr,
    sem_expression,
    sem_exprs,
    sem_fields,
    sem_for,
    sem_if,
    sem_invoke,
    sem_local,
    sem_numeric_for,
    sem_program,
    sem_repeat,
    sem_return,
    sem_stmt,
    sem_stmts,
    sem_top,
    sem_while,
    stmt_span,
    stored_element,
    tick,
    unary_op,
    with_scopes,
    write_back,
    Context,
    Procedure,
    Ran,
    Signal,
    State,
};
use crate::types::{lookup, truthy, Entries, SpecValue};

verus! {

/// Whether a result is an instruction-limit error.
pub open spec fn limit_error<T>(result: Result<T, SpecError>) -> bool {
    result is Err && result->Err_0.kind == ErrorKind::InstructionLimit
}

/// Whether a run that began in `st` kept to the budget: the count has not
/// gone down; and where it began within the limit, it ended beyond the limit
/// if it ended in an instruction-limit error, and within it otherwise. And
/// whether it left the record of the calls made before it as it was.
pub open spec fn kept<T>(ctx: Context, st: State, r: Ran<T>) -> bool {
    &&& r.state.count >= st.count
    &&& extends(st.calls, r.state.calls)
    &&& st.count <= ctx.limit ==> if limit_error(r.result) {
        r.state.count > ctx.limit || ctx.limit == u64::MAX
    } else {
        r.state.count <= ctx.limit
    }
}

/// No operator and no built-in makes an instruction-limit error.
#[verifier::spinoff_prover]
pub proof fn operators_make_no_limit_error(
    ctx: Context,
    un: UnaryOp,
    op: BinOp,
    l: SpecValue,
    r: SpecValue,
    args: Seq<SpecValue>,
    name: Seq<char>,
    span: Span,
)
    ensures
        !limit_error(unary_op(un, l, span)),
        !limit_error(binary_op(ctx, op, l, r, span)),
        !limit_error(builtin_vec3(args, span)),
        !limit_error(field_of(l, name, span)),
        !limit_error(element_of(l, r, span)),
{
    reveal(unary_op);
    reveal(binary_op);
    reveal(numeric_op);
    reveal(compare_op);
    reveal(builtin_vec3);
    reveal(field_of);
    reveal(element_of);
}

#[verifier::spinoff_prover]
proof fn stored_element_makes_no_limit_error(obj: SpecValue, idx: SpecValue, value: SpecValue, span: Span)
    ensures
        !limit_error(stored_element(obj, idx, value, span)),
{
    reveal(stored_element);
}

/// Writing back changes no count, calls no host function and makes no
/// instruction-limit error.
#[verifier::spinoff_prover]
proof fn write_back_keeps(ctx: Context, target: SpecExpr, value: SpecValue, st: State)
    ensures
        write_back(target, value, st).state.count == st.count,
        write_back(target, value, st).state.calls == st.calls,
        !limit_error(write_back(target, value, st).result),
{
    reveal(write_back);
}

/// Counting one instruction keeps to the budget.
#[verifier::spinoff_prover]
pub proof fn tick_keeps(ctx: Context, st: State, span: Span)
    ensures
        kept(ctx, st, tick(ctx, st, span)),
        tick(ctx, st, span).result is Err ==> limit_error(tick(ctx, st, span).result),
        tick(ctx, st, span).result is Ok ==> st.count < tick(ctx, st, span).state.count
            <= ctx.limit,
{
}

#[verifier::spinoff_prover]
proof fn expr_keeps(ctx: Context, e: SpecExpr, st: State)
    ensures
        kept(ctx, st, sem_expr(ctx, e, st)),
    decreases budget(ctx, st), 3nat, e,
{
    reveal(sem_expr);
    match e {
        SpecExpr::BinaryOp { left, op, right, span } => {
            expr_keeps(ctx, *left, st);
            let l = sem_expr(ctx, *left, st);
            if l.result is Ok {
                expr_keeps(ctx, *right, later(st, l.state));
                let r = sem_expr(ctx, *right, later(st, l.state));
                if r.result is Ok {
                    operators_make_no_limit_error(
                        ctx,
                        UnaryOp::Neg,
                        op,
                        l.result->Ok_0,
                        r.result->Ok_0,
                        Seq::empty(),
                        Seq::empty(),
                        span,
                    );
                }
            }
        },
        SpecExpr::UnaryOp { op, operand, span } => {
            expr_keeps(ctx, *operand, st);
            let v = sem_expr(ctx, *operand, st);
            if v.result is Ok {
                operators_make_no_limit_error(
                    ctx,
                    op,
                    BinOp::Add,
                    v.result->Ok_0,
                    v.result->Ok_0,
                    Seq::empty(),
                    Seq::empty(),
                    span,
                );
            }
        },
        SpecExpr::Call { callee, args, span } => {
            exprs_keep(ctx, args, 0, st, Seq::empty());
            let a = sem_exprs(ctx, args, 0, st, Seq::empty());
            if a.result is Ok {
                call_keeps(ctx, *callee, a.result->Ok_0, span, later(st, a.state));
            }
        },
        SpecExpr::FieldAccess { object, field, span } => {
            expr_keeps(ctx, *object, st);
            let o = sem_expr(ctx, *object, st);
            if o.result is Ok {
                operators_make_no_limit_error(
                    ctx,
                    UnaryOp::Neg,
                    BinOp::Add,
                    o.result->Ok_0,
                    o.result->Ok_0,
                    Seq::empty(),
                    field,
                    span,
                );
            }
        },
        SpecExpr::IndexAccess { object, index, span } => {
            expr_keeps(ctx, *object, st);
            let o = sem_expr(ctx, *object, st);
            if o.result is Ok {
                expr_keeps(ctx, *index, later(st, o.state));
                let i = sem_expr(ctx, *index, later(st, o.state));
                if i.result is Ok {
                    operators_make_no_limit_error(
                        ctx,
                        UnaryOp::Neg,
                        BinOp::Add,
                        o.result->Ok_0,
                        i.result->Ok_0,
                        Seq::empty(),
                        Seq::empty(),
                        span,
                    );
                }
            }
        },
        SpecExpr::MethodCall { object, method, args, span } => {
            expr_keeps(ctx, *object, st);
            let o = sem_expr(ctx, *object, st);
            if o.result is Ok {
                exprs_keep(ctx, args, 0, later(st, o.state), Seq::empty());
            }
        },
        SpecExpr::ArrayLit { elements, .. } => {
            exprs_keep(ctx, elements, 0, st, Seq::empty());
        },
        SpecExpr::TableLit { fields, .. } => {
            fields_keep(ctx, fields, 0, st, Seq::empty());
        },
        _ => {},
    }
}

#[verifier::spinoff_prover]
proof fn exprs_keep(ctx: Context, exprs: Seq<SpecExpr>, from: int, st: State, acc: Seq<SpecValue>)
    ensures
        kept(ctx, st, sem_exprs(ctx, exprs, from, st, acc)),
    decreases budget(ctx, st), 3nat, exprs, exprs.len() - from,
{
    reveal(sem_exprs);
    if 0 <= from < exprs.len() {
        expr_keeps(ctx, exprs[from], st);
        let r = sem_expr(ctx, exprs[from], st);
        if r.result is Ok {
            exprs_keep(ctx, exprs, from + 1, later(st, r.state), acc.push(r.result->Ok_0));
        }
    }
}

#[verifier::spinoff_prover]
proof fn fields_keep(
    ctx: Context,
    fields: Seq<(Seq<char>, SpecExpr)>,
    from: int,
    st: State,
    acc: Entries,
)
    ensures
        kept(ctx, st, sem_fields(ctx, fields, from, st, acc)),
    decreases budget(ctx, st), 3nat, fields, fields.len() - from,
{
    reveal(sem_fields);
    if 0 <= from < fields.len() {
        expr_keeps(ctx, fields[from].1, st);
        let r = sem_expr(ctx, fields[from].1, st);
        if r.result is Ok {
            fields_keep(
                ctx,
                fields,
                from + 1,
                later(st, r.state),
                crate::types::stored(acc, fields[from].0, r.result->Ok_0),
            );
        }
    }
}

#[verifier::spinoff_prover]
proof fn call_keeps(ctx: Context, callee: SpecExpr, args: Seq<SpecValue>, span: Span, st: State)
    ensures
        kept(ctx, st, sem_call(ctx, callee, args, span, st)),
    decreases budget(ctx, st), 2nat,
{
    reveal(sem_call);
    match callee {
        SpecExpr::Ident { name, .. } => {
            if name == "vec3"@ {
                operators_make_no_limit_error(
                    ctx,
                    UnaryOp::Neg,
                    BinOp::Add,
                    SpecValue::Nil,
                    SpecValue::Nil,
                    args,
                    Seq::empty(),
                    span,
                );
            } else if crate::types::has_key(ctx.hosts, name) {
            } else if crate::types::has_key(st.blueprints, name) {
                invoke_keeps(ctx, lookup(st.blueprints, name)->0, args, st);
            }
        },
        _ => {},
    }
}

#[verifier::spinoff_prover]
proof fn invoke_keeps(ctx: Context, proc: Procedure, args: Seq<SpecValue>, st: State)
    ensures
        kept(ctx, st, sem_invoke(ctx, proc, args, st)),
    decreases budget(ctx, st), 1nat,
{
    reveal(sem_invoke);
    let entered = with_scopes(
        st,
        crate::semantics::bind_params(
            crate::environment::env_push(st.scopes),
            proc.params,
            args,
            0,
        ),
    );
    stmts_keep(ctx, proc.body, 0, entered);
}

#[verifier::spinoff_prover]
proof fn stmts_keep(ctx: Context, stmts: Seq<SpecStmt>, from: int, st: State)
    ensures
        kept(ctx, st, sem_stmts(ctx, stmts, from, st)),
    decreases budget(ctx, st), 0nat, stmts, stmts.len() - from,
{
    reveal(sem_stmts);
    if 0 <= from < stmts.len() {
        stmt_keeps(ctx, stmts[from], st);
        let r = sem_stmt(ctx, stmts[from], st);
        if r.result == Ok::<Option<Signal>, SpecError>(None) {
            stmts_keep(ctx, stmts, from + 1, later(st, r.state));
        }
    }
}

#[verifier::spinoff_prover]
proof fn block_keeps(ctx: Context, stmts: Seq<SpecStmt>, st: State)
    ensures
        kept(ctx, st, sem_block(ctx, stmts, st)),
    decreases budget(ctx, st), 0nat, stmts, stmts.len() + 1,
{
    reveal(sem_block);
    stmts_keep(ctx, stmts, 0, with_scopes(st, crate::environment::env_push(st.scopes)));
}

#[verifier::spinoff_prover]
proof fn stmt_keeps(ctx: Context, s: SpecStmt, st: State)
    ensures
        kept(ctx, st, sem_stmt(ctx, s, st)),
    decreases budget(ctx, st), 0nat, s,
{
    reveal(sem_stmt);
    tick_keeps(ctx, st, stmt_span(s));
    let t = tick(ctx, st, stmt_span(s));
    if t.result is Ok {
        counted_keeps(ctx, s, t.state);
    }
}

#[verifier::spinoff_prover]
proof fn counted_keeps(ctx: Context, s: SpecStmt, st: State)
    ensures
        kept(ctx, st, sem_counted(ctx, s, st)),
    decreases budget(ctx, st), 7nat,
{
    reveal(sem_counted);
    match s {
        SpecStmt::LocalDecl { name, init, span } => local_keeps(ctx, name, init, st),
        SpecStmt::Assign { target, value, span } => assignment_keeps(ctx, target, value, span, st),
        SpecStmt::ExprStmt { expr, span } => expression_keeps(ctx, expr, st),
        SpecStmt::If { condition, then_body, elseif_clauses, else_body, span } => if_keeps(
            ctx,
            condition,
            then_body,
            elseif_clauses,
            else_body,
            st,
        ),
        SpecStmt::While { condition, body, span } => while_keeps(ctx, condition, body, span, st),
        SpecStmt::NumericFor { var, start, limit, step, body, span } => numeric_for_keeps(
            ctx,
            var,
            start,
            limit,
            step,
            body,
            span,
            st,
        ),
        SpecStmt::RepeatUntil { body, condition, span } => repeat_keeps(
            ctx,
            body,
            condition,
            span,
            st,
        ),
        SpecStmt::Build { name, args, span } => build_keeps(ctx, name, args, span, st),
        SpecStmt::Return { value, span } => return_keeps(ctx, value, st),
        _ => {},
    }
}

#[verifier::spinoff_prover]
proof fn local_keeps(ctx: Context, name: Seq<char>, init: Option<SpecExpr>, st: State)
    ensures
        kept(ctx, st, sem_local(ctx, name, init, st)),
    decreases budget(ctx, st), 6nat,
{
    reveal(sem_local);
    if let Some(e) = init {
        expr_keeps(ctx, e, st);
    }
}

#[verifier::spinoff_prover]
proof fn assignment_keeps(ctx: Context, target: SpecExpr, value: SpecExpr, span: Span, st: State)
    ensures
        kept(ctx, st, sem_assignment(ctx, target, value, span, st)),
    decreases budget(ctx, st), 6nat,
{
    reveal(sem_assignment);
    expr_keeps(ctx, value, st);
    let r = sem_expr(ctx, value, st);
    if r.result is Ok {
        assign_keeps(ctx, target, r.result->Ok_0, span, later(st, r.state));
    }
}

#[verifier::spinoff_prover]
proof fn assign_keeps(ctx: Context, target: SpecExpr, value: SpecValue, span: Span, st: State)
    ensures
        kept(ctx, st, sem_assign(ctx, target, value, span, st)),
    decreases budget(ctx, st), 5nat,
{
    reveal(sem_assign);
    match target {
        SpecExpr::Ident { .. } => write_back_keeps(ctx, target, value, st),
        SpecExpr::FieldAccess { object, field, span: at } => assign_field_keeps(
            ctx,
            *object,
            field,
            at,
            value,
            st,
        ),
        SpecExpr::IndexAccess { object, index, span: at } => assign_index_keeps(
            ctx,
            *object,
            *index,
            at,
            value,
            st,
        ),
        _ => {},
    }
}

#[verifier::spinoff_prover]
proof fn assign_field_keeps(
    ctx: Context,
    object: SpecExpr,
    field: Seq<char>,
    at: Span,
    value: SpecValue,
    st: State,
)
    ensures
        kept(ctx, st, sem_assign_field(ctx, object, field, at, value, st)),
    decreases budget(ctx, st), 4nat,
{
    reveal(sem_assign_field);
    expr_keeps(ctx, object, st);
    let o = sem_expr(ctx, object, st);
    if let Ok(SpecValue::Table(entries)) = o.result {
        write_back_keeps(
            ctx,
            object,
            SpecValue::Table(crate::types::stored(entries, field, value)),
            o.state,
        );
    }
}

#[verifier::spinoff_prover]
proof fn assign_index_keeps(
    ctx: Context,
    object: SpecExpr,
    index: SpecExpr,
    at: Span,
    value: SpecValue,
    st: State,
)
    ensures
        kept(ctx, st, sem_assign_index(ctx, object, index, at, value, st)),
    decreases budget(ctx, st), 4nat,
{
    reveal(sem_assign_index);
    expr_keeps(ctx, index, st);
    let i = sem_expr(ctx, index, st);
    if i.result is Ok {
        expr_keeps(ctx, object, later(st, i.state));
        let o = sem_expr(ctx, object, later(st, i.state));
        if o.result is Ok {
            stored_element_makes_no_limit_error(o.result->Ok_0, i.result->Ok_0, value, at);
            if let Ok(changed) = stored_element(o.result->Ok_0, i.result->Ok_0, value, at) {
                write_back_keeps(ctx, object, changed, o.state);
            }
        }
    }
}

#[verifier::spinoff_prover]
proof fn expression_keeps(ctx: Context, expr: SpecExpr, st: State)
    ensures
        kept(ctx, st, sem_expression(ctx, expr, st)),
    decreases budget(ctx, st), 6nat,
{
    reveal(sem_expression);
    expr_keeps(ctx, expr, st);
}

#[verifier::spinoff_prover]
proof fn if_keeps(
    ctx: Context,
    condition: SpecExpr,
    then_body: Seq<SpecStmt>,
    elseif_clauses: Seq<(SpecExpr, Seq<SpecStmt>)>,
    else_body: Option<Seq<SpecStmt>>,
    st: State,
)
    ensures
        kept(ctx, st, sem_if(ctx, condition, then_body, elseif_clauses, else_body, st)),
    decreases budget(ctx, st), 6nat,
{
    reveal(sem_if);
    expr_keeps(ctx, condition, st);
    let c = sem_expr(ctx, condition, st);
    if c.result is Ok {
        if truthy(c.result->Ok_0) {
            block_keeps(ctx, then_body, later(st, c.state));
        } else {
            clauses_keep(ctx, elseif_clauses, 0, else_body, later(st, c.state));
        }
    }
}

#[verifier::spinoff_prover]
proof fn clauses_keep(
    ctx: Context,
    clauses: Seq<(SpecExpr, Seq<SpecStmt>)>,
    from: int,
    otherwise: Option<Seq<SpecStmt>>,
    st: State,
)
    ensures
        kept(ctx, st, sem_clauses(ctx, clauses, from, otherwise, st)),
    decreases budget(ctx, st), 5nat, clauses, clauses.len() - from,
{
    reveal(sem_clauses);
    if from < 0 || from >= clauses.len() {
        if let Some(body) = otherwise {
            block_keeps(ctx, body, st);
        }
    } else {
        expr_keeps(ctx, clauses[from].0, st);
        let c = sem_expr(ctx, clauses[from].0, st);
        if c.result is Ok {
            if truthy(c.result->Ok_0) {
                block_keeps(ctx, clauses[from].1, later(st, c.state));
            } else {
                clauses_keep(ctx, clauses, from + 1, otherwise, later(st, c.state));
            }
        }
    }
}

#[verifier::spinoff_prover]
proof fn while_keeps(ctx: Context, condition: SpecExpr, body: Seq<SpecStmt>, span: Span, st: State)
    ensures
        kept(ctx, st, sem_while(ctx, condition, body, span, st)),
    decreases budget(ctx, st), 5nat,
{
    reveal(sem_while);
    expr_keeps(ctx, condition, st);
    let c = sem_expr(ctx, condition, st);
    if c.result is Ok && truthy(c.result->Ok_0) {
        block_keeps(ctx, body, later(st, c.state));
        let b = sem_block(ctx, body, later(st, c.state));
        match b.result {
            Ok(Some(Signal::Continue)) | Ok(None) => {
                tick_keeps(ctx, later(st, b.state), span);
                let t = tick(ctx, later(st, b.state), span);
                if t.result is Ok {
                    while_keeps(ctx, condition, body, span, t.state);
                }
            },
            _ => {},
        }
    }
}

#[verifier::spinoff_prover]
proof fn for_keeps(
    ctx: Context,
    var: Seq<char>,
    i: u64,
    limit: u64,
    step: u64,
    body: Seq<SpecStmt>,
    span: Span,
    st: State,
)
    ensures
        kept(ctx, st, sem_for(ctx, var, i, limit, step, body, span, st)),
    decreases budget(ctx, st), 5nat,
{
    reveal(sem_for);
    if !((crate::number::num_less(0, step) && crate::number::num_less(limit, i)) || (
    crate::number::num_less(step, 0) && crate::number::num_less(i, limit))) {
        let bound = with_scopes(
            st,
            crate::environment::env_define(st.scopes, var, SpecValue::Number(i)),
        );
        tick_keeps(ctx, bound, span);
        let t = tick(ctx, bound, span);
        if t.result is Ok {
            stmts_keep(ctx, body, 0, t.state);
            let b = sem_stmts(ctx, body, 0, t.state);
            match b.result {
                Err(_) => {},
                Ok(Some(Signal::Break)) => {},
                Ok(Some(Signal::Return(_))) => {},
                Ok(_) => {
                    for_keeps(
                        ctx,
                        var,
                        (ctx.arith)(BinOp::Add, i, step),
                        limit,
                        step,
                        body,
                        span,
                        later(t.state, b.state),
                    );
                },
            }
        }
    }
}

#[verifier::spinoff_prover]
proof fn repeat_keeps(ctx: Context, body: Seq<SpecStmt>, condition: SpecExpr, span: Span, st: State)
    ensures
        kept(ctx, st, sem_repeat(ctx, body, condition, span, st)),
    decreases budget(ctx, st), 5nat,
{
    reveal(sem_repeat);
    block_keeps(ctx, body, st);
    let b = sem_block(ctx, body, st);
    match b.result {
        Err(_) => {},
        Ok(Some(Signal::Break)) => {},
        Ok(Some(Signal::Return(_))) => {},
        Ok(_) => {
            expr_keeps(ctx, condition, later(st, b.state));
            let c = sem_expr(ctx, condition, later(st, b.state));
            if c.result is Ok && !truthy(c.result->Ok_0) {
                tick_keeps(ctx, later(st, c.state), span);
                let t = tick(ctx, later(st, c.state), span);
                if t.result is Ok {
                    repeat_keeps(ctx, body, condition, span, t.state);
                }
            }
        },
    }
}

#[verifier::spinoff_prover]
proof fn bound_keeps(ctx: Context, e: SpecExpr, what: Seq<char>, span: Span, st: State)
    ensures
        kept(ctx, st, sem_bound(ctx, e, what, span, st)),
    decreases budget(ctx, st), 4nat,
{
    reveal(sem_bound);
    expr_keeps(ctx, e, st);
}

#[verifier::spinoff_prover]
proof fn numeric_for_keeps(
    ctx: Context,
    var: Seq<char>,
    start: SpecExpr,
    limit: SpecExpr,
    step: Option<SpecExpr>,
    body: Seq<SpecStmt>,
    span: Span,
    st: State,
)
    ensures
        kept(ctx, st, sem_numeric_for(ctx, var, start, limit, step, body, span, st)),
    decreases budget(ctx, st), 6nat,
{
    reveal(sem_numeric_for);
    bound_keeps(ctx, start, "for start must be a number"@, span, st);
    let a = sem_bound(ctx, start, "for start must be a number"@, span, st);
    if a.result is Ok {
        bound_keeps(ctx, limit, "for limit must be a number"@, span, later(st, a.state));
        let b = sem_bound(ctx, limit, "for limit must be a number"@, span, later(st, a.state));
        if b.result is Ok {
            let c = match step {
                None => crate::semantics::done(later(st, b.state), crate::semantics::ONE),
                Some(e) => sem_bound(ctx, e, "for step must be a number"@, span, later(st, b.state)),
            };
            if let Some(e) = step {
                bound_keeps(ctx, e, "for step must be a number"@, span, later(st, b.state));
            }
            if c.result is Ok && !crate::number::is_zero(c.result->Ok_0) {
                let opened = later(st, c.state);
                for_keeps(
                    ctx,
                    var,
                    a.result->Ok_0,
                    b.result->Ok_0,
                    c.result->Ok_0,
                    body,
                    span,
                    with_scopes(opened, crate::environment::env_push(opened.scopes)),
                );
            }
        }
    }
}

#[verifier::spinoff_prover]
proof fn build_keeps(ctx: Context, name: Seq<char>, args: Seq<SpecExpr>, span: Span, st: State)
    ensures
        kept(ctx, st, sem_build(ctx, name, args, span, st)),
    decreases budget(ctx, st), 6nat,
{
    reveal(sem_build);
    if crate::types::has_key(st.blueprints, name) {
        exprs_keep(ctx, args, 0, st, Seq::empty());
        let a = sem_exprs(ctx, args, 0, st, Seq::empty());
        if a.result is Ok {
            invoke_keeps(ctx, lookup(st.blueprints, name)->0, a.result->Ok_0, later(st, a.state));
        }
    }
}

#[verifier::spinoff_prover]
proof fn return_keeps(ctx: Context, value: Option<SpecExpr>, st: State)
    ensures
        kept(ctx, st, sem_return(ctx, value, st)),
    decreases budget(ctx, st), 6nat,
{
    reveal(sem_return);
    if let Some(e) = value {
        expr_keeps(ctx, e, st);
    }
}

#[verifier::spinoff_prover]
proof fn top_keeps(ctx: Context, stmts: Seq<SpecStmt>, from: int, st: State)
    ensures
        kept(ctx, st, sem_top(ctx, stmts, from, st)),
    decreases stmts.len() - from,
{
    reveal(sem_top);
    if 0 <= from < stmts.len() {
        stmt_keeps(ctx, stmts[from], st);
        let r = sem_stmt(ctx, stmts[from], st);
        if r.result == Ok::<Option<Signal>, SpecError>(None) {
            top_keeps(ctx, stmts, from + 1, r.state);
        }
    }
}

/// Every evaluation of an expression keeps to the budget, and adds to the
/// record of calls without changing what was recorded before.
#[verifier::spinoff_prover]
pub proof fn evaluation_keeps_budget(ctx: Context, e: SpecExpr, st: State)
    ensures
        kept(ctx, st, sem_expr(ctx, e, st)),
{
    expr_keeps(ctx, e, st);
}

/// Every run of a statement keeps to the budget, and adds to the record of
/// calls without changing what was recorded before.
#[verifier::spinoff_prover]
pub proof fn statement_keeps_budget(ctx: Context, s: SpecStmt, st: State)
    ensures
        kept(ctx, st, sem_stmt(ctx, s, st)),
{
    stmt_keeps(ctx, s, st);
}

/// The instruction bound: a program ends in an instruction-limit error where
/// it had to count beyond the limit, and only there. A run that ends in any
/// other way has counted no more than the limit.
#[verifier::spinoff_prover]
pub proof fn instruction_bound(ctx: Context, program: Seq<SpecStmt>, st: State)
    ensures
        ({
            let r = sem_program(ctx, program, st);
            if limit_error(r.result) {
                r.state.count > ctx.limit || ctx.limit == u64::MAX
            } else {
                r.state.count <= ctx.limit
            }
        }),
{
    top_keeps(ctx, program, 0, fresh(st));
}

/// A statement that does not fail has counted an instruction, and none
/// beyond the limit.
#[verifier::spinoff_prover]
pub proof fn statement_counts(ctx: Context, s: SpecStmt, st: State)
    ensures
        sem_stmt(ctx, s, st).result is Ok ==> st.count < sem_stmt(ctx, s, st).state.count
            <= ctx.limit,
{
    reveal(sem_stmt);
    tick_keeps(ctx, st, stmt_span(s));
    let t = tick(ctx, st, stmt_span(s));
    if t.result is Ok {
        counted_keeps(ctx, s, t.state);
    }
}

#[verifier::spinoff_prover]
proof fn stmts_signal_counts(ctx: Context, stmts: Seq<SpecStmt>, from: int, st: State)
    ensures
        sem_stmts(ctx, stmts, from, st).result matches Ok(Some(_)) ==> st.count < sem_stmts(
            ctx,
            stmts,
            from,
            st,
        ).state.count <= ctx.limit,
    decreases stmts.len() - from,
{
    reveal(sem_stmts);
    if 0 <= from < stmts.len() {
        statement_counts(ctx, stmts[from], st);
        let r = sem_stmt(ctx, stmts[from], st);
        if r.result == Ok::<Option<Signal>, SpecError>(None) {
            stmts_signal_counts(ctx, stmts, from + 1, later(st, r.state));
        }
    }
}

/// A block that ends in a signal has counted an instruction, so that the
/// budget left after it is smaller than the budget before it.
#[verifier::spinoff_prover]
pub proof fn signals_are_counted(ctx: Context, stmts: Seq<SpecStmt>, st: State)
    ensures
        sem_block(ctx, stmts, st).result matches Ok(Some(_)) ==> budget(
            ctx,
            sem_block(ctx, stmts, st).state,
        ) < budget(ctx, st),
{
    reveal(sem_block);
    stmts_signal_counts(ctx, stmts, 0, with_scopes(st, crate::environment::env_push(st.scopes)));
}

/// States follow one another as they are: the state that an evaluation
/// leads to is never behind the state it began in, so that what is sequenced
/// after it begins in exactly that state.
#[verifier::spinoff_prover]
pub proof fn evaluation_leads_on(ctx: Context, e: SpecExpr, st: State)
    ensures
        later(st, sem_expr(ctx, e, st).state) == sem_expr(ctx, e, st).state,
{
    expr_keeps(ctx, e, st);
}

/// `and` short-circuits: where the left operand fails or is falsy, the whole
/// is the run of the left operand alone, and the right operand is not
/// evaluated, so that no host function is called but those that the left
/// operand called; where it is truthy, the whole is the run of the right
/// operand in the state that the left one led to.
#[verifier::spinoff_prover]
pub proof fn and_short_circuits(ctx: Context, a: SpecExpr, b: SpecExpr, span: Span, st: State)
    ensures
        ({
            let whole = sem_expr(
                ctx,
                SpecExpr::BinaryOp { left: Box::new(a), op: BinOp::And, right: Box::new(b), span },
                st,
            );
            let first = sem_expr(ctx, a, st);
            match first.result {
                Err(_) => whole == first,
                Ok(v) => if truthy(v) {
                    whole == sem_expr(ctx, b, first.state)
                } else {
                    whole == first
                },
            }
        }),
{
    reveal(sem_expr);
    expr_keeps(ctx, a, st);
}

/// `or` short-circuits: where the left operand fails or is truthy, the whole
/// is the run of the left operand alone, and the right operand is not
/// evaluated, so that no host function is called but those that the left
/// operand called; where it is falsy, the whole is the run of the right
/// operand in the state that the left one led to.
#[verifier::spinoff_prover]
pub proof fn or_short_circuits(ctx: Context, a: SpecExpr, b: SpecExpr, span: Span, st: State)
    ensures
        ({
            let whole = sem_expr(
                ctx,
                SpecExpr::BinaryOp { left: Box::new(a), op: BinOp::Or, right: Box::new(b), span },
                st,
            );
            let first = sem_expr(ctx, a, st);
            match first.result {
                Err(_) => whole == first,
                Ok(v) => if truthy(v) {
                    whole == first
                } else {
                    whole == sem_expr(ctx, b, first.state)
                },
            }
        }),
{
    reveal(sem_expr);
    expr_keeps(ctx, a, st);
}

/// Every other binary operator evaluates both operands, the left one first.
#[verifier::spinoff_prover]
pub proof fn operands_run_left_to_right(
    ctx: Context,
    a: SpecExpr,
    op: BinOp,
    b: SpecExpr,
    span: Span,
    st: State,
)
    requires
        op != BinOp::And,
        op != BinOp::Or,
    ensures
        ({
            let whole = sem_expr(
                ctx,
                SpecExpr::BinaryOp { left: Box::new(a), op, right: Box::new(b), span },
                st,
            );
            let first = sem_expr(ctx, a, st);
            match first.result {
                Err(_) => whole == first,
                Ok(l) => {
                    let second = sem_expr(ctx, b, first.state);
                    match second.result {
                        Err(_) => whole == second,
                        Ok(r) => whole == (Ran {
                            state: second.state,
                            result: binary_op(ctx, op, l, r, span),
                        }),
                    }
                },
            }
        }),
{
    reveal(sem_expr);
    expr_keeps(ctx, a, st);
}

/// Runs are determined: the same program, run against the same context from
/// states with the same scopes and blueprints, leads to the same result and
/// the same state: the same scopes and blueprints, the same count, and the
/// same calls of host functions with the same arguments in the same order,
/// whatever was counted or called before.
pub proof fn runs_are_determined(
    ctx: Context,
    other_ctx: Context,
    program: Seq<SpecStmt>,
    other_program: Seq<SpecStmt>,
    st: State,
    other_st: State,
)
    requires
        ctx == other_ctx,
        program == other_program,
        st.scopes == other_st.scopes,
        st.blueprints == other_st.blueprints,
    ensures
        sem_program(ctx, program, st) == sem_program(other_ctx, other_program, other_st),
{
}

} // verus!
