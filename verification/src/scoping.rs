//! Scoping, as theorems about what programs mean: whatever a program does,
//! names are bound only in the innermost scope, a scope that is opened is
//! closed again unless the run fails, and a block leaves every scope with
//! the names it had.
use vstd::prelude::*;
use crate::ast::{BinOp, Span, SpecExpr, SpecStmt};
use crate::environment::{env_define, env_pop, env_push, env_set, home, home_binds};
use crate::error::SpecError;
use crate::semantics::{
    bind_params,
    budget,
    defined,
    later,
    sem_assign,
    sem_assign_field,
    sem_assign_index,
    sem_assignment,
    sem_block,
    sem_bound,
    sem_build,
    sem_call,
    sem_clauses,
    sem_counted,
    sem_expr,
    sem_expression,
    sem_exprs,
    sem_fields,
    sem_for,
    sem_if,
    sem_invoke,
    sem_local,
    sem_numeric_for,
    sem_repeat,
    sem_return,
    sem_stmt,
    sem_stmts,
    sem_while,
    stmt_span,
    stored_element,
    tick,
    with_scopes,
    write_back,
    Context,
    Procedure,
    Ran,
    Signal,
    State,
};
use crate::types::{
    has_key,
    key_index,
    key_index_is_first,
    lookup,
    stored,
    truthy,
    Entries,
    SpecValue,
};

verus! {

/// Whether two scopes bind the same names.
pub open spec fn same_names(a: Entries, b: Entries) -> bool {
    forall|name: Seq<char>| has_key(a, name) == has_key(b, name)
}

/// Whether `b` binds every name that `a` binds.
pub open spec fn keeps_names(a: Entries, b: Entries) -> bool {
    forall|name: Seq<char>| has_key(a, name) ==> has_key(b, name)
}

/// Whether the scopes `after` continue the scopes `before`: none is gone,
/// each one but the innermost binds the names it bound, and the innermost
/// binds them at least.
pub open spec fn continues(before: Seq<Entries>, after: Seq<Entries>) -> bool {
    &&& after.len() >= before.len()
    &&& forall|i: int| 0 <= i < before.len() - 1 ==> same_names(before[i], #[trigger] after[i])
    &&& before.len() >= 1 ==> keeps_names(before.last(), after[before.len() - 1])
}

/// Whether the scopes `after` are the scopes `before` with the names they
/// had: as many, and each binds the names it bound.
pub open spec fn settled(before: Seq<Entries>, after: Seq<Entries>) -> bool {
    &&& after.len() == before.len()
    &&& forall|i: int| 0 <= i < before.len() ==> same_names(before[i], #[trigger] after[i])
}

/// Whether a run that began in `st` kept to the scopes: it continued them,
/// and unless it failed it left as many as it found.
pub open spec fn scoped<T>(st: State, r: Ran<T>) -> bool {
    st.scopes.len() >= 1 ==> {
        &&& continues(st.scopes, r.state.scopes)
        &&& r.result is Ok ==> r.state.scopes.len() == st.scopes.len()
    }
}

/// Continuing is transitive where the first step left as many scopes as it
/// found.
pub proof fn continues_on(a: Seq<Entries>, b: Seq<Entries>, c: Seq<Entries>)
    requires
        continues(a, b),
        b.len() == a.len(),
        continues(b, c),
    ensures
        continues(a, c),
{
    assert forall|i: int| 0 <= i < a.len() - 1 implies same_names(a[i], #[trigger] c[i]) by {
        assert(same_names(a[i], b[i]));
        assert(same_names(b[i], c[i]));
    }
}

/// Storing under a name keeps every name and adds that one.
pub proof fn stored_keeps_names(entries: Entries, key: Seq<char>, value: SpecValue)
    ensures
        keeps_names(entries, stored(entries, key, value)),
        has_key(stored(entries, key, value), key),
        has_key(entries, key) ==> same_names(entries, stored(entries, key, value)),
{
    let after = stored(entries, key, value);
    crate::types::stored_is_found(entries, key, value);
    assert forall|name: Seq<char>| has_key(entries, name) implies has_key(after, name) by {
        if name != key {
            crate::types::stored_leaves_others(entries, key, value, name);
        }
    }
    if has_key(entries, key) {
        assert forall|name: Seq<char>| has_key(entries, name) == has_key(after, name) by {
            if name != key {
                crate::types::stored_leaves_others(entries, key, value, name);
            }
        }
    }
}

/// Binding a name continues the scopes and leaves as many.
pub proof fn define_continues(scopes: Seq<Entries>, name: Seq<char>, value: SpecValue)
    ensures
        continues(scopes, env_define(scopes, name, value)),
        env_define(scopes, name, value).len() == scopes.len(),
{
    if scopes.len() > 0 {
        stored_keeps_names(scopes.last(), name, value);
    }
}

/// Overwriting a binding leaves every scope with the names it had.
pub proof fn set_settles(scopes: Seq<Entries>, name: Seq<char>, value: SpecValue)
    ensures
        settled(scopes, env_set(scopes, name, value)),
        continues(scopes, env_set(scopes, name, value)),
{
    home_binds(scopes, scopes.len() as int, name);
    if let Some(i) = home(scopes, name) {
        stored_keeps_names(scopes[i], name, value);
    }
}

proof fn bind_continues(scopes: Seq<Entries>, params: Seq<Seq<char>>, args: Seq<SpecValue>, from: int)
    requires
        scopes.len() >= 1,
    ensures
        continues(scopes, bind_params(scopes, params, args, from)),
        bind_params(scopes, params, args, from).len() == scopes.len(),
    decreases params.len() - from,
{
    if 0 <= from < params.len() {
        let value = if from < args.len() {
            args[from]
        } else {
            SpecValue::Nil
        };
        let next = env_define(scopes, params[from], value);
        define_continues(scopes, params[from], value);
        bind_continues(next, params, args, from + 1);
        continues_on(scopes, next, bind_params(next, params, args, from + 1));
    }
}

/// What was run in a scope of its own, and the scope closed again, has kept
/// to the scopes; and unless it failed, every scope has the names it had.
proof fn closed_again<T>(st: State, inner: Ran<T>)
    requires
        st.scopes.len() >= 1,
        continues(env_push(st.scopes), inner.state.scopes),
        inner.result is Ok ==> inner.state.scopes.len() == st.scopes.len() + 1,
    ensures
        continues(st.scopes, env_pop(inner.state.scopes)),
        inner.result is Ok ==> settled(st.scopes, env_pop(inner.state.scopes)),
{
    let opened = env_push(st.scopes);
    let after = env_pop(inner.state.scopes);
    assert forall|i: int| 0 <= i < st.scopes.len() implies same_names(
        st.scopes[i],
        #[trigger] after[i],
    ) by {
        assert(opened[i] == st.scopes[i]);
        assert(same_names(opened[i], inner.state.scopes[i]));
        assert(after[i] == inner.state.scopes[i]);
    }
}

/// Writing back continues the scopes and leaves as many.
proof fn write_back_scoped(target: SpecExpr, value: SpecValue, st: State)
    ensures
        scoped(st, write_back(target, value, st)),
{
    reveal(write_back);
    if let SpecExpr::Ident { name, span } = target {
        set_settles(st.scopes, name, value);
    }
}

#[verifier::spinoff_prover]
proof fn expr_scoped(ctx: Context, e: SpecExpr, st: State)
    ensures
        scoped(st, sem_expr(ctx, e, st)),
    decreases budget(ctx, st), 3nat, e,
{
    reveal(sem_expr);
    if st.scopes.len() >= 1 {
        match e {
            SpecExpr::BinaryOp { left, op, right, span } => {
                expr_scoped(ctx, *left, st);
                let l = sem_expr(ctx, *left, st);
                if l.result is Ok {
                    expr_scoped(ctx, *right, later(st, l.state));
                    continues_on(
                        st.scopes,
                        l.state.scopes,
                        sem_expr(ctx, *right, later(st, l.state)).state.scopes,
                    );
                }
            },
            SpecExpr::UnaryOp { op, operand, span } => {
                expr_scoped(ctx, *operand, st);
            },
            SpecExpr::Call { callee, args, span } => {
                exprs_scoped(ctx, args, 0, st, Seq::empty());
                let a = sem_exprs(ctx, args, 0, st, Seq::empty());
                if a.result is Ok {
                    call_scoped(ctx, *callee, a.result->Ok_0, span, later(st, a.state));
                    continues_on(
                        st.scopes,
                        a.state.scopes,
                        sem_call(ctx, *callee, a.result->Ok_0, span, later(st, a.state)).state.scopes,
                    );
                }
            },
            SpecExpr::FieldAccess { object, field, span } => {
                expr_scoped(ctx, *object, st);
            },
            SpecExpr::IndexAccess { object, index, span } => {
                expr_scoped(ctx, *object, st);
                let o = sem_expr(ctx, *object, st);
                if o.result is Ok {
                    expr_scoped(ctx, *index, later(st, o.state));
                    continues_on(
                        st.scopes,
                        o.state.scopes,
                        sem_expr(ctx, *index, later(st, o.state)).state.scopes,
                    );
                }
            },
            SpecExpr::MethodCall { object, method, args, span } => {
                expr_scoped(ctx, *object, st);
                let o = sem_expr(ctx, *object, st);
                if o.result is Ok {
                    exprs_scoped(ctx, args, 0, later(st, o.state), Seq::empty());
                    continues_on(
                        st.scopes,
                        o.state.scopes,
                        sem_exprs(ctx, args, 0, later(st, o.state), Seq::empty()).state.scopes,
                    );
                }
            },
            SpecExpr::ArrayLit { elements, .. } => {
                exprs_scoped(ctx, elements, 0, st, Seq::empty());
            },
            SpecExpr::TableLit { fields, .. } => {
                fields_scoped(ctx, fields, 0, st, Seq::empty());
            },
            _ => {},
        }
    }
}

#[verifier::spinoff_prover]
proof fn exprs_scoped(ctx: Context, exprs: Seq<SpecExpr>, from: int, st: State, acc: Seq<SpecValue>)
    ensures
        scoped(st, sem_exprs(ctx, exprs, from, st, acc)),
    decreases budget(ctx, st), 3nat, exprs, exprs.len() - from,
{
    reveal(sem_exprs);
    if st.scopes.len() >= 1 && 0 <= from < exprs.len() {
        expr_scoped(ctx, exprs[from], st);
        let r = sem_expr(ctx, exprs[from], st);
        if r.result is Ok {
            let next = later(st, r.state);
            exprs_scoped(ctx, exprs, from + 1, next, acc.push(r.result->Ok_0));
            continues_on(
                st.scopes,
                r.state.scopes,
                sem_exprs(ctx, exprs, from + 1, next, acc.push(r.result->Ok_0)).state.scopes,
            );
        }
    }
}

#[verifier::spinoff_prover]
proof fn fields_scoped(
    ctx: Context,
    fields: Seq<(Seq<char>, SpecExpr)>,
    from: int,
    st: State,
    acc: Entries,
)
    ensures
        scoped(st, sem_fields(ctx, fields, from, st, acc)),
    decreases budget(ctx, st), 3nat, fields, fields.len() - from,
{
    reveal(sem_fields);
    if st.scopes.len() >= 1 && 0 <= from < fields.len() {
        expr_scoped(ctx, fields[from].1, st);
        let r = sem_expr(ctx, fields[from].1, st);
        if r.result is Ok {
            let next = later(st, r.state);
            let more = stored(acc, fields[from].0, r.result->Ok_0);
            fields_scoped(ctx, fields, from + 1, next, more);
            continues_on(
                st.scopes,
                r.state.scopes,
                sem_fields(ctx, fields, from + 1, next, more).state.scopes,
            );
        }
    }
}

#[verifier::spinoff_prover]
proof fn call_scoped(ctx: Context, callee: SpecExpr, args: Seq<SpecValue>, span: Span, st: State)
    ensures
        scoped(st, sem_call(ctx, callee, args, span, st)),
    decreases budget(ctx, st), 2nat,
{
    reveal(sem_call);
    if let SpecExpr::Ident { name, .. } = callee {
        if name != "vec3"@ && !has_key(ctx.hosts, name) && has_key(st.blueprints, name) {
            invoke_scoped(ctx, lookup(st.blueprints, name)->0, args, st);
        }
    }
}

#[verifier::spinoff_prover]
proof fn invoke_scoped(ctx: Context, proc: Procedure, args: Seq<SpecValue>, st: State)
    ensures
        scoped(st, sem_invoke(ctx, proc, args, st)),
    decreases budget(ctx, st), 1nat,
{
    reveal(sem_invoke);
    if st.scopes.len() >= 1 {
        let opened = env_push(st.scopes);
        let bound = bind_params(opened, proc.params, args, 0);
        bind_continues(opened, proc.params, args, 0);
        let entered = with_scopes(st, bound);
        stmts_scoped(ctx, proc.body, 0, entered);
        let r = sem_stmts(ctx, proc.body, 0, entered);
        continues_on(opened, bound, r.state.scopes);
        closed_again(st, r);
        if r.result is Err {
            assert forall|i: int| 0 <= i < st.scopes.len() - 1 implies same_names(
                st.scopes[i],
                #[trigger] r.state.scopes[i],
            ) by {
                assert(opened[i] == st.scopes[i]);
            }
            assert(opened[st.scopes.len() - 1] == st.scopes.last());
            assert(same_names(opened[st.scopes.len() - 1], r.state.scopes[st.scopes.len() - 1]));
        }
    }
}

#[verifier::spinoff_prover]
proof fn stmts_scoped(ctx: Context, stmts: Seq<SpecStmt>, from: int, st: State)
    ensures
        scoped(st, sem_stmts(ctx, stmts, from, st)),
    decreases budget(ctx, st), 0nat, stmts, stmts.len() - from,
{
    reveal(sem_stmts);
    if st.scopes.len() >= 1 && 0 <= from < stmts.len() {
        stmt_scoped(ctx, stmts[from], st);
        let r = sem_stmt(ctx, stmts[from], st);
        if r.result == Ok::<Option<Signal>, SpecError>(None) {
            let next = later(st, r.state);
            stmts_scoped(ctx, stmts, from + 1, next);
            continues_on(
                st.scopes,
                r.state.scopes,
                sem_stmts(ctx, stmts, from + 1, next).state.scopes,
            );
        }
    }
}

#[verifier::spinoff_prover]
proof fn block_scoped(ctx: Context, stmts: Seq<SpecStmt>, st: State)
    ensures
        scoped(st, sem_block(ctx, stmts, st)),
        st.scopes.len() >= 1 && sem_block(ctx, stmts, st).result is Ok ==> settled(
            st.scopes,
            sem_block(ctx, stmts, st).state.scopes,
        ),
    decreases budget(ctx, st), 0nat, stmts, stmts.len() + 1,
{
    reveal(sem_block);
    if st.scopes.len() >= 1 {
        let entered = with_scopes(st, env_push(st.scopes));
        stmts_scoped(ctx, stmts, 0, entered);
        closed_again(st, sem_stmts(ctx, stmts, 0, entered));
    }
}

#[verifier::spinoff_prover]
proof fn stmt_scoped(ctx: Context, s: SpecStmt, st: State)
    ensures
        scoped(st, sem_stmt(ctx, s, st)),
    decreases budget(ctx, st), 0nat, s,
{
    reveal(sem_stmt);
    let t = tick(ctx, st, stmt_span(s));
    if t.result is Ok {
        counted_scoped(ctx, s, t.state);
    }
}

#[verifier::spinoff_prover]
proof fn counted_scoped(ctx: Context, s: SpecStmt, st: State)
    ensures
        scoped(st, sem_counted(ctx, s, st)),
    decreases budget(ctx, st), 7nat,
{
    reveal(sem_counted);
    match s {
        SpecStmt::LocalDecl { name, init, span } => local_scoped(ctx, name, init, st),
        SpecStmt::Assign { target, value, span } => assignment_scoped(ctx, target, value, span, st),
        SpecStmt::ExprStmt { expr, span } => expression_scoped(ctx, expr, st),
        SpecStmt::If { condition, then_body, elseif_clauses, else_body, span } => if_scoped(
            ctx,
            condition,
            then_body,
            elseif_clauses,
            else_body,
            st,
        ),
        SpecStmt::While { condition, body, span } => while_scoped(ctx, condition, body, span, st),
        SpecStmt::NumericFor { var, start, limit, step, body, span } => numeric_for_scoped(
            ctx,
            var,
            start,
            limit,
            step,
            body,
            span,
            st,
        ),
        SpecStmt::RepeatUntil { body, condition, span } => repeat_scoped(
            ctx,
            body,
            condition,
            span,
            st,
        ),
        SpecStmt::Build { name, args, span } => build_scoped(ctx, name, args, span, st),
        SpecStmt::Return { value, span } => return_scoped(ctx, value, st),
        _ => {},
    }
}

#[verifier::spinoff_prover]
proof fn local_scoped(ctx: Context, name: Seq<char>, init: Option<SpecExpr>, st: State)
    ensures
        scoped(st, sem_local(ctx, name, init, st)),
    decreases budget(ctx, st), 6nat,
{
    reveal(sem_local);
    if st.scopes.len() >= 1 {
        match init {
            None => define_continues(st.scopes, name, SpecValue::Nil),
            Some(e) => {
                expr_scoped(ctx, e, st);
                let r = sem_expr(ctx, e, st);
                if let Ok(v) = r.result {
                    define_continues(r.state.scopes, name, v);
                    continues_on(st.scopes, r.state.scopes, env_define(r.state.scopes, name, v));
                }
            },
        }
    }
}

#[verifier::spinoff_prover]
proof fn assignment_scoped(ctx: Context, target: SpecExpr, value: SpecExpr, span: Span, st: State)
    ensures
        scoped(st, sem_assignment(ctx, target, value, span, st)),
    decreases budget(ctx, st), 6nat,
{
    reveal(sem_assignment);
    if st.scopes.len() >= 1 {
        expr_scoped(ctx, value, st);
        let r = sem_expr(ctx, value, st);
        if let Ok(v) = r.result {
            assign_scoped(ctx, target, v, span, later(st, r.state));
            continues_on(
                st.scopes,
                r.state.scopes,
                sem_assign(ctx, target, v, span, later(st, r.state)).state.scopes,
            );
        }
    }
}

#[verifier::spinoff_prover]
proof fn assign_scoped(ctx: Context, target: SpecExpr, value: SpecValue, span: Span, st: State)
    ensures
        scoped(st, sem_assign(ctx, target, value, span, st)),
    decreases budget(ctx, st), 5nat,
{
    reveal(sem_assign);
    match target {
        SpecExpr::Ident { .. } => write_back_scoped(target, value, st),
        SpecExpr::FieldAccess { object, field, span: at } => assign_field_scoped(
            ctx,
            *object,
            field,
            at,
            value,
            st,
        ),
        SpecExpr::IndexAccess { object, index, span: at } => assign_index_scoped(
            ctx,
            *object,
            *index,
            at,
            value,
            st,
        ),
        _ => {},
    }
}

#[verifier::spinoff_prover]
proof fn assign_field_scoped(
    ctx: Context,
    object: SpecExpr,
    field: Seq<char>,
    at: Span,
    value: SpecValue,
    st: State,
)
    ensures
        scoped(st, sem_assign_field(ctx, object, field, at, value, st)),
    decreases budget(ctx, st), 4nat,
{
    reveal(sem_assign_field);
    if st.scopes.len() >= 1 {
        expr_scoped(ctx, object, st);
        let o = sem_expr(ctx, object, st);
        if let Ok(SpecValue::Table(entries)) = o.result {
            let changed = SpecValue::Table(stored(entries, field, value));
            write_back_scoped(object, changed, o.state);
            continues_on(st.scopes, o.state.scopes, write_back(object, changed, o.state).state.scopes);
        }
    }
}

#[verifier::spinoff_prover]
proof fn assign_index_scoped(
    ctx: Context,
    object: SpecExpr,
    index: SpecExpr,
    at: Span,
    value: SpecValue,
    st: State,
)
    ensures
        scoped(st, sem_assign_index(ctx, object, index, at, value, st)),
    decreases budget(ctx, st), 4nat,
{
    reveal(sem_assign_index);
    if st.scopes.len() >= 1 {
        expr_scoped(ctx, index, st);
        let i = sem_expr(ctx, index, st);
        if i.result is Ok {
            expr_scoped(ctx, object, later(st, i.state));
            let o = sem_expr(ctx, object, later(st, i.state));
            continues_on(st.scopes, i.state.scopes, o.state.scopes);
            if o.result is Ok {
                if let Ok(changed) = stored_element(o.result->Ok_0, i.result->Ok_0, value, at) {
                    write_back_scoped(object, changed, o.state);
                    continues_on(
                        st.scopes,
                        o.state.scopes,
                        write_back(object, changed, o.state).state.scopes,
                    );
                }
            }
        }
    }
}

#[verifier::spinoff_prover]
proof fn expression_scoped(ctx: Context, expr: SpecExpr, st: State)
    ensures
        scoped(st, sem_expression(ctx, expr, st)),
    decreases budget(ctx, st), 6nat,
{
    reveal(sem_expression);
    expr_scoped(ctx, expr, st);
}

#[verifier::spinoff_prover]
proof fn if_scoped(
    ctx: Context,
    condition: SpecExpr,
    then_body: Seq<SpecStmt>,
    elseif_clauses: Seq<(SpecExpr, Seq<SpecStmt>)>,
    else_body: Option<Seq<SpecStmt>>,
    st: State,
)
    ensures
        scoped(st, sem_if(ctx, condition, then_body, elseif_clauses, else_body, st)),
    decreases budget(ctx, st), 6nat,
{
    reveal(sem_if);
    if st.scopes.len() >= 1 {
        expr_scoped(ctx, condition, st);
        let c = sem_expr(ctx, condition, st);
        if c.result is Ok {
            let next = later(st, c.state);
            if truthy(c.result->Ok_0) {
                block_scoped(ctx, then_body, next);
                continues_on(st.scopes, c.state.scopes, sem_block(ctx, then_body, next).state.scopes);
            } else {
                clauses_scoped(ctx, elseif_clauses, 0, else_body, next);
                continues_on(
                    st.scopes,
                    c.state.scopes,
                    sem_clauses(ctx, elseif_clauses, 0, else_body, next).state.scopes,
                );
            }
        }
    }
}

#[verifier::spinoff_prover]
proof fn clauses_scoped(
    ctx: Context,
    clauses: Seq<(SpecExpr, Seq<SpecStmt>)>,
    from: int,
    otherwise: Option<Seq<SpecStmt>>,
    st: State,
)
    ensures
        scoped(st, sem_clauses(ctx, clauses, from, otherwise, st)),
    decreases budget(ctx, st), 5nat, clauses, clauses.len() - from,
{
    reveal(sem_clauses);
    if st.scopes.len() >= 1 {
        if from < 0 || from >= clauses.len() {
            if let Some(body) = otherwise {
                block_scoped(ctx, body, st);
            }
        } else {
            expr_scoped(ctx, clauses[from].0, st);
            let c = sem_expr(ctx, clauses[from].0, st);
            if c.result is Ok {
                let next = later(st, c.state);
                if truthy(c.result->Ok_0) {
                    block_scoped(ctx, clauses[from].1, next);
                    continues_on(
                        st.scopes,
                        c.state.scopes,
                        sem_block(ctx, clauses[from].1, next).state.scopes,
                    );
                } else {
                    clauses_scoped(ctx, clauses, from + 1, otherwise, next);
                    continues_on(
                        st.scopes,
                        c.state.scopes,
                        sem_clauses(ctx, clauses, from + 1, otherwise, next).state.scopes,
                    );
                }
            }
        }
    }
}

#[verifier::spinoff_prover]
proof fn while_scoped(ctx: Context, condition: SpecExpr, body: Seq<SpecStmt>, span: Span, st: State)
    ensures
        scoped(st, sem_while(ctx, condition, body, span, st)),
    decreases budget(ctx, st), 5nat,
{
    reveal(sem_while);
    if st.scopes.len() >= 1 {
        expr_scoped(ctx, condition, st);
        let c = sem_expr(ctx, condition, st);
        if c.result is Ok && truthy(c.result->Ok_0) {
            block_scoped(ctx, body, later(st, c.state));
            let b = sem_block(ctx, body, later(st, c.state));
            continues_on(st.scopes, c.state.scopes, b.state.scopes);
            match b.result {
                Ok(Some(Signal::Continue)) | Ok(None) => {
                    let t = tick(ctx, later(st, b.state), span);
                    if t.result is Ok {
                        while_scoped(ctx, condition, body, span, t.state);
                        continues_on(
                            st.scopes,
                            b.state.scopes,
                            sem_while(ctx, condition, body, span, t.state).state.scopes,
                        );
                    }
                },
                _ => {},
            }
        }
    }
}

/// A `for` loop runs in the scope that was opened for it, and closes it
/// unless it fails: the scopes below that one are continued.
#[verifier::spinoff_prover]
proof fn for_scoped(
    ctx: Context,
    var: Seq<char>,
    i: u64,
    limit: u64,
    step: u64,
    body: Seq<SpecStmt>,
    span: Span,
    st: State,
    below: Seq<Entries>,
)
    requires
        below.len() >= 1,
        continues(env_push(below), st.scopes),
        st.scopes.len() == below.len() + 1,
    ensures
        ({
            let r = sem_for(ctx, var, i, limit, step, body, span, st);
            &&& continues(below, r.state.scopes)
            &&& r.result is Ok ==> r.state.scopes.len() == below.len()
        }),
    decreases budget(ctx, st), 5nat,
{
    reveal(sem_for);
    let opened = env_push(below);
    assert forall|k: int| 0 <= k < below.len() implies same_names(
        below[k],
        #[trigger] st.scopes[k],
    ) by {
        assert(opened[k] == below[k]);
        assert(same_names(opened[k], st.scopes[k]));
    }
    if (crate::number::num_less(0, step) && crate::number::num_less(limit, i)) || (
    crate::number::num_less(step, 0) && crate::number::num_less(i, limit)) {
        assert forall|k: int| 0 <= k < below.len() implies same_names(
            below[k],
            #[trigger] env_pop(st.scopes)[k],
        ) by {
            assert(env_pop(st.scopes)[k] == st.scopes[k]);
        }
    } else {
        let bound = with_scopes(st, env_define(st.scopes, var, SpecValue::Number(i)));
        define_continues(st.scopes, var, SpecValue::Number(i));
        continues_on(opened, st.scopes, bound.scopes);
        let t = tick(ctx, bound, span);
        if t.result is Ok {
            stmts_scoped(ctx, body, 0, t.state);
            let b = sem_stmts(ctx, body, 0, t.state);
            continues_on(opened, bound.scopes, b.state.scopes);
            assert forall|k: int| 0 <= k < below.len() implies same_names(
                below[k],
                #[trigger] b.state.scopes[k],
            ) by {
                assert(opened[k] == below[k]);
                assert(same_names(opened[k], b.state.scopes[k]));
            }
            match b.result {
                Err(_) => {},
                Ok(Some(Signal::Break)) => {
                    assert forall|k: int| 0 <= k < below.len() implies same_names(
                        below[k],
                        #[trigger] env_pop(b.state.scopes)[k],
                    ) by {
                        assert(env_pop(b.state.scopes)[k] == b.state.scopes[k]);
                    }
                },
                Ok(Some(Signal::Return(_))) => {
                    assert forall|k: int| 0 <= k < below.len() implies same_names(
                        below[k],
                        #[trigger] env_pop(b.state.scopes)[k],
                    ) by {
                        assert(env_pop(b.state.scopes)[k] == b.state.scopes[k]);
                    }
                },
                Ok(_) => {
                    for_scoped(
                        ctx,
                        var,
                        (ctx.arith)(BinOp::Add, i, step),
                        limit,
                        step,
                        body,
                        span,
                        later(t.state, b.state),
                        below,
                    );
                },
            }
        }
    }
}

#[verifier::spinoff_prover]
proof fn repeat_scoped(ctx: Context, body: Seq<SpecStmt>, condition: SpecExpr, span: Span, st: State)
    ensures
        scoped(st, sem_repeat(ctx, body, condition, span, st)),
    decreases budget(ctx, st), 5nat,
{
    reveal(sem_repeat);
    if st.scopes.len() >= 1 {
        block_scoped(ctx, body, st);
        let b = sem_block(ctx, body, st);
        match b.result {
            Err(_) => {},
            Ok(Some(Signal::Break)) => {},
            Ok(Some(Signal::Return(_))) => {},
            Ok(_) => {
                expr_scoped(ctx, condition, later(st, b.state));
                let c = sem_expr(ctx, condition, later(st, b.state));
                continues_on(st.scopes, b.state.scopes, c.state.scopes);
                if c.result is Ok && !truthy(c.result->Ok_0) {
                    let t = tick(ctx, later(st, c.state), span);
                    if t.result is Ok {
                        repeat_scoped(ctx, body, condition, span, t.state);
                        continues_on(
                            st.scopes,
                            c.state.scopes,
                            sem_repeat(ctx, body, condition, span, t.state).state.scopes,
                        );
                    }
                }
            },
        }
    }
}

#[verifier::spinoff_prover]
proof fn bound_scoped(ctx: Context, e: SpecExpr, what: Seq<char>, span: Span, st: State)
    ensures
        scoped(st, sem_bound(ctx, e, what, span, st)),
    decreases budget(ctx, st), 4nat,
{
    reveal(sem_bound);
    expr_scoped(ctx, e, st);
}

#[verifier::spinoff_prover]
proof fn numeric_for_scoped(
    ctx: Context,
    var: Seq<char>,
    start: SpecExpr,
    limit: SpecExpr,
    step: Option<SpecExpr>,
    body: Seq<SpecStmt>,
    span: Span,
    st: State,
)
    ensures
        scoped(st, sem_numeric_for(ctx, var, start, limit, step, body, span, st)),
    decreases budget(ctx, st), 6nat,
{
    reveal(sem_numeric_for);
    if st.scopes.len() >= 1 {
        bound_scoped(ctx, start, "for start must be a number"@, span, st);
        let a = sem_bound(ctx, start, "for start must be a number"@, span, st);
        if a.result is Ok {
            bound_scoped(ctx, limit, "for limit must be a number"@, span, later(st, a.state));
            let b = sem_bound(ctx, limit, "for limit must be a number"@, span, later(st, a.state));
            continues_on(st.scopes, a.state.scopes, b.state.scopes);
            if b.result is Ok {
                let c = match step {
                    None => crate::semantics::done(later(st, b.state), crate::semantics::ONE),
                    Some(e) => sem_bound(
                        ctx,
                        e,
                        "for step must be a number"@,
                        span,
                        later(st, b.state),
                    ),
                };
                if let Some(e) = step {
                    bound_scoped(ctx, e, "for step must be a number"@, span, later(st, b.state));
                }
                continues_on(st.scopes, b.state.scopes, c.state.scopes);
                if c.result is Ok && !crate::number::is_zero(c.result->Ok_0) {
                    let opened = later(st, c.state);
                    let entered = with_scopes(opened, env_push(opened.scopes));
                    for_scoped(
                        ctx,
                        var,
                        a.result->Ok_0,
                        b.result->Ok_0,
                        c.result->Ok_0,
                        body,
                        span,
                        entered,
                        opened.scopes,
                    );
                    continues_on(
                        st.scopes,
                        c.state.scopes,
                        sem_for(
                            ctx,
                            var,
                            a.result->Ok_0,
                            b.result->Ok_0,
                            c.result->Ok_0,
                            body,
                            span,
                            entered,
                        ).state.scopes,
                    );
                }
            }
        }
    }
}

#[verifier::spinoff_prover]
proof fn build_scoped(ctx: Context, name: Seq<char>, args: Seq<SpecExpr>, span: Span, st: State)
    ensures
        scoped(st, sem_build(ctx, name, args, span, st)),
    decreases budget(ctx, st), 6nat,
{
    reveal(sem_build);
    if st.scopes.len() >= 1 && has_key(st.blueprints, name) {
        exprs_scoped(ctx, args, 0, st, Seq::empty());
        let a = sem_exprs(ctx, args, 0, st, Seq::empty());
        if a.result is Ok {
            let proc = lookup(st.blueprints, name)->0;
            invoke_scoped(ctx, proc, a.result->Ok_0, later(st, a.state));
            continues_on(
                st.scopes,
                a.state.scopes,
                sem_invoke(ctx, proc, a.result->Ok_0, later(st, a.state)).state.scopes,
            );
        }
    }
}

#[verifier::spinoff_prover]
proof fn return_scoped(ctx: Context, value: Option<SpecExpr>, st: State)
    ensures
        scoped(st, sem_return(ctx, value, st)),
    decreases budget(ctx, st), 6nat,
{
    reveal(sem_return);
    if let Some(e) = value {
        expr_scoped(ctx, e, st);
    }
}

/// Scope isolation: a block that does not fail leaves as many scopes as it
/// found, and each of them binds the names it bound before. What the block
/// bound itself is gone; a name of an outer scope is still bound there,
/// though an assignment may have given it another value.
pub proof fn blocks_are_isolated(ctx: Context, stmts: Seq<SpecStmt>, st: State)
    requires
        st.scopes.len() >= 1,
    ensures
        sem_block(ctx, stmts, st).result is Ok ==> settled(
            st.scopes,
            sem_block(ctx, stmts, st).state.scopes,
        ),
        continues(st.scopes, sem_block(ctx, stmts, st).state.scopes),
{
    block_scoped(ctx, stmts, st);
}

/// A statement binds names in the innermost scope only, and closes every
/// scope that it opens unless it fails.
pub proof fn statements_keep_scopes(ctx: Context, s: SpecStmt, st: State)
    requires
        st.scopes.len() >= 1,
    ensures
        continues(st.scopes, sem_stmt(ctx, s, st).state.scopes),
        sem_stmt(ctx, s, st).result is Ok ==> sem_stmt(ctx, s, st).state.scopes.len()
            == st.scopes.len(),
{
    stmt_scoped(ctx, s, st);
}

/// The global scope is never closed: whatever runs, at least as many scopes
/// are left as there were.
pub proof fn global_scope_survives(ctx: Context, s: SpecStmt, st: State)
    requires
        st.scopes.len() >= 1,
    ensures
        sem_stmt(ctx, s, st).state.scopes.len() >= 1,
{
    stmt_scoped(ctx, s, st);
}

} // verus!
