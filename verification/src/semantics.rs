//! What a program means: the result and the state that running a statement or
//! evaluating an expression leads to, as mathematical functions.
//!
//! The meaning is relative to a [`Context`]: what the registered host
//! functions, the arithmetic and the number formatter of the embedder compute,
//! and the instruction limit.
use vstd::prelude::*;
use vstd::utf8::encode_utf8;
use crate::ast::{BinOp, Span, SpecExpr, SpecStmt, UnaryOp};
use crate::environment::{env_define, env_get, env_pop, env_push, env_set};
use crate::error::{error_at, limit_message, ErrorKind, SpecError};
use crate::number::{
    capped_part,
    index_of,
    is_nan,
    is_zero,
    negated,
    num_less,
    num_less_eq,
    number_of,
    sign_set,
};
use crate::text::{bytes_less, decimal};
use crate::types::{
    has_key,
    lookup,
    stored,
    truthy,
    type_label_of,
    value_text,
    values_equal,
    Entries,
    FormatModel,
    SpecValue,
};

verus! {

/// What a host function computes: a value or an error message for each
/// sequence of arguments.
pub type HostModel = spec_fn(Seq<SpecValue>) -> Result<SpecValue, Seq<char>>;

/// What the arithmetic of the embedder computes: the bit pattern of
/// `a op b` for the patterns of `a` and `b`.
pub type ArithModel = spec_fn(BinOp, u64, u64) -> u64;

/// What a program runs against and cannot change.
pub ghost struct Context {
    pub hosts: Seq<(Seq<char>, HostModel)>,
    pub arith: ArithModel,
    pub format: FormatModel,
    pub limit: u64,
}

/// A blueprint: the names of its parameters and its body.
pub ghost struct Procedure {
    pub params: Seq<Seq<char>>,
    pub body: Seq<SpecStmt>,
}

/// The calls of host functions, in the order they were made: of each the
/// name it was called by and the arguments it was handed.
pub type Calls = Seq<(Seq<char>, Seq<SpecValue>)>;

/// Whether the record `after` is the record `before` with no, one or more
/// calls after it.
pub open spec fn extends(before: Calls, after: Calls) -> bool {
    &&& before.len() <= after.len()
    &&& forall|i: int| 0 <= i < before.len() ==> #[trigger] after[i] == before[i]
}

/// What a program can change.
pub ghost struct State {
    /// The scopes, the innermost last.
    pub scopes: Seq<Entries>,
    /// The blueprints defined so far.
    pub blueprints: Seq<(Seq<char>, Procedure)>,
    /// The instructions counted so far.
    pub count: u64,
    /// The calls of host functions made so far.
    pub calls: Calls,
}

/// A control-flow signal that a statement hands to what encloses it.
pub ghost enum Signal {
    Return(SpecValue),
    Break,
    Continue,
}

/// The state that a run ends in, and what it yields.
pub ghost struct Ran<T> {
    pub state: State,
    pub result: Result<T, SpecError>,
}

/// A run that ends in `state` and yields `value`.
pub open spec fn done<T>(state: State, value: T) -> Ran<T> {
    Ran { state, result: Ok(value) }
}

/// A run that ends in `state` with an error.
pub open spec fn failed<T>(state: State, error: SpecError) -> Ran<T> {
    Ran { state, result: Err(error) }
}

/// The instructions that may still be counted before the limit is reached.
pub open spec fn budget(ctx: Context, st: State) -> nat {
    if st.count < ctx.limit {
        (ctx.limit - st.count) as nat
    } else {
        0
    }
}

/// `after`, with a count that is not below the count of `before`.
///
/// No run lowers the count ([`crate::theorems::evaluation_leads_on`]), so
/// this is `after` wherever `after` is the state that a run from `before`
/// led to. The definitions below sequence their parts through it, which
/// shows at once that the budget never grows along the way.
pub open spec fn later(before: State, after: State) -> State {
    State {
        scopes: after.scopes,
        blueprints: after.blueprints,
        count: if after.count >= before.count {
            after.count
        } else {
            before.count
        },
        calls: after.calls,
    }
}

/// `st` with the scopes replaced.
pub open spec fn with_scopes(st: State, scopes: Seq<Entries>) -> State {
    State { scopes, blueprints: st.blueprints, count: st.count, calls: st.calls }
}

/// Counting one instruction: the count goes up by one, and the run fails
/// where that takes it beyond the limit.
pub open spec fn tick(ctx: Context, st: State, span: Span) -> Ran<()> {
    if st.count < ctx.limit {
        done(
            State {
                scopes: st.scopes,
                blueprints: st.blueprints,
                count: (st.count + 1) as u64,
                calls: st.calls,
            },
            (),
        )
    } else {
        failed(
            State {
                scopes: st.scopes,
                blueprints: st.blueprints,
                count: if st.count < u64::MAX {
                    (st.count + 1) as u64
                } else {
                    st.count
                },
                calls: st.calls,
            },
            error_at(ErrorKind::InstructionLimit, limit_message(), span.line, span.column),
        )
    }
}

/// `prefix`, then `name`, then `suffix`.
pub open spec fn framed(prefix: Seq<char>, name: Seq<char>, suffix: Seq<char>) -> Seq<char> {
    prefix + name + suffix
}

/// The error for a name that no scope binds.
pub open spec fn undefined_variable(name: Seq<char>, span: Span) -> SpecError {
    error_at(
        ErrorKind::NameError,
        framed("undefined variable '"@, name, "'"@),
        span.line,
        span.column,
    )
}

/// The runtime error with `message` at `span`.
pub open spec fn runtime_error(message: Seq<char>, span: Span) -> SpecError {
    error_at(ErrorKind::Runtime, message, span.line, span.column)
}

/// The type error with `message` at `span`.
pub open spec fn type_error(message: Seq<char>, span: Span) -> SpecError {
    error_at(ErrorKind::Type, message, span.line, span.column)
}

/// The name error with `message` at `span`.
pub open spec fn name_error(message: Seq<char>, span: Span) -> SpecError {
    error_at(ErrorKind::NameError, message, span.line, span.column)
}

/// The symbol an operator is written with in messages.
pub open spec fn symbol(op: BinOp) -> Seq<char> {
    match op {
        BinOp::Add => "+"@,
        BinOp::Sub => "-"@,
        BinOp::Mul => "*"@,
        BinOp::Div => "/"@,
        BinOp::Mod => "%"@,
        BinOp::Pow => "^"@,
        BinOp::Concat => ".."@,
        BinOp::Eq => "=="@,
        BinOp::NotEq => "~="@,
        BinOp::Lt => "<"@,
        BinOp::LtEq => "<="@,
        BinOp::Gt => ">"@,
        BinOp::GtEq => ">="@,
        BinOp::And => "and"@,
        BinOp::Or => "or"@,
    }
}

/// `-x`, `not x`, `#x`.
#[verifier::opaque]
pub open spec fn unary_op(op: UnaryOp, v: SpecValue, span: Span) -> Result<SpecValue, SpecError> {
    match op {
        UnaryOp::Neg => match v {
            SpecValue::Number(n) => Ok(SpecValue::Number(negated(n))),
            _ => Err(type_error("cannot negate "@ + type_label_of(v), span)),
        },
        UnaryOp::Not => Ok(SpecValue::Bool(!truthy(v))),
        UnaryOp::Len => match v {
            SpecValue::String(s) => Ok(SpecValue::Number(number_of(encode_utf8(s).len()) as u64)),
            SpecValue::Array(items) => Ok(SpecValue::Number(number_of(items.len()) as u64)),
            SpecValue::Table(entries) => Ok(SpecValue::Number(number_of(entries.len()) as u64)),
            _ => Err(type_error("cannot get length of "@ + type_label_of(v), span)),
        },
    }
}

/// The error for an operator applied to operands it is not defined on.
pub open spec fn cannot_apply(op: BinOp, l: SpecValue, r: SpecValue, span: Span) -> SpecError {
    type_error(
        "cannot apply '"@ + symbol(op) + "' to "@ + type_label_of(l) + " and "@ + type_label_of(r),
        span,
    )
}

/// Arithmetic on numbers, and on vectors where the operator is defined on
/// them: `+` and `-` of two vectors, `*` and `/` of a vector by a number, `*`
/// of a number by a vector.
#[verifier::opaque]
pub open spec fn numeric_op(ctx: Context, op: BinOp, l: SpecValue, r: SpecValue, span: Span) -> Result<
    SpecValue,
    SpecError,
> {
    match (l, r) {
        (SpecValue::Number(a), SpecValue::Number(b)) => Ok(SpecValue::Number((ctx.arith)(op, a, b))),
        (SpecValue::Vec3(ax, ay, az), SpecValue::Vec3(bx, by, bz)) => if op == BinOp::Add || op
            == BinOp::Sub {
            Ok(
                SpecValue::Vec3(
                    (ctx.arith)(op, ax, bx),
                    (ctx.arith)(op, ay, by),
                    (ctx.arith)(op, az, bz),
                ),
            )
        } else {
            Err(cannot_apply(op, l, r, span))
        },
        (SpecValue::Vec3(ax, ay, az), SpecValue::Number(b)) => if op == BinOp::Mul || op
            == BinOp::Div {
            Ok(
                SpecValue::Vec3(
                    (ctx.arith)(op, ax, b),
                    (ctx.arith)(op, ay, b),
                    (ctx.arith)(op, az, b),
                ),
            )
        } else {
            Err(cannot_apply(op, l, r, span))
        },
        (SpecValue::Number(a), SpecValue::Vec3(bx, by, bz)) => if op == BinOp::Mul {
            Ok(
                SpecValue::Vec3(
                    (ctx.arith)(op, a, bx),
                    (ctx.arith)(op, a, by),
                    (ctx.arith)(op, a, bz),
                ),
            )
        } else {
            Err(cannot_apply(op, l, r, span))
        },
        _ => Err(cannot_apply(op, l, r, span)),
    }
}

/// `<`, `<=`, `>`, `>=` on two numbers or on two strings, the strings by
/// their bytes.
#[verifier::opaque]
pub open spec fn compare_op(op: BinOp, l: SpecValue, r: SpecValue, span: Span) -> Result<
    SpecValue,
    SpecError,
> {
    match (l, r) {
        (SpecValue::Number(a), SpecValue::Number(b)) => Ok(
            SpecValue::Bool(
                match op {
                    BinOp::Lt => num_less(a, b),
                    BinOp::LtEq => num_less_eq(a, b),
                    BinOp::Gt => num_less(b, a),
                    BinOp::GtEq => num_less_eq(b, a),
                    _ => false,
                },
            ),
        ),
        (SpecValue::String(a), SpecValue::String(b)) => Ok(
            SpecValue::Bool(
                match op {
                    BinOp::Lt => bytes_less(encode_utf8(a), encode_utf8(b)),
                    BinOp::LtEq => !bytes_less(encode_utf8(b), encode_utf8(a)),
                    BinOp::Gt => bytes_less(encode_utf8(b), encode_utf8(a)),
                    BinOp::GtEq => !bytes_less(encode_utf8(a), encode_utf8(b)),
                    _ => false,
                },
            ),
        ),
        _ => Err(
            type_error(
                "cannot compare "@ + type_label_of(l) + " and "@ + type_label_of(r) + " with '"@
                    + symbol(op) + "'"@,
                span,
            ),
        ),
    }
}

/// A binary operator other than `and` and `or` applied to two values.
#[verifier::opaque]
pub open spec fn binary_op(ctx: Context, op: BinOp, l: SpecValue, r: SpecValue, span: Span) -> Result<
    SpecValue,
    SpecError,
> {
    match op {
        BinOp::Add | BinOp::Sub | BinOp::Mul | BinOp::Mod | BinOp::Pow => numeric_op(
            ctx,
            op,
            l,
            r,
            span,
        ),
        BinOp::Div => if l is Number && r is Number && is_zero(r->Number_0) {
            Err(runtime_error("division by zero"@, span))
        } else {
            numeric_op(ctx, op, l, r, span)
        },
        BinOp::Concat => Ok(SpecValue::String(value_text(l, ctx.format) + value_text(r, ctx.format))),
        BinOp::Eq => Ok(SpecValue::Bool(values_equal(l, r))),
        BinOp::NotEq => Ok(SpecValue::Bool(!values_equal(l, r))),
        BinOp::Lt | BinOp::LtEq | BinOp::Gt | BinOp::GtEq => compare_op(op, l, r, span),
        BinOp::And | BinOp::Or => Ok(SpecValue::Nil),
    }
}

/// The built-in `vec3(x, y, z)`.
#[verifier::opaque]
pub open spec fn builtin_vec3(args: Seq<SpecValue>, span: Span) -> Result<SpecValue, SpecError> {
    if args.len() != 3 {
        Err(runtime_error("vec3() expects 3 arguments, got "@ + decimal(args.len()), span))
    } else if !(args[0] is Number) {
        Err(type_error("vec3 x must be a number"@, span))
    } else if !(args[1] is Number) {
        Err(type_error("vec3 y must be a number"@, span))
    } else if !(args[2] is Number) {
        Err(type_error("vec3 z must be a number"@, span))
    } else {
        Ok(SpecValue::Vec3(args[0]->Number_0, args[1]->Number_0, args[2]->Number_0))
    }
}

/// `obj.field`.
#[verifier::opaque]
pub open spec fn field_of(obj: SpecValue, field: Seq<char>, span: Span) -> Result<
    SpecValue,
    SpecError,
> {
    match obj {
        SpecValue::Vec3(x, y, z) => if field == "x"@ {
            Ok(SpecValue::Number(x))
        } else if field == "y"@ {
            Ok(SpecValue::Number(y))
        } else if field == "z"@ {
            Ok(SpecValue::Number(z))
        } else {
            Err(type_error(framed("vec3 has no field '"@, field, "'"@), span))
        },
        SpecValue::Table(entries) => match lookup(entries, field) {
            Some(v) => Ok(v),
            None => Ok(SpecValue::Nil),
        },
        _ => Err(
            type_error("cannot access field '"@ + field + "' on "@ + type_label_of(obj), span),
        ),
    }
}

/// The error for an index applied to a value it is not defined on.
pub open spec fn cannot_index(obj: SpecValue, idx: SpecValue, span: Span) -> SpecError {
    type_error("cannot index "@ + type_label_of(obj) + " with "@ + type_label_of(idx), span)
}

/// `obj[idx]`.
#[verifier::opaque]
pub open spec fn element_of(obj: SpecValue, idx: SpecValue, span: Span) -> Result<
    SpecValue,
    SpecError,
> {
    match (obj, idx) {
        (SpecValue::Array(items), SpecValue::Number(n)) => match index_of(n) {
            Some(i) if i < items.len() => Ok(items[i as int]),
            _ => Ok(SpecValue::Nil),
        },
        (SpecValue::Table(entries), SpecValue::String(key)) => match lookup(entries, key) {
            Some(v) => Ok(v),
            None => Ok(SpecValue::Nil),
        },
        (SpecValue::String(s), SpecValue::Number(n)) => match index_of(n) {
            Some(i) if i < s.len() => Ok(SpecValue::String(seq![s[i as int]])),
            _ => Ok(SpecValue::Nil),
        },
        _ => Err(cannot_index(obj, idx, span)),
    }
}

/// The scopes after the parameters `params[from..]` are bound, in the
/// innermost scope, to the arguments at their places; an argument that is
/// missing is `nil`.
pub open spec fn bind_params(
    scopes: Seq<Entries>,
    params: Seq<Seq<char>>,
    args: Seq<SpecValue>,
    from: int,
) -> Seq<Entries>
    decreases params.len() - from,
{
    if from < 0 || from >= params.len() {
        scopes
    } else {
        bind_params(
            env_define(
                scopes,
                params[from],
                if from < args.len() {
                    args[from]
                } else {
                    SpecValue::Nil
                },
            ),
            params,
            args,
            from + 1,
        )
    }
}

/// The value of an expression and the state its evaluation leads to.
#[verifier::opaque]
pub open spec fn sem_expr(ctx: Context, e: SpecExpr, st: State) -> Ran<SpecValue>
    decreases budget(ctx, st), 3nat, e,
{
    match e {
        SpecExpr::NumberLit { value, .. } => done(st, SpecValue::Number(value)),
        SpecExpr::StringLit { value, .. } => done(st, SpecValue::String(value)),
        SpecExpr::BoolLit { value, .. } => done(st, SpecValue::Bool(value)),
        SpecExpr::NilLit { .. } => done(st, SpecValue::Nil),
        SpecExpr::Ident { name, span } => match env_get(st.scopes, name) {
            Some(v) => done(st, v),
            None => failed(st, undefined_variable(name, span)),
        },
        SpecExpr::BinaryOp { left, op, right, span } => {
            let l = sem_expr(ctx, *left, st);
            match l.result {
                Err(e) => failed(l.state, e),
                Ok(lv) => if op == BinOp::And && !truthy(lv) {
                    l
                } else if op == BinOp::Or && truthy(lv) {
                    l
                } else {
                    let r = sem_expr(ctx, *right, later(st, l.state));
                    if op == BinOp::And || op == BinOp::Or {
                        r
                    } else {
                        match r.result {
                            Err(e) => failed(r.state, e),
                            Ok(rv) => Ran { state: r.state, result: binary_op(ctx, op, lv, rv, span) },
                        }
                    }
                },
            }
        },
        SpecExpr::UnaryOp { op, operand, span } => {
            let v = sem_expr(ctx, *operand, st);
            match v.result {
                Err(e) => failed(v.state, e),
                Ok(x) => Ran { state: v.state, result: unary_op(op, x, span) },
            }
        },
        SpecExpr::Call { callee, args, span } => {
            let a = sem_exprs(ctx, args, 0, st, Seq::empty());
            match a.result {
                Err(e) => failed(a.state, e),
                Ok(values) => sem_call(ctx, *callee, values, span, later(st, a.state)),
            }
        },
        SpecExpr::FieldAccess { object, field, span } => {
            let o = sem_expr(ctx, *object, st);
            match o.result {
                Err(e) => failed(o.state, e),
                Ok(obj) => Ran { state: o.state, result: field_of(obj, field, span) },
            }
        },
        SpecExpr::IndexAccess { object, index, span } => {
            let o = sem_expr(ctx, *object, st);
            match o.result {
                Err(e) => failed(o.state, e),
                Ok(obj) => {
                    let i = sem_expr(ctx, *index, later(st, o.state));
                    match i.result {
                        Err(e) => failed(i.state, e),
                        Ok(idx) => Ran { state: i.state, result: element_of(obj, idx, span) },
                    }
                },
            }
        },
        SpecExpr::MethodCall { object, method, args, span } => {
            let o = sem_expr(ctx, *object, st);
            match o.result {
                Err(e) => failed(o.state, e),
                Ok(obj) => {
                    let a = sem_exprs(ctx, args, 0, later(st, o.state), Seq::empty());
                    match a.result {
                        Err(e) => failed(a.state, e),
                        Ok(_) => failed(
                            a.state,
                            runtime_error(
                                "method call '"@ + method + "' on "@ + type_label_of(obj)
                                    + " not yet implemented"@,
                                span,
                            ),
                        ),
                    }
                },
            }
        },
        SpecExpr::ArrayLit { elements, .. } => {
            let a = sem_exprs(ctx, elements, 0, st, Seq::empty());
            match a.result {
                Err(e) => failed(a.state, e),
                Ok(values) => done(a.state, SpecValue::Array(values)),
            }
        },
        SpecExpr::TableLit { fields, .. } => {
            let a = sem_fields(ctx, fields, 0, st, Seq::empty());
            match a.result {
                Err(e) => failed(a.state, e),
                Ok(entries) => done(a.state, SpecValue::Table(entries)),
            }
        },
    }
}

/// The values of `exprs[from..]`, evaluated from left to right, after `acc`.
#[verifier::opaque]
pub open spec fn sem_exprs(
    ctx: Context,
    exprs: Seq<SpecExpr>,
    from: int,
    st: State,
    acc: Seq<SpecValue>,
) -> Ran<Seq<SpecValue>>
    decreases budget(ctx, st), 3nat, exprs, exprs.len() - from,
{
    if from < 0 || from >= exprs.len() {
        done(st, acc)
    } else {
        let r = sem_expr(ctx, exprs[from], st);
        match r.result {
            Err(e) => failed(r.state, e),
            Ok(v) => sem_exprs(ctx, exprs, from + 1, later(st, r.state), acc.push(v)),
        }
    }
}

/// The entries that `fields[from..]` give, evaluated from left to right and
/// stored into `acc`.
#[verifier::opaque]
pub open spec fn sem_fields(
    ctx: Context,
    fields: Seq<(Seq<char>, SpecExpr)>,
    from: int,
    st: State,
    acc: Entries,
) -> Ran<Entries>
    decreases budget(ctx, st), 3nat, fields, fields.len() - from,
{
    if from < 0 || from >= fields.len() {
        done(st, acc)
    } else {
        let r = sem_expr(ctx, fields[from].1, st);
        match r.result {
            Err(e) => failed(r.state, e),
            Ok(v) => sem_fields(
                ctx,
                fields,
                from + 1,
                later(st, r.state),
                stored(acc, fields[from].0, v),
            ),
        }
    }
}

/// `st` after the host function `name` was called on `args`.
pub open spec fn called(st: State, name: Seq<char>, args: Seq<SpecValue>) -> State {
    State {
        scopes: st.scopes,
        blueprints: st.blueprints,
        count: st.count,
        calls: st.calls.push((name, args)),
    }
}

/// A call of `callee` on evaluated arguments: the built-in `vec3`, else a
/// host function of that name, else a blueprint of that name. A host
/// function is called once, on exactly these arguments, and the call is
/// recorded; nothing else calls one.
#[verifier::opaque]
pub open spec fn sem_call(
    ctx: Context,
    callee: SpecExpr,
    args: Seq<SpecValue>,
    span: Span,
    st: State,
) -> Ran<SpecValue>
    decreases budget(ctx, st), 2nat,
{
    match callee {
        SpecExpr::Ident { name, .. } => if name == "vec3"@ {
            Ran { state: st, result: builtin_vec3(args, span) }
        } else if has_key(ctx.hosts, name) {
            match (lookup(ctx.hosts, name)->0)(args) {
                Ok(v) => done(called(st, name, args), v),
                Err(message) => failed(called(st, name, args), runtime_error(message, span)),
            }
        } else if has_key(st.blueprints, name) {
            sem_invoke(ctx, lookup(st.blueprints, name)->0, args, st)
        } else {
            failed(st, name_error(framed("undefined function '"@, name, "'"@), span))
        },
        _ => failed(st, name_error("undefined function '<expression>'"@, span)),
    }
}

/// The invocation of a blueprint: its body runs in a scope of its own that
/// binds the parameters, and it yields what the body returns, else `nil`.
#[verifier::opaque]
pub open spec fn sem_invoke(ctx: Context, proc: Procedure, args: Seq<SpecValue>, st: State) -> Ran<
    SpecValue,
>
    decreases budget(ctx, st), 1nat,
{
    let entered = with_scopes(st, bind_params(env_push(st.scopes), proc.params, args, 0));
    let r = sem_stmts(ctx, proc.body, 0, entered);
    match r.result {
        Err(e) => failed(r.state, e),
        Ok(signal) => done(
            with_scopes(r.state, env_pop(r.state.scopes)),
            match signal {
                Some(Signal::Return(v)) => v,
                _ => SpecValue::Nil,
            },
        ),
    }
}

/// What `stmts[from..]` do, run in order in the current scope, up to the
/// first signal or error.
#[verifier::opaque]
pub open spec fn sem_stmts(ctx: Context, stmts: Seq<SpecStmt>, from: int, st: State) -> Ran<
    Option<Signal>,
>
    decreases budget(ctx, st), 0nat, stmts, stmts.len() - from,
{
    if from < 0 || from >= stmts.len() {
        done(st, None)
    } else {
        let r = sem_stmt(ctx, stmts[from], st);
        match r.result {
            Ok(None) => sem_stmts(ctx, stmts, from + 1, later(st, r.state)),
            _ => r,
        }
    }
}

/// What a block does: its statements run in a scope of their own, which is
/// closed again whatever they lead to.
#[verifier::opaque]
pub open spec fn sem_block(ctx: Context, stmts: Seq<SpecStmt>, st: State) -> Ran<Option<Signal>>
    decreases budget(ctx, st), 0nat, stmts, stmts.len() + 1,
{
    let r = sem_stmts(ctx, stmts, 0, with_scopes(st, env_push(st.scopes)));
    Ran { state: with_scopes(r.state, env_pop(r.state.scopes)), result: r.result }
}

/// Writing `value` back to the variable that `target` names; a target that is
/// no plain name is left alone.
#[verifier::opaque]
pub open spec fn write_back(target: SpecExpr, value: SpecValue, st: State) -> Ran<Option<Signal>> {
    match target {
        SpecExpr::Ident { name, span } => if env_get(st.scopes, name) is Some {
            done(with_scopes(st, env_set(st.scopes, name, value)), None)
        } else {
            failed(st, undefined_variable(name, span))
        },
        _ => done(st, None),
    }
}

/// The error for a field set on a value that is no table.
pub open spec fn cannot_set_field(field: Seq<char>, obj: SpecValue, span: Span) -> SpecError {
    type_error("cannot set field '"@ + field + "' on "@ + type_label_of(obj), span)
}

/// How the number of a store that names no element is written in the error:
/// by its integer part, capped at the largest index; a NaN and a number below
/// zero as `0`.
pub open spec fn index_text(n: u64) -> Seq<char> {
    if is_nan(n) || sign_set(n) {
        "0"@
    } else {
        decimal(capped_part(n) as nat)
    }
}

/// The error for a store into an array of `len` elements at a number that
/// names none of them.
pub open spec fn out_of_bounds(n: u64, len: nat, span: Span) -> SpecError {
    runtime_error(
        "array index "@ + index_text(n) + " out of bounds (len "@ + decimal(len) + ")"@,
        span,
    )
}

/// `obj` with `value` stored at `idx`: an element of an array, in bounds, or
/// an entry of a table. A number that is no index of the array stores
/// nothing.
#[verifier::opaque]
pub open spec fn stored_element(obj: SpecValue, idx: SpecValue, value: SpecValue, span: Span) -> Result<
    SpecValue,
    SpecError,
> {
    match (obj, idx) {
        (SpecValue::Array(items), SpecValue::Number(n)) => match index_of(n) {
            Some(i) if i < items.len() => Ok(SpecValue::Array(items.update(i as int, value))),
            _ => Err(out_of_bounds(n, items.len(), span)),
        },
        (SpecValue::Table(entries), SpecValue::String(key)) => Ok(
            SpecValue::Table(stored(entries, key, value)),
        ),
        _ => Err(cannot_index(obj, idx, span)),
    }
}

/// The assignment of the evaluated `value` to the field `field` of what
/// `object` evaluates to.
#[verifier::opaque]
pub open spec fn sem_assign_field(
    ctx: Context,
    object: SpecExpr,
    field: Seq<char>,
    at: Span,
    value: SpecValue,
    st: State,
) -> Ran<Option<Signal>>
    decreases budget(ctx, st), 4nat,
{
    let o = sem_expr(ctx, object, st);
    match o.result {
        Err(e) => failed(o.state, e),
        Ok(SpecValue::Table(entries)) => write_back(
            object,
            SpecValue::Table(stored(entries, field, value)),
            o.state,
        ),
        Ok(obj) => failed(o.state, cannot_set_field(field, obj, at)),
    }
}

/// The assignment of the evaluated `value` to the element that `index`
/// names in what `object` evaluates to. The index is evaluated first.
#[verifier::opaque]
pub open spec fn sem_assign_index(
    ctx: Context,
    object: SpecExpr,
    index: SpecExpr,
    at: Span,
    value: SpecValue,
    st: State,
) -> Ran<Option<Signal>>
    decreases budget(ctx, st), 4nat,
{
    let i = sem_expr(ctx, index, st);
    match i.result {
        Err(e) => failed(i.state, e),
        Ok(idx) => {
            let o = sem_expr(ctx, object, later(st, i.state));
            match o.result {
                Err(e) => failed(o.state, e),
                Ok(obj) => match stored_element(obj, idx, value, at) {
                    Ok(changed) => write_back(object, changed, o.state),
                    Err(e) => failed(o.state, e),
                },
            }
        },
    }
}

/// The assignment of the evaluated `value` to `target`: a variable, a field
/// or an element. What is written to a field or an element goes back to the
/// variable that holds the table or array, where a plain name stands for it.
#[verifier::opaque]
pub open spec fn sem_assign(ctx: Context, target: SpecExpr, value: SpecValue, span: Span, st: State) -> Ran<
    Option<Signal>,
>
    decreases budget(ctx, st), 5nat,
{
    match target {
        SpecExpr::Ident { .. } => write_back(target, value, st),
        SpecExpr::FieldAccess { object, field, span: at } => sem_assign_field(
            ctx,
            *object,
            field,
            at,
            value,
            st,
        ),
        SpecExpr::IndexAccess { object, index, span: at } => sem_assign_index(
            ctx,
            *object,
            *index,
            at,
            value,
            st,
        ),
        _ => failed(st, runtime_error("invalid assignment target"@, span)),
    }
}

/// The `elseif` clauses from `from` on, tried in order, and the `else` body
/// where none applies.
#[verifier::opaque]
pub open spec fn sem_clauses(
    ctx: Context,
    clauses: Seq<(SpecExpr, Seq<SpecStmt>)>,
    from: int,
    otherwise: Option<Seq<SpecStmt>>,
    st: State,
) -> Ran<Option<Signal>>
    decreases budget(ctx, st), 5nat, clauses, clauses.len() - from,
{
    if from < 0 || from >= clauses.len() {
        match otherwise {
            Some(body) => sem_block(ctx, body, st),
            None => done(st, None),
        }
    } else {
        let c = sem_expr(ctx, clauses[from].0, st);
        match c.result {
            Err(e) => failed(c.state, e),
            Ok(v) => if truthy(v) {
                sem_block(ctx, clauses[from].1, later(st, c.state))
            } else {
                sem_clauses(ctx, clauses, from + 1, otherwise, later(st, c.state))
            },
        }
    }
}

/// A `while` loop from the test of its condition on. `break` ends it. After
/// a body that ends without a signal, and after one that ends in `continue`,
/// an instruction is counted for the way back to the test.
#[verifier::opaque]
pub open spec fn sem_while(
    ctx: Context,
    condition: SpecExpr,
    body: Seq<SpecStmt>,
    span: Span,
    st: State,
) -> Ran<Option<Signal>>
    decreases budget(ctx, st), 5nat,
{
    let c = sem_expr(ctx, condition, st);
    match c.result {
        Err(e) => failed(c.state, e),
        Ok(v) => if !truthy(v) {
            done(c.state, None)
        } else {
            let b = sem_block(ctx, body, later(st, c.state));
            match b.result {
                Err(e) => failed(b.state, e),
                Ok(Some(Signal::Break)) => done(b.state, None),
                Ok(Some(Signal::Return(v))) => b,
                Ok(Some(Signal::Continue)) | Ok(None) => {
                    let t = tick(ctx, later(st, b.state), span);
                    match t.result {
                        Err(e) => failed(t.state, e),
                        Ok(_) => sem_while(ctx, condition, body, span, t.state),
                    }
                },
            }
        },
    }
}

/// A numeric `for` loop from the test of its variable on: the variable stands
/// at `i`, and the loop's scope is open.
#[verifier::opaque]
pub open spec fn sem_for(
    ctx: Context,
    var: Seq<char>,
    i: u64,
    limit: u64,
    step: u64,
    body: Seq<SpecStmt>,
    span: Span,
    st: State,
) -> Ran<Option<Signal>>
    decreases budget(ctx, st), 5nat,
{
    if (num_less(0, step) && num_less(limit, i)) || (num_less(step, 0) && num_less(i, limit)) {
        done(with_scopes(st, env_pop(st.scopes)), None)
    } else {
        let bound = with_scopes(st, env_define(st.scopes, var, SpecValue::Number(i)));
        let t = tick(ctx, bound, span);
        match t.result {
            Err(e) => failed(t.state, e),
            Ok(_) => {
                let b = sem_stmts(ctx, body, 0, t.state);
                match b.result {
                    Err(e) => failed(b.state, e),
                    Ok(Some(Signal::Break)) => done(
                        with_scopes(b.state, env_pop(b.state.scopes)),
                        None,
                    ),
                    Ok(Some(Signal::Return(v))) => Ran {
                        state: with_scopes(b.state, env_pop(b.state.scopes)),
                        result: b.result,
                    },
                    Ok(_) => sem_for(
                        ctx,
                        var,
                        (ctx.arith)(BinOp::Add, i, step),
                        limit,
                        step,
                        body,
                        span,
                        later(t.state, b.state),
                    ),
                }
            },
        }
    }
}

/// A `repeat` loop from the start of an iteration on.
#[verifier::opaque]
pub open spec fn sem_repeat(
    ctx: Context,
    body: Seq<SpecStmt>,
    condition: SpecExpr,
    span: Span,
    st: State,
) -> Ran<Option<Signal>>
    decreases budget(ctx, st), 5nat,
{
    let b = sem_block(ctx, body, st);
    match b.result {
        Err(e) => failed(b.state, e),
        Ok(Some(Signal::Break)) => done(b.state, None),
        Ok(Some(Signal::Return(v))) => b,
        Ok(_) => {
            let c = sem_expr(ctx, condition, later(st, b.state));
            match c.result {
                Err(e) => failed(c.state, e),
                Ok(v) => if truthy(v) {
                    done(c.state, None)
                } else {
                    let t = tick(ctx, later(st, c.state), span);
                    match t.result {
                        Err(e) => failed(t.state, e),
                        Ok(_) => sem_repeat(ctx, body, condition, span, t.state),
                    }
                },
            }
        },
    }
}

/// `local name [= init]`: the name is bound, in the innermost scope, to the
/// value of `init`, or to `nil`.
#[verifier::opaque]
pub open spec fn sem_local(ctx: Context, name: Seq<char>, init: Option<SpecExpr>, st: State) -> Ran<
    Option<Signal>,
>
    decreases budget(ctx, st), 6nat,
{
    match init {
        None => done(with_scopes(st, env_define(st.scopes, name, SpecValue::Nil)), None),
        Some(e) => {
            let r = sem_expr(ctx, e, st);
            match r.result {
                Err(e) => failed(r.state, e),
                Ok(v) => done(with_scopes(r.state, env_define(r.state.scopes, name, v)), None),
            }
        },
    }
}

/// `target = value`: the value is evaluated, then assigned.
#[verifier::opaque]
pub open spec fn sem_assignment(
    ctx: Context,
    target: SpecExpr,
    value: SpecExpr,
    span: Span,
    st: State,
) -> Ran<Option<Signal>>
    decreases budget(ctx, st), 6nat,
{
    let r = sem_expr(ctx, value, st);
    match r.result {
        Err(e) => failed(r.state, e),
        Ok(v) => sem_assign(ctx, target, v, span, later(st, r.state)),
    }
}

/// An expression used as a statement: it is evaluated and its value dropped.
#[verifier::opaque]
pub open spec fn sem_expression(ctx: Context, expr: SpecExpr, st: State) -> Ran<Option<Signal>>
    decreases budget(ctx, st), 6nat,
{
    let r = sem_expr(ctx, expr, st);
    match r.result {
        Err(e) => failed(r.state, e),
        Ok(_) => done(r.state, None),
    }
}

/// `if`: the first body whose condition is truthy runs, else the `else` body.
#[verifier::opaque]
pub open spec fn sem_if(
    ctx: Context,
    condition: SpecExpr,
    then_body: Seq<SpecStmt>,
    elseif_clauses: Seq<(SpecExpr, Seq<SpecStmt>)>,
    else_body: Option<Seq<SpecStmt>>,
    st: State,
) -> Ran<Option<Signal>>
    decreases budget(ctx, st), 6nat,
{
    let c = sem_expr(ctx, condition, st);
    match c.result {
        Err(e) => failed(c.state, e),
        Ok(v) => if truthy(v) {
            sem_block(ctx, then_body, later(st, c.state))
        } else {
            sem_clauses(ctx, elseif_clauses, 0, else_body, later(st, c.state))
        },
    }
}

/// The number that `e` evaluates to; `what` is the message of the type error
/// for any other value.
#[verifier::opaque]
pub open spec fn sem_bound(ctx: Context, e: SpecExpr, what: Seq<char>, span: Span, st: State) -> Ran<
    u64,
>
    decreases budget(ctx, st), 4nat,
{
    let r = sem_expr(ctx, e, st);
    match r.result {
        Err(e) => failed(r.state, e),
        Ok(SpecValue::Number(n)) => done(r.state, n),
        Ok(_) => failed(r.state, type_error(what, span)),
    }
}

/// The pattern of the number one, the step of a `for` loop that names none.
pub const ONE: u64 = 0x3FF0_0000_0000_0000;

/// `for var = start, limit [, step]`: the three bounds are evaluated in this
/// order and must be numbers, the step not zero; then the loop runs in a
/// scope of its own.
#[verifier::opaque]
pub open spec fn sem_numeric_for(
    ctx: Context,
    var: Seq<char>,
    start: SpecExpr,
    limit: SpecExpr,
    step: Option<SpecExpr>,
    body: Seq<SpecStmt>,
    span: Span,
    st: State,
) -> Ran<Option<Signal>>
    decreases budget(ctx, st), 6nat,
{
    let a = sem_bound(ctx, start, "for start must be a number"@, span, st);
    match a.result {
        Err(e) => failed(a.state, e),
        Ok(from) => {
            let b = sem_bound(ctx, limit, "for limit must be a number"@, span, later(st, a.state));
            match b.result {
                Err(e) => failed(b.state, e),
                Ok(to) => {
                    let c = match step {
                        None => done(later(st, b.state), ONE),
                        Some(e) => sem_bound(
                            ctx,
                            e,
                            "for step must be a number"@,
                            span,
                            later(st, b.state),
                        ),
                    };
                    match c.result {
                        Err(e) => failed(c.state, e),
                        Ok(by) => if is_zero(by) {
                            failed(c.state, runtime_error("for step cannot be zero"@, span))
                        } else {
                            let opened = later(st, c.state);
                            sem_for(
                                ctx,
                                var,
                                from,
                                to,
                                by,
                                body,
                                span,
                                with_scopes(opened, env_push(opened.scopes)),
                            )
                        },
                    }
                },
            }
        },
    }
}

/// `build name(args)`: the blueprint is looked up, then the arguments are
/// evaluated, then it is invoked, and what it returns is dropped.
#[verifier::opaque]
pub open spec fn sem_build(ctx: Context, name: Seq<char>, args: Seq<SpecExpr>, span: Span, st: State) -> Ran<
    Option<Signal>,
>
    decreases budget(ctx, st), 6nat,
{
    if !has_key(st.blueprints, name) {
        failed(st, name_error(framed("undefined blueprint '"@, name, "'"@), span))
    } else {
        let proc = lookup(st.blueprints, name)->0;
        let a = sem_exprs(ctx, args, 0, st, Seq::empty());
        match a.result {
            Err(e) => failed(a.state, e),
            Ok(values) => {
                let r = sem_invoke(ctx, proc, values, later(st, a.state));
                match r.result {
                    Err(e) => failed(r.state, e),
                    Ok(_) => done(r.state, None),
                }
            },
        }
    }
}

/// `return [value]`.
#[verifier::opaque]
pub open spec fn sem_return(ctx: Context, value: Option<SpecExpr>, st: State) -> Ran<Option<Signal>>
    decreases budget(ctx, st), 6nat,
{
    match value {
        None => done(st, Some(Signal::Return(SpecValue::Nil))),
        Some(e) => {
            let r = sem_expr(ctx, e, st);
            match r.result {
                Err(e) => failed(r.state, e),
                Ok(v) => done(r.state, Some(Signal::Return(v))),
            }
        },
    }
}

/// The state after a blueprint is defined; an earlier one of that name is
/// replaced.
pub open spec fn defined(st: State, name: Seq<char>, params: Seq<Seq<char>>, body: Seq<SpecStmt>) -> State {
    State {
        scopes: st.scopes,
        blueprints: stored(st.blueprints, name, Procedure { params, body }),
        count: st.count,
        calls: st.calls,
    }
}

/// What a statement does after its instruction has been counted.
#[verifier::opaque]
pub open spec fn sem_counted(ctx: Context, s: SpecStmt, st: State) -> Ran<Option<Signal>>
    decreases budget(ctx, st), 7nat,
{
    match s {
        SpecStmt::LocalDecl { name, init, span } => sem_local(ctx, name, init, st),
        SpecStmt::Assign { target, value, span } => sem_assignment(ctx, target, value, span, st),
        SpecStmt::ExprStmt { expr, span } => sem_expression(ctx, expr, st),
        SpecStmt::If { condition, then_body, elseif_clauses, else_body, span } => sem_if(
            ctx,
            condition,
            then_body,
            elseif_clauses,
            else_body,
            st,
        ),
        SpecStmt::While { condition, body, span } => sem_while(ctx, condition, body, span, st),
        SpecStmt::NumericFor { var, start, limit, step, body, span } => sem_numeric_for(
            ctx,
            var,
            start,
            limit,
            step,
            body,
            span,
            st,
        ),
        SpecStmt::GenericFor { span, .. } => failed(
            st,
            runtime_error("generic for not yet implemented"@, span),
        ),
        SpecStmt::RepeatUntil { body, condition, span } => sem_repeat(ctx, body, condition, span, st),
        SpecStmt::Blueprint { name, params, body, span } => done(
            defined(st, name, params, body),
            None,
        ),
        SpecStmt::Build { name, args, span } => sem_build(ctx, name, args, span, st),
        SpecStmt::Return { value, span } => sem_return(ctx, value, st),
        SpecStmt::Break { span } => done(st, Some(Signal::Break)),
        SpecStmt::Continue { span } => done(st, Some(Signal::Continue)),
    }
}

/// The position a statement was read at.
pub open spec fn stmt_span(s: SpecStmt) -> Span {
    match s {
        SpecStmt::LocalDecl { span, .. } => span,
        SpecStmt::Assign { span, .. } => span,
        SpecStmt::ExprStmt { span, .. } => span,
        SpecStmt::If { span, .. } => span,
        SpecStmt::While { span, .. } => span,
        SpecStmt::NumericFor { span, .. } => span,
        SpecStmt::GenericFor { span, .. } => span,
        SpecStmt::RepeatUntil { span, .. } => span,
        SpecStmt::Blueprint { span, .. } => span,
        SpecStmt::Build { span, .. } => span,
        SpecStmt::Return { span, .. } => span,
        SpecStmt::Break { span } => span,
        SpecStmt::Continue { span } => span,
    }
}

/// What a statement does: its instruction is counted, then it runs.
#[verifier::opaque]
pub open spec fn sem_stmt(ctx: Context, s: SpecStmt, st: State) -> Ran<Option<Signal>>
    decreases budget(ctx, st), 0nat, s,
{
    let t = tick(ctx, st, stmt_span(s));
    match t.result {
        Err(e) => failed(t.state, e),
        Ok(_) => sem_counted(ctx, s, t.state),
    }
}

/// What the statements of a program from `from` on lead to: the value of the
/// first `return`, else `nil`; `break` and `continue` outside a loop fail.
#[verifier::opaque]
pub open spec fn sem_top(ctx: Context, stmts: Seq<SpecStmt>, from: int, st: State) -> Ran<SpecValue>
    decreases stmts.len() - from,
{
    if from < 0 || from >= stmts.len() {
        done(st, SpecValue::Nil)
    } else {
        let r = sem_stmt(ctx, stmts[from], st);
        match r.result {
            Err(e) => failed(r.state, e),
            Ok(Some(Signal::Return(v))) => done(r.state, v),
            Ok(Some(_)) => failed(
                r.state,
                error_at(ErrorKind::Runtime, "break/continue outside of loop"@, 0, 0),
            ),
            Ok(None) => sem_top(ctx, stmts, from + 1, r.state),
        }
    }
}

/// The state that a run of a program begins in: the count starts from zero
/// and no host function has been called.
pub open spec fn fresh(st: State) -> State {
    State { scopes: st.scopes, blueprints: st.blueprints, count: 0, calls: Seq::empty() }
}

/// What running a program leads to: the count starts from zero, and the
/// calls of host functions are recorded from the first one of this run.
pub open spec fn sem_program(ctx: Context, stmts: Seq<SpecStmt>, st: State) -> Ran<SpecValue> {
    sem_top(ctx, stmts, 0, fresh(st))
}

} // verus!
