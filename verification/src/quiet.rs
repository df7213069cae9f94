//! Programs that ask of the embedder only what it answers in one way: they
//! call no host function that may give different replies to equal arguments,
//! and they use the arithmetic and the number printer only where these give
//! one answer for each input.
use vstd::prelude::*;
use crate::ast::{BinOp, SpecExpr, SpecStmt};
use crate::semantics::Procedure;

verus! {

/// The terms on which a program is quiet.
pub ghost struct Terms {
    /// Whether the program may use the operators that are computed by the
    /// embedder's arithmetic and number printer.
    pub arith: bool,
    /// The names of the host functions that the program may not call.
    pub wild: Set<Seq<char>>,
}

/// Whether an operator is computed without the embedder's arithmetic and
/// number printer: the comparisons, `and` and `or`.
pub open spec fn plain_op(op: BinOp) -> bool {
    match op {
        BinOp::Eq | BinOp::NotEq | BinOp::Lt | BinOp::LtEq | BinOp::Gt | BinOp::GtEq => true,
        BinOp::And | BinOp::Or => true,
        _ => false,
    }
}

/// Whether a call of `callee` calls no host function that the terms leave
/// out: `callee` names the built-in `vec3`, or is none of the names left
/// out, or is no name.
pub open spec fn quiet_callee(callee: SpecExpr, t: Terms) -> bool {
    match callee {
        SpecExpr::Ident { name, .. } => name == "vec3"@ || !t.wild.contains(name),
        _ => true,
    }
}

/// Whether an expression is quiet: it calls no host function that the terms
/// leave out, and, unless the terms allow them, it holds no operator that is
/// computed by the embedder's arithmetic or number printer.
pub open spec fn quiet(e: SpecExpr, t: Terms) -> bool
    decreases e,
{
    match e {
        SpecExpr::BinaryOp { left, op, right, .. } => (t.arith || plain_op(op)) && quiet(
            *left,
            t,
        ) && quiet(*right, t),
        SpecExpr::UnaryOp { operand, .. } => quiet(*operand, t),
        SpecExpr::Call { callee, args, .. } => quiet_callee(*callee, t) && quiet_all(args, t),
        SpecExpr::FieldAccess { object, .. } => quiet(*object, t),
        SpecExpr::IndexAccess { object, index, .. } => quiet(*object, t) && quiet(
            *index,
            t,
        ),
        SpecExpr::MethodCall { object, args, .. } => quiet(*object, t) && quiet_all(
            args,
            t,
        ),
        SpecExpr::ArrayLit { elements, .. } => quiet_all(elements, t),
        SpecExpr::TableLit { fields, .. } => quiet_fields(fields, t),
        _ => true,
    }
}

/// Whether every expression of a list is quiet.
pub open spec fn quiet_all(list: Seq<SpecExpr>, t: Terms) -> bool
    decreases list,
{
    forall|i: int| 0 <= i < list.len() ==> quiet(#[trigger] list[i], t)
}

/// Whether the expression of every field is quiet.
pub open spec fn quiet_fields(fields: Seq<(Seq<char>, SpecExpr)>, t: Terms) -> bool
    decreases fields,
{
    forall|i: int| 0 <= i < fields.len() ==> quiet((#[trigger] fields[i]).1, t)
}

/// Whether an expression that may be missing is quiet.
pub open spec fn quiet_option(e: Option<SpecExpr>, t: Terms) -> bool {
    match e {
        Some(x) => quiet(x, t),
        None => true,
    }
}

/// Whether a statement is quiet: its expressions and the statements in it
/// are quiet, the body of a blueprint that it defines too. A numeric `for`
/// steps by the embedder's arithmetic, so that it is quiet only where the
/// terms allow that.
pub open spec fn quiet_stmt(s: SpecStmt, t: Terms) -> bool
    decreases s,
{
    match s {
        SpecStmt::LocalDecl { init, .. } => quiet_option(init, t),
        SpecStmt::Assign { target, value, .. } => quiet(target, t) && quiet(value, t),
        SpecStmt::ExprStmt { expr, .. } => quiet(expr, t),
        SpecStmt::If { condition, then_body, elseif_clauses, else_body, .. } => {
            &&& quiet(condition, t)
            &&& quiet_stmts(then_body, t)
            &&& quiet_clauses(elseif_clauses, t)
            &&& quiet_block(else_body, t)
        },
        SpecStmt::While { condition, body, .. } => quiet(condition, t) && quiet_stmts(
            body,
            t,
        ),
        SpecStmt::NumericFor { start, limit, step, body, .. } => {
            &&& t.arith
            &&& quiet(start, t)
            &&& quiet(limit, t)
            &&& quiet_option(step, t)
            &&& quiet_stmts(body, t)
        },
        SpecStmt::RepeatUntil { body, condition, .. } => quiet(condition, t) && quiet_stmts(
            body,
            t,
        ),
        SpecStmt::Return { value, .. } => quiet_option(value, t),
        SpecStmt::Blueprint { body, .. } => quiet_stmts(body, t),
        SpecStmt::Build { args, .. } => quiet_all(args, t),
        _ => true,
    }
}

/// Whether every statement of a list is quiet.
pub open spec fn quiet_stmts(list: Seq<SpecStmt>, t: Terms) -> bool
    decreases list,
{
    forall|i: int| 0 <= i < list.len() ==> quiet_stmt(#[trigger] list[i], t)
}

/// Whether the condition and the body of every clause are quiet.
pub open spec fn quiet_clauses(clauses: Seq<(SpecExpr, Seq<SpecStmt>)>, t: Terms) -> bool
    decreases clauses,
{
    forall|i: int|
        0 <= i < clauses.len() ==> quiet((#[trigger] clauses[i]).0, t) && quiet_stmts(
            clauses[i].1,
            t,
        )
}

/// Whether a block that may be missing is quiet.
pub open spec fn quiet_block(b: Option<Seq<SpecStmt>>, t: Terms) -> bool
    decreases b,
{
    match b {
        Some(body) => quiet_stmts(body, t),
        None => true,
    }
}

/// Whether the body of every blueprint is quiet.
pub open spec fn quiet_procs(procs: Seq<(Seq<char>, Procedure)>, t: Terms) -> bool {
    forall|i: int| 0 <= i < procs.len() ==> quiet_stmts((#[trigger] procs[i]).1.body, t)
}

} // verus!
