//! The tree-walking interpreter.
//!
//! Host functions, the arithmetic on numbers and the printing of numbers are
//! supplied by the embedder as closures. Every function here states what it
//! does whatever the closures return, and, where each closure gives one
//! answer for each input, that it computes exactly what
//! [`crate::semantics`] defines.
use vstd::prelude::*;
use vstd::string::*;
use crate::ast::{
    block_view,
    clauses_view,
    duplicate_names,
    duplicate_stmts,
    exprs_view,
    option_view,
    fields_view,
    names_view,
    stmts_view,
    BinOp,
    Expr,
    Program,
    Span,
    SpecExpr,
    SpecStmt,
    Stmt,
    UnaryOp,
};
use crate::environment::Environment;
use crate::error::{ErrorKind, GroveError, GroveResult, SpecError};
use crate::quiet::{
    plain_op, quiet, quiet_all, quiet_block, quiet_callee, quiet_clauses, quiet_fields,
    quiet_option, quiet_procs, quiet_stmt, quiet_stmts, Terms,
};
use crate::number::{capped, from_len, less, less_eq, nan, negate, to_index, zero, SIGN};
use crate::semantics::{
    binary_op,
    bind_params,
    budget,
    builtin_vec3,
    cannot_index,
    cannot_set_field,
    compare_op,
    done,
    element_of,
    extends,
    field_of,
    fresh,
    index_text,
    out_of_bounds,
    framed,
    name_error,
    numeric_op,
    defined,
    sem_assign,
    sem_assign_field,
    sem_assign_index,
    sem_assignment,
    sem_bound,
    sem_build,
    sem_expression,
    sem_if,
    sem_local,
    sem_numeric_for,
    sem_return,
    sem_block,
    sem_call,
    sem_clauses,
    sem_counted,
    sem_expr,
    sem_exprs,
    sem_fields,
    sem_for,
    sem_invoke,
    sem_program,
    sem_repeat,
    sem_stmt,
    sem_stmts,
    sem_top,
    sem_while,
    stmt_span,
    stored_element,
    symbol,
    tick,
    type_error,
    unary_op,
    with_scopes,
    write_back,
    ArithModel,
    Context,
    HostModel,
    Procedure,
    Calls,
    Ran,
    Signal,
    State,
    ONE,
};
use crate::text::{push_decimal, push_text, str_equal, text_less};
use crate::types::{
    first_named_is_key_index,
    format_fixed,
    format_model,
    format_total,
    has_key,
    key_index,
    lookup,
    push_value_text,
    stored,
    values_view,
    Entries,
    SpecValue,
    Table,
    Value,
};

verus! {

broadcast use vstd::std_specs::vec::group_vec_axioms;

/// A control-flow signal that a statement hands to what encloses it.
#[derive(Debug)]
pub enum ControlFlow {
    Return(Value),
    Break,
    Continue,
}

/// A blueprint: the names of its parameters and its body.
#[derive(Debug)]
pub struct Blueprint {
    pub params: Vec<String>,
    pub body: Vec<Stmt>,
}

/// The interpreter: the environment, the registered host functions, the
/// blueprints and the instruction budget; and, for the contracts alone, the
/// record of the calls of host functions that the current run has made.
///
/// `H` is the type of the host functions, `A` computes `a op b` on the bit
/// patterns of two numbers for the arithmetic operators, `D` prints a number.
pub struct Interpreter<H, A, D> {
    pub env: Environment,
    host_fns: Vec<(String, H)>,
    blueprints: Vec<(String, Blueprint)>,
    instruction_count: u64,
    instruction_limit: u64,
    arith: A,
    format: D,
    pub output: Vec<String>,
    calls: Ghost<Calls>,
}

impl View for ControlFlow {
    type V = Signal;

    open spec fn view(&self) -> Signal {
        match self {
            ControlFlow::Return(v) => Signal::Return(v@),
            ControlFlow::Break => Signal::Break,
            ControlFlow::Continue => Signal::Continue,
        }
    }
}

impl View for Blueprint {
    type V = Procedure;

    open spec fn view(&self) -> Procedure {
        Procedure { params: names_view(self.params@), body: stmts_view(self.body@) }
    }
}

/// What the result of an evaluation stands for.
pub open spec fn value_result(r: GroveResult<Value>) -> Result<SpecValue, SpecError> {
    match r {
        Ok(v) => Ok(v@),
        Err(e) => Err(e@),
    }
}

/// What the result of a statement stands for.
pub open spec fn signal_result(r: GroveResult<Option<ControlFlow>>) -> Result<
    Option<Signal>,
    SpecError,
> {
    match r {
        Ok(Some(s)) => Ok(Some(s@)),
        Ok(None) => Ok(None),
        Err(e) => Err(e@),
    }
}

/// What the reply of a host function stands for.
pub open spec fn reply_view(r: Result<Value, String>) -> Result<SpecValue, Seq<char>> {
    match r {
        Ok(v) => Ok(v@),
        Err(message) => Err(message@),
    }
}

/// Whether a host function accepts every sequence of arguments.
pub open spec fn host_total<H: Fn(&Vec<Value>) -> Result<Value, String>>(h: H) -> bool {
    forall|args: Vec<Value>| call_requires(h, (&args,))
}

/// Whether a host function gives one reply for each sequence of arguments.
pub open spec fn host_fixed<H: Fn(&Vec<Value>) -> Result<Value, String>>(h: H) -> bool {
    forall|a: Vec<Value>, b: Vec<Value>, x: Result<Value, String>, y: Result<Value, String>|
        values_view(a@) == values_view(b@) && call_ensures(h, (&a,), x) && call_ensures(
            h,
            (&b,),
            y,
        ) ==> reply_view(x) == reply_view(y)
}

/// The reply of a host function to `args`.
pub open spec fn host_reply<H: Fn(&Vec<Value>) -> Result<Value, String>>(
    h: H,
    args: Seq<SpecValue>,
) -> Result<SpecValue, Seq<char>> {
    let p = choose|p: (Vec<Value>, Result<Value, String>)|
        values_view(p.0@) == args && call_ensures(h, (&p.0,), p.1);
    reply_view(p.1)
}

/// What a host function computes.
pub open spec fn host_model<H: Fn(&Vec<Value>) -> Result<Value, String>>(h: H) -> HostModel {
    |args: Seq<SpecValue>| host_reply(h, args)
}

/// Whether the arithmetic accepts every operator and pair of patterns.
pub open spec fn arith_total<A: Fn(BinOp, u64, u64) -> u64>(a: A) -> bool {
    forall|op: BinOp, x: u64, y: u64| call_requires(a, (op, x, y))
}

/// Whether the arithmetic gives one result for each operator and pair of
/// patterns.
pub open spec fn arith_fixed<A: Fn(BinOp, u64, u64) -> u64>(a: A) -> bool {
    forall|op: BinOp, x: u64, y: u64, r1: u64, r2: u64|
        call_ensures(a, (op, x, y), r1) && call_ensures(a, (op, x, y), r2) ==> r1 == r2
}

/// The result of the arithmetic for `x op y`.
pub open spec fn arith_result<A: Fn(BinOp, u64, u64) -> u64>(a: A, op: BinOp, x: u64, y: u64) -> u64 {
    choose|r: u64| call_ensures(a, (op, x, y), r)
}

/// What the arithmetic computes.
pub open spec fn arith_model<A: Fn(BinOp, u64, u64) -> u64>(a: A) -> ArithModel {
    |op: BinOp, x: u64, y: u64| arith_result(a, op, x, y)
}

/// The registered host functions, each by what it computes.
pub open spec fn hosts_view<H: Fn(&Vec<Value>) -> Result<Value, String>>(
    hosts: Seq<(String, H)>,
) -> Seq<(Seq<char>, HostModel)> {
    Seq::new(hosts.len(), |i: int| (hosts[i].0@, host_model(hosts[i].1)))
}

/// The blueprints, each by its content.
pub open spec fn blueprints_view(blueprints: Seq<(String, Blueprint)>) -> Seq<
    (Seq<char>, Procedure),
> {
    Seq::new(blueprints.len(), |i: int| (blueprints[i].0@, blueprints[i].1@))
}

/// The place of the first of `entries` named `name`.
fn find_named<X>(entries: &Vec<(String, X)>, name: &str) -> (r: Option<usize>)
    ensures
        match r {
            Some(i) => i < entries@.len() && entries@[i as int].0@ == name@ && forall|j: int|
                0 <= j < i ==> (#[trigger] entries@[j]).0@ != name@,
            None => forall|j: int| 0 <= j < entries@.len() ==> (#[trigger] entries@[j]).0@ != name@,
        },
{
    let mut i: usize = 0;
    while i < entries.len()
        invariant
            i <= entries@.len(),
            forall|j: int| 0 <= j < i ==> (#[trigger] entries@[j]).0@ != name@,
        decreases entries@.len() - i,
    {
        if str_equal(entries[i].0.as_str(), name) {
            return Some(i);
        }
        i += 1;
    }
    None
}

/// `prefix`, then `name`, then `suffix`.
fn framed_text(prefix: &str, name: &str, suffix: &str) -> (s: String)
    ensures
        s@ == framed(prefix@, name@, suffix@),
{
    let mut s = String::new();
    push_text(&mut s, prefix);
    push_text(&mut s, name);
    push_text(&mut s, suffix);
    assert(s@ =~= framed(prefix@, name@, suffix@));
    s
}

/// The symbol an operator is written with in messages.
fn symbol_text(op: BinOp) -> (s: &'static str)
    ensures
        s@ == symbol(op),
{
    match op {
        BinOp::Add => "+",
        BinOp::Sub => "-",
        BinOp::Mul => "*",
        BinOp::Div => "/",
        BinOp::Mod => "%",
        BinOp::Pow => "^",
        BinOp::Concat => "..",
        BinOp::Eq => "==",
        BinOp::NotEq => "~=",
        BinOp::Lt => "<",
        BinOp::LtEq => "<=",
        BinOp::Gt => ">",
        BinOp::GtEq => ">=",
        BinOp::And => "and",
        BinOp::Or => "or",
    }
}

/// `-x`, `not x`, `#x` for the value of `x`.
fn eval_unary_op(op: UnaryOp, val: Value, span: &Span) -> (r: GroveResult<Value>)
    ensures
        value_result(r) == unary_op(op, val@, *span),
        r is Err ==> r->Err_0.kind != ErrorKind::InstructionLimit,
{
    reveal(unary_op);
    match op {
        UnaryOp::Neg => {
            if let Value::Number(n) = val {
                Ok(Value::Number(negate(n)))
            } else {
                let mut m = String::new();
                push_text(&mut m, "cannot negate ");
                push_text(&mut m, val.type_label());
                assert(m@ =~= "cannot negate "@ + crate::types::type_label_of(val@));
                Err(GroveError::type_error(m.as_str(), span.line, span.column))
            }
        },
        UnaryOp::Not => Ok(Value::Bool(!val.is_truthy())),
        UnaryOp::Len => {
            match &val {
                Value::String(s) => {
                    assert(val@ == SpecValue::String(s@));
                    Ok(Value::Number(from_len(s.as_str().as_bytes().len())))
                },
                Value::Array(arr) => {
                    assert(val@ == SpecValue::Array(values_view(arr@)));
                    Ok(Value::Number(from_len(arr.len())))
                },
                Value::Table(map) => {
                    assert(val@ == SpecValue::Table(map@));
                    Ok(Value::Number(from_len(map.len())))
                },
                _ => {
                    let mut m = String::new();
                    push_text(&mut m, "cannot get length of ");
                    push_text(&mut m, val.type_label());
                    assert(m@ =~= "cannot get length of "@ + crate::types::type_label_of(val@));
                    Err(GroveError::type_error(m.as_str(), span.line, span.column))
                },
            }
        },
    }
}

/// The built-in `vec3(x, y, z)`.
fn builtin_vec3_value(args: &Vec<Value>, span: &Span) -> (r: GroveResult<Value>)
    ensures
        value_result(r) == builtin_vec3(values_view(args@), *span),
        r is Err ==> r->Err_0.kind != ErrorKind::InstructionLimit,
{
    reveal(builtin_vec3);
    if args.len() != 3 {
        let mut m = String::new();
        push_text(&mut m, "vec3() expects 3 arguments, got ");
        push_decimal(&mut m, args.len() as u64);
        assert(m@ =~= "vec3() expects 3 arguments, got "@ + crate::text::decimal(
            values_view(args@).len(),
        ));
        return Err(GroveError::runtime(m.as_str(), span.line, span.column));
    }
    let x = match args[0].as_number() {
        Some(x) => x,
        None => {
            return Err(GroveError::type_error("vec3 x must be a number", span.line, span.column));
        },
    };
    let y = match args[1].as_number() {
        Some(y) => y,
        None => {
            return Err(GroveError::type_error("vec3 y must be a number", span.line, span.column));
        },
    };
    let z = match args[2].as_number() {
        Some(z) => z,
        None => {
            return Err(GroveError::type_error("vec3 z must be a number", span.line, span.column));
        },
    };
    Ok(Value::Vec3(x, y, z))
}

/// The error for an index applied to a value it is not defined on.
fn cannot_index_error(obj: &Value, idx: &Value, span: &Span) -> (e: GroveError)
    ensures
        e@ == cannot_index(obj@, idx@, *span),
{
    let mut m = String::new();
    push_text(&mut m, "cannot index ");
    push_text(&mut m, obj.type_label());
    push_text(&mut m, " with ");
    push_text(&mut m, idx.type_label());
    assert(m@ =~= "cannot index "@ + crate::types::type_label_of(obj@) + " with "@
        + crate::types::type_label_of(idx@));
    GroveError::type_error(m.as_str(), span.line, span.column)
}

/// The error for a field set on a value that is no table.
fn cannot_set_field_error(field: &str, obj: &Value, at: &Span) -> (e: GroveError)
    ensures
        e@ == cannot_set_field(field@, obj@, *at),
{
    let mut m = String::new();
    push_text(&mut m, "cannot set field '");
    push_text(&mut m, field);
    push_text(&mut m, "' on ");
    push_text(&mut m, obj.type_label());
    assert(m@ =~= "cannot set field '"@ + field@ + "' on "@ + crate::types::type_label_of(obj@));
    GroveError::type_error(m.as_str(), at.line, at.column)
}

/// The error for a store into an array of `len` elements at the number `n`,
/// which names none of them.
fn out_of_bounds_error(n: u64, len: usize, at: &Span) -> (e: GroveError)
    ensures
        e@ == out_of_bounds(n, len as nat, *at),
{
    let mut m = String::new();
    push_text(&mut m, "array index ");
    let ghost head = m@;
    if nan(n) || n >= SIGN {
        push_text(&mut m, "0");
    } else {
        push_decimal(&mut m, capped(n) as u64);
    }
    assert(m@ =~= head + index_text(n));
    push_text(&mut m, " out of bounds (len ");
    push_decimal(&mut m, len as u64);
    push_text(&mut m, ")");
    assert(m@ =~= "array index "@ + index_text(n) + " out of bounds (len "@
        + crate::text::decimal(len as nat) + ")"@);
    GroveError::runtime(m.as_str(), at.line, at.column)
}

/// `obj` with `val` stored at `idx`: an element of an array, in bounds, or an
/// entry of a table.
fn store_element(obj: Value, idx: &Value, val: Value, at: &Span) -> (r: GroveResult<Value>)
    ensures
        value_result(r) == stored_element(obj@, idx@, val@, *at),
        r is Err ==> r->Err_0.kind != ErrorKind::InstructionLimit,
{
    reveal(stored_element);
    match (obj, idx) {
        (Value::Array(arr), Value::Number(n)) => {
            let mut arr = arr;
            match to_index(*n) {
                Some(i) if i < arr.len() => {
                    let ghost before = values_view(arr@);
                    arr[i] = val;
                    assert(values_view(arr@) =~= before.update(i as int, val@));
                    Ok(Value::Array(arr))
                },
                _ => {
                    assert(values_view(arr@).len() == arr@.len());
                    Err(out_of_bounds_error(*n, arr.len(), at))
                },
            }
        },
        (Value::Table(map), Value::String(key)) => {
            let mut map = map;
            map.insert(key.as_str(), val);
            Ok(Value::Table(map))
        },
        (other, _) => Err(cannot_index_error(&other, idx, at)),
    }
}

/// `obj.field` for the value of `obj`.
fn field_value(obj: &Value, field: &str, span: &Span) -> (r: GroveResult<Value>)
    ensures
        value_result(r) == field_of(obj@, field@, *span),
        r is Err ==> r->Err_0.kind != ErrorKind::InstructionLimit,
{
    reveal(field_of);
    match obj {
        Value::Vec3(x, y, z) => {
            if str_equal(field, "x") {
                Ok(Value::Number(*x))
            } else if str_equal(field, "y") {
                Ok(Value::Number(*y))
            } else if str_equal(field, "z") {
                Ok(Value::Number(*z))
            } else {
                let m = framed_text("vec3 has no field '", field, "'");
                Err(GroveError::type_error(m.as_str(), span.line, span.column))
            }
        },
        Value::Table(map) => {
            match map.get(field) {
                Some(v) => Ok(v.duplicate()),
                None => Ok(Value::Nil),
            }
        },
        _ => {
            let mut m = String::new();
            push_text(&mut m, "cannot access field '");
            push_text(&mut m, field);
            push_text(&mut m, "' on ");
            push_text(&mut m, obj.type_label());
            assert(m@ =~= "cannot access field '"@ + field@ + "' on "@
                + crate::types::type_label_of(obj@));
            Err(GroveError::type_error(m.as_str(), span.line, span.column))
        },
    }
}

/// `obj[idx]` for the values of `obj` and `idx`.
fn element_value(obj: &Value, idx: &Value, span: &Span) -> (r: GroveResult<Value>)
    ensures
        value_result(r) == element_of(obj@, idx@, *span),
        r is Err ==> r->Err_0.kind != ErrorKind::InstructionLimit,
{
    reveal(element_of);
    match (obj, idx) {
        (Value::Array(arr), Value::Number(n)) => {
            assert(obj@ == SpecValue::Array(values_view(arr@)));
            match to_index(*n) {
                Some(i) if i < arr.len() => Ok(arr[i].duplicate()),
                _ => Ok(Value::Nil),
            }
        },
        (Value::Table(map), Value::String(key)) => {
            assert(obj@ == SpecValue::Table(map@));
            match map.get(key.as_str()) {
                Some(v) => Ok(v.duplicate()),
                None => Ok(Value::Nil),
            }
        },
        (Value::String(s), Value::Number(n)) => {
            match to_index(*n) {
                Some(i) if i < s.as_str().unicode_len() => {
                    let mut t = String::new();
                    t.push(s.as_str().get_char(i));
                    assert(t@ =~= seq![s@[i as int]]);
                    Ok(Value::String(t))
                },
                _ => Ok(Value::Nil),
            }
        },
        _ => Err(cannot_index_error(obj, idx, span)),
    }
}

/// `<`, `<=`, `>`, `>=` on two values.
fn compare_values(op: BinOp, left: &Value, right: &Value, span: &Span) -> (r: GroveResult<Value>)
    requires
        op == BinOp::Lt || op == BinOp::LtEq || op == BinOp::Gt || op == BinOp::GtEq,
    ensures
        value_result(r) == compare_op(op, left@, right@, *span),
        r is Err ==> r->Err_0.kind != ErrorKind::InstructionLimit,
{
    reveal(compare_op);
    match (left, right) {
        (Value::Number(a), Value::Number(b)) => {
            let result = match op {
                BinOp::Lt => less(*a, *b),
                BinOp::LtEq => less_eq(*a, *b),
                BinOp::Gt => less(*b, *a),
                _ => less_eq(*b, *a),
            };
            Ok(Value::Bool(result))
        },
        (Value::String(a), Value::String(b)) => {
            let result = match op {
                BinOp::Lt => text_less(a.as_str(), b.as_str()),
                BinOp::LtEq => !text_less(b.as_str(), a.as_str()),
                BinOp::Gt => text_less(b.as_str(), a.as_str()),
                _ => !text_less(a.as_str(), b.as_str()),
            };
            Ok(Value::Bool(result))
        },
        _ => {
            let mut m = String::new();
            push_text(&mut m, "cannot compare ");
            push_text(&mut m, left.type_label());
            push_text(&mut m, " and ");
            push_text(&mut m, right.type_label());
            push_text(&mut m, " with '");
            push_text(&mut m, symbol_text(op));
            push_text(&mut m, "'");
            assert(m@ =~= "cannot compare "@ + crate::types::type_label_of(left@) + " and "@
                + crate::types::type_label_of(right@) + " with '"@ + symbol(op) + "'"@);
            Err(GroveError::type_error(m.as_str(), span.line, span.column))
        },
    }
}

/// Whether a result is an instruction-limit error.
pub open spec fn is_limit<T>(r: GroveResult<T>) -> bool {
    r is Err && r->Err_0.kind == ErrorKind::InstructionLimit
}

/// The run that ends in `st` with the value or error `r`.
pub open spec fn ran_value(st: State, r: GroveResult<Value>) -> Ran<SpecValue> {
    Ran { state: st, result: value_result(r) }
}

/// The run that ends in `st` with the signal or error `r`.
pub open spec fn ran_signal(st: State, r: GroveResult<Option<ControlFlow>>) -> Ran<Option<Signal>> {
    Ran { state: st, result: signal_result(r) }
}

/// The run that ends in `st` with the values or error `r`.
pub open spec fn ran_values(st: State, r: GroveResult<Vec<Value>>) -> Ran<Seq<SpecValue>> {
    Ran {
        state: st,
        result: match r {
            Ok(values) => Ok(values_view(values@)),
            Err(e) => Err(e@),
        },
    }
}

/// The run that ends in `st` with the number or error `r`.
pub open spec fn ran_number(st: State, r: GroveResult<u64>) -> Ran<u64> {
    Ran {
        state: st,
        result: match r {
            Ok(n) => Ok(n),
            Err(e) => Err(e@),
        },
    }
}

/// The run that ends in `st` with the table or error `r`.
pub open spec fn ran_table(st: State, r: GroveResult<Table>) -> Ran<Entries> {
    Ran {
        state: st,
        result: match r {
            Ok(t) => Ok(t@),
            Err(e) => Err(e@),
        },
    }
}

/// The position a statement was read at.
fn span_of_stmt(stmt: &Stmt) -> (s: Span)
    ensures
        s == stmt_span(stmt@),
{
    match stmt {
        Stmt::LocalDecl { span, .. } => *span,
        Stmt::Assign { span, .. } => *span,
        Stmt::ExprStmt { span, .. } => *span,
        Stmt::If { span, .. } => *span,
        Stmt::While { span, .. } => *span,
        Stmt::NumericFor { span, .. } => *span,
        Stmt::GenericFor { span, .. } => *span,
        Stmt::RepeatUntil { span, .. } => *span,
        Stmt::Blueprint { span, .. } => *span,
        Stmt::Build { span, .. } => *span,
        Stmt::Return { span, .. } => *span,
        Stmt::Break { span } => *span,
        Stmt::Continue { span } => *span,
    }
}

/// A host function that gives one reply for each input gives the reply that
/// its model gives.
proof fn host_reply_is<H: Fn(&Vec<Value>) -> Result<Value, String>>(
    h: H,
    args: Vec<Value>,
    r: Result<Value, String>,
)
    requires
        host_fixed(h),
        call_ensures(h, (&args,), r),
    ensures
        reply_view(r) == host_model(h)(values_view(args@)),
{
    let shown = values_view(args@);
    let w = (args, r);
    assert(values_view(w.0@) == shown && call_ensures(h, (&w.0,), w.1));
    let p = choose|p: (Vec<Value>, Result<Value, String>)|
        values_view(p.0@) == shown && call_ensures(h, (&p.0,), p.1);
    assert(values_view(p.0@) == shown && call_ensures(h, (&p.0,), p.1));
}

/// Whether the first of `hosts` named `name` stands at `i`.
pub open spec fn named_first<H: Fn(&Vec<Value>) -> Result<Value, String>>(
    hosts: Seq<(String, H)>,
    name: Seq<char>,
    i: int,
) -> bool {
    &&& 0 <= i < hosts.len()
    &&& hosts[i].0@ == name
    &&& forall|j: int| 0 <= j < i ==> (#[trigger] hosts[j]).0@ != name
}

/// The names of the host functions that may give different replies to equal
/// arguments; under each name the first function counts, which is the one
/// that is called.
pub open spec fn wild_names<H: Fn(&Vec<Value>) -> Result<Value, String>>(
    hosts: Seq<(String, H)>,
) -> Set<Seq<char>> {
    Set::new(
        |name: Seq<char>|
            exists|i: int| #[trigger] named_first(hosts, name, i) && !host_fixed(hosts[i].1),
    )
}

/// Whether every closure accepts every input.
#[verifier::opaque]
pub open spec fn all_total<
    H: Fn(&Vec<Value>) -> Result<Value, String>,
    A: Fn(BinOp, u64, u64) -> u64,
    D: Fn(u64) -> String,
>(hosts: Seq<(String, H)>, arith: A, format: D) -> bool {
    &&& forall|i: int| 0 <= i < hosts.len() ==> host_total((#[trigger] hosts[i]).1)
    &&& arith_total(arith)
    &&& format_total(format)
}

/// Whether every closure gives one answer for each input.
#[verifier::opaque]
pub open spec fn all_fixed<
    H: Fn(&Vec<Value>) -> Result<Value, String>,
    A: Fn(BinOp, u64, u64) -> u64,
    D: Fn(u64) -> String,
>(hosts: Seq<(String, H)>, arith: A, format: D) -> bool {
    &&& forall|i: int| 0 <= i < hosts.len() ==> host_fixed((#[trigger] hosts[i]).1)
    &&& arith_fixed(arith)
    &&& format_fixed(format)
}

/// The first host function of a name is what the context holds under it.
proof fn host_at<H: Fn(&Vec<Value>) -> Result<Value, String>>(
    hosts: Seq<(String, H)>,
    name: Seq<char>,
    i: int,
)
    requires
        0 <= i < hosts.len(),
        hosts[i].0@ == name,
        forall|j: int| 0 <= j < i ==> (#[trigger] hosts[j]).0@ != name,
    ensures
        has_key(hosts_view(hosts), name),
        key_index(hosts_view(hosts), name) == i,
        lookup(hosts_view(hosts), name) == Some(host_model(hosts[i].1)),
{
    let shown = hosts_view(hosts);
    assert(shown[i].0 == name);
    assert forall|j: int| 0 <= j < i implies (#[trigger] shown[j]).0 != name by {
        assert(hosts[j].0@ != name);
    }
    first_named_is_key_index(shown, name, i);
}

/// No host function of a name means that the context holds none under it.
proof fn host_absent<H: Fn(&Vec<Value>) -> Result<Value, String>>(
    hosts: Seq<(String, H)>,
    name: Seq<char>,
)
    requires
        forall|j: int| 0 <= j < hosts.len() ==> (#[trigger] hosts[j]).0@ != name,
    ensures
        !has_key(hosts_view(hosts), name),
{
    let shown = hosts_view(hosts);
    assert forall|j: int| 0 <= j < shown.len() implies (#[trigger] shown[j]).0 != name by {
        assert(hosts[j].0@ != name);
    }
}

/// The first blueprint of a name is what the state holds under it.
proof fn blueprint_at(blueprints: Seq<(String, Blueprint)>, name: Seq<char>, i: int)
    requires
        0 <= i < blueprints.len(),
        blueprints[i].0@ == name,
        forall|j: int| 0 <= j < i ==> (#[trigger] blueprints[j]).0@ != name,
    ensures
        has_key(blueprints_view(blueprints), name),
        key_index(blueprints_view(blueprints), name) == i,
        lookup(blueprints_view(blueprints), name) == Some(blueprints[i].1@),
{
    let shown = blueprints_view(blueprints);
    assert(shown[i].0 == name);
    assert forall|j: int| 0 <= j < i implies (#[trigger] shown[j]).0 != name by {
        assert(blueprints[j].0@ != name);
    }
    first_named_is_key_index(shown, name, i);
}

/// No blueprint of a name means that the state holds none under it.
proof fn blueprint_absent(blueprints: Seq<(String, Blueprint)>, name: Seq<char>)
    requires
        forall|j: int| 0 <= j < blueprints.len() ==> (#[trigger] blueprints[j]).0@ != name,
    ensures
        !has_key(blueprints_view(blueprints), name),
{
    let shown = blueprints_view(blueprints);
    assert forall|j: int| 0 <= j < shown.len() implies (#[trigger] shown[j]).0 != name by {
        assert(blueprints[j].0@ != name);
    }
}

impl<
    H: Fn(&Vec<Value>) -> Result<Value, String>,
    A: Fn(BinOp, u64, u64) -> u64,
    D: Fn(u64) -> String,
> Interpreter<H, A, D> {
    /// What a program runs against: what the closures compute, and the limit.
    pub closed spec fn context(&self) -> Context {
        Context {
            hosts: hosts_view(self.host_fns@),
            arith: arith_model(self.arith),
            format: format_model(self.format),
            limit: self.instruction_limit,
        }
    }

    /// What a program can change: the scopes, the blueprints, the count and
    /// the record of the calls of host functions.
    pub closed spec fn state(&self) -> State {
        State {
            scopes: self.env@,
            blueprints: blueprints_view(self.blueprints@),
            count: self.instruction_count,
            calls: self.calls@,
        }
    }

    /// The lines held in the `output` field.
    pub closed spec fn output_lines(&self) -> Seq<String> {
        self.output@
    }

    /// Whether every closure accepts every input.
    pub closed spec fn total(&self) -> bool {
        all_total(self.host_fns@, self.arith, self.format)
    }

    /// Whether every closure gives one answer for each input.
    pub closed spec fn fixed(&self) -> bool {
        all_fixed(self.host_fns@, self.arith, self.format)
    }

    /// Whether the arithmetic and the number printer give one answer for
    /// each input, whatever the host functions do.
    pub closed spec fn steady(&self) -> bool {
        arith_fixed(self.arith) && format_fixed(self.format)
    }

    /// The names of the registered host functions that may give different
    /// replies to equal arguments.
    pub closed spec fn wild(&self) -> Set<Seq<char>> {
        wild_names(self.host_fns@)
    }

    /// The terms on which a program is quiet for `self`: it may use the
    /// arithmetic and the number printer where they give one answer for each
    /// input, and it may call every host function but the wild ones.
    pub open spec fn terms(&self) -> Terms {
        Terms { arith: self.steady(), wild: self.wild() }
    }

    /// Whether every closure gives one answer for each input, or else the
    /// body of every blueprint defined so far is quiet.
    pub open spec fn settled(&self) -> bool {
        self.fixed() || quiet_procs(self.state().blueprints, self.terms())
    }

    /// Whether what the arithmetic and the number printer give is pinned.
    pub open spec fn pins_arith(&self) -> bool {
        self.fixed() || self.steady()
    }

    /// Whether what evaluating `e` does is pinned: every closure gives one
    /// answer for each input, or `e` and the blueprints defined so far are
    /// quiet, and so ask only the closures that do.
    pub open spec fn pins(&self, e: SpecExpr) -> bool {
        self.fixed() || (quiet(e, self.terms()) && self.settled())
    }

    /// [`Self::pins`], of a call of `callee` on arguments that are evaluated.
    pub open spec fn pins_call(&self, callee: SpecExpr) -> bool {
        self.fixed() || (quiet_callee(callee, self.terms()) && self.settled())
    }

    /// [`Self::pins`], of every expression of a list.
    pub open spec fn pins_all(&self, list: Seq<SpecExpr>) -> bool {
        self.fixed() || (quiet_all(list, self.terms()) && self.settled())
    }

    /// [`Self::pins`], of the expression of every field.
    pub open spec fn pins_fields(&self, fields: Seq<(Seq<char>, SpecExpr)>) -> bool {
        self.fixed() || (quiet_fields(fields, self.terms()) && self.settled())
    }

    /// [`Self::pins`], of an expression that may be missing.
    pub open spec fn pins_option(&self, e: Option<SpecExpr>) -> bool {
        self.fixed() || (quiet_option(e, self.terms()) && self.settled())
    }

    /// Whether what running `s` does is pinned: every closure gives one
    /// answer for each input, or `s` and the blueprints defined so far are
    /// quiet, and so ask only the closures that do.
    pub open spec fn pins_stmt(&self, s: SpecStmt) -> bool {
        self.fixed() || (quiet_stmt(s, self.terms()) && self.settled())
    }

    /// [`Self::pins_stmt`], of every statement of a list.
    pub open spec fn pins_stmts(&self, list: Seq<SpecStmt>) -> bool {
        self.fixed() || (quiet_stmts(list, self.terms()) && self.settled())
    }

    /// [`Self::pins_stmt`], of the condition and the body of every clause.
    pub open spec fn pins_clauses(&self, clauses: Seq<(SpecExpr, Seq<SpecStmt>)>) -> bool {
        self.fixed() || (quiet_clauses(clauses, self.terms()) && self.settled())
    }

    /// [`Self::pins_stmt`], of a block that may be missing.
    pub open spec fn pins_block(&self, b: Option<Seq<SpecStmt>>) -> bool {
        self.fixed() || (quiet_block(b, self.terms()) && self.settled())
    }

    /// Whether `self` has the closures, the limit and the output of `before`.
    pub closed spec fn same_setup(&self, before: &Self) -> bool {
        &&& self.host_fns == before.host_fns
        &&& self.arith == before.arith
        &&& self.format == before.format
        &&& self.instruction_limit == before.instruction_limit
        &&& self.output == before.output
    }

    /// Whether `self` may follow `before` in a run: nothing of the setup has
    /// changed, the count has not gone down, and the calls of host functions
    /// recorded before are still recorded, with none or more after them.
    pub open spec fn follows(&self, before: &Self) -> bool {
        &&& self.same_setup(before)
        &&& self.context() == before.context()
        &&& self.total() == before.total()
        &&& self.fixed() == before.fixed()
        &&& self.steady() == before.steady()
        &&& self.wild() == before.wild()
        &&& self.state().count >= before.state().count
        &&& extends(before.state().calls, self.state().calls)
    }

    /// The instruction budget is respected: a run that does not end in an
    /// instruction-limit error has not counted beyond the limit, and one that
    /// does has counted beyond it, unless the limit is the largest count
    /// there is.
    pub open spec fn bounded(&self, before: &Self, limit_hit: bool) -> bool {
        if limit_hit {
            self.state().count > self.context().limit || self.context().limit == u64::MAX
        } else {
            before.state().count <= self.context().limit ==> self.state().count
                <= self.context().limit
        }
    }

    /// The interpreter with the global scope alone, no host function, no
    /// blueprint and the limit of one million instructions.
    pub fn new(arith: A, format: D) -> (r: Self)
        requires
            arith_total(arith),
            format_total(format),
        ensures
            r.total(),
            arith_fixed(arith) && format_fixed(format) ==> r.fixed(),
            r.steady() == (arith_fixed(arith) && format_fixed(format)),
            r.wild() == Set::<Seq<char>>::empty(),
            r.state() == (State {
                scopes: seq![Entries::empty()],
                blueprints: Seq::empty(),
                count: 0,
                calls: Seq::empty(),
            }),
            r.context() == (Context {
                hosts: Seq::empty(),
                arith: arith_model(arith),
                format: format_model(format),
                limit: 1_000_000,
            }),
            r.output_lines().len() == 0,
    {
        reveal(all_total);
        reveal(all_fixed);
        let r = Self {
            env: Environment::new(),
            host_fns: Vec::new(),
            blueprints: Vec::new(),
            instruction_count: 0,
            instruction_limit: 1_000_000,
            arith,
            format,
            output: Vec::new(),
            calls: Ghost(Seq::empty()),
        };
        assert(blueprints_view(r.blueprints@) =~= Seq::empty());
        assert(hosts_view(r.host_fns@) =~= Seq::empty());
        assert(wild_names(r.host_fns@) =~= Set::<Seq<char>>::empty());
        r
    }

    /// The instruction limit.
    pub fn instruction_limit(&self) -> (n: u64)
        ensures
            n == self.context().limit,
    {
        self.instruction_limit
    }

    /// The instructions counted since the last run began.
    pub fn instruction_count(&self) -> (n: u64)
        ensures
            n == self.state().count,
    {
        self.instruction_count
    }

    /// Sets the instruction limit of the runs to come.
    pub fn set_instruction_limit(&mut self, limit: u64)
        ensures
            final(self).state() == old(self).state(),
            final(self).context() == (Context { limit, ..old(self).context() }),
            final(self).total() == old(self).total(),
            final(self).fixed() == old(self).fixed(),
            final(self).steady() == old(self).steady(),
            final(self).wild() == old(self).wild(),
    {
        self.instruction_limit = limit;
    }

    /// Registers `func` under `name`; an earlier function of that name is
    /// replaced.
    pub fn register_fn(&mut self, name: &str, func: H)
        requires
            host_total(func),
        ensures
            final(self).state() == old(self).state(),
            final(self).context() == (Context {
                hosts: stored(old(self).context().hosts, name@, host_model(func)),
                ..old(self).context()
            }),
            old(self).total() ==> final(self).total(),
            old(self).fixed() && host_fixed(func) ==> final(self).fixed(),
            final(self).steady() == old(self).steady(),
            final(self).wild().subset_of(
                if host_fixed(func) {
                    old(self).wild().remove(name@)
                } else {
                    old(self).wild().insert(name@)
                },
            ),
    {
        reveal(all_total);
        reveal(all_fixed);
        let ghost before = hosts_view(self.host_fns@);
        match find_named(&self.host_fns, name) {
            Some(i) => {
                proof {
                    host_at(self.host_fns@, name@, i as int);
                }
                self.host_fns[i] = (name.to_owned(), func);
                assert(hosts_view(self.host_fns@) =~= before.update(
                    i as int,
                    (name@, host_model(func)),
                ));
            },
            None => {
                proof {
                    host_absent(self.host_fns@, name@);
                }
                self.host_fns.push((name.to_owned(), func));
                assert(hosts_view(self.host_fns@) =~= before.push((name@, host_model(func))));
            },
        }
        proof {
            let earlier = old(self).host_fns@;
            let hosts = self.host_fns@;
            let bound = if host_fixed(func) {
                wild_names(earlier).remove(name@)
            } else {
                wild_names(earlier).insert(name@)
            };
            assert forall|n: Seq<char>| wild_names(hosts).contains(n) implies bound.contains(
                n,
            ) by {
                let k = choose|k: int| #[trigger]
                    named_first(hosts, n, k) && !host_fixed(hosts[k].1);
                if n == name@ {
                    assert(hosts[k].1 == func);
                } else {
                    assert(hosts[k] == earlier[k]);
                    assert forall|j: int| 0 <= j < k implies (#[trigger] earlier[j]).0@ != n by {
                        assert(hosts[j].0@ != n);
                    }
                    assert(named_first(earlier, n, k));
                }
            }
        }
    }

    /// Binds `name` to `value` in the innermost scope.
    pub fn set_global(&mut self, name: &str, value: Value)
        ensures
            final(self).follows(old(self)),
            final(self).state() == with_scopes(
                old(self).state(),
                crate::environment::env_define(old(self).state().scopes, name@, value@),
            ),
    {
        self.env.define(name, value);
    }

    /// Counts one instruction.
    fn tick(&mut self, line: usize, col: usize) -> (r: GroveResult<()>)
        ensures
            final(self).follows(old(self)),
            final(self).bounded(old(self), r is Err),
            r is Err ==> r->Err_0.kind == ErrorKind::InstructionLimit,
            r is Ok ==> old(self).state().count < final(self).state().count
                <= final(self).context().limit,
            tick(old(self).context(), old(self).state(), Span { line, column: col }) == (Ran {
                state: final(self).state(),
                result: match r {
                    Ok(_) => Ok(()),
                    Err(e) => Err(e@),
                },
            }),
    {
        if self.instruction_count < self.instruction_limit {
            self.instruction_count = self.instruction_count + 1;
            Ok(())
        } else {
            if self.instruction_count < u64::MAX {
                self.instruction_count = self.instruction_count + 1;
            }
            Err(GroveError::instruction_limit(line, col))
        }
    }

    /// Arithmetic on numbers and vectors.
    fn numeric_op(&self, op: BinOp, left: &Value, right: &Value, span: &Span) -> (r: GroveResult<
        Value,
    >)
        requires
            self.total(),
        ensures
            self.pins_arith() ==> value_result(r) == numeric_op(
                self.context(),
                op,
                left@,
                right@,
                *span,
            ),
            r is Err ==> r->Err_0.kind != ErrorKind::InstructionLimit,
    {
        reveal(numeric_op);
        reveal(all_total);
        reveal(all_fixed);
        match (left, right) {
            (Value::Number(a), Value::Number(b)) => Ok(Value::Number((self.arith)(op, *a, *b))),
            (Value::Vec3(ax, ay, az), Value::Vec3(bx, by, bz)) if op == BinOp::Add || op
                == BinOp::Sub => {
                let x = (self.arith)(op, *ax, *bx);
                let y = (self.arith)(op, *ay, *by);
                let z = (self.arith)(op, *az, *bz);
                Ok(Value::Vec3(x, y, z))
            },
            (Value::Vec3(ax, ay, az), Value::Number(b)) if op == BinOp::Mul || op == BinOp::Div => {
                let x = (self.arith)(op, *ax, *b);
                let y = (self.arith)(op, *ay, *b);
                let z = (self.arith)(op, *az, *b);
                Ok(Value::Vec3(x, y, z))
            },
            (Value::Number(a), Value::Vec3(bx, by, bz)) if op == BinOp::Mul => {
                let x = (self.arith)(op, *a, *bx);
                let y = (self.arith)(op, *a, *by);
                let z = (self.arith)(op, *a, *bz);
                Ok(Value::Vec3(x, y, z))
            },
            _ => {
                let mut m = String::new();
                push_text(&mut m, "cannot apply '");
                push_text(&mut m, symbol_text(op));
                push_text(&mut m, "' to ");
                push_text(&mut m, left.type_label());
                push_text(&mut m, " and ");
                push_text(&mut m, right.type_label());
                assert(m@ =~= "cannot apply '"@ + symbol(op) + "' to "@
                    + crate::types::type_label_of(left@) + " and "@ + crate::types::type_label_of(
                    right@,
                ));
                Err(GroveError::type_error(m.as_str(), span.line, span.column))
            },
        }
    }

    /// A binary operator other than `and` and `or` applied to two values.
    fn eval_binary_op(&self, op: BinOp, left: &Value, right: &Value, span: &Span) -> (r:
        GroveResult<Value>)
        requires
            self.total(),
            op != BinOp::And,
            op != BinOp::Or,
        ensures
            self.pins_arith() || plain_op(op) ==> value_result(r) == binary_op(
                self.context(),
                op,
                left@,
                right@,
                *span,
            ),
            r is Err ==> r->Err_0.kind != ErrorKind::InstructionLimit,
    {
        reveal(binary_op);
        reveal(all_total);
        reveal(all_fixed);
        match op {
            BinOp::Add | BinOp::Sub | BinOp::Mul | BinOp::Mod | BinOp::Pow => self.numeric_op(
                op,
                left,
                right,
                span,
            ),
            BinOp::Div => {
                if let (Value::Number(_), Value::Number(b)) = (left, right) {
                    if zero(*b) {
                        return Err(
                            GroveError::runtime("division by zero", span.line, span.column),
                        );
                    }
                }
                self.numeric_op(op, left, right, span)
            },
            BinOp::Concat => {
                let mut s = String::new();
                push_value_text(&mut s, left, &self.format);
                push_value_text(&mut s, right, &self.format);
                proof {
                    if self.fixed() {
                        assert(s@ =~= crate::types::value_text(left@, self.context().format)
                            + crate::types::value_text(right@, self.context().format));
                    }
                }
                Ok(Value::String(s))
            },
            BinOp::Eq => Ok(Value::Bool(left.equals(right))),
            BinOp::NotEq => Ok(Value::Bool(!left.equals(right))),
            _ => compare_values(op, left, right, span),
        }
    }
}

impl<
    H: Fn(&Vec<Value>) -> Result<Value, String>,
    A: Fn(BinOp, u64, u64) -> u64,
    D: Fn(u64) -> String,
> Interpreter<H, A, D> {
    /// The instructions that may still be counted before the limit is reached.
    pub closed spec fn remaining(&self) -> nat {
        budget(self.context(), self.state())
    }

    /// Whether at least one instruction was counted since `before`, and none
    /// beyond the limit.
    pub open spec fn counted_since(&self, before: &Self) -> bool {
        before.state().count < self.state().count <= self.context().limit
    }

    /// Evaluates an expression. The value and the state are those that the
    /// meaning of the expression gives wherever that is pinned
    /// ([`Self::pins`]); the setup, the instruction bound and the calls
    /// recorded before hold whatever the closures answer.
    #[verifier::spinoff_prover]
    pub fn eval_expr(&mut self, expr: &Expr) -> (r: GroveResult<Value>)
        requires
            old(self).total(),
        ensures
            final(self).follows(old(self)),
            final(self).bounded(old(self), is_limit(r)),
            old(self).pins(expr@) ==> final(self).settled(),
            old(self).pins(expr@) ==> ran_value(final(self).state(), r) == sem_expr(
                old(self).context(),
                expr@,
                old(self).state(),
            ),
        decreases old(self).remaining(), 3nat, *expr,
    {
        reveal(sem_expr);
        match expr {
            Expr::NumberLit { value, .. } => Ok(Value::Number(*value)),
            Expr::StringLit { value, .. } => Ok(Value::String(value.clone())),
            Expr::BoolLit { value, .. } => Ok(Value::Bool(*value)),
            Expr::NilLit { .. } => Ok(Value::Nil),
            Expr::Ident { name, span } => {
                match self.env.get(name.as_str()) {
                    Some(v) => Ok(v.duplicate()),
                    None => {
                        let m = framed_text("undefined variable '", name.as_str(), "'");
                        Err(GroveError::name_error(m.as_str(), span.line, span.column))
                    },
                }
            },
            Expr::BinaryOp { left, op, right, span } => {
                let l = match self.eval_expr(left) {
                    Ok(v) => v,
                    Err(e) => {
                        return Err(e);
                    },
                };
                match op {
                    BinOp::And => {
                        if !l.is_truthy() {
                            return Ok(l);
                        }
                        return self.eval_expr(right);
                    },
                    BinOp::Or => {
                        if l.is_truthy() {
                            return Ok(l);
                        }
                        return self.eval_expr(right);
                    },
                    _ => {},
                }
                let r = match self.eval_expr(right) {
                    Ok(v) => v,
                    Err(e) => {
                        return Err(e);
                    },
                };
                self.eval_binary_op(*op, &l, &r, span)
            },
            Expr::UnaryOp { op, operand, span } => {
                let val = match self.eval_expr(operand) {
                    Ok(v) => v,
                    Err(e) => {
                        return Err(e);
                    },
                };
                eval_unary_op(*op, val, span)
            },
            Expr::Call { callee, args, span } => {
                let arg_vals = match self.eval_list(args) {
                    Ok(v) => v,
                    Err(e) => {
                        return Err(e);
                    },
                };
                self.call(callee, arg_vals, span)
            },
            Expr::FieldAccess { object, field, span } => {
                let obj = match self.eval_expr(object) {
                    Ok(v) => v,
                    Err(e) => {
                        return Err(e);
                    },
                };
                field_value(&obj, field.as_str(), span)
            },
            Expr::IndexAccess { object, index, span } => {
                let obj = match self.eval_expr(object) {
                    Ok(v) => v,
                    Err(e) => {
                        return Err(e);
                    },
                };
                let idx = match self.eval_expr(index) {
                    Ok(v) => v,
                    Err(e) => {
                        return Err(e);
                    },
                };
                element_value(&obj, &idx, span)
            },
            Expr::MethodCall { object, method, args, span } => {
                let obj = match self.eval_expr(object) {
                    Ok(v) => v,
                    Err(e) => {
                        return Err(e);
                    },
                };
                match self.eval_list(args) {
                    Ok(_) => {},
                    Err(e) => {
                        return Err(e);
                    },
                }
                let mut m = String::new();
                push_text(&mut m, "method call '");
                push_text(&mut m, method.as_str());
                push_text(&mut m, "' on ");
                push_text(&mut m, obj.type_label());
                push_text(&mut m, " not yet implemented");
                assert(m@ =~= "method call '"@ + method@ + "' on "@ + crate::types::type_label_of(
                    obj@,
                ) + " not yet implemented"@);
                Err(GroveError::runtime(m.as_str(), span.line, span.column))
            },
            Expr::ArrayLit { elements, .. } => {
                match self.eval_list(elements) {
                    Ok(v) => Ok(Value::Array(v)),
                    Err(e) => Err(e),
                }
            },
            Expr::TableLit { fields, .. } => {
                match self.eval_fields(fields) {
                    Ok(t) => Ok(Value::Table(t)),
                    Err(e) => Err(e),
                }
            },
        }
    }

    /// Evaluates expressions from left to right.
    #[verifier::spinoff_prover]
    fn eval_list(&mut self, exprs: &Vec<Expr>) -> (r: GroveResult<Vec<Value>>)
        requires
            old(self).total(),
        ensures
            final(self).follows(old(self)),
            final(self).bounded(old(self), is_limit(r)),
            old(self).pins_all(exprs_view(exprs@)) ==> final(self).settled(),
            old(self).pins_all(exprs_view(exprs@))
                ==> ran_values(final(self).state(), r) == sem_exprs(
                old(self).context(),
                exprs_view(exprs@),
                0,
                old(self).state(),
                Seq::empty(),
            ),
        decreases old(self).remaining(), 3nat, *exprs,
    {
        reveal(sem_exprs);
        let ghost ctx = self.context();
        let ghost start = self.state();
        let ghost shown = exprs_view(exprs@);
        let mut out: Vec<Value> = Vec::new();
        let mut i: usize = 0;
        assert(values_view(out@) =~= Seq::<SpecValue>::empty());
        while i < exprs.len()
            invariant
                i <= exprs.len(),
                shown == exprs_view(exprs@),
                ctx == old(self).context(),
                start == old(self).state(),
                self.total(),
                self.follows(old(self)),
                self.bounded(old(self), false),
                old(self).pins_all(exprs_view(exprs@)) ==> self.settled(),
                old(self).pins_all(exprs_view(exprs@))
                    ==> sem_exprs(ctx, shown, i as int, self.state(), values_view(out@))
                    == sem_exprs(ctx, shown, 0, start, Seq::empty()),
            decreases exprs.len() - i,
        {
            let ghost before = values_view(out@);
            reveal(sem_exprs);
            match self.eval_expr(&exprs[i]) {
                Ok(v) => {
                    out.push(v);
                    assert(values_view(out@) =~= before.push(v@));
                },
                Err(e) => {
                    return Err(e);
                },
            }
            i += 1;
        }
        Ok(out)
    }

    /// Evaluates the fields of a table literal from left to right.
    #[verifier::spinoff_prover]
    fn eval_fields(&mut self, fields: &Vec<(String, Expr)>) -> (r: GroveResult<Table>)
        requires
            old(self).total(),
        ensures
            final(self).follows(old(self)),
            final(self).bounded(old(self), is_limit(r)),
            old(self).pins_fields(fields_view(fields@)) ==> final(self).settled(),
            old(self).pins_fields(fields_view(fields@))
                ==> ran_table(final(self).state(), r) == sem_fields(
                old(self).context(),
                fields_view(fields@),
                0,
                old(self).state(),
                Seq::empty(),
            ),
        decreases old(self).remaining(), 3nat, *fields,
    {
        reveal(sem_fields);
        let ghost ctx = self.context();
        let ghost start = self.state();
        let ghost shown = fields_view(fields@);
        let mut out = Table::new();
        let mut i: usize = 0;
        while i < fields.len()
            invariant
                i <= fields.len(),
                shown == fields_view(fields@),
                ctx == old(self).context(),
                start == old(self).state(),
                self.total(),
                self.follows(old(self)),
                self.bounded(old(self), false),
                old(self).pins_fields(fields_view(fields@)) ==> self.settled(),
                old(self).pins_fields(fields_view(fields@))
                    ==> sem_fields(ctx, shown, i as int, self.state(), out@)
                    == sem_fields(ctx, shown, 0, start, Seq::empty()),
            decreases fields.len() - i,
        {
            reveal(sem_fields);
            match self.eval_expr(&fields[i].1) {
                Ok(v) => {
                    out.insert(fields[i].0.as_str(), v);
                },
                Err(e) => {
                    return Err(e);
                },
            }
            i += 1;
        }
        Ok(out)
    }

    /// Calls `callee` on evaluated arguments.
    #[verifier::spinoff_prover]
    fn call(&mut self, callee: &Expr, args: Vec<Value>, span: &Span) -> (r: GroveResult<Value>)
        requires
            old(self).total(),
        ensures
            final(self).follows(old(self)),
            final(self).bounded(old(self), is_limit(r)),
            old(self).pins_call(callee@) ==> final(self).settled(),
            old(self).pins_call(callee@) ==> ran_value(final(self).state(), r) == sem_call(
                old(self).context(),
                callee@,
                values_view(args@),
                *span,
                old(self).state(),
            ),
        decreases old(self).remaining(), 2nat,
    {
        reveal(sem_call);
        reveal(all_total);
        reveal(all_fixed);
        match callee {
            Expr::Ident { name, .. } => {
                if str_equal(name.as_str(), "vec3") {
                    return builtin_vec3_value(&args, span);
                }
                match find_named(&self.host_fns, name.as_str()) {
                    Some(i) => {
                        let reply = (self.host_fns[i].1)(&args);
                        self.calls = Ghost(self.calls@.push((name@, values_view(args@))));
                        proof {
                            host_at(self.host_fns@, name@, i as int);
                            if host_fixed(self.host_fns@[i as int].1) {
                                host_reply_is(self.host_fns@[i as int].1, args, reply);
                            } else {
                                assert(named_first(self.host_fns@, name@, i as int));
                                assert(self.wild().contains(name@));
                            }
                        }
                        match reply {
                            Ok(v) => Ok(v),
                            Err(message) => Err(
                                GroveError::runtime(message.as_str(), span.line, span.column),
                            ),
                        }
                    },
                    None => {
                        proof {
                            host_absent(self.host_fns@, name@);
                        }
                        match find_named(&self.blueprints, name.as_str()) {
                            Some(j) => {
                                proof {
                                    blueprint_at(self.blueprints@, name@, j as int);
                                }
                                let params = duplicate_names(&self.blueprints[j].1.params);
                                let body = duplicate_stmts(&self.blueprints[j].1.body);
                                self.call_blueprint(&params, &args, &body)
                            },
                            None => {
                                proof {
                                    blueprint_absent(self.blueprints@, name@);
                                }
                                let m = framed_text("undefined function '", name.as_str(), "'");
                                Err(GroveError::name_error(m.as_str(), span.line, span.column))
                            },
                        }
                    },
                }
            },
            _ => Err(
                GroveError::name_error(
                    "undefined function '<expression>'",
                    span.line,
                    span.column,
                ),
            ),
        }
    }

    /// Invokes a blueprint on evaluated arguments.
    #[verifier::spinoff_prover]
    fn call_blueprint(&mut self, params: &Vec<String>, args: &Vec<Value>, body: &Vec<Stmt>) -> (r:
        GroveResult<Value>)
        requires
            old(self).total(),
        ensures
            final(self).follows(old(self)),
            final(self).bounded(old(self), is_limit(r)),
            old(self).pins_stmts(stmts_view(body@)) ==> final(self).settled(),
            old(self).pins_stmts(stmts_view(body@)) ==> ran_value(final(self).state(), r) == sem_invoke(
                old(self).context(),
                (Procedure { params: names_view(params@), body: stmts_view(body@) }),
                values_view(args@),
                old(self).state(),
            ),
        decreases old(self).remaining(), 1nat,
    {
        reveal(sem_invoke);
        let ghost pv = names_view(params@);
        let ghost av = values_view(args@);
        let ghost opened = crate::environment::env_push(self.env@);
        self.env.push_scope();
        let mut i: usize = 0;
        while i < params.len()
            invariant
                i <= params.len(),
                pv == names_view(params@),
                av == values_view(args@),
                self.total(),
                self.follows(old(self)),
                self.state().count == old(self).state().count,
                self.state().blueprints == old(self).state().blueprints,
                self.state().calls == old(self).state().calls,
                bind_params(self.state().scopes, pv, av, i as int) == bind_params(opened, pv, av, 0),
            decreases params.len() - i,
        {
            let val = if i < args.len() {
                args[i].duplicate()
            } else {
                Value::Nil
            };
            self.env.define(params[i].as_str(), val);
            i += 1;
        }
        let result = match self.exec_block_no_scope(body) {
            Err(e) => {
                return Err(e);
            },
            Ok(Some(ControlFlow::Return(v))) => v,
            Ok(_) => Value::Nil,
        };
        self.env.pop_scope();
        Ok(result)
    }

    /// Runs statements in order in the current scope, up to the first signal.
    #[verifier::spinoff_prover]
    fn exec_block_no_scope(&mut self, stmts: &Vec<Stmt>) -> (r: GroveResult<Option<ControlFlow>>)
        requires
            old(self).total(),
        ensures
            final(self).follows(old(self)),
            final(self).bounded(old(self), is_limit(r)),
            r matches Ok(Some(_)) ==> final(self).counted_since(old(self)),
            old(self).pins_stmts(stmts_view(stmts@)) ==> final(self).settled(),
            old(self).pins_stmts(stmts_view(stmts@))
                ==> ran_signal(final(self).state(), r) == sem_stmts(
                old(self).context(),
                stmts_view(stmts@),
                0,
                old(self).state(),
            ),
        decreases old(self).remaining(), 0nat, *stmts, 0nat,
    {
        reveal(sem_stmts);
        let ghost ctx = self.context();
        let ghost start = self.state();
        let ghost shown = stmts_view(stmts@);
        let mut i: usize = 0;
        while i < stmts.len()
            invariant
                i <= stmts.len(),
                shown == stmts_view(stmts@),
                ctx == old(self).context(),
                start == old(self).state(),
                self.total(),
                self.follows(old(self)),
                self.bounded(old(self), false),
                old(self).pins_stmts(stmts_view(stmts@)) ==> self.settled(),
                old(self).pins_stmts(stmts_view(stmts@))
                    ==> sem_stmts(ctx, shown, i as int, self.state()) == sem_stmts(
                    ctx,
                    shown,
                    0,
                    start,
                ),
            decreases stmts.len() - i,
        {
            reveal(sem_stmts);
            match self.exec_stmt(&stmts[i]) {
                Err(e) => {
                    return Err(e);
                },
                Ok(Some(cf)) => {
                    return Ok(Some(cf));
                },
                Ok(None) => {},
            }
            i += 1;
        }
        Ok(None)
    }

    /// Runs statements in a scope of their own.
    #[verifier::spinoff_prover]
    fn exec_block(&mut self, stmts: &Vec<Stmt>) -> (r: GroveResult<Option<ControlFlow>>)
        requires
            old(self).total(),
        ensures
            final(self).follows(old(self)),
            final(self).bounded(old(self), is_limit(r)),
            r matches Ok(Some(_)) ==> final(self).counted_since(old(self)),
            old(self).pins_stmts(stmts_view(stmts@)) ==> final(self).settled(),
            old(self).pins_stmts(stmts_view(stmts@))
                ==> ran_signal(final(self).state(), r) == sem_block(
                old(self).context(),
                stmts_view(stmts@),
                old(self).state(),
            ),
        decreases old(self).remaining(), 0nat, *stmts, 1nat,
    {
        reveal(sem_block);
        self.env.push_scope();
        let result = self.exec_block_no_scope(stmts);
        self.env.pop_scope();
        result
    }

    /// Runs one statement.
    #[verifier::spinoff_prover]
    fn exec_stmt(&mut self, stmt: &Stmt) -> (r: GroveResult<Option<ControlFlow>>)
        requires
            old(self).total(),
        ensures
            final(self).follows(old(self)),
            final(self).bounded(old(self), is_limit(r)),
            r is Ok ==> final(self).counted_since(old(self)),
            old(self).pins_stmt(stmt@) ==> final(self).settled(),
            old(self).pins_stmt(stmt@) ==> ran_signal(final(self).state(), r) == sem_stmt(
                old(self).context(),
                stmt@,
                old(self).state(),
            ),
        decreases old(self).remaining(), 0nat, *stmt,
    {
        reveal(sem_stmt);
        let span = span_of_stmt(stmt);
        match self.tick(span.line, span.column) {
            Err(e) => {
                return Err(e);
            },
            Ok(_) => {},
        }
        self.exec_counted(stmt)
    }

    /// Runs a statement whose instruction has been counted.
    #[verifier::spinoff_prover]
    fn exec_counted(&mut self, stmt: &Stmt) -> (r: GroveResult<Option<ControlFlow>>)
        requires
            old(self).total(),
        ensures
            final(self).follows(old(self)),
            final(self).bounded(old(self), is_limit(r)),
            old(self).pins_stmt(stmt@) ==> final(self).settled(),
            old(self).pins_stmt(stmt@) ==> ran_signal(final(self).state(), r) == sem_counted(
                old(self).context(),
                stmt@,
                old(self).state(),
            ),
        decreases old(self).remaining(), 7nat,
    {
        reveal(sem_counted);
        match stmt {
            Stmt::LocalDecl { name, init, span } => self.exec_local(name, init, span),
            Stmt::Assign { target, value, span } => self.exec_assignment(target, value, span),
            Stmt::ExprStmt { expr, span } => self.exec_expression(expr, span),
            Stmt::If { condition, then_body, elseif_clauses, else_body, span } => self.exec_if(
                condition,
                then_body,
                elseif_clauses,
                else_body,
                span,
            ),
            Stmt::While { condition, body, span } => self.exec_while(condition, body, span),
            Stmt::NumericFor { var, start, limit, step, body, span } => self.exec_numeric_for(
                var,
                start,
                limit,
                step,
                body,
                span,
            ),
            Stmt::GenericFor { span, .. } => Err(
                GroveError::runtime("generic for not yet implemented", span.line, span.column),
            ),
            Stmt::RepeatUntil { body, condition, span } => self.exec_repeat(body, condition, span),
            Stmt::Blueprint { name, params, body, span } => self.exec_define(
                name,
                params,
                body,
                span,
            ),
            Stmt::Build { name, args, span } => self.exec_build(name, args, span),
            Stmt::Return { value, span } => self.exec_return(value, span),
            Stmt::Break { span } => Ok(Some(ControlFlow::Break)),
            Stmt::Continue { span } => Ok(Some(ControlFlow::Continue)),
        }
    }

    /// `local name [= init]`.
    #[verifier::spinoff_prover]
    fn exec_local(&mut self, name: &String, init: &Option<Expr>, span: &Span) -> (r: GroveResult<
        Option<ControlFlow>,
    >)
        requires
            old(self).total(),
        ensures
            final(self).follows(old(self)),
            final(self).bounded(old(self), is_limit(r)),
            old(self).pins_option(option_view(*init)) ==> final(self).settled(),
            old(self).pins_option(option_view(*init))
                ==> ran_signal(final(self).state(), r) == sem_local(
                old(self).context(),
                name@,
                option_view(*init),
                old(self).state(),
            ),
        decreases old(self).remaining(), 6nat,
    {
        reveal(sem_local);
        let val = match init {
            Some(e) => match self.eval_expr(e) {
                Ok(v) => v,
                Err(e) => {
                    return Err(e);
                },
            },
            None => Value::Nil,
        };
        self.env.define(name.as_str(), val);
        Ok(None)
    }

    /// `target = value`.
    #[verifier::spinoff_prover]
    fn exec_assignment(&mut self, target: &Expr, value: &Expr, span: &Span) -> (r: GroveResult<
        Option<ControlFlow>,
    >)
        requires
            old(self).total(),
        ensures
            final(self).follows(old(self)),
            final(self).bounded(old(self), is_limit(r)),
            old(self).pins(target@) && old(self).pins(value@) ==> final(self).settled(),
            old(self).pins(target@) && old(self).pins(value@)
                ==> ran_signal(final(self).state(), r) == sem_assignment(
                old(self).context(),
                target@,
                value@,
                *span,
                old(self).state(),
            ),
        decreases old(self).remaining(), 6nat,
    {
        reveal(sem_assignment);
        let val = match self.eval_expr(value) {
            Ok(v) => v,
            Err(e) => {
                return Err(e);
            },
        };
        self.exec_assign(target, val, span)
    }

    /// An expression used as a statement.
    #[verifier::spinoff_prover]
    fn exec_expression(&mut self, expr: &Expr, span: &Span) -> (r: GroveResult<
        Option<ControlFlow>,
    >)
        requires
            old(self).total(),
        ensures
            final(self).follows(old(self)),
            final(self).bounded(old(self), is_limit(r)),
            old(self).pins(expr@) ==> final(self).settled(),
            old(self).pins(expr@) ==> ran_signal(final(self).state(), r) == sem_expression(
                old(self).context(),
                expr@,
                old(self).state(),
            ),
        decreases old(self).remaining(), 6nat,
    {
        reveal(sem_expression);
        match self.eval_expr(expr) {
            Ok(_) => Ok(None),
            Err(e) => Err(e),
        }
    }

    /// `if condition then ... elseif ... else ... end`.
    #[verifier::spinoff_prover]
    fn exec_if(
        &mut self,
        condition: &Expr,
        then_body: &Vec<Stmt>,
        elseif_clauses: &Vec<(Expr, Vec<Stmt>)>,
        else_body: &Option<Vec<Stmt>>,
        span: &Span,
    ) -> (r: GroveResult<Option<ControlFlow>>)
        requires
            old(self).total(),
        ensures
            final(self).follows(old(self)),
            final(self).bounded(old(self), is_limit(r)),
            old(self).pins(condition@) && old(self).pins_stmts(stmts_view(then_body@)) && old(self).pins_clauses(
                clauses_view(elseif_clauses@),
            ) && old(self).pins_block(block_view(*else_body))
                ==> final(self).settled(),
            old(self).pins(condition@) && old(self).pins_stmts(stmts_view(then_body@)) && old(self).pins_clauses(
                clauses_view(elseif_clauses@),
            ) && old(self).pins_block(block_view(*else_body))
                ==> ran_signal(final(self).state(), r) == sem_if(
                old(self).context(),
                condition@,
                stmts_view(then_body@),
                clauses_view(elseif_clauses@),
                block_view(*else_body),
                old(self).state(),
            ),
        decreases old(self).remaining(), 6nat,
    {
        reveal(sem_if);
        let cond = match self.eval_expr(condition) {
            Ok(v) => v,
            Err(e) => {
                return Err(e);
            },
        };
        if cond.is_truthy() {
            return self.exec_block(then_body);
        }
        self.exec_clauses(elseif_clauses, else_body)
    }

    /// The number that `expr` evaluates to; `what` is the message of the type
    /// error for any other value.
    #[verifier::spinoff_prover]
    fn eval_bound(&mut self, expr: &Expr, what: &str, span: &Span) -> (r: GroveResult<u64>)
        requires
            old(self).total(),
        ensures
            final(self).follows(old(self)),
            final(self).bounded(old(self), is_limit(r)),
            old(self).pins_arith() && old(self).pins(expr@) ==> final(self).settled(),
            old(self).pins_arith() && old(self).pins(expr@)
                ==> ran_number(final(self).state(), r) == sem_bound(
                old(self).context(),
                expr@,
                what@,
                *span,
                old(self).state(),
            ),
        decreases old(self).remaining(), 4nat,
    {
        reveal(sem_bound);
        match self.eval_expr(expr) {
            Ok(v) => match v.as_number() {
                Some(n) => Ok(n),
                None => Err(GroveError::type_error(what, span.line, span.column)),
            },
            Err(e) => Err(e),
        }
    }

    /// `for var = start, limit [, step] do ... end`.
    #[verifier::spinoff_prover]
    fn exec_numeric_for(
        &mut self,
        var: &String,
        start: &Expr,
        limit: &Expr,
        step: &Option<Expr>,
        body: &Vec<Stmt>,
        span: &Span,
    ) -> (r: GroveResult<Option<ControlFlow>>)
        requires
            old(self).total(),
        ensures
            final(self).follows(old(self)),
            final(self).bounded(old(self), is_limit(r)),
            old(self).pins_arith() && old(self).pins(start@) && old(self).pins(limit@) && old(self).pins_option(
                option_view(*step),
            ) && old(self).pins_stmts(stmts_view(body@))
                ==> final(self).settled(),
            old(self).pins_arith() && old(self).pins(start@) && old(self).pins(limit@) && old(self).pins_option(
                option_view(*step),
            ) && old(self).pins_stmts(stmts_view(body@))
                ==> ran_signal(final(self).state(), r) == sem_numeric_for(
                old(self).context(),
                var@,
                start@,
                limit@,
                option_view(*step),
                stmts_view(body@),
                *span,
                old(self).state(),
            ),
        decreases old(self).remaining(), 6nat,
    {
        reveal(sem_numeric_for);
        let start_val = match self.eval_bound(start, "for start must be a number", span) {
            Ok(n) => n,
            Err(e) => {
                return Err(e);
            },
        };
        let limit_val = match self.eval_bound(limit, "for limit must be a number", span) {
            Ok(n) => n,
            Err(e) => {
                return Err(e);
            },
        };
        let step_val = match step {
            Some(s) => match self.eval_bound(s, "for step must be a number", span) {
                Ok(n) => n,
                Err(e) => {
                    return Err(e);
                },
            },
            None => ONE,
        };
        if zero(step_val) {
            return Err(GroveError::runtime("for step cannot be zero", span.line, span.column));
        }
        self.env.push_scope();
        self.exec_for(var.as_str(), start_val, limit_val, step_val, body, span)
    }

    /// `blueprint name(params) ... end`.
    #[verifier::spinoff_prover]
    fn exec_define(&mut self, name: &String, params: &Vec<String>, body: &Vec<Stmt>, span: &Span) -> (r:
        GroveResult<Option<ControlFlow>>)
        ensures
            final(self).follows(old(self)),
            final(self).bounded(old(self), is_limit(r)),
            ran_signal(final(self).state(), r) == done::<Option<Signal>>(
                defined(old(self).state(), name@, names_view(params@), stmts_view(body@)),
                None,
            ),
            old(self).pins_stmts(stmts_view(body@)) ==> final(self).settled(),
    {
        let blueprint = Blueprint { params: duplicate_names(params), body: duplicate_stmts(body) };
        let ghost before = blueprints_view(self.blueprints@);
        match find_named(&self.blueprints, name.as_str()) {
            Some(i) => {
                proof {
                    blueprint_at(self.blueprints@, name@, i as int);
                }
                self.blueprints[i] = (name.clone(), blueprint);
                assert(blueprints_view(self.blueprints@) =~= before.update(
                    i as int,
                    (name@, blueprint@),
                ));
            },
            None => {
                proof {
                    blueprint_absent(self.blueprints@, name@);
                }
                self.blueprints.push((name.clone(), blueprint));
                assert(blueprints_view(self.blueprints@) =~= before.push((name@, blueprint@)));
            },
        }
        Ok(None)
    }

    /// `build name(args)`.
    #[verifier::spinoff_prover]
    fn exec_build(&mut self, name: &String, args: &Vec<Expr>, span: &Span) -> (r: GroveResult<
        Option<ControlFlow>,
    >)
        requires
            old(self).total(),
        ensures
            final(self).follows(old(self)),
            final(self).bounded(old(self), is_limit(r)),
            old(self).pins_all(exprs_view(args@)) ==> final(self).settled(),
            old(self).pins_all(exprs_view(args@)) ==> ran_signal(final(self).state(), r) == sem_build(
                old(self).context(),
                name@,
                exprs_view(args@),
                *span,
                old(self).state(),
            ),
        decreases old(self).remaining(), 6nat,
    {
        reveal(sem_build);
        let (params, body) = match find_named(&self.blueprints, name.as_str()) {
            Some(j) => {
                proof {
                    blueprint_at(self.blueprints@, name@, j as int);
                }
                (
                    duplicate_names(&self.blueprints[j].1.params),
                    duplicate_stmts(&self.blueprints[j].1.body),
                )
            },
            None => {
                proof {
                    blueprint_absent(self.blueprints@, name@);
                }
                let m = framed_text("undefined blueprint '", name.as_str(), "'");
                return Err(GroveError::name_error(m.as_str(), span.line, span.column));
            },
        };
        let arg_vals = match self.eval_list(args) {
            Ok(v) => v,
            Err(e) => {
                return Err(e);
            },
        };
        match self.call_blueprint(&params, &arg_vals, &body) {
            Ok(_) => Ok(None),
            Err(e) => Err(e),
        }
    }

    /// `return [value]`.
    #[verifier::spinoff_prover]
    fn exec_return(&mut self, value: &Option<Expr>, span: &Span) -> (r: GroveResult<
        Option<ControlFlow>,
    >)
        requires
            old(self).total(),
        ensures
            final(self).follows(old(self)),
            final(self).bounded(old(self), is_limit(r)),
            old(self).pins_option(option_view(*value)) ==> final(self).settled(),
            old(self).pins_option(option_view(*value))
                ==> ran_signal(final(self).state(), r) == sem_return(
                old(self).context(),
                option_view(*value),
                old(self).state(),
            ),
        decreases old(self).remaining(), 6nat,
    {
        reveal(sem_return);
        let val = match value {
            Some(e) => match self.eval_expr(e) {
                Ok(v) => v,
                Err(e) => {
                    return Err(e);
                },
            },
            None => Value::Nil,
        };
        Ok(Some(ControlFlow::Return(val)))
    }

    /// Writes `value` back to the variable that `expr` names.
    #[verifier::spinoff_prover]
    fn set_value_at(&mut self, expr: &Expr, value: Value) -> (r: GroveResult<Option<ControlFlow>>)
        ensures
            final(self).follows(old(self)),
            final(self).state().count == old(self).state().count,
            final(self).state().blueprints == old(self).state().blueprints,
            !is_limit(r),
            ran_signal(final(self).state(), r) == write_back(expr@, value@, old(self).state()),
    {
        reveal(write_back);
        if let Expr::Ident { name, span } = expr {
            if !self.env.set(name.as_str(), value) {
                let m = framed_text("undefined variable '", name.as_str(), "'");
                return Err(GroveError::name_error(m.as_str(), span.line, span.column));
            }
        }
        Ok(None)
    }

    /// Assigns the evaluated `val` to `target`.
    #[verifier::spinoff_prover]
    fn exec_assign(&mut self, target: &Expr, val: Value, span: &Span) -> (r: GroveResult<
        Option<ControlFlow>,
    >)
        requires
            old(self).total(),
        ensures
            final(self).follows(old(self)),
            final(self).bounded(old(self), is_limit(r)),
            old(self).pins(target@) ==> final(self).settled(),
            old(self).pins(target@) ==> ran_signal(final(self).state(), r) == sem_assign(
                old(self).context(),
                target@,
                val@,
                *span,
                old(self).state(),
            ),
        decreases old(self).remaining(), 5nat,
    {
        reveal(sem_assign);
        match target {
            Expr::Ident { .. } => self.set_value_at(target, val),
            Expr::FieldAccess { object, field, span: at } => self.assign_field(
                object,
                field,
                at,
                val,
                span,
            ),
            Expr::IndexAccess { object, index, span: at } => self.assign_index(
                object,
                index,
                at,
                val,
                span,
            ),
            _ => Err(GroveError::runtime("invalid assignment target", span.line, span.column)),
        }
    }

    /// `object.field = val`.
    #[verifier::spinoff_prover]
    fn assign_field(&mut self, object: &Box<Expr>, field: &String, at: &Span, val: Value, span: &Span) -> (r:
        GroveResult<Option<ControlFlow>>)
        requires
            old(self).total(),
        ensures
            final(self).follows(old(self)),
            final(self).bounded(old(self), is_limit(r)),
            old(self).pins(object@) ==> final(self).settled(),
            old(self).pins(object@) ==> ran_signal(final(self).state(), r) == sem_assign_field(
                old(self).context(),
                object@,
                field@,
                *at,
                val@,
                old(self).state(),
            ),
        decreases old(self).remaining(), 4nat,
    {
        reveal(sem_assign_field);
        let obj = match self.eval_expr(object) {
            Ok(v) => v,
            Err(e) => {
                return Err(e);
            },
        };
        match obj {
            Value::Table(map) => {
                let mut map = map;
                map.insert(field.as_str(), val);
                self.set_value_at(object, Value::Table(map))
            },
            other => Err(cannot_set_field_error(field.as_str(), &other, at)),
        }
    }

    /// `object[index] = val`.
    #[verifier::spinoff_prover]
    fn assign_index(&mut self, object: &Box<Expr>, index: &Box<Expr>, at: &Span, val: Value, span: &Span) -> (r:
        GroveResult<Option<ControlFlow>>)
        requires
            old(self).total(),
        ensures
            final(self).follows(old(self)),
            final(self).bounded(old(self), is_limit(r)),
            old(self).pins(object@) && old(self).pins(index@) ==> final(self).settled(),
            old(self).pins(object@) && old(self).pins(index@)
                ==> ran_signal(final(self).state(), r) == sem_assign_index(
                old(self).context(),
                object@,
                index@,
                *at,
                val@,
                old(self).state(),
            ),
        decreases old(self).remaining(), 4nat,
    {
        reveal(sem_assign_index);
        let idx = match self.eval_expr(index) {
            Ok(v) => v,
            Err(e) => {
                return Err(e);
            },
        };
        let obj = match self.eval_expr(object) {
            Ok(v) => v,
            Err(e) => {
                return Err(e);
            },
        };
        match store_element(obj, &idx, val, at) {
            Ok(changed) => self.set_value_at(object, changed),
            Err(e) => Err(e),
        }
    }

    /// Tries the `elseif` clauses in order, then the `else` body.
    #[verifier::spinoff_prover]
    fn exec_clauses(
        &mut self,
        clauses: &Vec<(Expr, Vec<Stmt>)>,
        otherwise: &Option<Vec<Stmt>>,
    ) -> (r: GroveResult<Option<ControlFlow>>)
        requires
            old(self).total(),
        ensures
            final(self).follows(old(self)),
            final(self).bounded(old(self), is_limit(r)),
            r matches Ok(Some(_)) ==> final(self).counted_since(old(self)),
            old(self).pins_clauses(clauses_view(clauses@)) && old(self).pins_block(block_view(*otherwise))
                ==> final(self).settled(),
            old(self).pins_clauses(clauses_view(clauses@)) && old(self).pins_block(block_view(*otherwise))
                ==> ran_signal(final(self).state(), r) == sem_clauses(
                old(self).context(),
                clauses_view(clauses@),
                0,
                block_view(*otherwise),
                old(self).state(),
            ),
        decreases old(self).remaining(), 5nat,
    {
        let ghost ctx = self.context();
        let ghost start = self.state();
        let ghost shown = clauses_view(clauses@);
        let ghost other = block_view(*otherwise);
        let mut i: usize = 0;
        while i < clauses.len()
            invariant
                i <= clauses.len(),
                shown == clauses_view(clauses@),
                other == block_view(*otherwise),
                ctx == old(self).context(),
                start == old(self).state(),
                self.total(),
                self.follows(old(self)),
                self.bounded(old(self), false),
                old(self).pins_clauses(clauses_view(clauses@)) && old(self).pins_block(block_view(*otherwise))
                    ==> self.settled(),
                old(self).pins_clauses(clauses_view(clauses@)) && old(self).pins_block(block_view(*otherwise))
                    ==> sem_clauses(ctx, shown, i as int, other, self.state())
                    == sem_clauses(ctx, shown, 0, other, start),
            decreases clauses.len() - i,
        {
            reveal(sem_clauses);
            let cond = match self.eval_expr(&clauses[i].0) {
                Ok(v) => v,
                Err(e) => {
                    return Err(e);
                },
            };
            if cond.is_truthy() {
                return self.exec_block(&clauses[i].1);
            }
            i += 1;
        }
        reveal(sem_clauses);
        match otherwise {
            Some(body) => self.exec_block(body),
            None => Ok(None),
        }
    }

    /// Runs a `while` loop from the test of its condition on.
    #[verifier::spinoff_prover]
    fn exec_while(&mut self, condition: &Expr, body: &Vec<Stmt>, span: &Span) -> (r: GroveResult<
        Option<ControlFlow>,
    >)
        requires
            old(self).total(),
        ensures
            final(self).follows(old(self)),
            final(self).bounded(old(self), is_limit(r)),
            r matches Ok(Some(_)) ==> final(self).counted_since(old(self)),
            old(self).pins(condition@) && old(self).pins_stmts(stmts_view(body@))
                ==> final(self).settled(),
            old(self).pins(condition@) && old(self).pins_stmts(stmts_view(body@))
                ==> ran_signal(final(self).state(), r) == sem_while(
                old(self).context(),
                condition@,
                stmts_view(body@),
                *span,
                old(self).state(),
            ),
        decreases old(self).remaining(), 5nat,
    {
        let ghost ctx = self.context();
        let ghost start = self.state();
        let ghost shown = stmts_view(body@);
        loop
            invariant
                shown == stmts_view(body@),
                ctx == old(self).context(),
                start == old(self).state(),
                self.total(),
                self.follows(old(self)),
                self.bounded(old(self), false),
                old(self).pins(condition@) && old(self).pins_stmts(stmts_view(body@))
                    ==> self.settled(),
                old(self).pins(condition@) && old(self).pins_stmts(stmts_view(body@))
                    ==> sem_while(ctx, condition@, shown, *span, self.state())
                    == sem_while(ctx, condition@, shown, *span, start),
            decreases self.remaining(),
        {
            reveal(sem_while);
            let cond = match self.eval_expr(condition) {
                Ok(v) => v,
                Err(e) => {
                    return Err(e);
                },
            };
            if !cond.is_truthy() {
                return Ok(None);
            }
            match self.exec_block(body) {
                Err(e) => {
                    return Err(e);
                },
                Ok(Some(ControlFlow::Break)) => {
                    return Ok(None);
                },
                Ok(Some(ControlFlow::Return(v))) => {
                    return Ok(Some(ControlFlow::Return(v)));
                },
                Ok(Some(ControlFlow::Continue)) => {},
                Ok(None) => {},
            }
            match self.tick(span.line, span.column) {
                Err(e) => {
                    return Err(e);
                },
                Ok(_) => {},
            }
        }
    }

    /// Runs a numeric `for` loop whose scope is open, from `start` on.
    #[verifier::spinoff_prover]
    fn exec_for(
        &mut self,
        var: &str,
        start: u64,
        limit: u64,
        step: u64,
        body: &Vec<Stmt>,
        span: &Span,
    ) -> (r: GroveResult<Option<ControlFlow>>)
        requires
            old(self).total(),
        ensures
            final(self).follows(old(self)),
            final(self).bounded(old(self), is_limit(r)),
            r matches Ok(Some(_)) ==> final(self).counted_since(old(self)),
            old(self).pins_arith() && old(self).pins_stmts(stmts_view(body@))
                ==> final(self).settled(),
            old(self).pins_arith() && old(self).pins_stmts(stmts_view(body@))
                ==> ran_signal(final(self).state(), r) == sem_for(
                old(self).context(),
                var@,
                start,
                limit,
                step,
                stmts_view(body@),
                *span,
                old(self).state(),
            ),
        decreases old(self).remaining(), 5nat,
    {
        reveal(all_total);
        reveal(all_fixed);
        let ghost ctx = self.context();
        let ghost entry = self.state();
        let ghost shown = stmts_view(body@);
        let mut i: u64 = start;
        loop
            invariant
                shown == stmts_view(body@),
                ctx == old(self).context(),
                entry == old(self).state(),
                self.total(),
                self.follows(old(self)),
                self.bounded(old(self), false),
                old(self).pins_arith() && old(self).pins_stmts(stmts_view(body@))
                    ==> self.settled(),
                old(self).pins_arith() && old(self).pins_stmts(stmts_view(body@))
                    ==> sem_for(ctx, var@, i, limit, step, shown, *span, self.state())
                    == sem_for(ctx, var@, start, limit, step, shown, *span, entry),
            decreases self.remaining(),
        {
            reveal(sem_for);
            reveal(all_total);
            reveal(all_fixed);
            if crate::number::positive(step) && less(limit, i) {
                self.env.pop_scope();
                return Ok(None);
            }
            if crate::number::negative(step) && less(i, limit) {
                self.env.pop_scope();
                return Ok(None);
            }
            self.env.define(var, Value::Number(i));
            match self.tick(span.line, span.column) {
                Err(e) => {
                    return Err(e);
                },
                Ok(_) => {},
            }
            match self.exec_block_no_scope(body) {
                Err(e) => {
                    return Err(e);
                },
                Ok(Some(ControlFlow::Break)) => {
                    self.env.pop_scope();
                    return Ok(None);
                },
                Ok(Some(ControlFlow::Return(v))) => {
                    self.env.pop_scope();
                    return Ok(Some(ControlFlow::Return(v)));
                },
                Ok(_) => {},
            }
            i = (self.arith)(BinOp::Add, i, step);
        }
    }

    /// Runs a `repeat` loop from the start of an iteration on.
    #[verifier::spinoff_prover]
    fn exec_repeat(&mut self, body: &Vec<Stmt>, condition: &Expr, span: &Span) -> (r: GroveResult<
        Option<ControlFlow>,
    >)
        requires
            old(self).total(),
        ensures
            final(self).follows(old(self)),
            final(self).bounded(old(self), is_limit(r)),
            r matches Ok(Some(_)) ==> final(self).counted_since(old(self)),
            old(self).pins(condition@) && old(self).pins_stmts(stmts_view(body@))
                ==> final(self).settled(),
            old(self).pins(condition@) && old(self).pins_stmts(stmts_view(body@))
                ==> ran_signal(final(self).state(), r) == sem_repeat(
                old(self).context(),
                stmts_view(body@),
                condition@,
                *span,
                old(self).state(),
            ),
        decreases old(self).remaining(), 5nat,
    {
        let ghost ctx = self.context();
        let ghost start = self.state();
        let ghost shown = stmts_view(body@);
        loop
            invariant
                shown == stmts_view(body@),
                ctx == old(self).context(),
                start == old(self).state(),
                self.total(),
                self.follows(old(self)),
                self.bounded(old(self), false),
                old(self).pins(condition@) && old(self).pins_stmts(stmts_view(body@))
                    ==> self.settled(),
                old(self).pins(condition@) && old(self).pins_stmts(stmts_view(body@))
                    ==> sem_repeat(ctx, shown, condition@, *span, self.state())
                    == sem_repeat(ctx, shown, condition@, *span, start),
            decreases self.remaining(),
        {
            reveal(sem_repeat);
            match self.exec_block(body) {
                Err(e) => {
                    return Err(e);
                },
                Ok(Some(ControlFlow::Break)) => {
                    return Ok(None);
                },
                Ok(Some(ControlFlow::Return(v))) => {
                    return Ok(Some(ControlFlow::Return(v)));
                },
                Ok(_) => {},
            }
            let cond = match self.eval_expr(condition) {
                Ok(v) => v,
                Err(e) => {
                    return Err(e);
                },
            };
            if cond.is_truthy() {
                return Ok(None);
            }
            match self.tick(span.line, span.column) {
                Err(e) => {
                    return Err(e);
                },
                Ok(_) => {},
            }
        }
    }

    /// Runs a program: the count starts from zero, and the value of the first
    /// `return` at the top level is the result, `nil` where there is none.
    /// The result and the state are those that the meaning of the program
    /// gives wherever that is pinned ([`Self::pins_stmts`]); the setup and
    /// the instruction bound hold whatever the closures answer.
    #[verifier::spinoff_prover]
    pub fn execute(&mut self, program: &Program) -> (r: GroveResult<Value>)
        requires
            old(self).total(),
        ensures
            final(self).same_setup(old(self)),
            final(self).context() == old(self).context(),
            final(self).total(),
            final(self).fixed() == old(self).fixed(),
            final(self).steady() == old(self).steady(),
            final(self).wild() == old(self).wild(),
            is_limit(r) ==> final(self).state().count > final(self).context().limit
                || final(self).context().limit == u64::MAX,
            !is_limit(r) ==> final(self).state().count <= final(self).context().limit,
            old(self).pins_stmts(program@) ==> final(self).settled(),
            old(self).pins_stmts(program@) ==> ran_value(final(self).state(), r) == sem_program(
                old(self).context(),
                program@,
                old(self).state(),
            ),
    {
        reveal(sem_top);
        self.instruction_count = 0;
        self.calls = Ghost(Seq::empty());
        let ghost ctx = self.context();
        let ghost start = self.state();
        let ghost shown = stmts_view(program.statements@);
        let mut i: usize = 0;
        while i < program.statements.len()
            invariant
                i <= program.statements.len(),
                shown == stmts_view(program.statements@),
                ctx == old(self).context(),
                ctx == self.context(),
                start == fresh(old(self).state()),
                self.same_setup(old(self)),
                self.total(),
                self.fixed() == old(self).fixed(),
                self.state().count <= ctx.limit,
                old(self).pins_stmts(program@) ==> self.settled(),
                old(self).pins_stmts(program@)
                    ==> sem_top(ctx, shown, i as int, self.state()) == sem_top(
                    ctx,
                    shown,
                    0,
                    start,
                ),
            decreases program.statements.len() - i,
        {
            reveal(sem_top);
            match self.exec_stmt(&program.statements[i]) {
                Err(e) => {
                    return Err(e);
                },
                Ok(Some(ControlFlow::Return(v))) => {
                    return Ok(v);
                },
                Ok(Some(_)) => {
                    return Err(GroveError::runtime("break/continue outside of loop", 0, 0));
                },
                Ok(None) => {},
            }
            i += 1;
        }
        Ok(Value::Nil)
    }
}

} // verus!
