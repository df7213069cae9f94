//! The syntax tree: statements and expressions, each with the position it
//! was read at.
use vstd::prelude::*;
use vstd::string::*;

verus! {

broadcast use vstd::std_specs::vec::group_vec_axioms;

/// A position in the source: line and column, both counted from 1.
#[derive(Debug, Clone, Copy, PartialEq, Eq, Structural)]
pub struct Span {
    pub line: usize,
    pub column: usize,
}

/// The binary operators.
#[derive(Debug, Clone, Copy, PartialEq, Eq, Structural)]
pub enum BinOp {
    Add,
    Sub,
    Mul,
    Div,
    Mod,
    Pow,
    Concat,
    Eq,
    NotEq,
    Lt,
    LtEq,
    Gt,
    GtEq,
    And,
    Or,
}

/// The prefix operators: `-`, `not` and `#`.
#[derive(Debug, Clone, Copy, PartialEq, Eq, Structural)]
pub enum UnaryOp {
    Neg,
    Not,
    Len,
}

/// A program: its statements in order.
#[derive(Debug)]
pub struct Program {
    pub statements: Vec<Stmt>,
}

/// A statement.
#[derive(Debug)]
#[allow(inconsistent_fields)]
pub enum Stmt {
    /// `local x = expr` or `local x`
    LocalDecl { name: String, init: Option<Expr>, span: Span },
    /// `target = expr`
    Assign { target: Expr, value: Expr, span: Span },
    /// An expression used as a statement.
    ExprStmt { expr: Expr, span: Span },
    /// `if cond then ... elseif cond then ... else ... end`
    If {
        condition: Expr,
        then_body: Vec<Stmt>,
        elseif_clauses: Vec<(Expr, Vec<Stmt>)>,
        else_body: Option<Vec<Stmt>>,
        span: Span,
    },
    /// `while cond do ... end`
    While { condition: Expr, body: Vec<Stmt>, span: Span },
    /// `for var = start, limit [, step] do ... end`
    NumericFor {
        var: String,
        start: Expr,
        limit: Expr,
        step: Option<Expr>,
        body: Vec<Stmt>,
        span: Span,
    },
    /// `for k, v in expr do ... end`
    GenericFor { vars: Vec<String>, iter: Expr, body: Vec<Stmt>, span: Span },
    /// `repeat ... until cond`
    RepeatUntil { body: Vec<Stmt>, condition: Expr, span: Span },
    /// `blueprint name(params) ... end`
    Blueprint { name: String, params: Vec<String>, body: Vec<Stmt>, span: Span },
    /// `build name(args)`
    Build { name: String, args: Vec<Expr>, span: Span },
    /// `return [expr]`
    Return { value: Option<Expr>, span: Span },
    /// `break`
    Break { span: Span },
    /// `continue`
    Continue { span: Span },
}

/// An expression.
#[derive(Debug)]
#[allow(inconsistent_fields)]
pub enum Expr {
    /// A number literal, by its bit pattern.
    NumberLit { value: u64, span: Span },
    StringLit { value: String, span: Span },
    BoolLit { value: bool, span: Span },
    NilLit { span: Span },
    Ident { name: String, span: Span },
    /// `a + b`, `a and b`, ...
    BinaryOp { left: Box<Expr>, op: BinOp, right: Box<Expr>, span: Span },
    /// `-x`, `not x`, `#x`
    UnaryOp { op: UnaryOp, operand: Box<Expr>, span: Span },
    /// `f(a, b, c)`
    Call { callee: Box<Expr>, args: Vec<Expr>, span: Span },
    /// `obj.field`
    FieldAccess { object: Box<Expr>, field: String, span: Span },
    /// `obj[index]`
    IndexAccess { object: Box<Expr>, index: Box<Expr>, span: Span },
    /// `obj:method(args)`
    MethodCall { object: Box<Expr>, method: String, args: Vec<Expr>, span: Span },
    /// `[1, 2, 3]`
    ArrayLit { elements: Vec<Expr>, span: Span },
    /// `{a = 1, b = 2}`
    TableLit { fields: Vec<(String, Expr)>, span: Span },
}

/// The mathematical content of a [`Stmt`].
#[allow(inconsistent_fields)]
pub ghost enum SpecStmt {
    LocalDecl { name: Seq<char>, init: Option<SpecExpr>, span: Span },
    Assign { target: SpecExpr, value: SpecExpr, span: Span },
    ExprStmt { expr: SpecExpr, span: Span },
    If {
        condition: SpecExpr,
        then_body: Seq<SpecStmt>,
        elseif_clauses: Seq<(SpecExpr, Seq<SpecStmt>)>,
        else_body: Option<Seq<SpecStmt>>,
        span: Span,
    },
    While { condition: SpecExpr, body: Seq<SpecStmt>, span: Span },
    NumericFor {
        var: Seq<char>,
        start: SpecExpr,
        limit: SpecExpr,
        step: Option<SpecExpr>,
        body: Seq<SpecStmt>,
        span: Span,
    },
    GenericFor { vars: Seq<Seq<char>>, iter: SpecExpr, body: Seq<SpecStmt>, span: Span },
    RepeatUntil { body: Seq<SpecStmt>, condition: SpecExpr, span: Span },
    Blueprint { name: Seq<char>, params: Seq<Seq<char>>, body: Seq<SpecStmt>, span: Span },
    Build { name: Seq<char>, args: Seq<SpecExpr>, span: Span },
    Return { value: Option<SpecExpr>, span: Span },
    Break { span: Span },
    Continue { span: Span },
}

/// The mathematical content of an [`Expr`].
#[allow(inconsistent_fields)]
pub ghost enum SpecExpr {
    NumberLit { value: u64, span: Span },
    StringLit { value: Seq<char>, span: Span },
    BoolLit { value: bool, span: Span },
    NilLit { span: Span },
    Ident { name: Seq<char>, span: Span },
    BinaryOp { left: Box<SpecExpr>, op: BinOp, right: Box<SpecExpr>, span: Span },
    UnaryOp { op: UnaryOp, operand: Box<SpecExpr>, span: Span },
    Call { callee: Box<SpecExpr>, args: Seq<SpecExpr>, span: Span },
    FieldAccess { object: Box<SpecExpr>, field: Seq<char>, span: Span },
    IndexAccess { object: Box<SpecExpr>, index: Box<SpecExpr>, span: Span },
    MethodCall { object: Box<SpecExpr>, method: Seq<char>, args: Seq<SpecExpr>, span: Span },
    ArrayLit { elements: Seq<SpecExpr>, span: Span },
    TableLit { fields: Seq<(Seq<char>, SpecExpr)>, span: Span },
}

/// The contents of a sequence of names.
pub open spec fn names_view(names: Seq<String>) -> Seq<Seq<char>> {
    Seq::new(names.len(), |i: int| names[i]@)
}

/// The contents of a sequence of expressions.
pub open spec fn exprs_view(exprs: Seq<Expr>) -> Seq<SpecExpr>
    decreases exprs,
{
    Seq::new(
        exprs.len(),
        |i: int|
            if 0 <= i < exprs.len() {
                expr_model(exprs[i])
            } else {
                SpecExpr::NilLit { span: Span { line: 0, column: 0 } }
            },
    )
}

/// The contents of the fields of a table literal.
pub open spec fn fields_view(fields: Seq<(String, Expr)>) -> Seq<(Seq<char>, SpecExpr)>
    decreases fields,
{
    Seq::new(
        fields.len(),
        |i: int|
            if 0 <= i < fields.len() {
                (fields[i].0@, expr_model(fields[i].1))
            } else {
                (Seq::empty(), SpecExpr::NilLit { span: Span { line: 0, column: 0 } })
            },
    )
}

/// The contents of a sequence of statements.
pub open spec fn stmts_view(stmts: Seq<Stmt>) -> Seq<SpecStmt>
    decreases stmts,
{
    Seq::new(
        stmts.len(),
        |i: int|
            if 0 <= i < stmts.len() {
                stmt_model(stmts[i])
            } else {
                SpecStmt::Break { span: Span { line: 0, column: 0 } }
            },
    )
}

/// The contents of the `elseif` clauses of a conditional.
pub open spec fn clauses_view(clauses: Seq<(Expr, Vec<Stmt>)>) -> Seq<(SpecExpr, Seq<SpecStmt>)>
    decreases clauses,
{
    Seq::new(
        clauses.len(),
        |i: int|
            if 0 <= i < clauses.len() {
                (expr_model(clauses[i].0), stmts_view(clauses[i].1@))
            } else {
                (SpecExpr::NilLit { span: Span { line: 0, column: 0 } }, Seq::empty())
            },
    )
}

/// The contents of an optional block.
pub open spec fn block_view(b: Option<Vec<Stmt>>) -> Option<Seq<SpecStmt>>
    decreases b,
{
    match b {
        Some(stmts) => Some(stmts_view(stmts@)),
        None => None,
    }
}

/// The contents of an optional expression.
pub open spec fn option_view(e: Option<Expr>) -> Option<SpecExpr>
    decreases e,
{
    match e {
        Some(x) => Some(expr_model(x)),
        None => None,
    }
}

/// The content of an expression.
pub open spec fn expr_model(e: Expr) -> SpecExpr
    decreases e,
{
    match e {
        Expr::NumberLit { value, span } => SpecExpr::NumberLit { value: value, span: span },
        Expr::StringLit { value, span } => SpecExpr::StringLit { value: value@, span: span },
        Expr::BoolLit { value, span } => SpecExpr::BoolLit { value: value, span: span },
        Expr::NilLit { span } => SpecExpr::NilLit { span: span },
        Expr::Ident { name, span } => SpecExpr::Ident { name: name@, span: span },
        Expr::BinaryOp { left, op, right, span } => SpecExpr::BinaryOp {
            left: Box::new(expr_model(*left)),
            op: op,
            right: Box::new(expr_model(*right)),
            span: span,
        },
        Expr::UnaryOp { op, operand, span } => SpecExpr::UnaryOp {
            op: op,
            operand: Box::new(expr_model(*operand)),
            span: span,
        },
        Expr::Call { callee, args, span } => SpecExpr::Call {
            callee: Box::new(expr_model(*callee)),
            args: exprs_view(args@),
            span: span,
        },
        Expr::FieldAccess { object, field, span } => SpecExpr::FieldAccess {
            object: Box::new(expr_model(*object)),
            field: field@,
            span: span,
        },
        Expr::IndexAccess { object, index, span } => SpecExpr::IndexAccess {
            object: Box::new(expr_model(*object)),
            index: Box::new(expr_model(*index)),
            span: span,
        },
        Expr::MethodCall { object, method, args, span } => SpecExpr::MethodCall {
            object: Box::new(expr_model(*object)),
            method: method@,
            args: exprs_view(args@),
            span: span,
        },
        Expr::ArrayLit { elements, span } => SpecExpr::ArrayLit {
            elements: exprs_view(elements@),
            span: span,
        },
        Expr::TableLit { fields, span } => SpecExpr::TableLit {
            fields: fields_view(fields@),
            span: span,
        },
    }
}

impl View for Expr {
    type V = SpecExpr;

    open spec fn view(&self) -> SpecExpr {
        expr_model(*self)
    }
}

/// The content of a statement.
pub open spec fn stmt_model(s: Stmt) -> SpecStmt
    decreases s,
{
    match s {
        Stmt::LocalDecl { name, init, span } => SpecStmt::LocalDecl {
            name: name@,
            init: option_view(init),
            span: span,
        },
        Stmt::Assign { target, value, span } => SpecStmt::Assign {
            target: expr_model(target),
            value: expr_model(value),
            span: span,
        },
        Stmt::ExprStmt { expr, span } => SpecStmt::ExprStmt { expr: expr_model(expr), span: span },
        Stmt::If { condition, then_body, elseif_clauses, else_body, span } => SpecStmt::If {
            condition: expr_model(condition),
            then_body: stmts_view(then_body@),
            elseif_clauses: clauses_view(elseif_clauses@),
            else_body: block_view(else_body),
            span: span,
        },
        Stmt::While { condition, body, span } => SpecStmt::While {
            condition: expr_model(condition),
            body: stmts_view(body@),
            span: span,
        },
        Stmt::NumericFor { var, start, limit, step, body, span } => SpecStmt::NumericFor {
            var: var@,
            start: expr_model(start),
            limit: expr_model(limit),
            step: option_view(step),
            body: stmts_view(body@),
            span: span,
        },
        Stmt::GenericFor { vars, iter, body, span } => SpecStmt::GenericFor {
            vars: names_view(vars@),
            iter: expr_model(iter),
            body: stmts_view(body@),
            span: span,
        },
        Stmt::RepeatUntil { body, condition, span } => SpecStmt::RepeatUntil {
            body: stmts_view(body@),
            condition: expr_model(condition),
            span: span,
        },
        Stmt::Blueprint { name, params, body, span } => SpecStmt::Blueprint {
            name: name@,
            params: names_view(params@),
            body: stmts_view(body@),
            span: span,
        },
        Stmt::Build { name, args, span } => SpecStmt::Build {
            name: name@,
            args: exprs_view(args@),
            span: span,
        },
        Stmt::Return { value, span } => SpecStmt::Return {
            value: option_view(value),
            span: span,
        },
        Stmt::Break { span } => SpecStmt::Break { span: span },
        Stmt::Continue { span } => SpecStmt::Continue { span: span },
    }
}

impl View for Stmt {
    type V = SpecStmt;

    open spec fn view(&self) -> SpecStmt {
        stmt_model(*self)
    }
}

impl View for Program {
    type V = Seq<SpecStmt>;

    open spec fn view(&self) -> Seq<SpecStmt> {
        stmts_view(self.statements@)
    }
}

/// The position an expression was read at.
pub open spec fn span_of(e: SpecExpr) -> Span {
    match e {
        SpecExpr::NumberLit { span, .. } => span,
        SpecExpr::StringLit { span, .. } => span,
        SpecExpr::BoolLit { span, .. } => span,
        SpecExpr::NilLit { span } => span,
        SpecExpr::Ident { span, .. } => span,
        SpecExpr::BinaryOp { span, .. } => span,
        SpecExpr::UnaryOp { span, .. } => span,
        SpecExpr::Call { span, .. } => span,
        SpecExpr::FieldAccess { span, .. } => span,
        SpecExpr::IndexAccess { span, .. } => span,
        SpecExpr::MethodCall { span, .. } => span,
        SpecExpr::ArrayLit { span, .. } => span,
        SpecExpr::TableLit { span, .. } => span,
    }
}

/// A copy of a sequence of names.
pub fn duplicate_names(names: &Vec<String>) -> (r: Vec<String>)
    ensures
        names_view(r@) == names_view(names@),
{
    let mut out: Vec<String> = Vec::new();
    let mut i: usize = 0;
    while i < names.len()
        invariant
            i <= names.len(),
            out@.len() == i,
            forall|k: int| 0 <= k < i ==> out@[k]@ == names@[k]@,
        decreases names.len() - i,
    {
        out.push(names[i].clone());
        i += 1;
    }
    assert(names_view(out@) =~= names_view(names@));
    out
}

/// A copy of a sequence of expressions.
pub fn duplicate_exprs(exprs: &Vec<Expr>) -> (r: Vec<Expr>)
    ensures
        exprs_view(r@) == exprs_view(exprs@),
    decreases *exprs,
{
    let mut out: Vec<Expr> = Vec::new();
    let mut i: usize = 0;
    while i < exprs.len()
        invariant
            i <= exprs.len(),
            out@.len() == i,
            forall|k: int| 0 <= k < i ==> out@[k]@ == exprs@[k]@,
        decreases exprs.len() - i,
    {
        out.push(exprs[i].duplicate());
        i += 1;
    }
    assert(exprs_view(out@) =~= exprs_view(exprs@));
    out
}

/// A copy of the fields of a table literal.
pub fn duplicate_fields(fields: &Vec<(String, Expr)>) -> (r: Vec<(String, Expr)>)
    ensures
        fields_view(r@) == fields_view(fields@),
    decreases *fields,
{
    let mut out: Vec<(String, Expr)> = Vec::new();
    let mut i: usize = 0;
    while i < fields.len()
        invariant
            i <= fields.len(),
            out@.len() == i,
            forall|k: int|
                0 <= k < i ==> out@[k].0@ == fields@[k].0@ && out@[k].1@ == fields@[k].1@,
        decreases fields.len() - i,
    {
        out.push((fields[i].0.clone(), fields[i].1.duplicate()));
        i += 1;
    }
    assert(fields_view(out@) =~= fields_view(fields@));
    out
}

/// A copy of a sequence of statements.
pub fn duplicate_stmts(stmts: &Vec<Stmt>) -> (r: Vec<Stmt>)
    ensures
        stmts_view(r@) == stmts_view(stmts@),
    decreases *stmts,
{
    let mut out: Vec<Stmt> = Vec::new();
    let mut i: usize = 0;
    while i < stmts.len()
        invariant
            i <= stmts.len(),
            out@.len() == i,
            forall|k: int| 0 <= k < i ==> out@[k]@ == stmts@[k]@,
        decreases stmts.len() - i,
    {
        out.push(stmts[i].duplicate());
        i += 1;
    }
    assert(stmts_view(out@) =~= stmts_view(stmts@));
    out
}

/// A copy of the `elseif` clauses of a conditional.
pub fn duplicate_clauses(clauses: &Vec<(Expr, Vec<Stmt>)>) -> (r: Vec<(Expr, Vec<Stmt>)>)
    ensures
        clauses_view(r@) == clauses_view(clauses@),
    decreases *clauses,
{
    let mut out: Vec<(Expr, Vec<Stmt>)> = Vec::new();
    let mut i: usize = 0;
    while i < clauses.len()
        invariant
            i <= clauses.len(),
            out@.len() == i,
            forall|k: int|
                0 <= k < i ==> out@[k].0@ == clauses@[k].0@ && stmts_view(out@[k].1@)
                    == stmts_view(clauses@[k].1@),
        decreases clauses.len() - i,
    {
        out.push((clauses[i].0.duplicate(), duplicate_stmts(&clauses[i].1)));
        i += 1;
    }
    assert(clauses_view(out@) =~= clauses_view(clauses@));
    out
}

/// A copy of an optional expression.
pub fn duplicate_option(e: &Option<Expr>) -> (r: Option<Expr>)
    ensures
        option_view(r) == option_view(*e),
    decreases *e,
{
    match e {
        Some(x) => Some(x.duplicate()),
        None => None,
    }
}

impl Stmt {
    /// A copy of the statement.
    pub fn duplicate(&self) -> (r: Stmt)
        ensures
            r@ == self@,
        decreases *self,
    {
        match self {
            Stmt::LocalDecl { name, init, span } => Stmt::LocalDecl {
                name: name.clone(),
                init: duplicate_option(init),
                span: *span,
            },
            Stmt::Assign { target, value, span } => Stmt::Assign {
                target: target.duplicate(),
                value: value.duplicate(),
                span: *span,
            },
            Stmt::ExprStmt { expr, span } => Stmt::ExprStmt { expr: expr.duplicate(), span: *span },
            Stmt::If { condition, then_body, elseif_clauses, else_body, span } => Stmt::If {
                condition: condition.duplicate(),
                then_body: duplicate_stmts(then_body),
                elseif_clauses: duplicate_clauses(elseif_clauses),
                else_body: match else_body {
                    Some(b) => Some(duplicate_stmts(b)),
                    None => None,
                },
                span: *span,
            },
            Stmt::While { condition, body, span } => Stmt::While {
                condition: condition.duplicate(),
                body: duplicate_stmts(body),
                span: *span,
            },
            Stmt::NumericFor { var, start, limit, step, body, span } => Stmt::NumericFor {
                var: var.clone(),
                start: start.duplicate(),
                limit: limit.duplicate(),
                step: duplicate_option(step),
                body: duplicate_stmts(body),
                span: *span,
            },
            Stmt::GenericFor { vars, iter, body, span } => Stmt::GenericFor {
                vars: duplicate_names(vars),
                iter: iter.duplicate(),
                body: duplicate_stmts(body),
                span: *span,
            },
            Stmt::RepeatUntil { body, condition, span } => Stmt::RepeatUntil {
                body: duplicate_stmts(body),
                condition: condition.duplicate(),
                span: *span,
            },
            Stmt::Blueprint { name, params, body, span } => Stmt::Blueprint {
                name: name.clone(),
                params: duplicate_names(params),
                body: duplicate_stmts(body),
                span: *span,
            },
            Stmt::Build { name, args, span } => Stmt::Build {
                name: name.clone(),
                args: duplicate_exprs(args),
                span: *span,
            },
            Stmt::Return { value, span } => Stmt::Return {
                value: duplicate_option(value),
                span: *span,
            },
            Stmt::Break { span } => Stmt::Break { span: *span },
            Stmt::Continue { span } => Stmt::Continue { span: *span },
        }
    }
}

impl Clone for Stmt {
    fn clone(&self) -> (r: Self)
        ensures
            r@ == self@,
    {
        self.duplicate()
    }
}

impl Clone for Expr {
    fn clone(&self) -> (r: Self)
        ensures
            r@ == self@,
    {
        self.duplicate()
    }
}

impl Clone for Program {
    fn clone(&self) -> (r: Self)
        ensures
            r@ == self@,
    {
        Program { statements: duplicate_stmts(&self.statements) }
    }
}

impl Expr {
    /// A copy of the expression.
    pub fn duplicate(&self) -> (r: Expr)
        ensures
            r@ == self@,
        decreases *self,
    {
        match self {
            Expr::NumberLit { value, span } => Expr::NumberLit { value: *value, span: *span },
            Expr::StringLit { value, span } => Expr::StringLit { value: value.clone(), span: *span },
            Expr::BoolLit { value, span } => Expr::BoolLit { value: *value, span: *span },
            Expr::NilLit { span } => Expr::NilLit { span: *span },
            Expr::Ident { name, span } => Expr::Ident { name: name.clone(), span: *span },
            Expr::BinaryOp { left, op, right, span } => Expr::BinaryOp {
                left: Box::new(left.duplicate()),
                op: *op,
                right: Box::new(right.duplicate()),
                span: *span,
            },
            Expr::UnaryOp { op, operand, span } => Expr::UnaryOp {
                op: *op,
                operand: Box::new(operand.duplicate()),
                span: *span,
            },
            Expr::Call { callee, args, span } => Expr::Call {
                callee: Box::new(callee.duplicate()),
                args: duplicate_exprs(args),
                span: *span,
            },
            Expr::FieldAccess { object, field, span } => Expr::FieldAccess {
                object: Box::new(object.duplicate()),
                field: field.clone(),
                span: *span,
            },
            Expr::IndexAccess { object, index, span } => Expr::IndexAccess {
                object: Box::new(object.duplicate()),
                index: Box::new(index.duplicate()),
                span: *span,
            },
            Expr::MethodCall { object, method, args, span } => Expr::MethodCall {
                object: Box::new(object.duplicate()),
                method: method.clone(),
                args: duplicate_exprs(args),
                span: *span,
            },
            Expr::ArrayLit { elements, span } => Expr::ArrayLit {
                elements: duplicate_exprs(elements),
                span: *span,
            },
            Expr::TableLit { fields, span } => Expr::TableLit {
                fields: duplicate_fields(fields),
                span: *span,
            },
        }
    }

    /// The position the expression was read at.
    pub fn span(&self) -> (s: &Span)
        ensures
            *s == span_of(self@),
    {
        match self {
            Expr::NumberLit { span, .. } => span,
            Expr::StringLit { span, .. } => span,
            Expr::BoolLit { span, .. } => span,
            Expr::NilLit { span } => span,
            Expr::Ident { span, .. } => span,
            Expr::BinaryOp { span, .. } => span,
            Expr::UnaryOp { span, .. } => span,
            Expr::Call { span, .. } => span,
            Expr::FieldAccess { span, .. } => span,
            Expr::IndexAccess { span, .. } => span,
            Expr::MethodCall { span, .. } => span,
            Expr::ArrayLit { span, .. } => span,
            Expr::TableLit { span, .. } => span,
        }
    }
}

} // verus!
