//! The parser: tokens to a syntax tree.
//!
//! Every function reads what the function of the same purpose in
//! [`crate::grammar`] defines.
use vstd::prelude::*;
use vstd::string::*;
use crate::ast::{
    clauses_view,
    exprs_view,
    fields_view,
    names_view,
    stmts_view,
    BinOp,
    Expr,
    Program,
    Span,
    SpecExpr,
    SpecStmt,
    Stmt,
    UnaryOp,
};
use crate::error::{GroveError, GroveResult, SpecError};
use crate::grammar::{
    ends_block,
    expected_message,
    infix,
    kind_of,
    kind_text,
    left,
    p_args,
    p_array,
    p_block,
    p_blueprint,
    p_body,
    p_build,
    p_call,
    p_clauses,
    p_elements,
    p_expect,
    p_expression,
    p_field,
    p_fields,
    p_for,
    p_generic_for,
    p_group,
    p_guarded,
    p_identifier,
    p_if,
    p_index,
    p_local,
    p_method,
    p_more_args,
    p_names,
    p_numeric_for,
    p_params,
    p_prefix,
    p_program,
    p_repeat,
    p_rest,
    p_return,
    p_simple,
    p_statement,
    p_table,
    p_unary,
    p_while,
    span_at,
    step,
    syntax_at,
    BlockEnd,
    Parsed,
};
use crate::lexer::{kind_number, tokens_view, SpecToken, Token, TokenKind};
use crate::text::push_text;

verus! {

broadcast use vstd::std_specs::vec::group_vec_axioms;

/// The parser: the tokens and the position of the next one.
pub struct Parser {
    tokens: Vec<Token>,
    pos: usize,
}

/// Whether `r`, with the parser left at `end`, is the expression `expected`.
pub open spec fn expr_is(r: GroveResult<Expr>, end: int, expected: Parsed<SpecExpr>) -> bool {
    match expected {
        Ok((e, p)) => r is Ok && r->Ok_0@ == e && end == p,
        Err(err) => r is Err && r->Err_0@ == err,
    }
}

/// Whether `r`, with the parser left at `end`, is the statement `expected`.
pub open spec fn stmt_is(r: GroveResult<Stmt>, end: int, expected: Parsed<SpecStmt>) -> bool {
    match expected {
        Ok((s, p)) => r is Ok && r->Ok_0@ == s && end == p,
        Err(err) => r is Err && r->Err_0@ == err,
    }
}

/// Whether `r`, with the parser left at `end`, holds the expressions
/// `expected`.
pub open spec fn exprs_are(r: GroveResult<Vec<Expr>>, end: int, expected: Parsed<Seq<SpecExpr>>) -> bool {
    match expected {
        Ok((es, p)) => r is Ok && exprs_view(r->Ok_0@) == es && end == p,
        Err(err) => r is Err && r->Err_0@ == err,
    }
}

/// Whether `r`, with the parser left at `end`, holds the statements
/// `expected`.
pub open spec fn stmts_are(r: GroveResult<Vec<Stmt>>, end: int, expected: Parsed<Seq<SpecStmt>>) -> bool {
    match expected {
        Ok((ss, p)) => r is Ok && stmts_view(r->Ok_0@) == ss && end == p,
        Err(err) => r is Err && r->Err_0@ == err,
    }
}

/// Whether `r`, with the parser left at `end`, holds the names `expected`.
pub open spec fn names_are(r: GroveResult<Vec<String>>, end: int, expected: Parsed<Seq<Seq<char>>>) -> bool {
    match expected {
        Ok((ns, p)) => r is Ok && names_view(r->Ok_0@) == ns && end == p,
        Err(err) => r is Err && r->Err_0@ == err,
    }
}

/// Whether `r`, with the parser left at `end`, is the name `expected`.
pub open spec fn name_is(r: GroveResult<String>, end: int, expected: Parsed<Seq<char>>) -> bool {
    match expected {
        Ok((n, p)) => r is Ok && r->Ok_0@ == n && end == p,
        Err(err) => r is Err && r->Err_0@ == err,
    }
}

/// Whether `r`, with the parser left at `end`, is what `expected` says of a
/// token that had to be passed.
pub open spec fn passed(r: GroveResult<()>, end: int, expected: Result<int, SpecError>) -> bool {
    match expected {
        Ok(p) => r is Ok && end == p,
        Err(err) => r is Err && r->Err_0@ == err,
    }
}

/// Whether `r`, with the parser left at `end`, is the field `expected`.
pub open spec fn field_is(
    r: GroveResult<(String, Expr)>,
    end: int,
    expected: Parsed<(Seq<char>, SpecExpr)>,
) -> bool {
    match expected {
        Ok((f, p)) => r is Ok && r->Ok_0.0@ == f.0 && r->Ok_0.1@ == f.1 && end == p,
        Err(err) => r is Err && r->Err_0@ == err,
    }
}

/// Whether `r`, with the parser left at `end`, holds the fields `expected`.
pub open spec fn fields_are(
    r: GroveResult<Vec<(String, Expr)>>,
    end: int,
    expected: Parsed<Seq<(Seq<char>, SpecExpr)>>,
) -> bool {
    match expected {
        Ok((fs, p)) => r is Ok && fields_view(r->Ok_0@) == fs && end == p,
        Err(err) => r is Err && r->Err_0@ == err,
    }
}

/// Whether `r`, with the parser left at `end`, is the condition and block
/// `expected`.
pub open spec fn guarded_is(
    r: GroveResult<(Expr, Vec<Stmt>)>,
    end: int,
    expected: Parsed<(SpecExpr, Seq<SpecStmt>)>,
) -> bool {
    match expected {
        Ok((g, p)) => r is Ok && r->Ok_0.0@ == g.0 && stmts_view(r->Ok_0.1@) == g.1 && end == p,
        Err(err) => r is Err && r->Err_0@ == err,
    }
}

/// Whether `r` is the program `expected`.
pub open spec fn program_is(r: GroveResult<Program>, expected: Result<Seq<SpecStmt>, SpecError>) -> bool {
    match expected {
        Ok(ss) => r is Ok && r->Ok_0@ == ss,
        Err(err) => r is Err && r->Err_0@ == err,
    }
}

/// The name of a kind of token, with the text of an identifier or a string.
fn kind_text_of(kind: &TokenKind) -> (s: String)
    ensures
        s@ == kind_text(kind@),
{
    match kind {
        TokenKind::StringLit(t) => {
            let mut s = String::new();
            push_text(&mut s, "StringLit(\"");
            push_text(&mut s, t.as_str());
            push_text(&mut s, "\")");
            assert(s@ =~= "StringLit(\""@ + t@ + "\")"@);
            s
        },
        TokenKind::Identifier(t) => {
            let mut s = String::new();
            push_text(&mut s, "Identifier(\"");
            push_text(&mut s, t.as_str());
            push_text(&mut s, "\")");
            assert(s@ =~= "Identifier(\""@ + t@ + "\")"@);
            s
        },
        _ => plain_kind_text(kind).to_owned(),
    }
}

/// The name of a kind of token.
fn plain_kind_text(kind: &TokenKind) -> (s: &'static str)
    requires
        !(kind is StringLit),
        !(kind is Identifier),
    ensures
        s@ == kind_text(kind@),
{
    match kind {
        TokenKind::Number(_) => "Number",
        TokenKind::True => "True",
        TokenKind::False => "False",
        TokenKind::Nil => "Nil",
        TokenKind::Local => "Local",
        TokenKind::Let => "Let",
        TokenKind::Fn => "Fn",
        TokenKind::Blueprint => "Blueprint",
        TokenKind::Build => "Build",
        TokenKind::End => "End",
        TokenKind::If => "If",
        TokenKind::Then => "Then",
        TokenKind::ElseIf => "ElseIf",
        TokenKind::Else => "Else",
        TokenKind::For => "For",
        TokenKind::In => "In",
        TokenKind::Do => "Do",
        TokenKind::While => "While",
        TokenKind::Repeat => "Repeat",
        TokenKind::Until => "Until",
        TokenKind::Return => "Return",
        TokenKind::Break => "Break",
        TokenKind::Continue => "Continue",
        TokenKind::And => "And",
        TokenKind::Or => "Or",
        TokenKind::Not => "Not",
        TokenKind::Plus => "Plus",
        TokenKind::Minus => "Minus",
        TokenKind::Star => "Star",
        TokenKind::Slash => "Slash",
        TokenKind::Percent => "Percent",
        TokenKind::Caret => "Caret",
        TokenKind::DotDot => "DotDot",
        TokenKind::Hash => "Hash",
        TokenKind::Equal => "Equal",
        TokenKind::NotEqual => "NotEqual",
        TokenKind::TildeEqual => "TildeEqual",
        TokenKind::Less => "Less",
        TokenKind::LessEqual => "LessEqual",
        TokenKind::Greater => "Greater",
        TokenKind::GreaterEqual => "GreaterEqual",
        TokenKind::Assign => "Assign",
        TokenKind::LeftParen => "LeftParen",
        TokenKind::RightParen => "RightParen",
        TokenKind::LeftBracket => "LeftBracket",
        TokenKind::RightBracket => "RightBracket",
        TokenKind::LeftBrace => "LeftBrace",
        TokenKind::RightBrace => "RightBrace",
        TokenKind::Comma => "Comma",
        TokenKind::Dot => "Dot",
        TokenKind::Colon => "Colon",
        TokenKind::Eof => "Eof",
        _ => "",
    }
}

/// The binary operator that a token stands for, with its binding strengths.
fn infix_of(kind: &TokenKind) -> (r: Option<(BinOp, u8, u8)>)
    ensures
        r == infix(kind@),
{
    match kind {
        TokenKind::Or => Some((BinOp::Or, 1, 2)),
        TokenKind::And => Some((BinOp::And, 3, 4)),
        TokenKind::Equal => Some((BinOp::Eq, 5, 6)),
        TokenKind::NotEqual => Some((BinOp::NotEq, 5, 6)),
        TokenKind::TildeEqual => Some((BinOp::NotEq, 5, 6)),
        TokenKind::Less => Some((BinOp::Lt, 5, 6)),
        TokenKind::LessEqual => Some((BinOp::LtEq, 5, 6)),
        TokenKind::Greater => Some((BinOp::Gt, 5, 6)),
        TokenKind::GreaterEqual => Some((BinOp::GtEq, 5, 6)),
        TokenKind::DotDot => Some((BinOp::Concat, 7, 8)),
        TokenKind::Plus => Some((BinOp::Add, 9, 10)),
        TokenKind::Minus => Some((BinOp::Sub, 9, 10)),
        TokenKind::Star => Some((BinOp::Mul, 11, 12)),
        TokenKind::Slash => Some((BinOp::Div, 11, 12)),
        TokenKind::Percent => Some((BinOp::Mod, 11, 12)),
        TokenKind::Caret => Some((BinOp::Pow, 16, 15)),
        _ => None,
    }
}

/// Whether a token of this kind ends a block.
fn ends_block_exec(kind: &TokenKind, end: BlockEnd) -> (r: bool)
    ensures
        r == ends_block(kind@, end),
{
    match end {
        BlockEnd::Branch => match kind {
            TokenKind::ElseIf => true,
            TokenKind::Else => true,
            TokenKind::End => true,
            _ => false,
        },
        BlockEnd::End => match kind {
            TokenKind::End => true,
            _ => false,
        },
        BlockEnd::Until => match kind {
            TokenKind::Until => true,
            _ => false,
        },
    }
}

impl Parser {
    /// The tokens.
    pub closed spec fn tokens(&self) -> Seq<SpecToken> {
        tokens_view(self.tokens@)
    }

    /// The position of the next token.
    pub closed spec fn position(&self) -> int {
        self.pos as int
    }

    /// The last token is `Eof`, and the position is that of a token.
    pub closed spec fn well_formed(&self) -> bool {
        &&& self.tokens@.len() > 0
        &&& self.tokens@.last().kind is Eof
        &&& self.pos < self.tokens@.len()
    }

    /// Whether `self` has the tokens of `before` and has not gone back.
    pub closed spec fn follows(&self, before: &Self) -> bool {
        &&& self.tokens == before.tokens
        &&& self.well_formed()
        &&& before.pos <= self.pos
    }

    /// The number of tokens from the position on.
    pub closed spec fn remaining(&self) -> nat {
        left(tokens_view(self.tokens@), self.pos as int)
    }

    /// The parser at the first of `tokens`, of which the last one is `Eof`.
    pub fn new(tokens: Vec<Token>) -> (parser: Self)
        requires
            tokens@.len() > 0,
            tokens@.last().kind is Eof,
        ensures
            parser.well_formed(),
            parser.tokens() == tokens_view(tokens@),
            parser.position() == 0,
    {
        Self { tokens, pos: 0 }
    }

    /// Whether the next token is of the kind of `kind`.
    fn check(&self, kind: &TokenKind) -> (r: bool)
        requires
            self.well_formed(),
        ensures
            r == (kind_number(kind_of(self.tokens(), self.position())) == kind_number(kind@)),
    {
        self.tokens[self.pos].kind.same_kind(kind)
    }

    /// Whether the next token is the end of input.
    fn is_at_end(&self) -> (r: bool)
        requires
            self.well_formed(),
        ensures
            r == (kind_of(self.tokens(), self.position()) is Eof),
    {
        match self.tokens[self.pos].kind {
            TokenKind::Eof => true,
            _ => false,
        }
    }

    /// Passes the next token, unless it is the end of input.
    fn advance(&mut self)
        requires
            old(self).well_formed(),
        ensures
            final(self).follows(old(self)),
            final(self).position() == step(old(self).tokens(), old(self).position()),
    {
        if !self.is_at_end() {
            let n = self.tokens.len();
            proof {
                assert(tokens_view(self.tokens@)[n - 1].kind is Eof);
                assert(self.pos != n - 1);
            }
            self.pos += 1;
        }
    }

    /// The position of the next token in the source.
    fn span(&self) -> (s: Span)
        requires
            self.well_formed(),
        ensures
            s == span_at(self.tokens(), self.position()),
    {
        Span { line: self.tokens[self.pos].line, column: self.tokens[self.pos].column }
    }

    /// The syntax error with `message` at the next token.
    fn error_here(&self, message: &str) -> (e: GroveError)
        requires
            self.well_formed(),
        ensures
            e@ == syntax_at(self.tokens(), self.position(), message@),
    {
        GroveError::syntax(message, self.tokens[self.pos].line, self.tokens[self.pos].column)
    }

    /// Passes the next token, which must be of the kind of `expected`.
    fn expect(&mut self, expected: &TokenKind) -> (r: GroveResult<()>)
        requires
            old(self).well_formed(),
        ensures
            final(self).follows(old(self)),
            passed(r, final(self).position(), p_expect(old(self).tokens(), old(self).position(), expected@)),
    {
        if self.check(expected) {
            self.advance();
            Ok(())
        } else {
            let mut m = String::new();
            push_text(&mut m, "expected ");
            push_text(&mut m, kind_text_of(expected).as_str());
            push_text(&mut m, ", got ");
            push_text(&mut m, kind_text_of(&self.tokens[self.pos].kind).as_str());
            assert(m@ =~= expected_message(expected@, kind_of(self.tokens(), self.position())));
            Err(self.error_here(m.as_str()))
        }
    }

    /// Passes the next token, which must be an identifier, and gives its name.
    fn expect_identifier(&mut self) -> (r: GroveResult<String>)
        requires
            old(self).well_formed(),
        ensures
            final(self).follows(old(self)),
            r is Ok ==> old(self).position() < final(self).position(),
            name_is(r, final(self).position(), p_identifier(old(self).tokens(), old(self).position())),
    {
        match &self.tokens[self.pos].kind {
            TokenKind::Identifier(name) => {
                let name = name.clone();
                self.advance();
                Ok(name)
            },
            other => {
                let mut m = String::new();
                push_text(&mut m, "expected identifier, got ");
                push_text(&mut m, kind_text_of(other).as_str());
                assert(m@ =~= "expected identifier, got "@ + kind_text(other@));
                Err(self.error_here(m.as_str()))
            },
        }
    }

    /// Reads a whole program.
    #[verifier::spinoff_prover]
    pub fn parse(&mut self) -> (r: GroveResult<Program>)
        requires
            old(self).well_formed(),
        ensures
            final(self).follows(old(self)),
            program_is(r, p_program(old(self).tokens(), old(self).position(), Seq::empty())),
    {
        let mut statements: Vec<Stmt> = Vec::new();
        assert(stmts_view(statements@) =~= Seq::<SpecStmt>::empty());
        while !self.is_at_end()
            invariant
                self.follows(old(self)),
                p_program(self.tokens(), self.position(), stmts_view(statements@)) == p_program(
                    old(self).tokens(),
                    old(self).position(),
                    Seq::empty(),
                ),
            decreases self.remaining(),
        {
            reveal(p_program);
            let ghost before = stmts_view(statements@);
            match self.statement() {
                Ok(s) => {
                    statements.push(s);
                    assert(stmts_view(statements@) =~= before.push(s@));
                },
                Err(e) => {
                    return Err(e);
                },
            }
        }
        reveal(p_program);
        Ok(Program { statements })
    }

    /// Reads a statement.
    #[verifier::spinoff_prover]
    fn statement(&mut self) -> (r: GroveResult<Stmt>)
        requires
            old(self).well_formed(),
        ensures
            final(self).follows(old(self)),
            r is Ok ==> old(self).position() < final(self).position(),
            stmt_is(r, final(self).position(), p_statement(old(self).tokens(), old(self).position())),
        decreases old(self).remaining(), 5nat,
    {
        reveal(p_statement);
        match self.tokens[self.pos].kind {
            TokenKind::Local => self.local_decl(),
            TokenKind::Let => self.local_decl(),
            TokenKind::If => self.if_stmt(),
            TokenKind::While => self.while_stmt(),
            TokenKind::For => self.for_stmt(),
            TokenKind::Repeat => self.repeat_until(),
            TokenKind::Blueprint => self.blueprint_stmt(),
            TokenKind::Fn => self.blueprint_stmt(),
            TokenKind::Build => self.build_stmt(),
            TokenKind::Return => self.return_stmt(),
            TokenKind::Break => {
                let s = self.span();
                self.advance();
                Ok(Stmt::Break { span: s })
            },
            TokenKind::Continue => {
                let s = self.span();
                self.advance();
                Ok(Stmt::Continue { span: s })
            },
            _ => self.expr_or_assign_stmt(),
        }
    }

    /// `local name [= expression]`.
    #[verifier::spinoff_prover]
    fn local_decl(&mut self) -> (r: GroveResult<Stmt>)
        requires
            old(self).well_formed(),
            !(kind_of(old(self).tokens(), old(self).position()) is Eof),
        ensures
            final(self).follows(old(self)),
            r is Ok ==> old(self).position() < final(self).position(),
            stmt_is(r, final(self).position(), p_local(old(self).tokens(), old(self).position())),
        decreases old(self).remaining(), 0nat,
    {
        reveal(p_local);
        let s = self.span();
        self.advance();
        let name = match self.expect_identifier() {
            Ok(n) => n,
            Err(e) => {
                return Err(e);
            },
        };
        let init = match self.tokens[self.pos].kind {
            TokenKind::Assign => {
                self.advance();
                match self.expression(0) {
                    Ok(e) => Some(e),
                    Err(e) => {
                        return Err(e);
                    },
                }
            },
            _ => None,
        };
        Ok(Stmt::LocalDecl { name, init, span: s })
    }

    /// A condition, its keyword `then` or `do`, and the block that it guards.
    #[verifier::spinoff_prover]
    fn guarded(&mut self, keyword: &TokenKind, end: BlockEnd) -> (r: GroveResult<(Expr, Vec<Stmt>)>)
        requires
            old(self).well_formed(),
            !(kind_of(old(self).tokens(), old(self).position()) is Eof),
        ensures
            final(self).follows(old(self)),
            r is Ok ==> old(self).position() < final(self).position(),
            guarded_is(
                r,
                final(self).position(),
                p_guarded(old(self).tokens(), old(self).position(), keyword@, end),
            ),
        decreases old(self).remaining(), 0nat,
    {
        reveal(p_guarded);
        self.advance();
        let condition = match self.expression(0) {
            Ok(e) => e,
            Err(e) => {
                return Err(e);
            },
        };
        match self.expect(keyword) {
            Ok(_) => {},
            Err(e) => {
                return Err(e);
            },
        }
        let body = match self.block_until(end) {
            Ok(b) => b,
            Err(e) => {
                return Err(e);
            },
        };
        Ok((condition, body))
    }

    /// `if condition then ... {elseif condition then ...} [else ...] end`.
    #[verifier::spinoff_prover]
    fn if_stmt(&mut self) -> (r: GroveResult<Stmt>)
        requires
            old(self).well_formed(),
            kind_of(old(self).tokens(), old(self).position()) is If,
        ensures
            final(self).follows(old(self)),
            r is Ok ==> old(self).position() < final(self).position(),
            stmt_is(r, final(self).position(), p_if(old(self).tokens(), old(self).position())),
        decreases old(self).remaining(), 2nat,
    {
        reveal(p_if);
        let s = self.span();
        let (condition, then_body) = match self.guarded(&TokenKind::Then, BlockEnd::Branch) {
            Ok(g) => g,
            Err(e) => {
                return Err(e);
            },
        };
        let elseif_clauses = match self.clauses() {
            Ok(c) => c,
            Err(e) => {
                return Err(e);
            },
        };
        let else_body = match self.tokens[self.pos].kind {
            TokenKind::Else => {
                self.advance();
                match self.block_until(BlockEnd::End) {
                    Ok(b) => Some(b),
                    Err(e) => {
                        return Err(e);
                    },
                }
            },
            _ => None,
        };
        match self.expect(&TokenKind::End) {
            Ok(_) => {},
            Err(e) => {
                return Err(e);
            },
        }
        Ok(Stmt::If { condition, then_body, elseif_clauses, else_body, span: s })
    }

    /// The `elseif` clauses of a conditional.
    #[verifier::spinoff_prover]
    fn clauses(&mut self) -> (r: GroveResult<Vec<(Expr, Vec<Stmt>)>>)
        requires
            old(self).well_formed(),
        ensures
            final(self).follows(old(self)),
            match p_clauses(old(self).tokens(), old(self).position(), Seq::empty()) {
                Ok((cs, p)) => r is Ok && clauses_view(r->Ok_0@) == cs && final(self).position() == p,
                Err(err) => r is Err && r->Err_0@ == err,
            },
        decreases old(self).remaining(), 1nat,
    {
        let mut found: Vec<(Expr, Vec<Stmt>)> = Vec::new();
        assert(clauses_view(found@) =~= Seq::<(SpecExpr, Seq<SpecStmt>)>::empty());
        loop
            invariant
                self.follows(old(self)),
                p_clauses(self.tokens(), self.position(), clauses_view(found@)) == p_clauses(
                    old(self).tokens(),
                    old(self).position(),
                    Seq::empty(),
                ),
            decreases self.remaining(),
        {
            reveal(p_clauses);
            match self.tokens[self.pos].kind {
                TokenKind::ElseIf => {},
                _ => {
                    return Ok(found);
                },
            }
            let ghost before = clauses_view(found@);
            match self.guarded(&TokenKind::Then, BlockEnd::Branch) {
                Ok(g) => {
                    found.push(g);
                    assert(clauses_view(found@) =~= before.push((g.0@, stmts_view(g.1@))));
                },
                Err(e) => {
                    return Err(e);
                },
            }
        }
    }

    /// `while condition do ... end`.
    #[verifier::spinoff_prover]
    fn while_stmt(&mut self) -> (r: GroveResult<Stmt>)
        requires
            old(self).well_formed(),
            kind_of(old(self).tokens(), old(self).position()) is While,
        ensures
            final(self).follows(old(self)),
            r is Ok ==> old(self).position() < final(self).position(),
            stmt_is(r, final(self).position(), p_while(old(self).tokens(), old(self).position())),
        decreases old(self).remaining(), 1nat,
    {
        reveal(p_while);
        let s = self.span();
        let (condition, body) = match self.guarded(&TokenKind::Do, BlockEnd::End) {
            Ok(g) => g,
            Err(e) => {
                return Err(e);
            },
        };
        match self.expect(&TokenKind::End) {
            Ok(_) => {},
            Err(e) => {
                return Err(e);
            },
        }
        Ok(Stmt::While { condition, body, span: s })
    }

    /// `do ... end`: the body of a loop.
    #[verifier::spinoff_prover]
    fn body(&mut self) -> (r: GroveResult<Vec<Stmt>>)
        requires
            old(self).well_formed(),
        ensures
            final(self).follows(old(self)),
            stmts_are(r, final(self).position(), p_body(old(self).tokens(), old(self).position())),
        decreases old(self).remaining(), 7nat,
    {
        reveal(p_body);
        match self.expect(&TokenKind::Do) {
            Ok(_) => {},
            Err(e) => {
                return Err(e);
            },
        }
        let body = match self.block_until(BlockEnd::End) {
            Ok(b) => b,
            Err(e) => {
                return Err(e);
            },
        };
        match self.expect(&TokenKind::End) {
            Ok(_) => {},
            Err(e) => {
                return Err(e);
            },
        }
        Ok(body)
    }

    /// `for`: numeric where `=` follows the first name, generic otherwise.
    #[verifier::spinoff_prover]
    fn for_stmt(&mut self) -> (r: GroveResult<Stmt>)
        requires
            old(self).well_formed(),
            kind_of(old(self).tokens(), old(self).position()) is For,
        ensures
            final(self).follows(old(self)),
            r is Ok ==> old(self).position() < final(self).position(),
            stmt_is(r, final(self).position(), p_for(old(self).tokens(), old(self).position())),
        decreases old(self).remaining(), 0nat,
    {
        reveal(p_for);
        let s = self.span();
        self.advance();
        let first_var = match self.expect_identifier() {
            Ok(n) => n,
            Err(e) => {
                return Err(e);
            },
        };
        match self.tokens[self.pos].kind {
            TokenKind::Assign => {
                self.advance();
                self.numeric_for(first_var, s)
            },
            _ => self.generic_for(first_var, s),
        }
    }

    /// The rest of a numeric `for` after `for name =`.
    #[verifier::spinoff_prover]
    fn numeric_for(&mut self, var: String, span: Span) -> (r: GroveResult<Stmt>)
        requires
            old(self).well_formed(),
        ensures
            final(self).follows(old(self)),
            stmt_is(
                r,
                final(self).position(),
                p_numeric_for(old(self).tokens(), old(self).position(), var@, span),
            ),
        decreases old(self).remaining(), 8nat,
    {
        reveal(p_numeric_for);
        let start = match self.expression(0) {
            Ok(e) => e,
            Err(e) => {
                return Err(e);
            },
        };
        match self.expect(&TokenKind::Comma) {
            Ok(_) => {},
            Err(e) => {
                return Err(e);
            },
        }
        let limit = match self.expression(0) {
            Ok(e) => e,
            Err(e) => {
                return Err(e);
            },
        };
        let step = match self.tokens[self.pos].kind {
            TokenKind::Comma => {
                self.advance();
                match self.expression(0) {
                    Ok(e) => Some(e),
                    Err(e) => {
                        return Err(e);
                    },
                }
            },
            _ => None,
        };
        let body = match self.body() {
            Ok(b) => b,
            Err(e) => {
                return Err(e);
            },
        };
        Ok(Stmt::NumericFor { var, start, limit, step, body, span })
    }

    /// The rest of a generic `for` after its first name.
    #[verifier::spinoff_prover]
    fn generic_for(&mut self, first: String, span: Span) -> (r: GroveResult<Stmt>)
        requires
            old(self).well_formed(),
        ensures
            final(self).follows(old(self)),
            stmt_is(
                r,
                final(self).position(),
                p_generic_for(old(self).tokens(), old(self).position(), first@, span),
            ),
        decreases old(self).remaining(), 8nat,
    {
        reveal(p_generic_for);
        let mut vars: Vec<String> = Vec::new();
        vars.push(first);
        assert(names_view(vars@) =~= seq![first@]);
        let vars = match self.names(vars) {
            Ok(v) => v,
            Err(e) => {
                return Err(e);
            },
        };
        match self.expect(&TokenKind::In) {
            Ok(_) => {},
            Err(e) => {
                return Err(e);
            },
        }
        let iter = match self.expression(0) {
            Ok(e) => e,
            Err(e) => {
                return Err(e);
            },
        };
        let body = match self.body() {
            Ok(b) => b,
            Err(e) => {
                return Err(e);
            },
        };
        Ok(Stmt::GenericFor { vars, iter, body, span })
    }

    /// `repeat ... until condition`.
    #[verifier::spinoff_prover]
    fn repeat_until(&mut self) -> (r: GroveResult<Stmt>)
        requires
            old(self).well_formed(),
            kind_of(old(self).tokens(), old(self).position()) is Repeat,
        ensures
            final(self).follows(old(self)),
            r is Ok ==> old(self).position() < final(self).position(),
            stmt_is(r, final(self).position(), p_repeat(old(self).tokens(), old(self).position())),
        decreases old(self).remaining(), 0nat,
    {
        reveal(p_repeat);
        let s = self.span();
        self.advance();
        let body = match self.block_until(BlockEnd::Until) {
            Ok(b) => b,
            Err(e) => {
                return Err(e);
            },
        };
        match self.expect(&TokenKind::Until) {
            Ok(_) => {},
            Err(e) => {
                return Err(e);
            },
        }
        let condition = match self.expression(0) {
            Ok(e) => e,
            Err(e) => {
                return Err(e);
            },
        };
        Ok(Stmt::RepeatUntil { body, condition, span: s })
    }

    /// `blueprint name(params) ... end`.
    #[verifier::spinoff_prover]
    fn blueprint_stmt(&mut self) -> (r: GroveResult<Stmt>)
        requires
            old(self).well_formed(),
            !(kind_of(old(self).tokens(), old(self).position()) is Eof),
        ensures
            final(self).follows(old(self)),
            r is Ok ==> old(self).position() < final(self).position(),
            stmt_is(r, final(self).position(), p_blueprint(old(self).tokens(), old(self).position())),
        decreases old(self).remaining(), 0nat,
    {
        reveal(p_blueprint);
        let s = self.span();
        self.advance();
        let name = match self.expect_identifier() {
            Ok(n) => n,
            Err(e) => {
                return Err(e);
            },
        };
        match self.expect(&TokenKind::LeftParen) {
            Ok(_) => {},
            Err(e) => {
                return Err(e);
            },
        }
        let params = match self.param_list() {
            Ok(p) => p,
            Err(e) => {
                return Err(e);
            },
        };
        match self.expect(&TokenKind::RightParen) {
            Ok(_) => {},
            Err(e) => {
                return Err(e);
            },
        }
        let body = match self.block_until(BlockEnd::End) {
            Ok(b) => b,
            Err(e) => {
                return Err(e);
            },
        };
        match self.expect(&TokenKind::End) {
            Ok(_) => {},
            Err(e) => {
                return Err(e);
            },
        }
        Ok(Stmt::Blueprint { name, params, body, span: s })
    }

    /// `build name(args)`.
    #[verifier::spinoff_prover]
    fn build_stmt(&mut self) -> (r: GroveResult<Stmt>)
        requires
            old(self).well_formed(),
            kind_of(old(self).tokens(), old(self).position()) is Build,
        ensures
            final(self).follows(old(self)),
            r is Ok ==> old(self).position() < final(self).position(),
            stmt_is(r, final(self).position(), p_build(old(self).tokens(), old(self).position())),
        decreases old(self).remaining(), 0nat,
    {
        reveal(p_build);
        let s = self.span();
        self.advance();
        let name = match self.expect_identifier() {
            Ok(n) => n,
            Err(e) => {
                return Err(e);
            },
        };
        match self.expect(&TokenKind::LeftParen) {
            Ok(_) => {},
            Err(e) => {
                return Err(e);
            },
        }
        let args = match self.arg_list() {
            Ok(a) => a,
            Err(e) => {
                return Err(e);
            },
        };
        match self.expect(&TokenKind::RightParen) {
            Ok(_) => {},
            Err(e) => {
                return Err(e);
            },
        }
        Ok(Stmt::Build { name, args, span: s })
    }

    /// `return [expression]`.
    #[verifier::spinoff_prover]
    fn return_stmt(&mut self) -> (r: GroveResult<Stmt>)
        requires
            old(self).well_formed(),
            kind_of(old(self).tokens(), old(self).position()) is Return,
        ensures
            final(self).follows(old(self)),
            r is Ok ==> old(self).position() < final(self).position(),
            stmt_is(r, final(self).position(), p_return(old(self).tokens(), old(self).position())),
        decreases old(self).remaining(), 0nat,
    {
        reveal(p_return);
        let s = self.span();
        self.advance();
        let value = if self.is_at_end() || self.is_block_terminator() {
            None
        } else {
            match self.expression(0) {
                Ok(e) => Some(e),
                Err(e) => {
                    return Err(e);
                },
            }
        };
        Ok(Stmt::Return { value, span: s })
    }

    /// An expression as a statement, or an assignment where `=` follows it.
    #[verifier::spinoff_prover]
    fn expr_or_assign_stmt(&mut self) -> (r: GroveResult<Stmt>)
        requires
            old(self).well_formed(),
        ensures
            final(self).follows(old(self)),
            r is Ok ==> old(self).position() < final(self).position(),
            stmt_is(r, final(self).position(), p_simple(old(self).tokens(), old(self).position())),
        decreases old(self).remaining(), 4nat,
    {
        reveal(p_simple);
        let s = self.span();
        let expr = match self.expression(0) {
            Ok(e) => e,
            Err(e) => {
                return Err(e);
            },
        };
        match self.tokens[self.pos].kind {
            TokenKind::Assign => {
                self.advance();
                match self.expression(0) {
                    Ok(value) => Ok(Stmt::Assign { target: expr, value, span: s }),
                    Err(e) => Err(e),
                }
            },
            _ => Ok(Stmt::ExprStmt { expr, span: s }),
        }
    }

    /// The statements of a block, up to a token that ends it.
    #[verifier::spinoff_prover]
    fn block_until(&mut self, end: BlockEnd) -> (r: GroveResult<Vec<Stmt>>)
        requires
            old(self).well_formed(),
        ensures
            final(self).follows(old(self)),
            stmts_are(
                r,
                final(self).position(),
                p_block(old(self).tokens(), old(self).position(), end, Seq::empty()),
            ),
        decreases old(self).remaining(), 6nat,
    {
        let mut stmts: Vec<Stmt> = Vec::new();
        assert(stmts_view(stmts@) =~= Seq::<SpecStmt>::empty());
        loop
            invariant
                self.follows(old(self)),
                p_block(self.tokens(), self.position(), end, stmts_view(stmts@)) == p_block(
                    old(self).tokens(),
                    old(self).position(),
                    end,
                    Seq::empty(),
                ),
            decreases self.remaining(),
        {
            reveal(p_block);
            if self.is_at_end() {
                let m = match end {
                    BlockEnd::Branch => "unexpected end of input, expected one of [ElseIf, Else, End]",
                    BlockEnd::End => "unexpected end of input, expected one of [End]",
                    BlockEnd::Until => "unexpected end of input, expected one of [Until]",
                };
                return Err(self.error_here(m));
            }
            if ends_block_exec(&self.tokens[self.pos].kind, end) {
                return Ok(stmts);
            }
            let ghost before = stmts_view(stmts@);
            match self.statement() {
                Ok(s) => {
                    stmts.push(s);
                    assert(stmts_view(stmts@) =~= before.push(s@));
                },
                Err(e) => {
                    return Err(e);
                },
            }
        }
    }

    /// Whether the next token ends a block of any kind.
    fn is_block_terminator(&self) -> (r: bool)
        requires
            self.well_formed(),
        ensures
            r == ({
                let k = kind_of(self.tokens(), self.position());
                k is End || k is Else || k is ElseIf || k is Until
            }),
    {
        match self.tokens[self.pos].kind {
            TokenKind::End => true,
            TokenKind::Else => true,
            TokenKind::ElseIf => true,
            TokenKind::Until => true,
            _ => false,
        }
    }

    /// The names of the parameters of a blueprint.
    fn param_list(&mut self) -> (r: GroveResult<Vec<String>>)
        requires
            old(self).well_formed(),
        ensures
            final(self).follows(old(self)),
            names_are(r, final(self).position(), p_params(old(self).tokens(), old(self).position())),
    {
        let mut params: Vec<String> = Vec::new();
        match self.tokens[self.pos].kind {
            TokenKind::RightParen => {
                assert(names_view(params@) =~= Seq::<Seq<char>>::empty());
                Ok(params)
            },
            _ => {
                match self.expect_identifier() {
                    Ok(n) => {
                        params.push(n);
                        assert(names_view(params@) =~= seq![n@]);
                    },
                    Err(e) => {
                        return Err(e);
                    },
                }
                self.names(params)
            },
        }
    }

    /// The further names of a list of names, after the names `acc`.
    fn names(&mut self, acc: Vec<String>) -> (r: GroveResult<Vec<String>>)
        requires
            old(self).well_formed(),
        ensures
            final(self).follows(old(self)),
            names_are(
                r,
                final(self).position(),
                p_names(old(self).tokens(), old(self).position(), names_view(acc@)),
            ),
    {
        let mut names = acc;
        loop
            invariant
                self.follows(old(self)),
                p_names(self.tokens(), self.position(), names_view(names@)) == p_names(
                    old(self).tokens(),
                    old(self).position(),
                    names_view(acc@),
                ),
            decreases self.remaining(),
        {
            match self.tokens[self.pos].kind {
                TokenKind::Comma => {},
                _ => {
                    return Ok(names);
                },
            }
            self.advance();
            let ghost before = names_view(names@);
            match self.expect_identifier() {
                Ok(n) => {
                    names.push(n);
                    assert(names_view(names@) =~= before.push(n@));
                },
                Err(e) => {
                    return Err(e);
                },
            }
        }
    }

    /// The arguments of a call, up to the closing parenthesis.
    #[verifier::spinoff_prover]
    fn arg_list(&mut self) -> (r: GroveResult<Vec<Expr>>)
        requires
            old(self).well_formed(),
        ensures
            final(self).follows(old(self)),
            exprs_are(r, final(self).position(), p_args(old(self).tokens(), old(self).position())),
        decreases old(self).remaining(), 5nat,
    {
        reveal(p_args);
        reveal(p_more_args);
        let mut args: Vec<Expr> = Vec::new();
        match self.tokens[self.pos].kind {
            TokenKind::RightParen => {
                assert(exprs_view(args@) =~= Seq::<SpecExpr>::empty());
                return Ok(args);
            },
            _ => {},
        }
        match self.expression(0) {
            Ok(e) => {
                args.push(e);
                assert(exprs_view(args@) =~= seq![e@]);
            },
            Err(e) => {
                return Err(e);
            },
        }
        loop
            invariant
                self.follows(old(self)),
                old(self).position() < self.position(),
                p_more_args(self.tokens(), self.position(), exprs_view(args@)) == p_args(
                    old(self).tokens(),
                    old(self).position(),
                ),
            decreases self.remaining(),
        {
            reveal(p_more_args);
            match self.tokens[self.pos].kind {
                TokenKind::Comma => {},
                _ => {
                    return Ok(args);
                },
            }
            self.advance();
            let ghost before = exprs_view(args@);
            match self.expression(0) {
                Ok(e) => {
                    args.push(e);
                    assert(exprs_view(args@) =~= before.push(e@));
                },
                Err(e) => {
                    return Err(e);
                },
            }
        }
    }

    /// An expression whose binary operators bind their left operand with at
    /// least `min_bp`.
    #[verifier::spinoff_prover]
    fn expression(&mut self, min_bp: u8) -> (r: GroveResult<Expr>)
        requires
            old(self).well_formed(),
        ensures
            final(self).follows(old(self)),
            r is Ok ==> old(self).position() < final(self).position(),
            expr_is(
                r,
                final(self).position(),
                p_expression(old(self).tokens(), old(self).position(), min_bp),
            ),
        decreases old(self).remaining(), 3nat,
    {
        reveal(p_expression);
        reveal(p_rest);
        let mut sofar = match self.prefix() {
            Ok(e) => e,
            Err(e) => {
                return Err(e);
            },
        };
        loop
            invariant
                self.follows(old(self)),
                old(self).position() < self.position(),
                p_rest(self.tokens(), self.position(), sofar@, min_bp) == p_expression(
                    old(self).tokens(),
                    old(self).position(),
                    min_bp,
                ),
            decreases self.remaining(),
        {
            reveal(p_rest);
            reveal(p_expression);
            match self.tokens[self.pos].kind {
                TokenKind::LeftParen => {
                    sofar = match self.call(sofar) {
                        Ok(e) => e,
                        Err(e) => {
                            return Err(e);
                        },
                    };
                    continue ;
                },
                TokenKind::Dot => {
                    let s = self.span();
                    self.advance();
                    let field = match self.expect_identifier() {
                        Ok(n) => n,
                        Err(e) => {
                            return Err(e);
                        },
                    };
                    sofar = Expr::FieldAccess { object: Box::new(sofar), field, span: s };
                    continue ;
                },
                TokenKind::LeftBracket => {
                    sofar = match self.index(sofar) {
                        Ok(e) => e,
                        Err(e) => {
                            return Err(e);
                        },
                    };
                    continue ;
                },
                TokenKind::Colon => {
                    sofar = match self.method(sofar) {
                        Ok(e) => e,
                        Err(e) => {
                            return Err(e);
                        },
                    };
                    continue ;
                },
                _ => {},
            }
            let (op, left_bp, right_bp) = match infix_of(&self.tokens[self.pos].kind) {
                Some(t) => t,
                None => {
                    return Ok(sofar);
                },
            };
            if left_bp < min_bp {
                return Ok(sofar);
            }
            self.advance();
            let right = match self.expression(right_bp) {
                Ok(e) => e,
                Err(e) => {
                    return Err(e);
                },
            };
            let s = *sofar.span();
            sofar = Expr::BinaryOp { left: Box::new(sofar), op, right: Box::new(right), span: s };
        }
    }

    /// `(args)` after an expression: a call of it.
    #[verifier::spinoff_prover]
    fn call(&mut self, callee: Expr) -> (r: GroveResult<Expr>)
        requires
            old(self).well_formed(),
            kind_of(old(self).tokens(), old(self).position()) is LeftParen,
        ensures
            final(self).follows(old(self)),
            r is Ok ==> old(self).position() < final(self).position(),
            expr_is(
                r,
                final(self).position(),
                p_call(old(self).tokens(), old(self).position(), callee@),
            ),
        decreases old(self).remaining(), 0nat,
    {
        reveal(p_call);
        let s = self.span();
        self.advance();
        let args = match self.arg_list() {
            Ok(a) => a,
            Err(e) => {
                return Err(e);
            },
        };
        match self.expect(&TokenKind::RightParen) {
            Ok(_) => {},
            Err(e) => {
                return Err(e);
            },
        }
        Ok(Expr::Call { callee: Box::new(callee), args, span: s })
    }

    /// `[index]` after an expression.
    #[verifier::spinoff_prover]
    fn index(&mut self, object: Expr) -> (r: GroveResult<Expr>)
        requires
            old(self).well_formed(),
            kind_of(old(self).tokens(), old(self).position()) is LeftBracket,
        ensures
            final(self).follows(old(self)),
            r is Ok ==> old(self).position() < final(self).position(),
            expr_is(
                r,
                final(self).position(),
                p_index(old(self).tokens(), old(self).position(), object@),
            ),
        decreases old(self).remaining(), 0nat,
    {
        reveal(p_index);
        let s = self.span();
        self.advance();
        let index = match self.expression(0) {
            Ok(e) => e,
            Err(e) => {
                return Err(e);
            },
        };
        match self.expect(&TokenKind::RightBracket) {
            Ok(_) => {},
            Err(e) => {
                return Err(e);
            },
        }
        Ok(Expr::IndexAccess { object: Box::new(object), index: Box::new(index), span: s })
    }

    /// `:method(args)` after an expression.
    #[verifier::spinoff_prover]
    fn method(&mut self, object: Expr) -> (r: GroveResult<Expr>)
        requires
            old(self).well_formed(),
            kind_of(old(self).tokens(), old(self).position()) is Colon,
        ensures
            final(self).follows(old(self)),
            r is Ok ==> old(self).position() < final(self).position(),
            expr_is(
                r,
                final(self).position(),
                p_method(old(self).tokens(), old(self).position(), object@),
            ),
        decreases old(self).remaining(), 0nat,
    {
        reveal(p_method);
        let s = self.span();
        self.advance();
        let method = match self.expect_identifier() {
            Ok(n) => n,
            Err(e) => {
                return Err(e);
            },
        };
        match self.expect(&TokenKind::LeftParen) {
            Ok(_) => {},
            Err(e) => {
                return Err(e);
            },
        }
        let args = match self.arg_list() {
            Ok(a) => a,
            Err(e) => {
                return Err(e);
            },
        };
        match self.expect(&TokenKind::RightParen) {
            Ok(_) => {},
            Err(e) => {
                return Err(e);
            },
        }
        Ok(Expr::MethodCall { object: Box::new(object), method, args, span: s })
    }

    /// What an expression begins with.
    #[verifier::spinoff_prover]
    fn prefix(&mut self) -> (r: GroveResult<Expr>)
        requires
            old(self).well_formed(),
        ensures
            final(self).follows(old(self)),
            r is Ok ==> old(self).position() < final(self).position(),
            expr_is(r, final(self).position(), p_prefix(old(self).tokens(), old(self).position())),
        decreases old(self).remaining(), 1nat,
    {
        reveal(p_prefix);
        let s = self.span();
        match &self.tokens[self.pos].kind {
            TokenKind::Number(n) => {
                let v = *n;
                self.advance();
                Ok(Expr::NumberLit { value: v, span: s })
            },
            TokenKind::StringLit(val) => {
                let v = val.clone();
                self.advance();
                Ok(Expr::StringLit { value: v, span: s })
            },
            TokenKind::True => {
                self.advance();
                Ok(Expr::BoolLit { value: true, span: s })
            },
            TokenKind::False => {
                self.advance();
                Ok(Expr::BoolLit { value: false, span: s })
            },
            TokenKind::Nil => {
                self.advance();
                Ok(Expr::NilLit { span: s })
            },
            TokenKind::Identifier(name) => {
                let name = name.clone();
                self.advance();
                Ok(Expr::Ident { name, span: s })
            },
            TokenKind::Minus => self.unary(UnaryOp::Neg),
            TokenKind::Not => self.unary(UnaryOp::Not),
            TokenKind::Hash => self.unary(UnaryOp::Len),
            TokenKind::LeftParen => self.group(),
            TokenKind::LeftBracket => self.array(),
            TokenKind::LeftBrace => self.table(),
            other => {
                let mut m = String::new();
                push_text(&mut m, "unexpected token ");
                push_text(&mut m, kind_text_of(other).as_str());
                assert(m@ =~= "unexpected token "@ + kind_text(other@));
                Err(self.error_here(m.as_str()))
            },
        }
    }

    /// A prefix operator applied to the expression that follows it.
    #[verifier::spinoff_prover]
    fn unary(&mut self, op: UnaryOp) -> (r: GroveResult<Expr>)
        requires
            old(self).well_formed(),
            !(kind_of(old(self).tokens(), old(self).position()) is Eof),
        ensures
            final(self).follows(old(self)),
            r is Ok ==> old(self).position() < final(self).position(),
            expr_is(r, final(self).position(), p_unary(old(self).tokens(), old(self).position(), op)),
        decreases old(self).remaining(), 0nat,
    {
        reveal(p_unary);
        let s = self.span();
        self.advance();
        match self.expression(13) {
            Ok(operand) => Ok(Expr::UnaryOp { op, operand: Box::new(operand), span: s }),
            Err(e) => Err(e),
        }
    }

    /// An expression in parentheses.
    #[verifier::spinoff_prover]
    fn group(&mut self) -> (r: GroveResult<Expr>)
        requires
            old(self).well_formed(),
            kind_of(old(self).tokens(), old(self).position()) is LeftParen,
        ensures
            final(self).follows(old(self)),
            r is Ok ==> old(self).position() < final(self).position(),
            expr_is(r, final(self).position(), p_group(old(self).tokens(), old(self).position())),
        decreases old(self).remaining(), 0nat,
    {
        reveal(p_group);
        self.advance();
        let expr = match self.expression(0) {
            Ok(e) => e,
            Err(e) => {
                return Err(e);
            },
        };
        match self.expect(&TokenKind::RightParen) {
            Ok(_) => Ok(expr),
            Err(e) => Err(e),
        }
    }

    /// An array literal.
    #[verifier::spinoff_prover]
    fn array(&mut self) -> (r: GroveResult<Expr>)
        requires
            old(self).well_formed(),
            kind_of(old(self).tokens(), old(self).position()) is LeftBracket,
        ensures
            final(self).follows(old(self)),
            r is Ok ==> old(self).position() < final(self).position(),
            expr_is(r, final(self).position(), p_array(old(self).tokens(), old(self).position())),
        decreases old(self).remaining(), 0nat,
    {
        reveal(p_array);
        let s = self.span();
        self.advance();
        let mut elements: Vec<Expr> = Vec::new();
        assert(exprs_view(elements@) =~= Seq::<SpecExpr>::empty());
        match self.tokens[self.pos].kind {
            TokenKind::RightBracket => {},
            _ => {
                match self.expression(0) {
                    Ok(e) => {
                        elements.push(e);
                        assert(exprs_view(elements@) =~= seq![e@]);
                    },
                    Err(e) => {
                        return Err(e);
                    },
                }
                elements = match self.elements(elements) {
                    Ok(v) => v,
                    Err(e) => {
                        return Err(e);
                    },
                };
            },
        }
        match self.expect(&TokenKind::RightBracket) {
            Ok(_) => Ok(Expr::ArrayLit { elements, span: s }),
            Err(e) => Err(e),
        }
    }

    /// The further elements of an array literal, after the elements `acc`.
    #[verifier::spinoff_prover]
    fn elements(&mut self, acc: Vec<Expr>) -> (r: GroveResult<Vec<Expr>>)
        requires
            old(self).well_formed(),
        ensures
            final(self).follows(old(self)),
            exprs_are(
                r,
                final(self).position(),
                p_elements(old(self).tokens(), old(self).position(), exprs_view(acc@)),
            ),
        decreases old(self).remaining(), 3nat,
    {
        let mut elements = acc;
        loop
            invariant
                self.follows(old(self)),
                p_elements(self.tokens(), self.position(), exprs_view(elements@)) == p_elements(
                    old(self).tokens(),
                    old(self).position(),
                    exprs_view(acc@),
                ),
            decreases self.remaining(),
        {
            reveal(p_elements);
            match self.tokens[self.pos].kind {
                TokenKind::Comma => {},
                _ => {
                    return Ok(elements);
                },
            }
            self.advance();
            match self.tokens[self.pos].kind {
                TokenKind::RightBracket => {
                    return Ok(elements);
                },
                _ => {},
            }
            let ghost before = exprs_view(elements@);
            match self.expression(0) {
                Ok(e) => {
                    elements.push(e);
                    assert(exprs_view(elements@) =~= before.push(e@));
                },
                Err(e) => {
                    return Err(e);
                },
            }
        }
    }

    /// One field of a table literal: `name = expression`.
    #[verifier::spinoff_prover]
    fn field(&mut self) -> (r: GroveResult<(String, Expr)>)
        requires
            old(self).well_formed(),
        ensures
            final(self).follows(old(self)),
            r is Ok ==> old(self).position() < final(self).position(),
            field_is(r, final(self).position(), p_field(old(self).tokens(), old(self).position())),
        decreases old(self).remaining(), 3nat,
    {
        reveal(p_field);
        let key = match self.expect_identifier() {
            Ok(n) => n,
            Err(e) => {
                return Err(e);
            },
        };
        match self.expect(&TokenKind::Assign) {
            Ok(_) => {},
            Err(e) => {
                return Err(e);
            },
        }
        match self.expression(0) {
            Ok(value) => Ok((key, value)),
            Err(e) => Err(e),
        }
    }

    /// A table literal.
    #[verifier::spinoff_prover]
    fn table(&mut self) -> (r: GroveResult<Expr>)
        requires
            old(self).well_formed(),
            kind_of(old(self).tokens(), old(self).position()) is LeftBrace,
        ensures
            final(self).follows(old(self)),
            r is Ok ==> old(self).position() < final(self).position(),
            expr_is(r, final(self).position(), p_table(old(self).tokens(), old(self).position())),
        decreases old(self).remaining(), 0nat,
    {
        reveal(p_table);
        let s = self.span();
        self.advance();
        let mut fields: Vec<(String, Expr)> = Vec::new();
        assert(fields_view(fields@) =~= Seq::<(Seq<char>, SpecExpr)>::empty());
        match self.tokens[self.pos].kind {
            TokenKind::RightBrace => {},
            _ => {
                match self.field() {
                    Ok(f) => {
                        fields.push(f);
                        assert(fields_view(fields@) =~= seq![(f.0@, f.1@)]);
                    },
                    Err(e) => {
                        return Err(e);
                    },
                }
                fields = match self.fields(fields) {
                    Ok(v) => v,
                    Err(e) => {
                        return Err(e);
                    },
                };
            },
        }
        match self.expect(&TokenKind::RightBrace) {
            Ok(_) => Ok(Expr::TableLit { fields, span: s }),
            Err(e) => Err(e),
        }
    }

    /// The further fields of a table literal, after the fields `acc`.
    #[verifier::spinoff_prover]
    fn fields(&mut self, acc: Vec<(String, Expr)>) -> (r: GroveResult<Vec<(String, Expr)>>)
        requires
            old(self).well_formed(),
        ensures
            final(self).follows(old(self)),
            fields_are(
                r,
                final(self).position(),
                p_fields(old(self).tokens(), old(self).position(), fields_view(acc@)),
            ),
        decreases old(self).remaining(), 4nat,
    {
        let mut fields = acc;
        loop
            invariant
                self.follows(old(self)),
                p_fields(self.tokens(), self.position(), fields_view(fields@)) == p_fields(
                    old(self).tokens(),
                    old(self).position(),
                    fields_view(acc@),
                ),
            decreases self.remaining(),
        {
            reveal(p_fields);
            match self.tokens[self.pos].kind {
                TokenKind::Comma => {},
                _ => {
                    return Ok(fields);
                },
            }
            self.advance();
            match self.tokens[self.pos].kind {
                TokenKind::RightBrace => {
                    return Ok(fields);
                },
                _ => {},
            }
            let ghost before = fields_view(fields@);
            match self.field() {
                Ok(f) => {
                    fields.push(f);
                    assert(fields_view(fields@) =~= before.push((f.0@, f.1@)));
                },
                Err(e) => {
                    return Err(e);
                },
            }
        }
    }
}

} // verus!
