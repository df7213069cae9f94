//! The grammar: what a sequence of tokens parses to, as mathematical
//! functions from the tokens and a position to a syntax tree and the position
//! after it, or to the syntax error.
//!
//! Statements are read by recursive descent on the keyword they begin with.
//! Expressions are read by precedence climbing: a prefix, then postfix forms
//! and binary operators as long as the operator binds at least as tightly as
//! the context asks.
use vstd::prelude::*;
use crate::ast::{span_of, BinOp, Span, SpecExpr, SpecStmt, UnaryOp};
use crate::error::{error_at, ErrorKind, SpecError};
use crate::lexer::{kind_number, SpecToken, SpecTokenKind};

verus! {

/// What was read, and the position after it; or the syntax error.
pub type Parsed<T> = Result<(T, int), SpecError>;

/// Which tokens end a block.
#[derive(Debug, Clone, Copy, PartialEq, Eq, Structural)]
pub enum BlockEnd {
    /// `elseif`, `else` or `end`: the end of a branch of a conditional.
    Branch,
    /// `end`.
    End,
    /// `until`.
    Until,
}

/// Whether `pos` is the position of a token.
pub open spec fn in_range(tokens: Seq<SpecToken>, pos: int) -> bool {
    0 <= pos < tokens.len()
}

/// The number of tokens from `pos` on.
pub open spec fn left(tokens: Seq<SpecToken>, pos: int) -> nat {
    if 0 <= pos < tokens.len() {
        (tokens.len() - pos) as nat
    } else {
        0
    }
}

/// The kind of the token at `pos`.
pub open spec fn kind_of(tokens: Seq<SpecToken>, pos: int) -> SpecTokenKind {
    tokens[pos].kind
}

/// The position of the token at `pos` in the source.
pub open spec fn span_at(tokens: Seq<SpecToken>, pos: int) -> Span {
    Span { line: tokens[pos].line, column: tokens[pos].column }
}

/// The position after the token at `pos`; the end of input is never passed.
pub open spec fn step(tokens: Seq<SpecToken>, pos: int) -> int {
    if kind_of(tokens, pos) is Eof {
        pos
    } else {
        pos + 1
    }
}

/// `to`, which lies beyond `from` wherever something was read.
///
/// Whatever the grammar reads ends beyond the position where it began
/// ([`crate::progress`]), so this is `to` wherever `to` is the position after
/// a part that was read from `from` on. The definitions below move on
/// through it, which shows at once that fewer tokens are left each time.
pub open spec fn forward(from: int, to: int) -> int {
    if to > from {
        to
    } else {
        from + 1
    }
}

/// `to`, or `from` where `to` lies before it.
pub open spec fn at_least(from: int, to: int) -> int {
    if to >= from {
        to
    } else {
        from
    }
}

/// The syntax error with `message` at the token at `pos`.
pub open spec fn syntax_at(tokens: Seq<SpecToken>, pos: int, message: Seq<char>) -> SpecError {
    error_at(ErrorKind::Syntax, message, tokens[pos].line, tokens[pos].column)
}

/// The error of a position that holds no token.
pub open spec fn lost() -> SpecError {
    error_at(ErrorKind::Syntax, "unexpected end of input"@, 0, 0)
}

/// The name of a kind of token, with the text of an identifier or a string.
pub open spec fn kind_text(k: SpecTokenKind) -> Seq<char> {
    match k {
        SpecTokenKind::Number(_) => "Number"@,
        SpecTokenKind::StringLit(s) => "StringLit(\""@ + s + "\")"@,
        SpecTokenKind::True => "True"@,
        SpecTokenKind::False => "False"@,
        SpecTokenKind::Nil => "Nil"@,
        SpecTokenKind::Identifier(s) => "Identifier(\""@ + s + "\")"@,
        SpecTokenKind::Local => "Local"@,
        SpecTokenKind::Let => "Let"@,
        SpecTokenKind::Fn => "Fn"@,
        SpecTokenKind::Blueprint => "Blueprint"@,
        SpecTokenKind::Build => "Build"@,
        SpecTokenKind::End => "End"@,
        SpecTokenKind::If => "If"@,
        SpecTokenKind::Then => "Then"@,
        SpecTokenKind::ElseIf => "ElseIf"@,
        SpecTokenKind::Else => "Else"@,
        SpecTokenKind::For => "For"@,
        SpecTokenKind::In => "In"@,
        SpecTokenKind::Do => "Do"@,
        SpecTokenKind::While => "While"@,
        SpecTokenKind::Repeat => "Repeat"@,
        SpecTokenKind::Until => "Until"@,
        SpecTokenKind::Return => "Return"@,
        SpecTokenKind::Break => "Break"@,
        SpecTokenKind::Continue => "Continue"@,
        SpecTokenKind::And => "And"@,
        SpecTokenKind::Or => "Or"@,
        SpecTokenKind::Not => "Not"@,
        SpecTokenKind::Plus => "Plus"@,
        SpecTokenKind::Minus => "Minus"@,
        SpecTokenKind::Star => "Star"@,
        SpecTokenKind::Slash => "Slash"@,
        SpecTokenKind::Percent => "Percent"@,
        SpecTokenKind::Caret => "Caret"@,
        SpecTokenKind::DotDot => "DotDot"@,
        SpecTokenKind::Hash => "Hash"@,
        SpecTokenKind::Equal => "Equal"@,
        SpecTokenKind::NotEqual => "NotEqual"@,
        SpecTokenKind::TildeEqual => "TildeEqual"@,
        SpecTokenKind::Less => "Less"@,
        SpecTokenKind::LessEqual => "LessEqual"@,
        SpecTokenKind::Greater => "Greater"@,
        SpecTokenKind::GreaterEqual => "GreaterEqual"@,
        SpecTokenKind::Assign => "Assign"@,
        SpecTokenKind::LeftParen => "LeftParen"@,
        SpecTokenKind::RightParen => "RightParen"@,
        SpecTokenKind::LeftBracket => "LeftBracket"@,
        SpecTokenKind::RightBracket => "RightBracket"@,
        SpecTokenKind::LeftBrace => "LeftBrace"@,
        SpecTokenKind::RightBrace => "RightBrace"@,
        SpecTokenKind::Comma => "Comma"@,
        SpecTokenKind::Dot => "Dot"@,
        SpecTokenKind::Colon => "Colon"@,
        SpecTokenKind::Eof => "Eof"@,
    }
}

/// The message for a token of another kind than the expected one.
pub open spec fn expected_message(expected: SpecTokenKind, got: SpecTokenKind) -> Seq<char> {
    "expected "@ + kind_text(expected) + ", got "@ + kind_text(got)
}

/// The token at `pos` must be of the kind of `expected`; it is passed.
pub open spec fn p_expect(tokens: Seq<SpecToken>, pos: int, expected: SpecTokenKind) -> Result<
    int,
    SpecError,
> {
    if kind_number(kind_of(tokens, pos)) == kind_number(expected) {
        Ok(step(tokens, pos))
    } else {
        Err(syntax_at(tokens, pos, expected_message(expected, kind_of(tokens, pos))))
    }
}

/// The token at `pos` must be an identifier; it is passed.
pub open spec fn p_identifier(tokens: Seq<SpecToken>, pos: int) -> Parsed<Seq<char>> {
    match kind_of(tokens, pos) {
        SpecTokenKind::Identifier(name) => Ok((name, pos + 1)),
        k => Err(syntax_at(tokens, pos, "expected identifier, got "@ + kind_text(k))),
    }
}

/// The binary operator that a token stands for, with the strength it binds
/// its left and its right operand with. `^` binds its right operand more
/// loosely than its left one, which makes it associate to the right.
pub open spec fn infix(k: SpecTokenKind) -> Option<(BinOp, u8, u8)> {
    match k {
        SpecTokenKind::Or => Some((BinOp::Or, 1u8, 2u8)),
        SpecTokenKind::And => Some((BinOp::And, 3u8, 4u8)),
        SpecTokenKind::Equal => Some((BinOp::Eq, 5u8, 6u8)),
        SpecTokenKind::NotEqual => Some((BinOp::NotEq, 5u8, 6u8)),
        SpecTokenKind::TildeEqual => Some((BinOp::NotEq, 5u8, 6u8)),
        SpecTokenKind::Less => Some((BinOp::Lt, 5u8, 6u8)),
        SpecTokenKind::LessEqual => Some((BinOp::LtEq, 5u8, 6u8)),
        SpecTokenKind::Greater => Some((BinOp::Gt, 5u8, 6u8)),
        SpecTokenKind::GreaterEqual => Some((BinOp::GtEq, 5u8, 6u8)),
        SpecTokenKind::DotDot => Some((BinOp::Concat, 7u8, 8u8)),
        SpecTokenKind::Plus => Some((BinOp::Add, 9u8, 10u8)),
        SpecTokenKind::Minus => Some((BinOp::Sub, 9u8, 10u8)),
        SpecTokenKind::Star => Some((BinOp::Mul, 11u8, 12u8)),
        SpecTokenKind::Slash => Some((BinOp::Div, 11u8, 12u8)),
        SpecTokenKind::Percent => Some((BinOp::Mod, 11u8, 12u8)),
        SpecTokenKind::Caret => Some((BinOp::Pow, 16u8, 15u8)),
        _ => None,
    }
}

/// The strength that a prefix operator binds its operand with.
pub open spec fn unary_strength() -> u8 {
    13
}

/// Whether a token of kind `k` ends a block.
pub open spec fn ends_block(k: SpecTokenKind, end: BlockEnd) -> bool {
    match end {
        BlockEnd::Branch => k is ElseIf || k is Else || k is End,
        BlockEnd::End => k is End,
        BlockEnd::Until => k is Until,
    }
}

/// The message for input that ends inside a block.
pub open spec fn open_block_message(end: BlockEnd) -> Seq<char> {
    match end {
        BlockEnd::Branch => "unexpected end of input, expected one of [ElseIf, Else, End]"@,
        BlockEnd::End => "unexpected end of input, expected one of [End]"@,
        BlockEnd::Until => "unexpected end of input, expected one of [Until]"@,
    }
}

/// A prefix operator applied to the expression that follows it.
#[verifier::opaque]
pub open spec fn p_unary(tokens: Seq<SpecToken>, pos: int, op: UnaryOp) -> Parsed<SpecExpr>
    decreases left(tokens, pos), 0nat,
{
    if !in_range(tokens, pos) {
        Err(lost())
    } else {
        match p_expression(tokens, pos + 1, unary_strength()) {
            Err(e) => Err(e),
            Ok((operand, p)) => Ok(
                (SpecExpr::UnaryOp { op, operand: Box::new(operand), span: span_at(tokens, pos) }, p),
            ),
        }
    }
}

/// An expression in parentheses.
#[verifier::opaque]
pub open spec fn p_group(tokens: Seq<SpecToken>, pos: int) -> Parsed<SpecExpr>
    decreases left(tokens, pos), 0nat,
{
    if !in_range(tokens, pos) {
        Err(lost())
    } else {
        match p_expression(tokens, pos + 1, 0) {
            Err(e) => Err(e),
            Ok((e, p)) => match p_expect(tokens, p, SpecTokenKind::RightParen) {
                Err(e) => Err(e),
                Ok(pb) => Ok((e, pb)),
            },
        }
    }
}

/// An array literal: expressions between brackets, separated by commas; a
/// comma may follow the last one.
#[verifier::opaque]
pub open spec fn p_array(tokens: Seq<SpecToken>, pos: int) -> Parsed<SpecExpr>
    decreases left(tokens, pos), 0nat,
{
    if !in_range(tokens, pos) {
        Err(lost())
    } else {
        let items = if kind_of(tokens, pos + 1) is RightBracket {
            Ok((Seq::empty(), pos + 1))
        } else {
            match p_expression(tokens, pos + 1, 0) {
                Err(e) => Err(e),
                Ok((e, p)) => p_elements(tokens, forward(pos, p), seq![e]),
            }
        };
        match items {
            Err(e) => Err(e),
            Ok((elements, p)) => match p_expect(tokens, p, SpecTokenKind::RightBracket) {
                Err(e) => Err(e),
                Ok(pb) => Ok((SpecExpr::ArrayLit { elements, span: span_at(tokens, pos) }, pb)),
            },
        }
    }
}

/// The further elements of an array literal, after the elements `acc`.
#[verifier::opaque]
pub open spec fn p_elements(tokens: Seq<SpecToken>, pos: int, acc: Seq<SpecExpr>) -> Parsed<
    Seq<SpecExpr>,
>
    decreases left(tokens, pos), 3nat,
{
    if !in_range(tokens, pos) {
        Err(lost())
    } else if !(kind_of(tokens, pos) is Comma) {
        Ok((acc, pos))
    } else if kind_of(tokens, pos + 1) is RightBracket {
        Ok((acc, pos + 1))
    } else {
        match p_expression(tokens, pos + 1, 0) {
            Err(e) => Err(e),
            Ok((e, p)) => p_elements(tokens, forward(pos, p), acc.push(e)),
        }
    }
}

/// One field of a table literal: `name = expression`.
#[verifier::opaque]
pub open spec fn p_field(tokens: Seq<SpecToken>, pos: int) -> Parsed<(Seq<char>, SpecExpr)>
    decreases left(tokens, pos), 3nat,
{
    if !in_range(tokens, pos) {
        Err(lost())
    } else {
        match p_identifier(tokens, pos) {
            Err(e) => Err(e),
            Ok((key, p)) => match p_expect(tokens, p, SpecTokenKind::Assign) {
                Err(e) => Err(e),
                Ok(pb) => match p_expression(tokens, forward(pos, pb), 0) {
                    Err(e) => Err(e),
                    Ok((value, pc)) => Ok(((key, value), pc)),
                },
            },
        }
    }
}

/// The further fields of a table literal, after the fields `acc`.
#[verifier::opaque]
pub open spec fn p_fields(tokens: Seq<SpecToken>, pos: int, acc: Seq<(Seq<char>, SpecExpr)>) -> Parsed<
    Seq<(Seq<char>, SpecExpr)>,
>
    decreases left(tokens, pos), 4nat,
{
    if !in_range(tokens, pos) {
        Err(lost())
    } else if !(kind_of(tokens, pos) is Comma) {
        Ok((acc, pos))
    } else if kind_of(tokens, pos + 1) is RightBrace {
        Ok((acc, pos + 1))
    } else {
        match p_field(tokens, pos + 1) {
            Err(e) => Err(e),
            Ok((f, p)) => p_fields(tokens, forward(pos, p), acc.push(f)),
        }
    }
}

/// A table literal: fields between braces, separated by commas; a comma may
/// follow the last one.
#[verifier::opaque]
pub open spec fn p_table(tokens: Seq<SpecToken>, pos: int) -> Parsed<SpecExpr>
    decreases left(tokens, pos), 0nat,
{
    if !in_range(tokens, pos) {
        Err(lost())
    } else {
        let items = if kind_of(tokens, pos + 1) is RightBrace {
            Ok((Seq::empty(), pos + 1))
        } else {
            match p_field(tokens, pos + 1) {
                Err(e) => Err(e),
                Ok((f, p)) => p_fields(tokens, forward(pos, p), seq![f]),
            }
        };
        match items {
            Err(e) => Err(e),
            Ok((fields, p)) => match p_expect(tokens, p, SpecTokenKind::RightBrace) {
                Err(e) => Err(e),
                Ok(pb) => Ok((SpecExpr::TableLit { fields, span: span_at(tokens, pos) }, pb)),
            },
        }
    }
}

/// What an expression begins with: a literal, a name, a prefix operator with
/// its operand, an expression in parentheses, an array or a table literal.
#[verifier::opaque]
pub open spec fn p_prefix(tokens: Seq<SpecToken>, pos: int) -> Parsed<SpecExpr>
    decreases left(tokens, pos), 1nat,
{
    if !in_range(tokens, pos) {
        Err(lost())
    } else {
        let span = span_at(tokens, pos);
        match kind_of(tokens, pos) {
            SpecTokenKind::Number(value) => Ok((SpecExpr::NumberLit { value, span }, pos + 1)),
            SpecTokenKind::StringLit(value) => Ok((SpecExpr::StringLit { value, span }, pos + 1)),
            SpecTokenKind::True => Ok((SpecExpr::BoolLit { value: true, span }, pos + 1)),
            SpecTokenKind::False => Ok((SpecExpr::BoolLit { value: false, span }, pos + 1)),
            SpecTokenKind::Nil => Ok((SpecExpr::NilLit { span }, pos + 1)),
            SpecTokenKind::Identifier(name) => Ok((SpecExpr::Ident { name, span }, pos + 1)),
            SpecTokenKind::Minus => p_unary(tokens, pos, UnaryOp::Neg),
            SpecTokenKind::Not => p_unary(tokens, pos, UnaryOp::Not),
            SpecTokenKind::Hash => p_unary(tokens, pos, UnaryOp::Len),
            SpecTokenKind::LeftParen => p_group(tokens, pos),
            SpecTokenKind::LeftBracket => p_array(tokens, pos),
            SpecTokenKind::LeftBrace => p_table(tokens, pos),
            k => Err(syntax_at(tokens, pos, "unexpected token "@ + kind_text(k))),
        }
    }
}

/// The arguments of a call, up to the closing parenthesis.
#[verifier::opaque]
pub open spec fn p_args(tokens: Seq<SpecToken>, pos: int) -> Parsed<Seq<SpecExpr>>
    decreases left(tokens, pos), 5nat,
{
    if !in_range(tokens, pos) {
        Err(lost())
    } else if kind_of(tokens, pos) is RightParen {
        Ok((Seq::empty(), pos))
    } else {
        match p_expression(tokens, pos, 0) {
            Err(e) => Err(e),
            Ok((e, p)) => p_more_args(tokens, forward(pos, p), seq![e]),
        }
    }
}

/// The further arguments of a call, after the arguments `acc`.
#[verifier::opaque]
pub open spec fn p_more_args(tokens: Seq<SpecToken>, pos: int, acc: Seq<SpecExpr>) -> Parsed<
    Seq<SpecExpr>,
>
    decreases left(tokens, pos), 3nat,
{
    if !in_range(tokens, pos) {
        Err(lost())
    } else if !(kind_of(tokens, pos) is Comma) {
        Ok((acc, pos))
    } else {
        match p_expression(tokens, pos + 1, 0) {
            Err(e) => Err(e),
            Ok((e, p)) => p_more_args(tokens, forward(pos, p), acc.push(e)),
        }
    }
}

/// `(args)` after an expression: a call of it.
#[verifier::opaque]
pub open spec fn p_call(tokens: Seq<SpecToken>, pos: int, callee: SpecExpr) -> Parsed<SpecExpr>
    decreases left(tokens, pos), 0nat,
{
    if !in_range(tokens, pos) {
        Err(lost())
    } else {
        match p_args(tokens, pos + 1) {
            Err(e) => Err(e),
            Ok((args, p)) => match p_expect(tokens, p, SpecTokenKind::RightParen) {
                Err(e) => Err(e),
                Ok(pb) => Ok(
                    (
                        SpecExpr::Call { callee: Box::new(callee), args, span: span_at(tokens, pos) },
                        pb,
                    ),
                ),
            },
        }
    }
}

/// `[index]` after an expression.
#[verifier::opaque]
pub open spec fn p_index(tokens: Seq<SpecToken>, pos: int, object: SpecExpr) -> Parsed<SpecExpr>
    decreases left(tokens, pos), 0nat,
{
    if !in_range(tokens, pos) {
        Err(lost())
    } else {
        match p_expression(tokens, pos + 1, 0) {
            Err(e) => Err(e),
            Ok((index, p)) => match p_expect(tokens, p, SpecTokenKind::RightBracket) {
                Err(e) => Err(e),
                Ok(pb) => Ok(
                    (
                        SpecExpr::IndexAccess {
                            object: Box::new(object),
                            index: Box::new(index),
                            span: span_at(tokens, pos),
                        },
                        pb,
                    ),
                ),
            },
        }
    }
}

/// `:method(args)` after an expression.
#[verifier::opaque]
pub open spec fn p_method(tokens: Seq<SpecToken>, pos: int, object: SpecExpr) -> Parsed<SpecExpr>
    decreases left(tokens, pos), 0nat,
{
    if !in_range(tokens, pos) {
        Err(lost())
    } else {
        match p_identifier(tokens, pos + 1) {
            Err(e) => Err(e),
            Ok((method, p)) => match p_expect(tokens, p, SpecTokenKind::LeftParen) {
                Err(e) => Err(e),
                Ok(pb) => match p_args(tokens, forward(pos, pb)) {
                    Err(e) => Err(e),
                    Ok((args, pc)) => match p_expect(tokens, pc, SpecTokenKind::RightParen) {
                        Err(e) => Err(e),
                        Ok(pd) => Ok(
                            (
                                SpecExpr::MethodCall {
                                    object: Box::new(object),
                                    method,
                                    args,
                                    span: span_at(tokens, pos),
                                },
                                pd,
                            ),
                        ),
                    },
                },
            },
        }
    }
}

/// What follows the expression `sofar`: postfix forms, which all apply, and
/// binary operators that bind their left operand with at least `min`.
#[verifier::opaque]
pub open spec fn p_rest(tokens: Seq<SpecToken>, pos: int, sofar: SpecExpr, min: u8) -> Parsed<SpecExpr>
    decreases left(tokens, pos), 2nat,
{
    if !in_range(tokens, pos) {
        Err(lost())
    } else {
        match kind_of(tokens, pos) {
            SpecTokenKind::LeftParen => match p_call(tokens, pos, sofar) {
                Err(e) => Err(e),
                Ok((e, p)) => p_rest(tokens, forward(pos, p), e, min),
            },
            SpecTokenKind::Dot => match p_identifier(tokens, pos + 1) {
                Err(e) => Err(e),
                Ok((field, p)) => p_rest(
                    tokens,
                    forward(pos, p),
                    SpecExpr::FieldAccess {
                        object: Box::new(sofar),
                        field,
                        span: span_at(tokens, pos),
                    },
                    min,
                ),
            },
            SpecTokenKind::LeftBracket => match p_index(tokens, pos, sofar) {
                Err(e) => Err(e),
                Ok((e, p)) => p_rest(tokens, forward(pos, p), e, min),
            },
            SpecTokenKind::Colon => match p_method(tokens, pos, sofar) {
                Err(e) => Err(e),
                Ok((e, p)) => p_rest(tokens, forward(pos, p), e, min),
            },
            k => match infix(k) {
                None => Ok((sofar, pos)),
                Some((op, lbp, rbp)) => if lbp < min {
                    Ok((sofar, pos))
                } else {
                    match p_expression(tokens, pos + 1, rbp) {
                        Err(e) => Err(e),
                        Ok((right, p)) => p_rest(
                            tokens,
                            forward(pos, p),
                            SpecExpr::BinaryOp {
                                left: Box::new(sofar),
                                op,
                                right: Box::new(right),
                                span: span_of(sofar),
                            },
                            min,
                        ),
                    }
                },
            },
        }
    }
}

/// An expression whose binary operators bind their left operand with at
/// least `min`.
#[verifier::opaque]
pub open spec fn p_expression(tokens: Seq<SpecToken>, pos: int, min: u8) -> Parsed<SpecExpr>
    decreases left(tokens, pos), 3nat,
{
    if !in_range(tokens, pos) {
        Err(lost())
    } else {
        match p_prefix(tokens, pos) {
            Err(e) => Err(e),
            Ok((first, p)) => if p >= pos {
                p_rest(tokens, p, first, min)
            } else {
                Err(lost())
            },
        }
    }
}

/// The names of the parameters of a blueprint, up to the closing parenthesis.
pub open spec fn p_params(tokens: Seq<SpecToken>, pos: int) -> Parsed<Seq<Seq<char>>> {
    if kind_of(tokens, pos) is RightParen {
        Ok((Seq::empty(), pos))
    } else {
        match p_identifier(tokens, pos) {
            Err(e) => Err(e),
            Ok((name, p)) => p_names(tokens, p, seq![name]),
        }
    }
}

/// The further names of a list of names, after the names `acc`.
pub open spec fn p_names(tokens: Seq<SpecToken>, pos: int, acc: Seq<Seq<char>>) -> Parsed<
    Seq<Seq<char>>,
>
    decreases left(tokens, pos),
{
    if !in_range(tokens, pos) {
        Err(lost())
    } else if !(kind_of(tokens, pos) is Comma) {
        Ok((acc, pos))
    } else {
        match p_identifier(tokens, pos + 1) {
            Err(e) => Err(e),
            Ok((name, p)) => p_names(tokens, pos + 2, acc.push(name)),
        }
    }
}

/// `local name [= expression]`.
#[verifier::opaque]
pub open spec fn p_local(tokens: Seq<SpecToken>, pos: int) -> Parsed<SpecStmt>
    decreases left(tokens, pos), 0nat,
{
    if !in_range(tokens, pos) {
        Err(lost())
    } else {
        match p_identifier(tokens, pos + 1) {
            Err(e) => Err(e),
            Ok((name, p)) => if kind_of(tokens, p) is Assign {
                match p_expression(tokens, p + 1, 0) {
                    Err(e) => Err(e),
                    Ok((init, pb)) => Ok(
                        (
                            SpecStmt::LocalDecl { name, init: Some(init), span: span_at(tokens, pos) },
                            pb,
                        ),
                    ),
                }
            } else {
                Ok((SpecStmt::LocalDecl { name, init: None, span: span_at(tokens, pos) }, p))
            },
        }
    }
}

/// A condition, its keyword `then` or `do`, and the block that it guards.
#[verifier::opaque]
pub open spec fn p_guarded(tokens: Seq<SpecToken>, pos: int, keyword: SpecTokenKind, end: BlockEnd) -> Parsed<
    (SpecExpr, Seq<SpecStmt>),
>
    decreases left(tokens, pos), 0nat,
{
    if !in_range(tokens, pos) {
        Err(lost())
    } else {
        match p_expression(tokens, pos + 1, 0) {
            Err(e) => Err(e),
            Ok((condition, p)) => match p_expect(tokens, p, keyword) {
                Err(e) => Err(e),
                Ok(pb) => match p_block(tokens, forward(pos, pb), end, Seq::empty()) {
                    Err(e) => Err(e),
                    Ok((body, pc)) => Ok(((condition, body), pc)),
                },
            },
        }
    }
}

/// The `elseif` clauses of a conditional, after the clauses `acc`.
#[verifier::opaque]
pub open spec fn p_clauses(
    tokens: Seq<SpecToken>,
    pos: int,
    acc: Seq<(SpecExpr, Seq<SpecStmt>)>,
) -> Parsed<Seq<(SpecExpr, Seq<SpecStmt>)>>
    decreases left(tokens, pos), 1nat,
{
    if !in_range(tokens, pos) {
        Err(lost())
    } else if !(kind_of(tokens, pos) is ElseIf) {
        Ok((acc, pos))
    } else {
        match p_guarded(tokens, pos, SpecTokenKind::Then, BlockEnd::Branch) {
            Err(e) => Err(e),
            Ok((clause, p)) => p_clauses(tokens, forward(pos, p), acc.push(clause)),
        }
    }
}

/// `if condition then ... {elseif condition then ...} [else ...] end`.
#[verifier::opaque]
pub open spec fn p_if(tokens: Seq<SpecToken>, pos: int) -> Parsed<SpecStmt>
    decreases left(tokens, pos), 2nat,
{
    if !in_range(tokens, pos) {
        Err(lost())
    } else {
        match p_guarded(tokens, pos, SpecTokenKind::Then, BlockEnd::Branch) {
            Err(e) => Err(e),
            Ok(((condition, then_body), p)) => match p_clauses(tokens, forward(pos, p), Seq::empty()) {
                Err(e) => Err(e),
                Ok((elseif_clauses, pb)) => {
                    let other = if kind_of(tokens, pb) is Else {
                        match p_block(tokens, forward(pos, pb + 1), BlockEnd::End, Seq::empty()) {
                            Err(e) => Err(e),
                            Ok((body, pc)) => Ok((Some(body), pc)),
                        }
                    } else {
                        Ok((None, pb))
                    };
                    match other {
                        Err(e) => Err(e),
                        Ok((else_body, pc)) => match p_expect(tokens, pc, SpecTokenKind::End) {
                            Err(e) => Err(e),
                            Ok(pd) => Ok(
                                (
                                    SpecStmt::If {
                                        condition,
                                        then_body,
                                        elseif_clauses,
                                        else_body,
                                        span: span_at(tokens, pos),
                                    },
                                    pd,
                                ),
                            ),
                        },
                    }
                },
            },
        }
    }
}

/// `while condition do ... end`.
#[verifier::opaque]
pub open spec fn p_while(tokens: Seq<SpecToken>, pos: int) -> Parsed<SpecStmt>
    decreases left(tokens, pos), 1nat,
{
    if !in_range(tokens, pos) {
        Err(lost())
    } else {
        match p_guarded(tokens, pos, SpecTokenKind::Do, BlockEnd::End) {
            Err(e) => Err(e),
            Ok(((condition, body), p)) => match p_expect(tokens, p, SpecTokenKind::End) {
                Err(e) => Err(e),
                Ok(pb) => Ok((SpecStmt::While { condition, body, span: span_at(tokens, pos) }, pb)),
            },
        }
    }
}

/// `do ... end`: the body of a loop.
#[verifier::opaque]
pub open spec fn p_body(tokens: Seq<SpecToken>, pos: int) -> Parsed<Seq<SpecStmt>>
    decreases left(tokens, pos), 7nat,
{
    if !in_range(tokens, pos) {
        Err(lost())
    } else {
        match p_expect(tokens, pos, SpecTokenKind::Do) {
            Err(e) => Err(e),
            Ok(p) => match p_block(tokens, at_least(pos, p), BlockEnd::End, Seq::empty()) {
                Err(e) => Err(e),
                Ok((body, pb)) => match p_expect(tokens, pb, SpecTokenKind::End) {
                    Err(e) => Err(e),
                    Ok(pc) => Ok((body, pc)),
                },
            },
        }
    }
}

/// The rest of a numeric `for` after `for name =`.
#[verifier::opaque]
pub open spec fn p_numeric_for(tokens: Seq<SpecToken>, pos: int, var: Seq<char>, span: Span) -> Parsed<
    SpecStmt,
>
    decreases left(tokens, pos), 8nat,
{
    if !in_range(tokens, pos) {
        Err(lost())
    } else {
        match p_expression(tokens, pos, 0) {
            Err(e) => Err(e),
            Ok((start, p)) => match p_expect(tokens, p, SpecTokenKind::Comma) {
                Err(e) => Err(e),
                Ok(pb) => match p_expression(tokens, forward(pos, pb), 0) {
                    Err(e) => Err(e),
                    Ok((limit, pc)) => {
                        let by = if kind_of(tokens, pc) is Comma {
                            match p_expression(tokens, forward(pos, pc + 1), 0) {
                                Err(e) => Err(e),
                                Ok((step, pd)) => Ok((Some(step), pd)),
                            }
                        } else {
                            Ok((None, pc))
                        };
                        match by {
                            Err(e) => Err(e),
                            Ok((step, pd)) => match p_body(tokens, at_least(pos, pd)) {
                                Err(e) => Err(e),
                                Ok((body, pe)) => Ok(
                                    (SpecStmt::NumericFor { var, start, limit, step, body, span }, pe),
                                ),
                            },
                        }
                    },
                },
            },
        }
    }
}

/// The rest of a generic `for` after its first name.
#[verifier::opaque]
pub open spec fn p_generic_for(tokens: Seq<SpecToken>, pos: int, first: Seq<char>, span: Span) -> Parsed<
    SpecStmt,
>
    decreases left(tokens, pos), 8nat,
{
    if !in_range(tokens, pos) {
        Err(lost())
    } else {
        match p_names(tokens, pos, seq![first]) {
            Err(e) => Err(e),
            Ok((vars, p)) => match p_expect(tokens, p, SpecTokenKind::In) {
                Err(e) => Err(e),
                Ok(pb) => match p_expression(tokens, forward(pos, pb), 0) {
                    Err(e) => Err(e),
                    Ok((iter, pc)) => match p_body(tokens, at_least(pos, pc)) {
                        Err(e) => Err(e),
                        Ok((body, pd)) => Ok((SpecStmt::GenericFor { vars, iter, body, span }, pd)),
                    },
                },
            },
        }
    }
}

/// `for`: numeric where `=` follows the first name, generic otherwise.
#[verifier::opaque]
pub open spec fn p_for(tokens: Seq<SpecToken>, pos: int) -> Parsed<SpecStmt>
    decreases left(tokens, pos), 0nat,
{
    if !in_range(tokens, pos) {
        Err(lost())
    } else {
        match p_identifier(tokens, pos + 1) {
            Err(e) => Err(e),
            Ok((first, p)) => if kind_of(tokens, pos + 2) is Assign {
                p_numeric_for(tokens, pos + 3, first, span_at(tokens, pos))
            } else {
                p_generic_for(tokens, pos + 2, first, span_at(tokens, pos))
            },
        }
    }
}

/// `repeat ... until condition`.
#[verifier::opaque]
pub open spec fn p_repeat(tokens: Seq<SpecToken>, pos: int) -> Parsed<SpecStmt>
    decreases left(tokens, pos), 0nat,
{
    if !in_range(tokens, pos) {
        Err(lost())
    } else {
        match p_block(tokens, pos + 1, BlockEnd::Until, Seq::empty()) {
            Err(e) => Err(e),
            Ok((body, p)) => match p_expect(tokens, p, SpecTokenKind::Until) {
                Err(e) => Err(e),
                Ok(pb) => match p_expression(tokens, forward(pos, pb), 0) {
                    Err(e) => Err(e),
                    Ok((condition, pc)) => Ok(
                        (SpecStmt::RepeatUntil { body, condition, span: span_at(tokens, pos) }, pc),
                    ),
                },
            },
        }
    }
}

/// `blueprint name(params) ... end`.
#[verifier::opaque]
pub open spec fn p_blueprint(tokens: Seq<SpecToken>, pos: int) -> Parsed<SpecStmt>
    decreases left(tokens, pos), 0nat,
{
    if !in_range(tokens, pos) {
        Err(lost())
    } else {
        match p_identifier(tokens, pos + 1) {
            Err(e) => Err(e),
            Ok((name, p)) => match p_expect(tokens, p, SpecTokenKind::LeftParen) {
                Err(e) => Err(e),
                Ok(pb) => match p_params(tokens, pb) {
                    Err(e) => Err(e),
                    Ok((params, pc)) => match p_expect(tokens, pc, SpecTokenKind::RightParen) {
                        Err(e) => Err(e),
                        Ok(pd) => match p_block(
                            tokens,
                            forward(pos, pd),
                            BlockEnd::End,
                            Seq::empty(),
                        ) {
                            Err(e) => Err(e),
                            Ok((body, pe)) => match p_expect(tokens, pe, SpecTokenKind::End) {
                                Err(e) => Err(e),
                                Ok(pf) => Ok(
                                    (
                                        SpecStmt::Blueprint {
                                            name,
                                            params,
                                            body,
                                            span: span_at(tokens, pos),
                                        },
                                        pf,
                                    ),
                                ),
                            },
                        },
                    },
                },
            },
        }
    }
}

/// `build name(args)`.
#[verifier::opaque]
pub open spec fn p_build(tokens: Seq<SpecToken>, pos: int) -> Parsed<SpecStmt>
    decreases left(tokens, pos), 0nat,
{
    if !in_range(tokens, pos) {
        Err(lost())
    } else {
        match p_identifier(tokens, pos + 1) {
            Err(e) => Err(e),
            Ok((name, p)) => match p_expect(tokens, p, SpecTokenKind::LeftParen) {
                Err(e) => Err(e),
                Ok(pb) => match p_args(tokens, forward(pos, pb)) {
                    Err(e) => Err(e),
                    Ok((args, pc)) => match p_expect(tokens, pc, SpecTokenKind::RightParen) {
                        Err(e) => Err(e),
                        Ok(pd) => Ok(
                            (SpecStmt::Build { name, args, span: span_at(tokens, pos) }, pd),
                        ),
                    },
                },
            },
        }
    }
}

/// `return [expression]`: the expression is absent where the input or a
/// block ends.
#[verifier::opaque]
pub open spec fn p_return(tokens: Seq<SpecToken>, pos: int) -> Parsed<SpecStmt>
    decreases left(tokens, pos), 0nat,
{
    if !in_range(tokens, pos) {
        Err(lost())
    } else {
        let k = kind_of(tokens, pos + 1);
        if k is Eof || k is End || k is Else || k is ElseIf || k is Until {
            Ok((SpecStmt::Return { value: None, span: span_at(tokens, pos) }, pos + 1))
        } else {
            match p_expression(tokens, pos + 1, 0) {
                Err(e) => Err(e),
                Ok((value, p)) => Ok(
                    (SpecStmt::Return { value: Some(value), span: span_at(tokens, pos) }, p),
                ),
            }
        }
    }
}

/// An expression as a statement, or an assignment where `=` follows it.
#[verifier::opaque]
pub open spec fn p_simple(tokens: Seq<SpecToken>, pos: int) -> Parsed<SpecStmt>
    decreases left(tokens, pos), 4nat,
{
    if !in_range(tokens, pos) {
        Err(lost())
    } else {
        match p_expression(tokens, pos, 0) {
            Err(e) => Err(e),
            Ok((expr, p)) => if kind_of(tokens, p) is Assign {
                match p_expression(tokens, forward(pos, p + 1), 0) {
                    Err(e) => Err(e),
                    Ok((value, pb)) => Ok(
                        (SpecStmt::Assign { target: expr, value, span: span_at(tokens, pos) }, pb),
                    ),
                }
            } else {
                Ok((SpecStmt::ExprStmt { expr, span: span_at(tokens, pos) }, p))
            },
        }
    }
}

/// A statement, by the keyword it begins with.
#[verifier::opaque]
pub open spec fn p_statement(tokens: Seq<SpecToken>, pos: int) -> Parsed<SpecStmt>
    decreases left(tokens, pos), 5nat,
{
    if !in_range(tokens, pos) {
        Err(lost())
    } else {
        match kind_of(tokens, pos) {
            SpecTokenKind::Local => p_local(tokens, pos),
            SpecTokenKind::Let => p_local(tokens, pos),
            SpecTokenKind::If => p_if(tokens, pos),
            SpecTokenKind::While => p_while(tokens, pos),
            SpecTokenKind::For => p_for(tokens, pos),
            SpecTokenKind::Repeat => p_repeat(tokens, pos),
            SpecTokenKind::Blueprint => p_blueprint(tokens, pos),
            SpecTokenKind::Fn => p_blueprint(tokens, pos),
            SpecTokenKind::Build => p_build(tokens, pos),
            SpecTokenKind::Return => p_return(tokens, pos),
            SpecTokenKind::Break => Ok((SpecStmt::Break { span: span_at(tokens, pos) }, pos + 1)),
            SpecTokenKind::Continue => Ok(
                (SpecStmt::Continue { span: span_at(tokens, pos) }, pos + 1),
            ),
            _ => p_simple(tokens, pos),
        }
    }
}

/// The statements of a block, after the statements `acc`, up to a token
/// that ends it. Input that ends first is an error.
#[verifier::opaque]
pub open spec fn p_block(tokens: Seq<SpecToken>, pos: int, end: BlockEnd, acc: Seq<SpecStmt>) -> Parsed<
    Seq<SpecStmt>,
>
    decreases left(tokens, pos), 6nat,
{
    if !in_range(tokens, pos) {
        Err(lost())
    } else if kind_of(tokens, pos) is Eof {
        Err(syntax_at(tokens, pos, open_block_message(end)))
    } else if ends_block(kind_of(tokens, pos), end) {
        Ok((acc, pos))
    } else {
        match p_statement(tokens, pos) {
            Err(e) => Err(e),
            Ok((s, p)) => p_block(tokens, forward(pos, p), end, acc.push(s)),
        }
    }
}

/// The statements of a program from `pos` on, after the statements `acc`.
#[verifier::opaque]
pub open spec fn p_program(tokens: Seq<SpecToken>, pos: int, acc: Seq<SpecStmt>) -> Result<
    Seq<SpecStmt>,
    SpecError,
>
    decreases left(tokens, pos),
{
    if !in_range(tokens, pos) {
        Err(lost())
    } else if kind_of(tokens, pos) is Eof {
        Ok(acc)
    } else {
        match p_statement(tokens, pos) {
            Err(e) => Err(e),
            Ok((s, p)) => p_program(tokens, forward(pos, p), acc.push(s)),
        }
    }
}

/// The program that a sequence of tokens parses to.
pub open spec fn parse_tokens(tokens: Seq<SpecToken>) -> Result<Seq<SpecStmt>, SpecError> {
    p_program(tokens, 0, Seq::empty())
}

/// The number literal of the token at `pos`.
pub open spec fn literal_at(tokens: Seq<SpecToken>, pos: int) -> SpecExpr {
    SpecExpr::NumberLit { value: tokens[pos].kind->Number_0, span: span_at(tokens, pos) }
}

/// `left op right`, at the position of `left`.
pub open spec fn binary(left: SpecExpr, op: BinOp, right: SpecExpr) -> SpecExpr {
    SpecExpr::BinaryOp { left: Box::new(left), op, right: Box::new(right), span: span_of(left) }
}

/// Whether `tokens` are three number literals with an operator between each
/// two, and then the end of input.
pub open spec fn three_operands(tokens: Seq<SpecToken>) -> bool {
    &&& tokens.len() == 6
    &&& tokens[0].kind is Number
    &&& infix(tokens[1].kind) is Some
    &&& tokens[2].kind is Number
    &&& infix(tokens[3].kind) is Some
    &&& tokens[4].kind is Number
    &&& tokens[5].kind is Eof
}

/// Grouping: in `a op1 b op2 c`, the operand `b` goes to `op2` where `op2`
/// binds its left operand at least as tightly as `op1` binds its right one,
/// and to `op1` otherwise.
pub proof fn operands_group_by_strength(tokens: Seq<SpecToken>)
    requires
        three_operands(tokens),
    ensures
        ({
            let (op1, l1, r1) = infix(tokens[1].kind)->0;
            let (op2, l2, r2) = infix(tokens[3].kind)->0;
            let a = literal_at(tokens, 0);
            let b = literal_at(tokens, 2);
            let c = literal_at(tokens, 4);
            p_expression(tokens, 0, 0) == Ok::<(SpecExpr, int), SpecError>(
                (
                    if l2 >= r1 {
                        binary(a, op1, binary(b, op2, c))
                    } else {
                        binary(binary(a, op1, b), op2, c)
                    },
                    5,
                ),
            )
        }),
{
    reveal_with_fuel(p_expression, 4);
    reveal_with_fuel(p_rest, 4);
    reveal_with_fuel(p_prefix, 2);
    let (op1, l1, r1) = infix(tokens[1].kind)->0;
    let (op2, l2, r2) = infix(tokens[3].kind)->0;
    let a = literal_at(tokens, 0);
    let b = literal_at(tokens, 2);
    let c = literal_at(tokens, 4);
    assert(p_prefix(tokens, 0) == Ok::<(SpecExpr, int), SpecError>((a, 1)));
    assert(p_prefix(tokens, 2) == Ok::<(SpecExpr, int), SpecError>((b, 3)));
    assert(p_prefix(tokens, 4) == Ok::<(SpecExpr, int), SpecError>((c, 5)));
    assert(p_expression(tokens, 4, r2) == Ok::<(SpecExpr, int), SpecError>((c, 5)));
    if l2 >= r1 {
        assert(p_expression(tokens, 2, r1) == Ok::<(SpecExpr, int), SpecError>(
            (binary(b, op2, c), 5),
        ));
    } else {
        assert(p_expression(tokens, 2, r1) == Ok::<(SpecExpr, int), SpecError>((b, 3)));
    }
}

/// `^` associates to the right: `a ^ b ^ c` is `a ^ (b ^ c)`.
pub proof fn power_associates_right(tokens: Seq<SpecToken>)
    requires
        three_operands(tokens),
        tokens[1].kind is Caret,
        tokens[3].kind is Caret,
    ensures
        p_expression(tokens, 0, 0) == Ok::<(SpecExpr, int), SpecError>(
            (
                binary(
                    literal_at(tokens, 0),
                    BinOp::Pow,
                    binary(literal_at(tokens, 2), BinOp::Pow, literal_at(tokens, 4)),
                ),
                5,
            ),
        ),
{
    operands_group_by_strength(tokens);
}

/// The binary operator that a token stands for.
pub open spec fn operator(k: SpecTokenKind) -> BinOp {
    let (op, l, r) = infix(k)->0;
    op
}

/// The strength that the operator of a token binds its left operand with.
pub open spec fn left_strength(k: SpecTokenKind) -> u8 {
    let (op, l, r) = infix(k)->0;
    l
}

/// Whether a token is one of `+ - * / %`.
pub open spec fn is_arithmetic(k: SpecTokenKind) -> bool {
    k is Plus || k is Minus || k is Star || k is Slash || k is Percent
}

/// The other arithmetic operators associate to the left: `a op b op c` is
/// `(a op b) op c` for `op` among `+ - * / %`, and so is `a op1 b op2 c`
/// for two of them of the same strength.
pub proof fn arithmetic_associates_left(tokens: Seq<SpecToken>)
    requires
        three_operands(tokens),
        is_arithmetic(tokens[1].kind),
        is_arithmetic(tokens[3].kind),
        left_strength(tokens[1].kind) == left_strength(tokens[3].kind),
    ensures
        p_expression(tokens, 0, 0) == Ok::<(SpecExpr, int), SpecError>(
            (
                binary(
                    binary(literal_at(tokens, 0), operator(tokens[1].kind), literal_at(tokens, 2)),
                    operator(tokens[3].kind),
                    literal_at(tokens, 4),
                ),
                5,
            ),
        ),
{
    operands_group_by_strength(tokens);
}

/// An expression of three operands alone is a program of one statement, the
/// expression itself: what is said of `a op1 b op2 c` as an expression holds
/// of the program that these tokens parse to.
pub proof fn three_operands_make_a_program(tokens: Seq<SpecToken>)
    requires
        three_operands(tokens),
    ensures
        p_expression(tokens, 0, 0) is Ok,
        parse_tokens(tokens) == Ok::<Seq<SpecStmt>, SpecError>(
            seq![
                SpecStmt::ExprStmt {
                    expr: p_expression(tokens, 0, 0)->Ok_0.0,
                    span: span_at(tokens, 0),
                },
            ],
        ),
{
    operands_group_by_strength(tokens);
    reveal_with_fuel(p_program, 2);
    reveal(p_statement);
    reveal(p_simple);
    let s = SpecStmt::ExprStmt { expr: p_expression(tokens, 0, 0)->Ok_0.0, span: span_at(tokens, 0) };
    assert(p_expression(tokens, 0, 0)->Ok_0.1 == 5);
    assert(p_simple(tokens, 0) == Ok::<(SpecStmt, int), SpecError>((s, 5)));
    assert(p_statement(tokens, 0) == Ok::<(SpecStmt, int), SpecError>((s, 5)));
    assert(Seq::<SpecStmt>::empty().push(s) =~= seq![s]);
}

} // verus!
