//! Progress of the grammar: whatever is read ends beyond the position where
//! it began, and a list ends no earlier than it began. This is why reading
//! always comes to an end, and why the positions that the grammar moves
//! forward to are the positions where the parts it has read end.
use vstd::prelude::*;
use crate::ast::{Span, SpecExpr, SpecStmt, UnaryOp};
use crate::grammar::{
    at_least,
    forward,
    in_range,
    infix,
    kind_of,
    p_args,
    p_array,
    p_block,
    p_blueprint,
    p_body,
    p_build,
    p_call,
    p_clauses,
    p_elements,
    p_expect,
    p_expression,
    p_field,
    p_fields,
    p_for,
    p_generic_for,
    p_group,
    p_guarded,
    p_identifier,
    p_if,
    p_index,
    p_local,
    p_method,
    p_more_args,
    p_names,
    p_numeric_for,
    p_params,
    p_prefix,
    p_repeat,
    p_rest,
    p_return,
    p_simple,
    p_statement,
    p_table,
    p_unary,
    p_while,
    left,
    BlockEnd,
    Parsed,
};
use crate::lexer::{SpecToken, SpecTokenKind};

verus! {

/// Whether what was read from `pos` on ends beyond `pos`.
pub open spec fn moved<T>(pos: int, r: Parsed<T>) -> bool {
    r matches Ok((_, p)) ==> p > pos
}

/// Whether what was read from `pos` on ends no earlier than `pos`.
pub open spec fn held<T>(pos: int, r: Parsed<T>) -> bool {
    r matches Ok((_, p)) ==> p >= pos
}

/// A token that is passed is left behind, unless it is the end of input.
pub proof fn expect_passes(tokens: Seq<SpecToken>, pos: int, expected: SpecTokenKind)
    ensures
        p_expect(tokens, pos, expected) matches Ok(p) ==> p >= pos && (!(expected is Eof) ==> p
            == pos + 1),
{
}

#[verifier::spinoff_prover]
proof fn unary_moves(tokens: Seq<SpecToken>, pos: int, op: UnaryOp)
    ensures
        moved(pos, p_unary(tokens, pos, op)),
    decreases left(tokens, pos), 0nat,
{
    reveal(p_unary);
    if in_range(tokens, pos) {
        expression_moves(tokens, pos + 1, crate::grammar::unary_strength());
    }
}

#[verifier::spinoff_prover]
proof fn group_moves(tokens: Seq<SpecToken>, pos: int)
    ensures
        moved(pos, p_group(tokens, pos)),
    decreases left(tokens, pos), 0nat,
{
    reveal(p_group);
    if in_range(tokens, pos) {
        expression_moves(tokens, pos + 1, 0);
    }
}

#[verifier::spinoff_prover]
proof fn array_moves(tokens: Seq<SpecToken>, pos: int)
    ensures
        moved(pos, p_array(tokens, pos)),
    decreases left(tokens, pos), 0nat,
{
    reveal(p_array);
    if in_range(tokens, pos) && !(kind_of(tokens, pos + 1) is RightBracket) {
        expression_moves(tokens, pos + 1, 0);
        if let Ok((e, p)) = p_expression(tokens, pos + 1, 0) {
            elements_hold(tokens, forward(pos, p), seq![e]);
        }
    }
}

#[verifier::spinoff_prover]
proof fn elements_hold(tokens: Seq<SpecToken>, pos: int, acc: Seq<SpecExpr>)
    ensures
        held(pos, p_elements(tokens, pos, acc)),
    decreases left(tokens, pos), 3nat,
{
    reveal(p_elements);
    if in_range(tokens, pos) && kind_of(tokens, pos) is Comma && !(kind_of(tokens, pos + 1)
        is RightBracket) {
        expression_moves(tokens, pos + 1, 0);
        if let Ok((e, p)) = p_expression(tokens, pos + 1, 0) {
            elements_hold(tokens, forward(pos, p), acc.push(e));
        }
    }
}

#[verifier::spinoff_prover]
proof fn field_moves(tokens: Seq<SpecToken>, pos: int)
    ensures
        moved(pos, p_field(tokens, pos)),
    decreases left(tokens, pos), 3nat,
{
    reveal(p_field);
    if in_range(tokens, pos) {
        if let Ok((key, p)) = p_identifier(tokens, pos) {
            if let Ok(pb) = p_expect(tokens, p, SpecTokenKind::Assign) {
                expression_moves(tokens, forward(pos, pb), 0);
            }
        }
    }
}

#[verifier::spinoff_prover]
proof fn fields_hold(tokens: Seq<SpecToken>, pos: int, acc: Seq<(Seq<char>, SpecExpr)>)
    ensures
        held(pos, p_fields(tokens, pos, acc)),
    decreases left(tokens, pos), 4nat,
{
    reveal(p_fields);
    if in_range(tokens, pos) && kind_of(tokens, pos) is Comma && !(kind_of(tokens, pos + 1)
        is RightBrace) {
        field_moves(tokens, pos + 1);
        if let Ok((f, p)) = p_field(tokens, pos + 1) {
            fields_hold(tokens, forward(pos, p), acc.push(f));
        }
    }
}

#[verifier::spinoff_prover]
proof fn table_moves(tokens: Seq<SpecToken>, pos: int)
    ensures
        moved(pos, p_table(tokens, pos)),
    decreases left(tokens, pos), 0nat,
{
    reveal(p_table);
    if in_range(tokens, pos) && !(kind_of(tokens, pos + 1) is RightBrace) {
        field_moves(tokens, pos + 1);
        if let Ok((f, p)) = p_field(tokens, pos + 1) {
            fields_hold(tokens, forward(pos, p), seq![f]);
        }
    }
}

#[verifier::spinoff_prover]
proof fn prefix_moves(tokens: Seq<SpecToken>, pos: int)
    ensures
        moved(pos, p_prefix(tokens, pos)),
    decreases left(tokens, pos), 1nat,
{
    reveal(p_prefix);
    if in_range(tokens, pos) {
        match kind_of(tokens, pos) {
            SpecTokenKind::Minus => unary_moves(tokens, pos, UnaryOp::Neg),
            SpecTokenKind::Not => unary_moves(tokens, pos, UnaryOp::Not),
            SpecTokenKind::Hash => unary_moves(tokens, pos, UnaryOp::Len),
            SpecTokenKind::LeftParen => group_moves(tokens, pos),
            SpecTokenKind::LeftBracket => array_moves(tokens, pos),
            SpecTokenKind::LeftBrace => table_moves(tokens, pos),
            _ => {},
        }
    }
}

#[verifier::spinoff_prover]
proof fn args_hold(tokens: Seq<SpecToken>, pos: int)
    ensures
        held(pos, p_args(tokens, pos)),
    decreases left(tokens, pos), 5nat,
{
    reveal(p_args);
    if in_range(tokens, pos) && !(kind_of(tokens, pos) is RightParen) {
        expression_moves(tokens, pos, 0);
        if let Ok((e, p)) = p_expression(tokens, pos, 0) {
            more_args_hold(tokens, forward(pos, p), seq![e]);
        }
    }
}

#[verifier::spinoff_prover]
proof fn more_args_hold(tokens: Seq<SpecToken>, pos: int, acc: Seq<SpecExpr>)
    ensures
        held(pos, p_more_args(tokens, pos, acc)),
    decreases left(tokens, pos), 3nat,
{
    reveal(p_more_args);
    if in_range(tokens, pos) && kind_of(tokens, pos) is Comma {
        expression_moves(tokens, pos + 1, 0);
        if let Ok((e, p)) = p_expression(tokens, pos + 1, 0) {
            more_args_hold(tokens, forward(pos, p), acc.push(e));
        }
    }
}

#[verifier::spinoff_prover]
proof fn call_moves(tokens: Seq<SpecToken>, pos: int, callee: SpecExpr)
    ensures
        moved(pos, p_call(tokens, pos, callee)),
    decreases left(tokens, pos), 0nat,
{
    reveal(p_call);
    if in_range(tokens, pos) {
        args_hold(tokens, pos + 1);
    }
}

#[verifier::spinoff_prover]
proof fn index_moves(tokens: Seq<SpecToken>, pos: int, object: SpecExpr)
    ensures
        moved(pos, p_index(tokens, pos, object)),
    decreases left(tokens, pos), 0nat,
{
    reveal(p_index);
    if in_range(tokens, pos) {
        expression_moves(tokens, pos + 1, 0);
    }
}

#[verifier::spinoff_prover]
proof fn method_moves(tokens: Seq<SpecToken>, pos: int, object: SpecExpr)
    ensures
        moved(pos, p_method(tokens, pos, object)),
    decreases left(tokens, pos), 0nat,
{
    reveal(p_method);
    if in_range(tokens, pos) {
        if let Ok((method, p)) = p_identifier(tokens, pos + 1) {
            if let Ok(pb) = p_expect(tokens, p, SpecTokenKind::LeftParen) {
                args_hold(tokens, forward(pos, pb));
            }
        }
    }
}

#[verifier::spinoff_prover]
proof fn rest_holds(tokens: Seq<SpecToken>, pos: int, sofar: SpecExpr, min: u8)
    ensures
        held(pos, p_rest(tokens, pos, sofar, min)),
    decreases left(tokens, pos), 2nat,
{
    reveal(p_rest);
    if in_range(tokens, pos) {
        match kind_of(tokens, pos) {
            SpecTokenKind::LeftParen => {
                call_moves(tokens, pos, sofar);
                if let Ok((e, p)) = p_call(tokens, pos, sofar) {
                    rest_holds(tokens, forward(pos, p), e, min);
                }
            },
            SpecTokenKind::Dot => {
                if let Ok((field, p)) = p_identifier(tokens, pos + 1) {
                    rest_holds(
                        tokens,
                        forward(pos, p),
                        SpecExpr::FieldAccess {
                            object: Box::new(sofar),
                            field,
                            span: crate::grammar::span_at(tokens, pos),
                        },
                        min,
                    );
                }
            },
            SpecTokenKind::LeftBracket => {
                index_moves(tokens, pos, sofar);
                if let Ok((e, p)) = p_index(tokens, pos, sofar) {
                    rest_holds(tokens, forward(pos, p), e, min);
                }
            },
            SpecTokenKind::Colon => {
                method_moves(tokens, pos, sofar);
                if let Ok((e, p)) = p_method(tokens, pos, sofar) {
                    rest_holds(tokens, forward(pos, p), e, min);
                }
            },
            k => {
                if let Some((op, lbp, rbp)) = infix(k) {
                    if lbp >= min {
                        expression_moves(tokens, pos + 1, rbp);
                        if let Ok((right, p)) = p_expression(tokens, pos + 1, rbp) {
                            rest_holds(
                                tokens,
                                forward(pos, p),
                                SpecExpr::BinaryOp {
                                    left: Box::new(sofar),
                                    op,
                                    right: Box::new(right),
                                    span: crate::ast::span_of(sofar),
                                },
                                min,
                            );
                        }
                    }
                }
            },
        }
    }
}

#[verifier::spinoff_prover]
proof fn expression_moves(tokens: Seq<SpecToken>, pos: int, min: u8)
    ensures
        moved(pos, p_expression(tokens, pos, min)),
    decreases left(tokens, pos), 3nat,
{
    reveal(p_expression);
    if in_range(tokens, pos) {
        prefix_moves(tokens, pos);
        if let Ok((first, p)) = p_prefix(tokens, pos) {
            rest_holds(tokens, p, first, min);
        }
    }
}

#[verifier::spinoff_prover]
proof fn names_hold(tokens: Seq<SpecToken>, pos: int, acc: Seq<Seq<char>>)
    ensures
        held(pos, p_names(tokens, pos, acc)),
    decreases left(tokens, pos),
{
    if in_range(tokens, pos) && kind_of(tokens, pos) is Comma {
        if let Ok((name, p)) = p_identifier(tokens, pos + 1) {
            names_hold(tokens, pos + 2, acc.push(name));
        }
    }
}

#[verifier::spinoff_prover]
proof fn local_moves(tokens: Seq<SpecToken>, pos: int)
    ensures
        moved(pos, p_local(tokens, pos)),
    decreases left(tokens, pos), 0nat,
{
    reveal(p_local);
    if in_range(tokens, pos) {
        if let Ok((name, p)) = p_identifier(tokens, pos + 1) {
            if kind_of(tokens, p) is Assign {
                expression_moves(tokens, p + 1, 0);
            }
        }
    }
}

#[verifier::spinoff_prover]
proof fn guarded_moves(tokens: Seq<SpecToken>, pos: int, keyword: SpecTokenKind, end: BlockEnd)
    ensures
        moved(pos, p_guarded(tokens, pos, keyword, end)),
    decreases left(tokens, pos), 0nat,
{
    reveal(p_guarded);
    if in_range(tokens, pos) {
        expression_moves(tokens, pos + 1, 0);
        if let Ok((condition, p)) = p_expression(tokens, pos + 1, 0) {
            if let Ok(pb) = p_expect(tokens, p, keyword) {
                block_holds(tokens, forward(pos, pb), end, Seq::empty());
            }
        }
    }
}

#[verifier::spinoff_prover]
proof fn clauses_hold(tokens: Seq<SpecToken>, pos: int, acc: Seq<(SpecExpr, Seq<SpecStmt>)>)
    ensures
        held(pos, p_clauses(tokens, pos, acc)),
    decreases left(tokens, pos), 1nat,
{
    reveal(p_clauses);
    if in_range(tokens, pos) && kind_of(tokens, pos) is ElseIf {
        guarded_moves(tokens, pos, SpecTokenKind::Then, BlockEnd::Branch);
        if let Ok((clause, p)) = p_guarded(tokens, pos, SpecTokenKind::Then, BlockEnd::Branch) {
            clauses_hold(tokens, forward(pos, p), acc.push(clause));
        }
    }
}

#[verifier::spinoff_prover]
proof fn if_moves(tokens: Seq<SpecToken>, pos: int)
    ensures
        moved(pos, p_if(tokens, pos)),
    decreases left(tokens, pos), 2nat,
{
    reveal(p_if);
    if in_range(tokens, pos) {
        guarded_moves(tokens, pos, SpecTokenKind::Then, BlockEnd::Branch);
        if let Ok((g, p)) = p_guarded(tokens, pos, SpecTokenKind::Then, BlockEnd::Branch) {
            clauses_hold(tokens, forward(pos, p), Seq::empty());
            if let Ok((cs, pb)) = p_clauses(tokens, forward(pos, p), Seq::empty()) {
                if kind_of(tokens, pb) is Else {
                    block_holds(tokens, forward(pos, pb + 1), BlockEnd::End, Seq::empty());
                }
            }
        }
    }
}

#[verifier::spinoff_prover]
proof fn while_moves(tokens: Seq<SpecToken>, pos: int)
    ensures
        moved(pos, p_while(tokens, pos)),
    decreases left(tokens, pos), 1nat,
{
    reveal(p_while);
    if in_range(tokens, pos) {
        guarded_moves(tokens, pos, SpecTokenKind::Do, BlockEnd::End);
    }
}

#[verifier::spinoff_prover]
proof fn body_moves(tokens: Seq<SpecToken>, pos: int)
    ensures
        moved(pos, p_body(tokens, pos)),
    decreases left(tokens, pos), 7nat,
{
    reveal(p_body);
    if in_range(tokens, pos) {
        if let Ok(p) = p_expect(tokens, pos, SpecTokenKind::Do) {
            block_holds(tokens, at_least(pos, p), BlockEnd::End, Seq::empty());
        }
    }
}

#[verifier::spinoff_prover]
proof fn numeric_for_moves(tokens: Seq<SpecToken>, pos: int, var: Seq<char>, span: Span)
    ensures
        moved(pos, p_numeric_for(tokens, pos, var, span)),
    decreases left(tokens, pos), 8nat,
{
    reveal(p_numeric_for);
    if in_range(tokens, pos) {
        expression_moves(tokens, pos, 0);
        if let Ok((start, p)) = p_expression(tokens, pos, 0) {
            if let Ok(pb) = p_expect(tokens, p, SpecTokenKind::Comma) {
                expression_moves(tokens, forward(pos, pb), 0);
                if let Ok((limit, pc)) = p_expression(tokens, forward(pos, pb), 0) {
                    if kind_of(tokens, pc) is Comma {
                        expression_moves(tokens, forward(pos, pc + 1), 0);
                        if let Ok((step, pd)) = p_expression(tokens, forward(pos, pc + 1), 0) {
                            body_moves(tokens, at_least(pos, pd));
                        }
                    } else {
                        body_moves(tokens, at_least(pos, pc));
                    }
                }
            }
        }
    }
}

#[verifier::spinoff_prover]
proof fn generic_for_moves(tokens: Seq<SpecToken>, pos: int, first: Seq<char>, span: Span)
    ensures
        moved(pos, p_generic_for(tokens, pos, first, span)),
    decreases left(tokens, pos), 8nat,
{
    reveal(p_generic_for);
    if in_range(tokens, pos) {
        names_hold(tokens, pos, seq![first]);
        if let Ok((vars, p)) = p_names(tokens, pos, seq![first]) {
            if let Ok(pb) = p_expect(tokens, p, SpecTokenKind::In) {
                expression_moves(tokens, forward(pos, pb), 0);
                if let Ok((iter, pc)) = p_expression(tokens, forward(pos, pb), 0) {
                    body_moves(tokens, at_least(pos, pc));
                }
            }
        }
    }
}

#[verifier::spinoff_prover]
proof fn for_moves(tokens: Seq<SpecToken>, pos: int)
    ensures
        moved(pos, p_for(tokens, pos)),
    decreases left(tokens, pos), 0nat,
{
    reveal(p_for);
    if in_range(tokens, pos) {
        if let Ok((first, p)) = p_identifier(tokens, pos + 1) {
            if kind_of(tokens, pos + 2) is Assign {
                numeric_for_moves(tokens, pos + 3, first, crate::grammar::span_at(tokens, pos));
            } else {
                generic_for_moves(tokens, pos + 2, first, crate::grammar::span_at(tokens, pos));
            }
        }
    }
}

#[verifier::spinoff_prover]
proof fn repeat_moves(tokens: Seq<SpecToken>, pos: int)
    ensures
        moved(pos, p_repeat(tokens, pos)),
    decreases left(tokens, pos), 0nat,
{
    reveal(p_repeat);
    if in_range(tokens, pos) {
        block_holds(tokens, pos + 1, BlockEnd::Until, Seq::empty());
        if let Ok((body, p)) = p_block(tokens, pos + 1, BlockEnd::Until, Seq::empty()) {
            if let Ok(pb) = p_expect(tokens, p, SpecTokenKind::Until) {
                expression_moves(tokens, forward(pos, pb), 0);
            }
        }
    }
}

#[verifier::spinoff_prover]
proof fn blueprint_moves(tokens: Seq<SpecToken>, pos: int)
    ensures
        moved(pos, p_blueprint(tokens, pos)),
    decreases left(tokens, pos), 0nat,
{
    reveal(p_blueprint);
    if in_range(tokens, pos) {
        if let Ok((name, p)) = p_identifier(tokens, pos + 1) {
            if let Ok(pb) = p_expect(tokens, p, SpecTokenKind::LeftParen) {
                if !(kind_of(tokens, pb) is RightParen) {
                    if let Ok((n, q)) = p_identifier(tokens, pb) {
                        names_hold(tokens, q, seq![n]);
                    }
                }
                if let Ok((params, pc)) = p_params(tokens, pb) {
                    if let Ok(pd) = p_expect(tokens, pc, SpecTokenKind::RightParen) {
                        block_holds(tokens, forward(pos, pd), BlockEnd::End, Seq::empty());
                    }
                }
            }
        }
    }
}

#[verifier::spinoff_prover]
proof fn build_moves(tokens: Seq<SpecToken>, pos: int)
    ensures
        moved(pos, p_build(tokens, pos)),
    decreases left(tokens, pos), 0nat,
{
    reveal(p_build);
    if in_range(tokens, pos) {
        if let Ok((name, p)) = p_identifier(tokens, pos + 1) {
            if let Ok(pb) = p_expect(tokens, p, SpecTokenKind::LeftParen) {
                args_hold(tokens, forward(pos, pb));
            }
        }
    }
}

#[verifier::spinoff_prover]
proof fn return_moves(tokens: Seq<SpecToken>, pos: int)
    ensures
        moved(pos, p_return(tokens, pos)),
    decreases left(tokens, pos), 0nat,
{
    reveal(p_return);
    if in_range(tokens, pos) {
        expression_moves(tokens, pos + 1, 0);
    }
}

#[verifier::spinoff_prover]
proof fn simple_moves(tokens: Seq<SpecToken>, pos: int)
    ensures
        moved(pos, p_simple(tokens, pos)),
    decreases left(tokens, pos), 4nat,
{
    reveal(p_simple);
    if in_range(tokens, pos) {
        expression_moves(tokens, pos, 0);
        if let Ok((expr, p)) = p_expression(tokens, pos, 0) {
            if kind_of(tokens, p) is Assign {
                expression_moves(tokens, forward(pos, p + 1), 0);
            }
        }
    }
}

#[verifier::spinoff_prover]
proof fn statement_moves(tokens: Seq<SpecToken>, pos: int)
    ensures
        moved(pos, p_statement(tokens, pos)),
    decreases left(tokens, pos), 5nat,
{
    reveal(p_statement);
    if in_range(tokens, pos) {
        match kind_of(tokens, pos) {
            SpecTokenKind::Local => local_moves(tokens, pos),
            SpecTokenKind::Let => local_moves(tokens, pos),
            SpecTokenKind::If => if_moves(tokens, pos),
            SpecTokenKind::While => while_moves(tokens, pos),
            SpecTokenKind::For => for_moves(tokens, pos),
            SpecTokenKind::Repeat => repeat_moves(tokens, pos),
            SpecTokenKind::Blueprint => blueprint_moves(tokens, pos),
            SpecTokenKind::Fn => blueprint_moves(tokens, pos),
            SpecTokenKind::Build => build_moves(tokens, pos),
            SpecTokenKind::Return => return_moves(tokens, pos),
            SpecTokenKind::Break => {},
            SpecTokenKind::Continue => {},
            _ => simple_moves(tokens, pos),
        }
    }
}

#[verifier::spinoff_prover]
proof fn block_holds(tokens: Seq<SpecToken>, pos: int, end: BlockEnd, acc: Seq<SpecStmt>)
    ensures
        held(pos, p_block(tokens, pos, end, acc)),
    decreases left(tokens, pos), 6nat,
{
    reveal(p_block);
    if in_range(tokens, pos) && !(kind_of(tokens, pos) is Eof) && !crate::grammar::ends_block(
        kind_of(tokens, pos),
        end,
    ) {
        statement_moves(tokens, pos);
        if let Ok((s, p)) = p_statement(tokens, pos) {
            block_holds(tokens, forward(pos, p), end, acc.push(s));
        }
    }
}

/// An expression that is read ends beyond the position where it begins.
pub proof fn expressions_move_on(tokens: Seq<SpecToken>, pos: int, min: u8)
    ensures
        moved(pos, p_expression(tokens, pos, min)),
        p_expression(tokens, pos, min) matches Ok((_, p)) ==> forward(pos, p) == p,
{
    expression_moves(tokens, pos, min);
}

/// A statement that is read ends beyond the position where it begins.
pub proof fn statements_move_on(tokens: Seq<SpecToken>, pos: int)
    ensures
        moved(pos, p_statement(tokens, pos)),
        p_statement(tokens, pos) matches Ok((_, p)) ==> forward(pos, p) == p,
{
    statement_moves(tokens, pos);
}

/// A block that is read ends no earlier than it begins.
pub proof fn blocks_hold_on(tokens: Seq<SpecToken>, pos: int, end: BlockEnd)
    ensures
        held(pos, p_block(tokens, pos, end, Seq::empty())),
{
    block_holds(tokens, pos, end, Seq::empty());
}

} // verus!
