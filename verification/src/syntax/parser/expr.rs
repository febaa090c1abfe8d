//! Expressions: assignments, unary operators and factors.
use std::collections::VecDeque;
use vstd::prelude::*;
use crate::syntax::ast::{
    stmt_view,
    block_view, decl_view, expr_view, if_view, param_view, program_view, sexpr_view, sif_view,
    sstmt_view, stmts_view, BinOp, BlockV, Declaration, ExprV, Expression, FnDeclV, Ident, IfExpr,
    IfV, ParamV, Program, Spanned, Statement, StmtV, TypeName, UniOp,
};
use crate::syntax::grammar::{
    addition_op, after, bin, equality_op, is_expr_first, multiply_op, order_op, present, rem,
    rule_addition, rule_addition_rest, rule_and_rest, rule_args, rule_args_rest, rule_assign,
    rule_bind, rule_block, rule_consume, rule_decls, rule_else, rule_equality,
    rule_equality_rest, rule_expr, rule_factor, rule_fn_call, rule_fn_decl, rule_fn_decl_tail,
    rule_if_expr, rule_items, rule_logical_and, rule_logical_or, rule_multiply,
    rule_multiply_rest, rule_or_rest, rule_order, rule_order_rest, rule_param_list,
    rule_params_rest, rule_program, rule_statement, rule_type_name, rule_typed_binding,
    rule_unary_op, unexpected, ElsePartV, ParseError, Parsed,
};
use crate::syntax::lexer::{tokens_view, Keyword, Span, Token, TokenKind, TokenKindV, TokenV};
use crate::syntax::parser::queue::{
    at, block_res, consume, decl_res, decls_res, else_res, expr_res, exprs_res, param_res,
    params_res, program_res, stmt_res, stmts_res, type_res, decls_view, else_view, is_expr_first_token, lemma_at_end, lemma_at_step,
    next, params_view, parsed, peek, productive, sexprs_view, sifs_view, sstmts_view,
    unexpected_token,
};
use crate::syntax::parser::block::{bind, block, items, statement};
use crate::syntax::parser::binary::{
    addition, addition_rest, and_rest, equality, equality_rest, join, logical_and, logical_or,
    multiply, multiply_rest, operation, or_rest, order, order_rest,
};

use crate::syntax::parser::call::{args_rest, call_args, fn_call};
use crate::syntax::parser::cond::{else_part, if_expr};

verus! {

pub(crate) fn expr<'src>(tokens: &mut VecDeque<Token<'src>>, Ghost(ts): Ghost<Seq<TokenV>>, Ghost(i): Ghost<int>) -> (r:
    Result<Spanned<Expression<'src>>, ParseError>)
    requires
        at(old(tokens)@, ts, i),
    ensures
        parsed(rule_expr(ts, i), expr_res(r), final(tokens)@, ts, i),
        productive(rule_expr(ts, i)),
    decreases rem(ts, i), 54int,
{
    proof {
        reveal(rule_expr);
        reveal(rule_assign);
        reveal(rule_unary_op);
        reveal(rule_factor);
        reveal(expr_view);
    }
    assign(tokens, Ghost(ts), Ghost(i))
}
pub(crate) fn assign<'src>(tokens: &mut VecDeque<Token<'src>>, Ghost(ts): Ghost<Seq<TokenV>>, Ghost(i): Ghost<int>) -> (r:
    Result<Spanned<Expression<'src>>, ParseError>)
    requires
        at(old(tokens)@, ts, i),
    ensures
        parsed(rule_assign(ts, i), expr_res(r), final(tokens)@, ts, i),
        productive(rule_assign(ts, i)),
    decreases rem(ts, i), 52int,
{
    proof {
        reveal(rule_expr);
        reveal(rule_assign);
        reveal(rule_unary_op);
        reveal(rule_factor);
        reveal(expr_view);
    }
    let spanned_lhs = logic_expr(tokens, Ghost(ts), Ghost(i))?;
    let ghost n = rule_logical_or(ts, i).1;
    let start = spanned_lhs.span().start();
    let t = peek(tokens, Ghost(ts), Ghost(i + n))?;
    if let TokenKind::Equal = t.0 {
        consume(tokens, TokenKind::Equal, Ghost(ts), Ghost(i + n))?;
        let spanned_expr = expr(tokens, Ghost(ts), Ghost(i + n + 1))?;
        let end = spanned_expr.span().end();
        Ok(
            Spanned(
                Expression::Assign { lhs: Box::new(spanned_lhs), expr: Box::new(spanned_expr) },
                Span(start, end),
            ),
        )
    } else {
        Ok(spanned_lhs)
    }
}
pub(crate) fn logic_expr<'src>(
    tokens: &mut VecDeque<Token<'src>>,
    Ghost(ts): Ghost<Seq<TokenV>>,
    Ghost(i): Ghost<int>,
) -> (r: Result<Spanned<Expression<'src>>, ParseError>)
    requires
        at(old(tokens)@, ts, i),
    ensures
        parsed(rule_logical_or(ts, i), expr_res(r), final(tokens)@, ts, i),
        productive(rule_logical_or(ts, i)),
    decreases rem(ts, i), 51int,
{
    logical_or(tokens, Ghost(ts), Ghost(i))
}
pub(crate) fn unary_op<'src>(
    tokens: &mut VecDeque<Token<'src>>,
    Ghost(ts): Ghost<Seq<TokenV>>,
    Ghost(i): Ghost<int>,
) -> (r: Result<Spanned<Expression<'src>>, ParseError>)
    requires
        at(old(tokens)@, ts, i),
    ensures
        parsed(rule_unary_op(ts, i), expr_res(r), final(tokens)@, ts, i),
        productive(rule_unary_op(ts, i)),
    decreases rem(ts, i), 26int,
{
    proof {
        reveal(rule_expr);
        reveal(rule_assign);
        reveal(rule_unary_op);
        reveal(rule_factor);
        reveal(expr_view);
    }
    let t = peek(tokens, Ghost(ts), Ghost(i))?;
    let op = match t.0 {
        TokenKind::Minus => UniOp::Neg,
        TokenKind::Exclamation => UniOp::Inv,
        _ => {
            return factor(tokens, Ghost(ts), Ghost(i));
        },
    };
    let start = next(tokens, Ghost(ts), Ghost(i))?.span().start();
    let operand = factor(tokens, Ghost(ts), Ghost(i + 1))?;
    let end = operand.span().end();
    Ok(Spanned(Expression::UniOp { operand: Box::new(operand), op }, Span(start, end)))
}
pub(crate) fn factor<'src>(tokens: &mut VecDeque<Token<'src>>, Ghost(ts): Ghost<Seq<TokenV>>, Ghost(i): Ghost<int>) -> (r:
    Result<Spanned<Expression<'src>>, ParseError>)
    requires
        at(old(tokens)@, ts, i),
    ensures
        parsed(rule_factor(ts, i), expr_res(r), final(tokens)@, ts, i),
        productive(rule_factor(ts, i)),
    decreases rem(ts, i), 24int,
{
    proof {
        reveal(rule_expr);
        reveal(rule_assign);
        reveal(rule_unary_op);
        reveal(rule_factor);
        reveal(expr_view);
    }
    let t = peek(tokens, Ghost(ts), Ghost(i))?;
    match t.0 {
        TokenKind::Number(n) => {
            let span = next(tokens, Ghost(ts), Ghost(i))?.span();
            Ok(Spanned(Expression::Number(n), span))
        },
        TokenKind::LParen => {
            let start = consume(tokens, TokenKind::LParen, Ghost(ts), Ghost(i))?.start();
            let inner = expr(tokens, Ghost(ts), Ghost(i + 1))?;
            let ghost m = rule_expr(ts, i + 1).1;
            let end = consume(tokens, TokenKind::RParen, Ghost(ts), Ghost(i + 1 + m))?.end();
            let Spanned(e, _) = inner;
            Ok(Spanned(e, Span(start, end)))
        },
        TokenKind::Identifier(_) => fn_call(tokens, Ghost(ts), Ghost(i)),
        TokenKind::Keyword(Keyword::True) => {
            let span = next(tokens, Ghost(ts), Ghost(i))?.span();
            Ok(Spanned(Expression::Bool(true), span))
        },
        TokenKind::Keyword(Keyword::False) => {
            let span = next(tokens, Ghost(ts), Ghost(i))?.span();
            Ok(Spanned(Expression::Bool(false), span))
        },
        TokenKind::Keyword(Keyword::Unit) => {
            consume(tokens, TokenKind::Keyword(Keyword::Unit), Ghost(ts), Ghost(i))?;
            Ok(Spanned(Expression::Unit, t.span()))
        },
        TokenKind::Keyword(Keyword::If) => if_expr(tokens, Ghost(ts), Ghost(i)),
        TokenKind::LBrace => {
            let b = block(tokens, Ghost(ts), Ghost(i))?;
            let span = b.span();
            Ok(Spanned(Expression::Block(b), span))
        },
        _ => unexpected_token(t),
    }
}

} // verus!
