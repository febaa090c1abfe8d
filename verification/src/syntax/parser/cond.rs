//! `if` expressions with their `else if` and `else` branches.
use std::collections::VecDeque;
use vstd::prelude::*;
use crate::syntax::ast::{
    stmt_view,
    block_view, decl_view, expr_view, if_view, param_view, program_view, sexpr_view, sif_view,
    sstmt_view, stmts_view, BinOp, BlockV, Declaration, ExprV, Expression, FnDeclV, Ident, IfExpr,
    IfV, ParamV, Program, Spanned, Statement, StmtV, TypeName, UniOp,
};
use crate::syntax::grammar::{
    addition_op, after, bin, equality_op, is_expr_first, multiply_op, order_op, present, rem,
    rule_addition, rule_addition_rest, rule_and_rest, rule_args, rule_args_rest, rule_assign,
    rule_bind, rule_block, rule_consume, rule_decls, rule_else, rule_equality,
    rule_equality_rest, rule_expr, rule_factor, rule_fn_call, rule_fn_decl, rule_fn_decl_tail,
    rule_if_expr, rule_items, rule_logical_and, rule_logical_or, rule_multiply,
    rule_multiply_rest, rule_or_rest, rule_order, rule_order_rest, rule_param_list,
    rule_params_rest, rule_program, rule_statement, rule_type_name, rule_typed_binding,
    rule_unary_op, unexpected, ElsePartV, ParseError, Parsed,
};
use crate::syntax::lexer::{tokens_view, Keyword, Span, Token, TokenKind, TokenKindV, TokenV};
use crate::syntax::parser::queue::{
    at, block_res, consume, decl_res, decls_res, else_res, expr_res, exprs_res, param_res,
    params_res, program_res, stmt_res, stmts_res, type_res, decls_view, else_view, is_expr_first_token, lemma_at_end, lemma_at_step,
    next, params_view, parsed, peek, productive, sexprs_view, sifs_view, sstmts_view,
    unexpected_token,
};
use crate::syntax::parser::block::{bind, block, items, statement};
use crate::syntax::parser::binary::{
    addition, addition_rest, and_rest, equality, equality_rest, join, logical_and, logical_or,
    multiply, multiply_rest, operation, or_rest, order, order_rest,
};

use crate::syntax::parser::expr::{assign, expr, factor, logic_expr, unary_op};
use crate::syntax::parser::call::{args_rest, call_args, fn_call};

verus! {

pub(crate) fn if_expr<'src>(tokens: &mut VecDeque<Token<'src>>, Ghost(ts): Ghost<Seq<TokenV>>, Ghost(i): Ghost<int>) -> (r:
    Result<Spanned<Expression<'src>>, ParseError>)
    requires
        at(old(tokens)@, ts, i),
    ensures
        parsed(rule_if_expr(ts, i), expr_res(r), final(tokens)@, ts, i),
        productive(rule_if_expr(ts, i)),
    decreases rem(ts, i), 20int,
{
    proof {
        reveal(rule_if_expr);
        reveal(rule_else);
        reveal(expr_view);
    }
    let start = peek(tokens, Ghost(ts), Ghost(i))?.span().start();
    consume(tokens, TokenKind::Keyword(Keyword::If), Ghost(ts), Ghost(i))?;
    let cond = logic_expr(tokens, Ghost(ts), Ghost(i + 1))?;
    let ghost m = rule_logical_or(ts, i + 1).1;
    let body = block(tokens, Ghost(ts), Ghost(i + 1 + m))?;
    let ghost n = rule_block(ts, i + 1 + m).1;
    let end = body.span().end();
    let first = Spanned(IfExpr(cond, body), Span(start, end));
    let ghost first_v = sif_view(first);
    let mut else_ifs = Vec::new();
    proof {
        assert(sifs_view(else_ifs@) =~= Seq::<(IfV, Span)>::empty());
    }
    let (else_ifs, else_clause, end) = else_part(
        tokens,
        else_ifs,
        end,
        Ghost(ts),
        Ghost(i + 1 + m + n),
    )?;
    let e = Expression::If(Box::new(first), else_ifs, else_clause);
    proof {
        if let ExprV::If(_, vs, _) = expr_view(e) {
            assert(vs =~= sifs_view(else_ifs@));
        }
    }
    Ok(Spanned(e, Span(start, end)))
}
pub(crate) fn else_part<'src>(
    tokens: &mut VecDeque<Token<'src>>,
    mut branches: Vec<Spanned<IfExpr<'src>>>,
    end: usize,
    Ghost(ts): Ghost<Seq<TokenV>>,
    Ghost(j): Ghost<int>,
) -> (r: Result<
    (Vec<Spanned<IfExpr<'src>>>, Option<Spanned<Vec<Spanned<Statement<'src>>>>>, usize),
    ParseError,
>)
    requires
        at(old(tokens)@, ts, j),
    ensures
        parsed(rule_else(ts, j, sifs_view(branches@), end), else_res(r), final(tokens)@, ts, j),
    decreases rem(ts, j), 16int,
{
    proof {
        reveal(rule_if_expr);
        reveal(rule_else);
        reveal(expr_view);
    }
    let t = peek(tokens, Ghost(ts), Ghost(j))?;
    if let TokenKind::Keyword(Keyword::Else) = t.0 {
        consume(tokens, TokenKind::Keyword(Keyword::Else), Ghost(ts), Ghost(j))?;
        let u = peek(tokens, Ghost(ts), Ghost(j + 1))?;
        match u.0 {
            TokenKind::Keyword(Keyword::If) => {
                let start = consume(
                    tokens,
                    TokenKind::Keyword(Keyword::If),
                    Ghost(ts),
                    Ghost(j + 1),
                )?.start();
                let cond = logic_expr(tokens, Ghost(ts), Ghost(j + 2))?;
                let ghost m = rule_logical_or(ts, j + 2).1;
                let body = block(tokens, Ghost(ts), Ghost(j + 2 + m))?;
                let ghost n = rule_block(ts, j + 2 + m).1;
                let end = body.span().end();
                let ghost before = branches@;
                let branch = Spanned(IfExpr(cond, body), Span(start, end));
                branches.push(branch);
                proof {
                    assert(sifs_view(branches@) =~= sifs_view(before).push(sif_view(branch)));
                }
                else_part(tokens, branches, end, Ghost(ts), Ghost(j + 2 + m + n))
            },
            TokenKind::LBrace => {
                let body = block(tokens, Ghost(ts), Ghost(j + 1))?;
                let end = body.span().end();
                Ok((branches, Some(body), end))
            },
            _ => unexpected_token(next(tokens, Ghost(ts), Ghost(j + 1))?),
        }
    } else {
        Ok((branches, None, end))
    }
}

} // verus!
