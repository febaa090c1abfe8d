//! Function calls and variable references.
use std::collections::VecDeque;
use vstd::prelude::*;
use crate::syntax::ast::{
    stmt_view,
    block_view, decl_view, expr_view, if_view, param_view, program_view, sexpr_view, sif_view,
    sstmt_view, stmts_view, BinOp, BlockV, Declaration, ExprV, Expression, FnDeclV, Ident, IfExpr,
    IfV, ParamV, Program, Spanned, Statement, StmtV, TypeName, UniOp,
};
use crate::syntax::grammar::{
    addition_op, after, bin, equality_op, is_expr_first, multiply_op, order_op, present, rem,
    rule_addition, rule_addition_rest, rule_and_rest, rule_args, rule_args_rest, rule_assign,
    rule_bind, rule_block, rule_consume, rule_decls, rule_else, rule_equality,
    rule_equality_rest, rule_expr, rule_factor, rule_fn_call, rule_fn_decl, rule_fn_decl_tail,
    rule_if_expr, rule_items, rule_logical_and, rule_logical_or, rule_multiply,
    rule_multiply_rest, rule_or_rest, rule_order, rule_order_rest, rule_param_list,
    rule_params_rest, rule_program, rule_statement, rule_type_name, rule_typed_binding,
    rule_unary_op, unexpected, ElsePartV, ParseError, Parsed,
};
use crate::syntax::lexer::{tokens_view, Keyword, Span, Token, TokenKind, TokenKindV, TokenV};
use crate::syntax::parser::queue::{
    at, block_res, consume, decl_res, decls_res, else_res, expr_res, exprs_res, param_res,
    params_res, program_res, stmt_res, stmts_res, type_res, decls_view, else_view, is_expr_first_token, lemma_at_end, lemma_at_step,
    next, params_view, parsed, peek, productive, sexprs_view, sifs_view, sstmts_view,
    unexpected_token,
};
use crate::syntax::parser::block::{bind, block, items, statement};
use crate::syntax::parser::binary::{
    addition, addition_rest, and_rest, equality, equality_rest, join, logical_and, logical_or,
    multiply, multiply_rest, operation, or_rest, order, order_rest,
};

use crate::syntax::parser::expr::{assign, expr, factor, logic_expr, unary_op};
use crate::syntax::parser::cond::{else_part, if_expr};

verus! {

/// A call of the function `name` with the arguments `args`.
fn call_node<'src>(name: Ident<'src>, args: Vec<Spanned<Expression<'src>>>, span: Span) -> (r: Spanned<Expression<'src>>)
    ensures
        sexpr_view(r) == (ExprV::FnCall { name: name@, args: sexprs_view(args@) }, span),
{
    proof {
        reveal(expr_view);
    }
    let ghost args_v = sexprs_view(args@);
    let e = Expression::FnCall { name, args };
    proof {
        if let ExprV::FnCall { name: _, args: va } = expr_view(e) {
            assert(va =~= args_v);
        }
    }
    Spanned(e, span)
}
/// A reference to the variable `name`.
fn value_node<'src>(name: Ident<'src>, span: Span) -> (r: Spanned<Expression<'src>>)
    ensures
        sexpr_view(r) == (ExprV::Value(name@), span),
{
    proof {
        reveal(expr_view);
    }
    Spanned(Expression::Value(name), span)
}
pub(crate) fn fn_call<'src>(tokens: &mut VecDeque<Token<'src>>, Ghost(ts): Ghost<Seq<TokenV>>, Ghost(i): Ghost<int>) -> (r:
    Result<Spanned<Expression<'src>>, ParseError>)
    requires
        at(old(tokens)@, ts, i),
    ensures
        parsed(rule_fn_call(ts, i), expr_res(r), final(tokens)@, ts, i),
        productive(rule_fn_call(ts, i)),
    decreases rem(ts, i), 22int,
{
    proof {
        reveal(rule_fn_call);
        reveal(rule_args);
        reveal(rule_args_rest);
    }
    let Token(kind, span) = next(tokens, Ghost(ts), Ghost(i))?;
    let TokenKind::Identifier(ident) = kind else { return Err(ParseError::UnexpectedToken(span)) };
    let t = peek(tokens, Ghost(ts), Ghost(i + 1))?;
    if let TokenKind::LParen = t.0 {
        let start = span.start();
        consume(tokens, TokenKind::LParen, Ghost(ts), Ghost(i + 1))?;
        let args = call_args(tokens, Ghost(ts), Ghost(i + 2))?;
        let ghost m = rule_args(ts, i + 2).1;
        let end = consume(tokens, TokenKind::RParen, Ghost(ts), Ghost(i + 2 + m))?.end();
        Ok(call_node(ident, args, Span(start, end)))
    } else {
        Ok(value_node(ident, span))
    }
}
pub(crate) fn call_args<'src>(
    tokens: &mut VecDeque<Token<'src>>,
    Ghost(ts): Ghost<Seq<TokenV>>,
    Ghost(j): Ghost<int>,
) -> (r: Result<Vec<Spanned<Expression<'src>>>, ParseError>)
    requires
        at(old(tokens)@, ts, j),
    ensures
        parsed(rule_args(ts, j), exprs_res(r), final(tokens)@, ts, j),
    decreases rem(ts, j), 56int,
{
    proof {
        reveal(rule_fn_call);
        reveal(rule_args);
        reveal(rule_args_rest);
    }
    let mut args = Vec::new();
    let t = peek(tokens, Ghost(ts), Ghost(j))?;
    if let TokenKind::Comma = t.0 {
        return unexpected_token(next(tokens, Ghost(ts), Ghost(j))?);
    }
    proof {
        assert(sexprs_view(args@) =~= Seq::<(ExprV, Span)>::empty());
    }
    if let TokenKind::RParen = t.0 {
        args_rest(tokens, args, Ghost(ts), Ghost(j))
    } else if is_expr_first_token(&t) {
        let a = expr(tokens, Ghost(ts), Ghost(j))?;
        let ghost m = rule_expr(ts, j).1;
        args.push(a);
        proof {
            assert(sexprs_view(args@) =~= seq![sexpr_view(a)]);
        }
        args_rest(tokens, args, Ghost(ts), Ghost(j + m))
    } else {
        unexpected_token(t)
    }
}
pub(crate) fn args_rest<'src>(
    tokens: &mut VecDeque<Token<'src>>,
    mut acc: Vec<Spanned<Expression<'src>>>,
    Ghost(ts): Ghost<Seq<TokenV>>,
    Ghost(j): Ghost<int>,
) -> (r: Result<Vec<Spanned<Expression<'src>>>, ParseError>)
    requires
        at(old(tokens)@, ts, j),
    ensures
        parsed(rule_args_rest(ts, j, sexprs_view(acc@)), exprs_res(r), final(tokens)@, ts, j),
    decreases rem(ts, j), 18int,
{
    proof {
        reveal(rule_fn_call);
        reveal(rule_args);
        reveal(rule_args_rest);
    }
    let t = peek(tokens, Ghost(ts), Ghost(j))?;
    match t.0 {
        TokenKind::RParen => Ok(acc),
        TokenKind::Comma => {
            consume(tokens, TokenKind::Comma, Ghost(ts), Ghost(j))?;
            let ghost before = acc@;
            let a = expr(tokens, Ghost(ts), Ghost(j + 1))?;
            let ghost m = rule_expr(ts, j + 1).1;
            acc.push(a);
            proof {
                assert(sexprs_view(acc@) =~= sexprs_view(before).push(sexpr_view(a)));
            }
            args_rest(tokens, acc, Ghost(ts), Ghost(j + 1 + m))
        },
        _ => unexpected_token(t),
    }
}

} // verus!
