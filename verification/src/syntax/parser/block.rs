//! Blocks and statements.
use std::collections::VecDeque;
use vstd::prelude::*;
use crate::syntax::ast::{
    stmt_view,
    block_view, decl_view, expr_view, if_view, param_view, program_view, sexpr_view, sif_view,
    sstmt_view, stmts_view, BinOp, BlockV, Declaration, ExprV, Expression, FnDeclV, Ident, IfExpr,
    IfV, ParamV, Program, Spanned, Statement, StmtV, TypeName, UniOp,
};
use crate::syntax::grammar::{
    addition_op, after, bin, equality_op, is_expr_first, multiply_op, order_op, present, rem,
    rule_addition, rule_addition_rest, rule_and_rest, rule_args, rule_args_rest, rule_assign,
    rule_bind, rule_block, rule_consume, rule_decls, rule_else, rule_equality,
    rule_equality_rest, rule_expr, rule_factor, rule_fn_call, rule_fn_decl, rule_fn_decl_tail,
    rule_if_expr, rule_items, rule_logical_and, rule_logical_or, rule_multiply,
    rule_multiply_rest, rule_or_rest, rule_order, rule_order_rest, rule_param_list,
    rule_params_rest, rule_program, rule_statement, rule_type_name, rule_typed_binding,
    rule_unary_op, unexpected, ElsePartV, ParseError, Parsed,
};
use crate::syntax::lexer::{tokens_view, Keyword, Span, Token, TokenKind, TokenKindV, TokenV};
use crate::syntax::parser::queue::{
    at, block_res, consume, decl_res, decls_res, else_res, expr_res, exprs_res, param_res,
    params_res, program_res, stmt_res, stmts_res, type_res, decls_view, else_view, is_expr_first_token, lemma_at_end, lemma_at_step,
    next, params_view, parsed, peek, productive, sexprs_view, sifs_view, sstmts_view,
    unexpected_token,
};
use crate::syntax::parser::expr::{assign, expr, factor, logic_expr, unary_op};
use crate::syntax::parser::call::{args_rest, call_args, fn_call};
use crate::syntax::parser::cond::{else_part, if_expr};
use crate::syntax::parser::binary::{
    addition, addition_rest, and_rest, equality, equality_rest, join, logical_and, logical_or,
    multiply, multiply_rest, operation, or_rest, order, order_rest,
};

use crate::syntax::parser::typed_binding;

verus! {

pub(crate) fn block<'src>(tokens: &mut VecDeque<Token<'src>>, Ghost(ts): Ghost<Seq<TokenV>>, Ghost(i): Ghost<int>) -> (r:
    Result<Spanned<Vec<Spanned<Statement<'src>>>>, ParseError>)
    requires
        at(old(tokens)@, ts, i),
    ensures
        parsed(rule_block(ts, i), block_res(r), final(tokens)@, ts, i),
        productive(rule_block(ts, i)),
    decreases rem(ts, i), 14int,
{
    proof {
        reveal(rule_block);
        reveal(rule_items);
        reveal(rule_statement);
        reveal(rule_bind);
        reveal(stmts_view);
        reveal(stmt_view);
    }
    let start = peek(tokens, Ghost(ts), Ghost(i))?.span().start();
    consume(tokens, TokenKind::LBrace, Ghost(ts), Ghost(i))?;
    let none = Vec::new();
    proof {
        assert(sstmts_view(none@) =~= Seq::<(StmtV, Span)>::empty());
    }
    let result = items(tokens, none, Ghost(ts), Ghost(i + 1))?;
    let ghost m = rule_items(ts, i + 1, seq![]).1;
    let end = peek(tokens, Ghost(ts), Ghost(i + 1 + m))?.span().end();
    consume(tokens, TokenKind::RBrace, Ghost(ts), Ghost(i + 1 + m))?;
    proof {
        assert(stmts_view(result) =~= sstmts_view(result@));
    }
    Ok(Spanned(result, Span(start, end)))
}

pub(crate) fn items<'src>(
    tokens: &mut VecDeque<Token<'src>>,
    mut acc: Vec<Spanned<Statement<'src>>>,
    Ghost(ts): Ghost<Seq<TokenV>>,
    Ghost(j): Ghost<int>,
) -> (r: Result<Vec<Spanned<Statement<'src>>>, ParseError>)
    requires
        at(old(tokens)@, ts, j),
    ensures
        parsed(rule_items(ts, j, sstmts_view(acc@)), stmts_res(r), final(tokens)@, ts, j),
    decreases rem(ts, j), 60int,
{
    proof {
        reveal(rule_block);
        reveal(rule_items);
        reveal(rule_statement);
        reveal(rule_bind);
        reveal(stmts_view);
        reveal(stmt_view);
    }
    let t = peek(tokens, Ghost(ts), Ghost(j))?;
    let is_let = if let TokenKind::Keyword(Keyword::Let) = t.0 {
        true
    } else {
        false
    };
    if is_let || is_expr_first_token(&t) {
        let ghost before = acc@;
        let s = statement(tokens, Ghost(ts), Ghost(j))?;
        let ghost n = rule_statement(ts, j).1;
        acc.push(s);
        proof {
            assert(sstmts_view(acc@) =~= sstmts_view(before).push(sstmt_view(s)));
        }
        items(tokens, acc, Ghost(ts), Ghost(j + n))
    } else if let TokenKind::RBrace = t.0 {
        Ok(acc)
    } else {
        unexpected_token(t)
    }
}

pub(crate) fn statement<'src>(
    tokens: &mut VecDeque<Token<'src>>,
    Ghost(ts): Ghost<Seq<TokenV>>,
    Ghost(j): Ghost<int>,
) -> (r: Result<Spanned<Statement<'src>>, ParseError>)
    requires
        at(old(tokens)@, ts, j),
    ensures
        parsed(rule_statement(ts, j), stmt_res(r), final(tokens)@, ts, j),
        productive(rule_statement(ts, j)),
    decreases rem(ts, j), 58int,
{
    proof {
        reveal(rule_block);
        reveal(rule_items);
        reveal(rule_statement);
        reveal(rule_bind);
        reveal(stmts_view);
        reveal(stmt_view);
    }
    let t = peek(tokens, Ghost(ts), Ghost(j))?;
    if let TokenKind::Keyword(Keyword::Let) = t.0 {
        let b = bind(tokens, Ghost(ts), Ghost(j))?;
        let ghost n = rule_bind(ts, j).1;
        consume(tokens, TokenKind::Semicolon, Ghost(ts), Ghost(j + n))?;
        Ok(b)
    } else if is_expr_first_token(&t) {
        let span_start = t.span();
        let spanned_expr = assign(tokens, Ghost(ts), Ghost(j))?;
        let ghost n = rule_assign(ts, j).1;
        let end = spanned_expr.span().end();
        let u = peek(tokens, Ghost(ts), Ghost(j + n))?;
        if let TokenKind::Semicolon = u.0 {
            let end = consume(tokens, TokenKind::Semicolon, Ghost(ts), Ghost(j + n))?.end();
            Ok(Spanned(Statement::SemicolonnedExpr(spanned_expr), Span(span_start.start(), end)))
        } else {
            Ok(Spanned(Statement::Expression(spanned_expr), Span(span_start.start(), end)))
        }
    } else {
        unexpected_token(t)
    }
}

pub(crate) fn bind<'src>(tokens: &mut VecDeque<Token<'src>>, Ghost(ts): Ghost<Seq<TokenV>>, Ghost(j): Ghost<int>) -> (r:
    Result<Spanned<Statement<'src>>, ParseError>)
    requires
        at(old(tokens)@, ts, j),
    ensures
        parsed(rule_bind(ts, j), stmt_res(r), final(tokens)@, ts, j),
        productive(rule_bind(ts, j)),
    decreases rem(ts, j), 56int,
{
    proof {
        reveal(rule_block);
        reveal(rule_items);
        reveal(rule_statement);
        reveal(rule_bind);
        reveal(stmts_view);
        reveal(stmt_view);
    }
    let start = consume(tokens, TokenKind::Keyword(Keyword::Let), Ghost(ts), Ghost(j))?.start();
    let (name, ty) = typed_binding(tokens, Ghost(ts), Ghost(j + 1))?;
    let ghost n = rule_typed_binding(ts, j + 1).1;
    let t = peek(tokens, Ghost(ts), Ghost(j + 1 + n))?;
    if let TokenKind::Equal = t.0 {
        consume(tokens, TokenKind::Equal, Ghost(ts), Ghost(j + 1 + n))?;
        let init = expr(tokens, Ghost(ts), Ghost(j + 1 + n + 1))?;
        let end = init.span().end();
        Ok(Spanned(Statement::Bind { name, ty, initializer: Some(init) }, Span(start, end)))
    } else {
        let end = ty.span().end();
        Ok(Spanned(Statement::Bind { name, ty, initializer: None }, Span(start, end)))
    }
}

} // verus!
