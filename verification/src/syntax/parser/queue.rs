//! The token queue that the parser reads: its relation to the token
//! sequence, and the reads that take tokens from its front.
use std::collections::VecDeque;
use vstd::prelude::*;
use crate::syntax::ast::{
    stmt_view,
    block_view, decl_view, expr_view, if_view, param_view, program_view, sexpr_view, sif_view,
    sstmt_view, stmts_view, BinOp, BlockV, Declaration, ExprV, Expression, FnDeclV, Ident, IfExpr,
    IfV, ParamV, Program, Spanned, Statement, StmtV, TypeName, UniOp,
};
use crate::syntax::grammar::{
    addition_op, after, bin, equality_op, is_expr_first, multiply_op, order_op, present, rem,
    rule_addition, rule_addition_rest, rule_and_rest, rule_args, rule_args_rest, rule_assign,
    rule_bind, rule_block, rule_consume, rule_decls, rule_else, rule_equality,
    rule_equality_rest, rule_expr, rule_factor, rule_fn_call, rule_fn_decl, rule_fn_decl_tail,
    rule_if_expr, rule_items, rule_logical_and, rule_logical_or, rule_multiply,
    rule_multiply_rest, rule_or_rest, rule_order, rule_order_rest, rule_param_list,
    rule_params_rest, rule_program, rule_statement, rule_type_name, rule_typed_binding,
    rule_unary_op, unexpected, ElsePartV, ParseError, Parsed,
};
use crate::syntax::lexer::{tokens_view, Keyword, Span, Token, TokenKind, TokenKindV, TokenV};
use crate::syntax::parser::block::{bind, block, items, statement};
use crate::syntax::parser::expr::{assign, expr, factor, logic_expr, unary_op};
use crate::syntax::parser::call::{args_rest, call_args, fn_call};
use crate::syntax::parser::cond::{else_part, if_expr};
use crate::syntax::parser::binary::{
    addition, addition_rest, and_rest, equality, equality_rest, join, logical_and, logical_or,
    multiply, multiply_rest, operation, or_rest, order, order_rest,
};

verus! {

/// The queue `v` holds the tokens of `ts` from position `i` on.
pub open spec fn at<'src>(v: Seq<Token<'src>>, ts: Seq<TokenV>, i: int) -> bool {
    0 <= i <= ts.len() && holds_suffix(v, ts, i)
}

/// The views of the tokens in `v` are the tokens of `ts` from position `i` on.
#[verifier::opaque]
pub open spec fn holds_suffix<'src>(v: Seq<Token<'src>>, ts: Seq<TokenV>, i: int) -> bool {
    tokens_view(v) == ts.subrange(i, ts.len() as int)
}

/// After reading from position `i`, the queue `v` is at the position where
/// the rule's outcome `out` leaves it, and `r` is the view of the outcome read.
pub open spec fn parsed<'src, T>(out: Parsed<T>, r: Result<T, ParseError>, v: Seq<Token<'src>>, ts: Seq<TokenV>, i: int) -> bool {
    at(v, ts, i + out.1) && out.0 == r
}

/// A rule that succeeds has consumed at least one token.
pub open spec fn productive<T>(out: Parsed<T>) -> bool {
    out.0 is Ok ==> out.1 >= 1
}

pub open spec fn sexprs_view<'src>(v: Seq<Spanned<Expression<'src>>>) -> Seq<(ExprV, Span)> {
    v.map_values(|e: Spanned<Expression<'src>>| sexpr_view(e))
}

pub open spec fn sstmts_view<'src>(v: Seq<Spanned<Statement<'src>>>) -> Seq<(StmtV, Span)> {
    v.map_values(|s: Spanned<Statement<'src>>| sstmt_view(s))
}

pub open spec fn sifs_view<'src>(v: Seq<Spanned<IfExpr<'src>>>) -> Seq<(IfV, Span)> {
    v.map_values(|x: Spanned<IfExpr<'src>>| sif_view(x))
}

pub open spec fn params_view<'src>(v: Seq<(Spanned<Ident<'src>>, Spanned<TypeName>)>) -> Seq<ParamV> {
    v.map_values(|p: (Spanned<Ident<'src>>, Spanned<TypeName>)| param_view(p))
}

pub open spec fn decls_view<'src>(v: Seq<Declaration<'src>>) -> Seq<FnDeclV> {
    v.map_values(|d: Declaration<'src>| decl_view(d))
}

pub open spec fn else_view<'src>(
    x: (Vec<Spanned<IfExpr<'src>>>, Option<Spanned<Vec<Spanned<Statement<'src>>>>>, usize),
) -> ElsePartV {
    (
        sifs_view(x.0@),
        match x.1 {
            Some(b) => Some(block_view(b)),
            None => None,
        },
        x.2,
    )
}

/* The views of the parsers' outcomes. */

pub open spec fn expr_res<'src>(r: Result<Spanned<Expression<'src>>, ParseError>) -> Result<(ExprV, Span), ParseError> {
    match r {
        Ok(e) => Ok(sexpr_view(e)),
        Err(e) => Err(e),
    }
}

pub open spec fn exprs_res<'src>(r: Result<Vec<Spanned<Expression<'src>>>, ParseError>) -> Result<Seq<(ExprV, Span)>, ParseError> {
    match r {
        Ok(v) => Ok(sexprs_view(v@)),
        Err(e) => Err(e),
    }
}

pub open spec fn stmt_res<'src>(r: Result<Spanned<Statement<'src>>, ParseError>) -> Result<(StmtV, Span), ParseError> {
    match r {
        Ok(s) => Ok(sstmt_view(s)),
        Err(e) => Err(e),
    }
}

pub open spec fn stmts_res<'src>(r: Result<Vec<Spanned<Statement<'src>>>, ParseError>) -> Result<Seq<(StmtV, Span)>, ParseError> {
    match r {
        Ok(v) => Ok(sstmts_view(v@)),
        Err(e) => Err(e),
    }
}

pub open spec fn block_res<'src>(r: Result<Spanned<Vec<Spanned<Statement<'src>>>>, ParseError>) -> Result<BlockV, ParseError> {
    match r {
        Ok(b) => Ok(block_view(b)),
        Err(e) => Err(e),
    }
}

pub open spec fn type_res(r: Result<Spanned<TypeName>, ParseError>) -> Result<(TypeName, Span), ParseError> {
    match r {
        Ok(t) => Ok((t.0, t.1)),
        Err(e) => Err(e),
    }
}

pub open spec fn param_res<'src>(r: Result<(Spanned<Ident<'src>>, Spanned<TypeName>), ParseError>) -> Result<ParamV, ParseError> {
    match r {
        Ok(p) => Ok(param_view(p)),
        Err(e) => Err(e),
    }
}

pub open spec fn params_res<'src>(r: Result<Vec<(Spanned<Ident<'src>>, Spanned<TypeName>)>, ParseError>) -> Result<Seq<ParamV>, ParseError> {
    match r {
        Ok(v) => Ok(params_view(v@)),
        Err(e) => Err(e),
    }
}

pub open spec fn decl_res<'src>(r: Result<Declaration<'src>, ParseError>) -> Result<FnDeclV, ParseError> {
    match r {
        Ok(d) => Ok(decl_view(d)),
        Err(e) => Err(e),
    }
}

pub open spec fn decls_res<'src>(r: Result<Vec<Declaration<'src>>, ParseError>) -> Result<Seq<FnDeclV>, ParseError> {
    match r {
        Ok(v) => Ok(decls_view(v@)),
        Err(e) => Err(e),
    }
}

pub open spec fn program_res<'src>(r: Result<Program<'src>, ParseError>) -> Result<Seq<FnDeclV>, ParseError> {
    match r {
        Ok(p) => Ok(program_view(p)),
        Err(e) => Err(e),
    }
}

pub open spec fn else_res<'src>(
    r: Result<(Vec<Spanned<IfExpr<'src>>>, Option<Spanned<Vec<Spanned<Statement<'src>>>>>, usize), ParseError>,
) -> Result<ElsePartV, ParseError> {
    match r {
        Ok(x) => Ok(else_view(x)),
        Err(e) => Err(e),
    }
}

pub(crate) proof fn lemma_at_step<'src>(v: Seq<Token<'src>>, ts: Seq<TokenV>, i: int)
    requires
        at(v, ts, i),
        i < ts.len(),
    ensures
        v.len() > 0,
        v[0]@ == ts[i],
        at(v.subrange(1, v.len() as int), ts, i + 1),
{
    reveal(holds_suffix);
    assert(tokens_view(v).len() == ts.len() - i);
    assert(tokens_view(v)[0] == ts[i]);
    let w = v.subrange(1, v.len() as int);
    assert forall|k: int| 0 <= k < w.len() implies tokens_view(w)[k] == ts.subrange(
        i + 1,
        ts.len() as int,
    )[k] by {
        assert(tokens_view(v)[k + 1] == ts.subrange(i, ts.len() as int)[k + 1]);
    }
    assert(tokens_view(w) =~= ts.subrange(i + 1, ts.len() as int));
}

pub(crate) proof fn lemma_at_end<'src>(v: Seq<Token<'src>>, ts: Seq<TokenV>, i: int)
    requires
        at(v, ts, i),
    ensures
        v.len() == 0 <==> i >= ts.len(),
        0 <= i <= ts.len(),
{
    reveal(holds_suffix);
    assert(tokens_view(v).len() == v.len());
}

pub(crate) fn unexpected_token<'src, T>(token: Token<'src>) -> (r: Result<T, ParseError>)
    ensures
        r == Err::<T, ParseError>(unexpected(token@)),
{
    if let TokenKind::EOF = token.0 {
        Err(ParseError::UnexpectedEOF)
    } else {
        Err(ParseError::UnexpectedToken(token.span()))
    }
}

pub(crate) fn peek<'src>(tokens: &VecDeque<Token<'src>>, Ghost(ts): Ghost<Seq<TokenV>>, Ghost(i): Ghost<int>) -> (r:
    Result<Token<'src>, ParseError>)
    requires
        at(tokens@, ts, i),
    ensures
        present(ts, i) ==> (r matches Ok(t) && t@ == ts[i]),
        !present(ts, i) ==> r == Err::<Token<'src>, ParseError>(ParseError::UnexpectedEOF),
{
    proof {
        lemma_at_end(tokens@, ts, i);
        if i < ts.len() {
            lemma_at_step(tokens@, ts, i);
        }
    }
    if tokens.len() > 0 {
        Ok(tokens[0])
    } else {
        Err(ParseError::UnexpectedEOF)
    }
}

pub(crate) fn next<'src>(tokens: &mut VecDeque<Token<'src>>, Ghost(ts): Ghost<Seq<TokenV>>, Ghost(i): Ghost<int>) -> (r:
    Result<Token<'src>, ParseError>)
    requires
        at(old(tokens)@, ts, i),
    ensures
        present(ts, i) ==> (r matches Ok(t) && t@ == ts[i] && at(final(tokens)@, ts, i + 1)),
        !present(ts, i) ==> r == Err::<Token<'src>, ParseError>(ParseError::UnexpectedEOF) && at(
            final(tokens)@,
            ts,
            i,
        ),
{
    proof {
        lemma_at_end(tokens@, ts, i);
        if i < ts.len() {
            lemma_at_step(tokens@, ts, i);
        }
    }
    match tokens.pop_front() {
        Some(t) => Ok(t),
        None => Err(ParseError::UnexpectedEOF),
    }
}

pub(crate) fn consume<'src>(
    tokens: &mut VecDeque<Token<'src>>,
    expect: TokenKind<'src>,
    Ghost(ts): Ghost<Seq<TokenV>>,
    Ghost(i): Ghost<int>,
) -> (r: Result<Span, ParseError>)
    requires
        at(old(tokens)@, ts, i),
    ensures
        parsed(rule_consume(ts, i, expect@), r, final(tokens)@, ts, i),
{
    let token = next(tokens, Ghost(ts), Ghost(i))?;
    if expect == *token.kind() {
        Ok(token.span())
    } else {
        unexpected_token(token)
    }
}

pub(crate) fn is_expr_first_token<'src>(token: &Token<'src>) -> (r: bool)
    ensures
        r == is_expr_first(token.0@),
{
    match token.kind() {
        TokenKind::Number(_) | TokenKind::Identifier(_) | TokenKind::LParen | TokenKind::Minus
        | TokenKind::Exclamation | TokenKind::LBrace => true,
        TokenKind::Keyword(Keyword::If) | TokenKind::Keyword(Keyword::True) | TokenKind::Keyword(
            Keyword::False,
        ) | TokenKind::Keyword(Keyword::Unit) => true,
        _ => false,
    }
}


} // verus!
