//! Binary operators, one function pair per precedence level.
use std::collections::VecDeque;
use vstd::prelude::*;
use crate::syntax::ast::{
    stmt_view,
    block_view, decl_view, expr_view, if_view, param_view, program_view, sexpr_view, sif_view,
    sstmt_view, stmts_view, BinOp, BlockV, Declaration, ExprV, Expression, FnDeclV, Ident, IfExpr,
    IfV, ParamV, Program, Spanned, Statement, StmtV, TypeName, UniOp,
};
use crate::syntax::grammar::{
    addition_op, after, bin, equality_op, is_expr_first, multiply_op, order_op, present, rem,
    rule_addition, rule_addition_rest, rule_and_rest, rule_args, rule_args_rest, rule_assign,
    rule_bind, rule_block, rule_consume, rule_decls, rule_else, rule_equality,
    rule_equality_rest, rule_expr, rule_factor, rule_fn_call, rule_fn_decl, rule_fn_decl_tail,
    rule_if_expr, rule_items, rule_logical_and, rule_logical_or, rule_multiply,
    rule_multiply_rest, rule_or_rest, rule_order, rule_order_rest, rule_param_list,
    rule_params_rest, rule_program, rule_statement, rule_type_name, rule_typed_binding,
    rule_unary_op, unexpected, ElsePartV, ParseError, Parsed,
};
use crate::syntax::lexer::{tokens_view, Keyword, Span, Token, TokenKind, TokenKindV, TokenV};
use crate::syntax::parser::queue::{
    at, block_res, consume, decl_res, decls_res, else_res, expr_res, exprs_res, param_res,
    params_res, program_res, stmt_res, stmts_res, type_res, decls_view, else_view, is_expr_first_token, lemma_at_end, lemma_at_step,
    next, params_view, parsed, peek, productive, sexprs_view, sifs_view, sstmts_view,
    unexpected_token,
};
use crate::syntax::parser::block::{bind, block, items, statement};
use crate::syntax::parser::expr::{assign, expr, factor, logic_expr, unary_op};
use crate::syntax::parser::call::{args_rest, call_args, fn_call};
use crate::syntax::parser::cond::{else_part, if_expr};

verus! {

/// The operator that a token of kind `k` stands for at this precedence level.
fn equality_op_of<'src>(k: &TokenKind<'src>) -> (r: Option<BinOp>)
    ensures
        r == equality_op(k@),
{
    match k {
        TokenKind::DoubleEqual => Some(BinOp::Equal),
        TokenKind::NE => Some(BinOp::NotEqual),
        _ => None,
    }
}

/// The operator that a token of kind `k` stands for at this precedence level.
fn order_op_of<'src>(k: &TokenKind<'src>) -> (r: Option<BinOp>)
    ensures
        r == order_op(k@),
{
    match k {
        TokenKind::LT => Some(BinOp::LT),
        TokenKind::GT => Some(BinOp::GT),
        TokenKind::LE => Some(BinOp::LE),
        TokenKind::GE => Some(BinOp::GE),
        _ => None,
    }
}

/// The operator that a token of kind `k` stands for at this precedence level.
fn addition_op_of<'src>(k: &TokenKind<'src>) -> (r: Option<BinOp>)
    ensures
        r == addition_op(k@),
{
    match k {
        TokenKind::Plus => Some(BinOp::Add),
        TokenKind::Minus => Some(BinOp::Sub),
        _ => None,
    }
}

/// The operator that a token of kind `k` stands for at this precedence level.
fn multiply_op_of<'src>(k: &TokenKind<'src>) -> (r: Option<BinOp>)
    ensures
        r == multiply_op(k@),
{
    match k {
        TokenKind::Asterisk => Some(BinOp::Mul),
        TokenKind::Slash => Some(BinOp::Div),
        TokenKind::Percent => Some(BinOp::Rem),
        _ => None,
    }
}

/// Joins two operands with a binary operator, spanning from `start` to the
/// end of the right operand.
pub(crate) fn join<'src>(lhs: Spanned<Expression<'src>>, rhs: Spanned<Expression<'src>>, op: BinOp, start: usize) -> (r:
    Spanned<Expression<'src>>)
    ensures
        sexpr_view(r) == bin(sexpr_view(lhs), sexpr_view(rhs), op, start),
{
    proof {
        reveal(expr_view);
    }
    let end = rhs.span().end();
    Spanned(Expression::BinOp { lhs: Box::new(lhs), rhs: Box::new(rhs), op }, Span(start, end))
}

pub(crate) fn logical_or<'src>(
    tokens: &mut VecDeque<Token<'src>>,
    Ghost(ts): Ghost<Seq<TokenV>>,
    Ghost(i): Ghost<int>,
) -> (r: Result<Spanned<Expression<'src>>, ParseError>)
    requires
        at(old(tokens)@, ts, i),
    ensures
        parsed(rule_logical_or(ts, i), expr_res(r), final(tokens)@, ts, i),
        productive(rule_logical_or(ts, i)),
    decreases rem(ts, i), 50int,
{
    proof {
        reveal(rule_logical_or);
        reveal(rule_or_rest);
        reveal(rule_logical_and);
        reveal(rule_and_rest);
        reveal(rule_equality);
        reveal(rule_equality_rest);
        reveal(rule_order);
        reveal(rule_order_rest);
        reveal(rule_addition);
        reveal(rule_addition_rest);
        reveal(rule_multiply);
        reveal(rule_multiply_rest);
    }
    let lhs = logical_and(tokens, Ghost(ts), Ghost(i))?;
    let ghost n = rule_logical_and(ts, i).1;
    let start = lhs.span().start();
    or_rest(tokens, lhs, start, Ghost(ts), Ghost(i + n))
}

pub(crate) fn or_rest<'src>(
    tokens: &mut VecDeque<Token<'src>>,
    lhs: Spanned<Expression<'src>>,
    start: usize,
    Ghost(ts): Ghost<Seq<TokenV>>,
    Ghost(j): Ghost<int>,
) -> (r: Result<Spanned<Expression<'src>>, ParseError>)
    requires
        at(old(tokens)@, ts, j),
    ensures
        parsed(rule_or_rest(ts, j, sexpr_view(lhs), start), expr_res(r), final(tokens)@, ts, j),
    decreases rem(ts, j), 48int,
{
    proof {
        reveal(rule_logical_or);
        reveal(rule_or_rest);
        reveal(rule_logical_and);
        reveal(rule_and_rest);
        reveal(rule_equality);
        reveal(rule_equality_rest);
        reveal(rule_order);
        reveal(rule_order_rest);
        reveal(rule_addition);
        reveal(rule_addition_rest);
        reveal(rule_multiply);
        reveal(rule_multiply_rest);
    }
    let t = peek(tokens, Ghost(ts), Ghost(j))?;
    if let TokenKind::DoubleVbar = t.0 {
        consume(tokens, TokenKind::DoubleVbar, Ghost(ts), Ghost(j))?;
        assert(ts[j].0 is DoubleVbar);
        let rhs = logical_and(tokens, Ghost(ts), Ghost(j + 1))?;
        let ghost m = rule_logical_and(ts, j + 1).1;
        let lhs = join(lhs, rhs, BinOp::LogicalOr, start);
        or_rest(tokens, lhs, start, Ghost(ts), Ghost(j + 1 + m))
    } else {
        Ok(lhs)
    }
}

pub(crate) fn logical_and<'src>(
    tokens: &mut VecDeque<Token<'src>>,
    Ghost(ts): Ghost<Seq<TokenV>>,
    Ghost(i): Ghost<int>,
) -> (r: Result<Spanned<Expression<'src>>, ParseError>)
    requires
        at(old(tokens)@, ts, i),
    ensures
        parsed(rule_logical_and(ts, i), expr_res(r), final(tokens)@, ts, i),
        productive(rule_logical_and(ts, i)),
    decreases rem(ts, i), 46int,
{
    proof {
        reveal(rule_logical_or);
        reveal(rule_or_rest);
        reveal(rule_logical_and);
        reveal(rule_and_rest);
        reveal(rule_equality);
        reveal(rule_equality_rest);
        reveal(rule_order);
        reveal(rule_order_rest);
        reveal(rule_addition);
        reveal(rule_addition_rest);
        reveal(rule_multiply);
        reveal(rule_multiply_rest);
    }
    let lhs = equality(tokens, Ghost(ts), Ghost(i))?;
    let ghost n = rule_equality(ts, i).1;
    let start = lhs.span().start();
    and_rest(tokens, lhs, start, Ghost(ts), Ghost(i + n))
}

pub(crate) fn and_rest<'src>(
    tokens: &mut VecDeque<Token<'src>>,
    lhs: Spanned<Expression<'src>>,
    start: usize,
    Ghost(ts): Ghost<Seq<TokenV>>,
    Ghost(j): Ghost<int>,
) -> (r: Result<Spanned<Expression<'src>>, ParseError>)
    requires
        at(old(tokens)@, ts, j),
    ensures
        parsed(rule_and_rest(ts, j, sexpr_view(lhs), start), expr_res(r), final(tokens)@, ts, j),
    decreases rem(ts, j), 44int,
{
    proof {
        reveal(rule_logical_or);
        reveal(rule_or_rest);
        reveal(rule_logical_and);
        reveal(rule_and_rest);
        reveal(rule_equality);
        reveal(rule_equality_rest);
        reveal(rule_order);
        reveal(rule_order_rest);
        reveal(rule_addition);
        reveal(rule_addition_rest);
        reveal(rule_multiply);
        reveal(rule_multiply_rest);
    }
    let t = peek(tokens, Ghost(ts), Ghost(j))?;
    if let TokenKind::DoubleAmpersand = t.0 {
        consume(tokens, TokenKind::DoubleAmpersand, Ghost(ts), Ghost(j))?;
        assert(ts[j].0 is DoubleAmpersand);
        let rhs = equality(tokens, Ghost(ts), Ghost(j + 1))?;
        let ghost m = rule_equality(ts, j + 1).1;
        let lhs = join(lhs, rhs, BinOp::LogicalAnd, start);
        and_rest(tokens, lhs, start, Ghost(ts), Ghost(j + 1 + m))
    } else {
        Ok(lhs)
    }
}

pub(crate) fn equality<'src>(
    tokens: &mut VecDeque<Token<'src>>,
    Ghost(ts): Ghost<Seq<TokenV>>,
    Ghost(i): Ghost<int>,
) -> (r: Result<Spanned<Expression<'src>>, ParseError>)
    requires
        at(old(tokens)@, ts, i),
    ensures
        parsed(rule_equality(ts, i), expr_res(r), final(tokens)@, ts, i),
        productive(rule_equality(ts, i)),
    decreases rem(ts, i), 42int,
{
    proof {
        reveal(rule_logical_or);
        reveal(rule_or_rest);
        reveal(rule_logical_and);
        reveal(rule_and_rest);
        reveal(rule_equality);
        reveal(rule_equality_rest);
        reveal(rule_order);
        reveal(rule_order_rest);
        reveal(rule_addition);
        reveal(rule_addition_rest);
        reveal(rule_multiply);
        reveal(rule_multiply_rest);
    }
    let lhs = order(tokens, Ghost(ts), Ghost(i))?;
    let ghost n = rule_order(ts, i).1;
    let start = lhs.span().start();
    equality_rest(tokens, lhs, start, Ghost(ts), Ghost(i + n))
}

pub(crate) fn equality_rest<'src>(
    tokens: &mut VecDeque<Token<'src>>,
    lhs: Spanned<Expression<'src>>,
    start: usize,
    Ghost(ts): Ghost<Seq<TokenV>>,
    Ghost(j): Ghost<int>,
) -> (r: Result<Spanned<Expression<'src>>, ParseError>)
    requires
        at(old(tokens)@, ts, j),
    ensures
        parsed(rule_equality_rest(ts, j, sexpr_view(lhs), start), expr_res(r), final(tokens)@, ts, j),
    decreases rem(ts, j), 40int,
{
    proof {
        reveal(rule_logical_or);
        reveal(rule_or_rest);
        reveal(rule_logical_and);
        reveal(rule_and_rest);
        reveal(rule_equality);
        reveal(rule_equality_rest);
        reveal(rule_order);
        reveal(rule_order_rest);
        reveal(rule_addition);
        reveal(rule_addition_rest);
        reveal(rule_multiply);
        reveal(rule_multiply_rest);
    }
    let t = peek(tokens, Ghost(ts), Ghost(j))?;
    let op = match equality_op_of(&t.0) {
        Some(op) => op,
        None => {
            return Ok(lhs);
        },
    };
    next(tokens, Ghost(ts), Ghost(j))?;
    let rhs = order(tokens, Ghost(ts), Ghost(j + 1))?;
    let ghost m = rule_order(ts, j + 1).1;
    let lhs = join(lhs, rhs, op, start);
    equality_rest(tokens, lhs, start, Ghost(ts), Ghost(j + 1 + m))
}

pub(crate) fn order<'src>(tokens: &mut VecDeque<Token<'src>>, Ghost(ts): Ghost<Seq<TokenV>>, Ghost(i): Ghost<int>) -> (r:
    Result<Spanned<Expression<'src>>, ParseError>)
    requires
        at(old(tokens)@, ts, i),
    ensures
        parsed(rule_order(ts, i), expr_res(r), final(tokens)@, ts, i),
        productive(rule_order(ts, i)),
    decreases rem(ts, i), 38int,
{
    proof {
        reveal(rule_logical_or);
        reveal(rule_or_rest);
        reveal(rule_logical_and);
        reveal(rule_and_rest);
        reveal(rule_equality);
        reveal(rule_equality_rest);
        reveal(rule_order);
        reveal(rule_order_rest);
        reveal(rule_addition);
        reveal(rule_addition_rest);
        reveal(rule_multiply);
        reveal(rule_multiply_rest);
    }
    let lhs = operation(tokens, Ghost(ts), Ghost(i))?;
    let ghost n = rule_addition(ts, i).1;
    let start = lhs.span().start();
    order_rest(tokens, lhs, start, Ghost(ts), Ghost(i + n))
}

pub(crate) fn order_rest<'src>(
    tokens: &mut VecDeque<Token<'src>>,
    lhs: Spanned<Expression<'src>>,
    start: usize,
    Ghost(ts): Ghost<Seq<TokenV>>,
    Ghost(j): Ghost<int>,
) -> (r: Result<Spanned<Expression<'src>>, ParseError>)
    requires
        at(old(tokens)@, ts, j),
    ensures
        parsed(rule_order_rest(ts, j, sexpr_view(lhs), start), expr_res(r), final(tokens)@, ts, j),
    decreases rem(ts, j), 36int,
{
    proof {
        reveal(rule_logical_or);
        reveal(rule_or_rest);
        reveal(rule_logical_and);
        reveal(rule_and_rest);
        reveal(rule_equality);
        reveal(rule_equality_rest);
        reveal(rule_order);
        reveal(rule_order_rest);
        reveal(rule_addition);
        reveal(rule_addition_rest);
        reveal(rule_multiply);
        reveal(rule_multiply_rest);
    }
    let t = peek(tokens, Ghost(ts), Ghost(j))?;
    let op = match order_op_of(&t.0) {
        Some(op) => op,
        None => {
            return Ok(lhs);
        },
    };
    next(tokens, Ghost(ts), Ghost(j))?;
    let rhs = operation(tokens, Ghost(ts), Ghost(j + 1))?;
    let ghost m = rule_addition(ts, j + 1).1;
    let lhs = join(lhs, rhs, op, start);
    order_rest(tokens, lhs, start, Ghost(ts), Ghost(j + 1 + m))
}

pub(crate) fn operation<'src>(
    tokens: &mut VecDeque<Token<'src>>,
    Ghost(ts): Ghost<Seq<TokenV>>,
    Ghost(i): Ghost<int>,
) -> (r: Result<Spanned<Expression<'src>>, ParseError>)
    requires
        at(old(tokens)@, ts, i),
    ensures
        parsed(rule_addition(ts, i), expr_res(r), final(tokens)@, ts, i),
        productive(rule_addition(ts, i)),
    decreases rem(ts, i), 35int,
{
    addition(tokens, Ghost(ts), Ghost(i))
}

pub(crate) fn addition<'src>(
    tokens: &mut VecDeque<Token<'src>>,
    Ghost(ts): Ghost<Seq<TokenV>>,
    Ghost(i): Ghost<int>,
) -> (r: Result<Spanned<Expression<'src>>, ParseError>)
    requires
        at(old(tokens)@, ts, i),
    ensures
        parsed(rule_addition(ts, i), expr_res(r), final(tokens)@, ts, i),
        productive(rule_addition(ts, i)),
    decreases rem(ts, i), 34int,
{
    proof {
        reveal(rule_logical_or);
        reveal(rule_or_rest);
        reveal(rule_logical_and);
        reveal(rule_and_rest);
        reveal(rule_equality);
        reveal(rule_equality_rest);
        reveal(rule_order);
        reveal(rule_order_rest);
        reveal(rule_addition);
        reveal(rule_addition_rest);
        reveal(rule_multiply);
        reveal(rule_multiply_rest);
    }
    let lhs = multiply(tokens, Ghost(ts), Ghost(i))?;
    let ghost n = rule_multiply(ts, i).1;
    let start = lhs.span().start();
    addition_rest(tokens, lhs, start, Ghost(ts), Ghost(i + n))
}

pub(crate) fn addition_rest<'src>(
    tokens: &mut VecDeque<Token<'src>>,
    lhs: Spanned<Expression<'src>>,
    start: usize,
    Ghost(ts): Ghost<Seq<TokenV>>,
    Ghost(j): Ghost<int>,
) -> (r: Result<Spanned<Expression<'src>>, ParseError>)
    requires
        at(old(tokens)@, ts, j),
    ensures
        parsed(rule_addition_rest(ts, j, sexpr_view(lhs), start), expr_res(r), final(tokens)@, ts, j),
    decreases rem(ts, j), 32int,
{
    proof {
        reveal(rule_logical_or);
        reveal(rule_or_rest);
        reveal(rule_logical_and);
        reveal(rule_and_rest);
        reveal(rule_equality);
        reveal(rule_equality_rest);
        reveal(rule_order);
        reveal(rule_order_rest);
        reveal(rule_addition);
        reveal(rule_addition_rest);
        reveal(rule_multiply);
        reveal(rule_multiply_rest);
    }
    let t = peek(tokens, Ghost(ts), Ghost(j))?;
    let op = match addition_op_of(&t.0) {
        Some(op) => op,
        None => {
            return Ok(lhs);
        },
    };
    next(tokens, Ghost(ts), Ghost(j))?;
    let rhs = multiply(tokens, Ghost(ts), Ghost(j + 1))?;
    let ghost m = rule_multiply(ts, j + 1).1;
    let lhs = join(lhs, rhs, op, start);
    addition_rest(tokens, lhs, start, Ghost(ts), Ghost(j + 1 + m))
}

pub(crate) fn multiply<'src>(
    tokens: &mut VecDeque<Token<'src>>,
    Ghost(ts): Ghost<Seq<TokenV>>,
    Ghost(i): Ghost<int>,
) -> (r: Result<Spanned<Expression<'src>>, ParseError>)
    requires
        at(old(tokens)@, ts, i),
    ensures
        parsed(rule_multiply(ts, i), expr_res(r), final(tokens)@, ts, i),
        productive(rule_multiply(ts, i)),
    decreases rem(ts, i), 30int,
{
    proof {
        reveal(rule_logical_or);
        reveal(rule_or_rest);
        reveal(rule_logical_and);
        reveal(rule_and_rest);
        reveal(rule_equality);
        reveal(rule_equality_rest);
        reveal(rule_order);
        reveal(rule_order_rest);
        reveal(rule_addition);
        reveal(rule_addition_rest);
        reveal(rule_multiply);
        reveal(rule_multiply_rest);
    }
    let lhs = unary_op(tokens, Ghost(ts), Ghost(i))?;
    let ghost n = rule_unary_op(ts, i).1;
    let start = lhs.span().start();
    multiply_rest(tokens, lhs, start, Ghost(ts), Ghost(i + n))
}

pub(crate) fn multiply_rest<'src>(
    tokens: &mut VecDeque<Token<'src>>,
    lhs: Spanned<Expression<'src>>,
    start: usize,
    Ghost(ts): Ghost<Seq<TokenV>>,
    Ghost(j): Ghost<int>,
) -> (r: Result<Spanned<Expression<'src>>, ParseError>)
    requires
        at(old(tokens)@, ts, j),
    ensures
        parsed(rule_multiply_rest(ts, j, sexpr_view(lhs), start), expr_res(r), final(tokens)@, ts, j),
    decreases rem(ts, j), 28int,
{
    proof {
        reveal(rule_logical_or);
        reveal(rule_or_rest);
        reveal(rule_logical_and);
        reveal(rule_and_rest);
        reveal(rule_equality);
        reveal(rule_equality_rest);
        reveal(rule_order);
        reveal(rule_order_rest);
        reveal(rule_addition);
        reveal(rule_addition_rest);
        reveal(rule_multiply);
        reveal(rule_multiply_rest);
    }
    let t = peek(tokens, Ghost(ts), Ghost(j))?;
    let op = match multiply_op_of(&t.0) {
        Some(op) => op,
        None => {
            return Ok(lhs);
        },
    };
    next(tokens, Ghost(ts), Ghost(j))?;
    let rhs = unary_op(tokens, Ghost(ts), Ghost(j + 1))?;
    let ghost m = rule_unary_op(ts, j + 1).1;
    let lhs = join(lhs, rhs, op, start);
    multiply_rest(tokens, lhs, start, Ghost(ts), Ghost(j + 1 + m))
}

} // verus!
