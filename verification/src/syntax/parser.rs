//! The recursive-descent parser of monye. Every function reads from the
//! front of a token queue and is proved to follow its rule in
//! [`crate::syntax::grammar`].
pub mod queue;
pub(crate) mod binary;
pub(crate) mod block;
pub(crate) mod call;
pub(crate) mod cond;
pub(crate) mod expr;
pub use crate::syntax::ast::{
    BinOp, Declaration, Expression, Ident, IfExpr, Program, Spanned, Statement, TypeName, UniOp,
};
pub use crate::syntax::grammar::ParseError;
use std::collections::VecDeque;
use vstd::prelude::*;
use crate::syntax::ast::{
    stmt_view,
    block_view, decl_view, expr_view, if_view, param_view, program_view, sexpr_view, sif_view,
    sstmt_view, stmts_view, BlockV, ExprV, FnDeclV, IfV, ParamV, StmtV,
};
use crate::syntax::grammar::{
    addition_op, after, bin, equality_op, is_expr_first, multiply_op, order_op, present, rem,
    rule_addition, rule_addition_rest, rule_and_rest, rule_args, rule_args_rest, rule_assign,
    rule_bind, rule_block, rule_consume, rule_decls, rule_else, rule_equality,
    rule_equality_rest, rule_expr, rule_factor, rule_fn_call, rule_fn_decl, rule_fn_decl_tail,
    rule_if_expr, rule_items, rule_logical_and, rule_logical_or, rule_multiply,
    rule_multiply_rest, rule_or_rest, rule_order, rule_order_rest, rule_param_list,
    rule_params_rest, rule_program, rule_statement, rule_type_name, rule_typed_binding,
    rule_unary_op, unexpected, ElsePartV, Parsed,
};
use crate::syntax::lexer::{tokens_view, Keyword, Span, Token, TokenKind, TokenKindV, TokenV};
use crate::syntax::parser::queue::{
    at, block_res, consume, decl_res, decls_res, else_res, expr_res, exprs_res, param_res,
    params_res, program_res, stmt_res, stmts_res, type_res, holds_suffix, decls_view, else_view, is_expr_first_token, lemma_at_end, lemma_at_step,
    next, params_view, parsed, peek, productive, sexprs_view, sifs_view, sstmts_view,
    unexpected_token,
};
use crate::syntax::parser::block::{bind, block, items, statement};
use crate::syntax::parser::expr::{assign, expr, factor, logic_expr, unary_op};
use crate::syntax::parser::call::{args_rest, call_args, fn_call};
use crate::syntax::parser::cond::{else_part, if_expr};
use crate::syntax::parser::binary::{
    addition, addition_rest, and_rest, equality, equality_rest, join, logical_and, logical_or,
    multiply, multiply_rest, operation, or_rest, order, order_rest,
};

verus! {

/// Reads a whole program: one or more function declarations up to the end of
/// input, which is consumed too.
pub fn parse<'src>(tokens: &mut VecDeque<Token<'src>>) -> (r: Result<Program<'src>, ParseError>)
    ensures
        parsed(rule_program(tokens_view(old(tokens)@)), program_res(r), final(tokens)@, tokens_view(old(tokens)@), 0),
{
    proof {
        reveal(rule_program);
        reveal(rule_decls);
        reveal(rule_fn_decl);
        reveal(rule_fn_decl_tail);
        reveal(rule_param_list);
        reveal(rule_params_rest);
        reveal(rule_typed_binding);
    }
    let ghost ts = tokens_view(tokens@);
    proof {
        reveal(holds_suffix);
        assert(ts.subrange(0, ts.len() as int) =~= ts);
    }
    let none = Vec::new();
    proof {
        assert(decls_view(none@) =~= Seq::<FnDeclV>::empty());
    }
    let program = decls(tokens, none, Ghost(ts), Ghost(0));
    match program {
        Ok(v) => {
            let p = Program(v);
            assert(program_view(p) =~= decls_view(p.0@));
            Ok(p)
        },
        Err(e) => Err(e),
    }
}

pub(crate) fn decls<'src>(
    tokens: &mut VecDeque<Token<'src>>,
    mut acc: Vec<Declaration<'src>>,
    Ghost(ts): Ghost<Seq<TokenV>>,
    Ghost(j): Ghost<int>,
) -> (r: Result<Vec<Declaration<'src>>, ParseError>)
    requires
        at(old(tokens)@, ts, j),
    ensures
        parsed(rule_decls(ts, j, decls_view(acc@)), decls_res(r), final(tokens)@, ts, j),
    decreases rem(ts, j),
{
    proof {
        reveal(rule_program);
        reveal(rule_decls);
        reveal(rule_fn_decl);
        reveal(rule_fn_decl_tail);
        reveal(rule_param_list);
        reveal(rule_params_rest);
        reveal(rule_typed_binding);
    }
    let ghost before = acc@;
    let decl = fn_decl(tokens, Ghost(ts), Ghost(j))?;
    let ghost n = rule_fn_decl(ts, j).1;
    acc.push(decl);
    proof {
        assert(decls_view(acc@) =~= decls_view(before).push(decl_view(decl)));
    }
    let t = peek(tokens, Ghost(ts), Ghost(j + n))?;
    if let TokenKind::EOF = t.0 {
        consume(tokens, TokenKind::EOF, Ghost(ts), Ghost(j + n))?;
        Ok(acc)
    } else {
        decls(tokens, acc, Ghost(ts), Ghost(j + n))
    }
}

pub(crate) fn fn_decl<'src>(
    tokens: &mut VecDeque<Token<'src>>,
    Ghost(ts): Ghost<Seq<TokenV>>,
    Ghost(i): Ghost<int>,
) -> (r: Result<Declaration<'src>, ParseError>)
    requires
        at(old(tokens)@, ts, i),
    ensures
        parsed(rule_fn_decl(ts, i), decl_res(r), final(tokens)@, ts, i),
        r is Ok ==> rule_fn_decl(ts, i).1 >= 1 && present(ts, i),
{
    proof {
        reveal(rule_program);
        reveal(rule_decls);
        reveal(rule_fn_decl);
        reveal(rule_fn_decl_tail);
        reveal(rule_param_list);
        reveal(rule_params_rest);
        reveal(rule_typed_binding);
    }
    let fn_span = consume(tokens, TokenKind::Keyword(Keyword::Fn), Ghost(ts), Ghost(i))?;
    let name = match next(tokens, Ghost(ts), Ghost(i + 1))? {
        Token(TokenKind::Identifier(name), span) => Spanned(name, span),
        token => return unexpected_token(token),
    };
    consume(tokens, TokenKind::LParen, Ghost(ts), Ghost(i + 2))?;
    let params = param_list(tokens, Ghost(ts), Ghost(i + 3))?;
    let ghost n3 = rule_param_list(ts, i + 3).1;
    let close = consume(tokens, TokenKind::RParen, Ghost(ts), Ghost(i + 3 + n3))?;
    fn_decl_tail(
        tokens,
        name,
        params,
        Span(fn_span.start(), close.end()),
        Ghost(ts),
        Ghost(i + 4 + n3),
        Ghost((4 + n3) as nat),
    )
}

pub(crate) fn fn_decl_tail<'src>(
    tokens: &mut VecDeque<Token<'src>>,
    name: Spanned<Ident<'src>>,
    params: Vec<(Spanned<Ident<'src>>, Spanned<TypeName>)>,
    header: Span,
    Ghost(ts): Ghost<Seq<TokenV>>,
    Ghost(k): Ghost<int>,
    Ghost(used): Ghost<nat>,
) -> (r: Result<Declaration<'src>, ParseError>)
    requires
        at(old(tokens)@, ts, k),
    ensures
        parsed(rule_fn_decl_tail(ts, k, (name.0@, name.1), params_view(params@), header, used), decl_res(r), final(tokens)@, ts, k - used),
        r is Ok ==> rule_fn_decl_tail(ts, k, (name.0@, name.1), params_view(params@), header, used).1
            >= used,
{
    proof {
        reveal(rule_program);
        reveal(rule_decls);
        reveal(rule_fn_decl);
        reveal(rule_fn_decl_tail);
        reveal(rule_param_list);
        reveal(rule_params_rest);
        reveal(rule_typed_binding);
    }
    let t = peek(tokens, Ghost(ts), Ghost(k))?;
    let ret_ty = if let TokenKind::Arrow = t.0 {
        consume(tokens, TokenKind::Arrow, Ghost(ts), Ghost(k))?;
        parse_type(tokens, Ghost(ts), Ghost(k + 1))?
    } else {
        Spanned(TypeName::Unit, header)
    };
    let ghost n5: nat = if t@.0 is Arrow {
        (1 + rule_type_name(ts, k + 1).1) as nat
    } else {
        0
    };
    let body = block(tokens, Ghost(ts), Ghost(k + n5))?;
    let d = Declaration::FnDecl { name, params, ret_ty, body };
    proof {
        assert(decl_view(d).params =~= params_view(params@));
    }
    Ok(d)
}

pub(crate) fn param_list<'src>(
    tokens: &mut VecDeque<Token<'src>>,
    Ghost(ts): Ghost<Seq<TokenV>>,
    Ghost(i): Ghost<int>,
) -> (r: Result<Vec<(Spanned<Ident<'src>>, Spanned<TypeName>)>, ParseError>)
    requires
        at(old(tokens)@, ts, i),
    ensures
        parsed(rule_param_list(ts, i), params_res(r), final(tokens)@, ts, i),
{
    proof {
        reveal(rule_program);
        reveal(rule_decls);
        reveal(rule_fn_decl);
        reveal(rule_fn_decl_tail);
        reveal(rule_param_list);
        reveal(rule_params_rest);
        reveal(rule_typed_binding);
    }
    let mut result = Vec::new();
    let t = peek(tokens, Ghost(ts), Ghost(i))?;
    if let TokenKind::Comma = t.0 {
        return unexpected_token(t);
    }
    match t.0 {
        TokenKind::Identifier(_) => {
            let p = typed_binding(tokens, Ghost(ts), Ghost(i))?;
            let ghost n = rule_typed_binding(ts, i).1;
            result.push(p);
            proof {
                assert(params_view(result@) =~= seq![param_view(p)]);
            }
            params_rest(tokens, result, Ghost(ts), Ghost(i + n))
        },
        TokenKind::RParen => {
            proof {
                assert(params_view(result@) =~= Seq::<ParamV>::empty());
            }
            Ok(result)
        },
        _ => unexpected_token(t),
    }
}

pub(crate) fn params_rest<'src>(
    tokens: &mut VecDeque<Token<'src>>,
    mut acc: Vec<(Spanned<Ident<'src>>, Spanned<TypeName>)>,
    Ghost(ts): Ghost<Seq<TokenV>>,
    Ghost(j): Ghost<int>,
) -> (r: Result<Vec<(Spanned<Ident<'src>>, Spanned<TypeName>)>, ParseError>)
    requires
        at(old(tokens)@, ts, j),
    ensures
        parsed(rule_params_rest(ts, j, params_view(acc@)), params_res(r), final(tokens)@, ts, j),
    decreases rem(ts, j),
{
    proof {
        reveal(rule_program);
        reveal(rule_decls);
        reveal(rule_fn_decl);
        reveal(rule_fn_decl_tail);
        reveal(rule_param_list);
        reveal(rule_params_rest);
        reveal(rule_typed_binding);
    }
    let t = peek(tokens, Ghost(ts), Ghost(j))?;
    match t.0 {
        TokenKind::Comma => {
            consume(tokens, TokenKind::Comma, Ghost(ts), Ghost(j))?;
        },
        TokenKind::RParen => {
            return Ok(acc);
        },
        _ => {
            return unexpected_token(t);
        },
    }
    let u = peek(tokens, Ghost(ts), Ghost(j + 1))?;
    match u.0 {
        TokenKind::Identifier(_) => {
            let ghost before = acc@;
            let p = typed_binding(tokens, Ghost(ts), Ghost(j + 1))?;
            let ghost n = rule_typed_binding(ts, j + 1).1;
            acc.push(p);
            proof {
                assert(params_view(acc@) =~= params_view(before).push(param_view(p)));
            }
            params_rest(tokens, acc, Ghost(ts), Ghost(j + 1 + n))
        },
        _ => unexpected_token(u),
    }
}

pub(crate) fn typed_binding<'src>(
    tokens: &mut VecDeque<Token<'src>>,
    Ghost(ts): Ghost<Seq<TokenV>>,
    Ghost(i): Ghost<int>,
) -> (r: Result<(Spanned<Ident<'src>>, Spanned<TypeName>), ParseError>)
    requires
        at(old(tokens)@, ts, i),
    ensures
        parsed(rule_typed_binding(ts, i), param_res(r), final(tokens)@, ts, i),
        productive(rule_typed_binding(ts, i)),
{
    proof {
        reveal(rule_program);
        reveal(rule_decls);
        reveal(rule_fn_decl);
        reveal(rule_fn_decl_tail);
        reveal(rule_param_list);
        reveal(rule_params_rest);
        reveal(rule_typed_binding);
    }
    let token = next(tokens, Ghost(ts), Ghost(i))?;
    let Token(kind, span) = token;
    let TokenKind::Identifier(name) = kind else { return unexpected_token(token) };
    consume(tokens, TokenKind::Colon, Ghost(ts), Ghost(i + 1))?;
    let ghost n = rule_consume(ts, i + 1, TokenKindV::Colon).1;
    let ty = parse_type(tokens, Ghost(ts), Ghost(i + 1 + n))?;
    Ok((Spanned(name, span), ty))
}

pub(crate) fn parse_type<'src>(
    tokens: &mut VecDeque<Token<'src>>,
    Ghost(ts): Ghost<Seq<TokenV>>,
    Ghost(i): Ghost<int>,
) -> (r: Result<Spanned<TypeName>, ParseError>)
    requires
        at(old(tokens)@, ts, i),
    ensures
        parsed(rule_type_name(ts, i), type_res(r), final(tokens)@, ts, i),
        productive(rule_type_name(ts, i)),
{
    match next(tokens, Ghost(ts), Ghost(i))? {
        Token(TokenKind::Type(ty), span) => Ok(Spanned(TypeName::Primitive(ty), span)),
        Token(TokenKind::Keyword(Keyword::Unit), span) => Ok(Spanned(TypeName::Unit, span)),
        Token(TokenKind::Keyword(Keyword::Never), span) => Ok(Spanned(TypeName::Never, span)),
        token => unexpected_token(token),
    }
}

} // verus!
