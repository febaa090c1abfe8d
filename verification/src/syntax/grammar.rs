//! The grammar of monye, stated as a function from a token sequence and a
//! position to the node read there and the number of tokens consumed.
//!
//! Each rule mirrors one step of the recursive-descent parser. A rule's
//! result is `(outcome, consumed)`: the node or the error, and how many
//! tokens were taken from the front of the input before it was known,
//! whether or not the rule succeeded.
use vstd::prelude::*;
use crate::syntax::ast::{
    BinOp, BlockV, ExprV, FnDeclV, IfV, ParamV, StmtV, TypeName, UniOp,
};
use crate::syntax::lexer::{Keyword, Span, TokenKindV, TokenV};
use crate::text::{decimal, push_decimal};

verus! {

/// A parse outcome and the number of tokens consumed.
pub type Parsed<T> = (Result<T, ParseError>, nat);

#[derive(Clone, Copy, Debug, PartialEq, Eq, Structural)]
pub enum ParseError {
    UnexpectedToken(Span),
    UnexpectedEOF,
}

/// The human-readable description of a parse error.
pub open spec fn parse_error_message(e: ParseError) -> Seq<char> {
    match e {
        ParseError::UnexpectedToken(span) => "unexpected token at : "@ + decimal(span.0 as nat) + "-"@
            + decimal(span.1 as nat),
        ParseError::UnexpectedEOF => "unexpected end of file"@,
    }
}

impl ParseError {
    /// The human-readable description of the error.
    pub fn message(&self) -> (r: String)
        ensures
            r@ == parse_error_message(*self),
    {
        let mut s = String::new();
        match self {
            ParseError::UnexpectedToken(span) => {
                s.append("unexpected token at : ");
                push_decimal(&mut s, span.0 as u64);
                s.append("-");
                push_decimal(&mut s, span.1 as u64);
            },
            ParseError::UnexpectedEOF => s.append("unexpected end of file"),
        }
        proof {
            assert(s@ =~= parse_error_message(*self));
        }
        s
    }
}

/// Tokens left from position `i` on; the measure by which parsing ends.
pub open spec fn rem(ts: Seq<TokenV>, i: int) -> int {
    if i < ts.len() {
        ts.len() - i
    } else {
        0
    }
}

/// Whether a token stands at position `i`.
pub open spec fn present(ts: Seq<TokenV>, i: int) -> bool {
    0 <= i < ts.len()
}

/// The error that reports an unexpected token.
pub open spec fn unexpected(t: TokenV) -> ParseError {
    if t.0 is EOF {
        ParseError::UnexpectedEOF
    } else {
        ParseError::UnexpectedToken(t.1)
    }
}

/// Adds `k` to the count of consumed tokens.
pub open spec fn after<T>(k: nat, r: Parsed<T>) -> Parsed<T> {
    (r.0, k + r.1)
}

/// Whether a token of this kind may begin an expression.
pub open spec fn is_expr_first(k: TokenKindV) -> bool {
    match k {
        TokenKindV::Number(_) | TokenKindV::Identifier(_) | TokenKindV::LParen
        | TokenKindV::Minus | TokenKindV::Exclamation | TokenKindV::LBrace => true,
        TokenKindV::Keyword(kw) => kw == Keyword::If || kw == Keyword::True || kw == Keyword::False
            || kw == Keyword::Unit,
        _ => false,
    }
}

/// Takes one token, which must be of kind `k`; yields its span.
pub open spec fn rule_consume(ts: Seq<TokenV>, i: int, k: TokenKindV) -> Parsed<Span> {
    if present(ts, i) {
        if ts[i].0 == k {
            (Ok(ts[i].1), 1)
        } else {
            (Err(unexpected(ts[i])), 1)
        }
    } else {
        (Err(ParseError::UnexpectedEOF), 0)
    }
}

/// `type_name := primitive-type | unit | never`
pub open spec fn rule_type_name(ts: Seq<TokenV>, i: int) -> Parsed<(TypeName, Span)> {
    if !present(ts, i) {
        (Err(ParseError::UnexpectedEOF), 0)
    } else {
        match ts[i].0 {
            TokenKindV::Type(t) => (Ok((TypeName::Primitive(t), ts[i].1)), 1),
            TokenKindV::Keyword(Keyword::Unit) => (Ok((TypeName::Unit, ts[i].1)), 1),
            TokenKindV::Keyword(Keyword::Never) => (Ok((TypeName::Never, ts[i].1)), 1),
            _ => (Err(unexpected(ts[i])), 1),
        }
    }
}

/// `typed_binding := identifier ':' type_name`
#[verifier::opaque]
pub open spec fn rule_typed_binding(ts: Seq<TokenV>, i: int) -> Parsed<ParamV> {
    if !present(ts, i) {
        (Err(ParseError::UnexpectedEOF), 0)
    } else {
        match ts[i].0 {
            TokenKindV::Identifier(name) => {
                let (c, n) = rule_consume(ts, i + 1, TokenKindV::Colon);
                match c {
                    Err(e) => (Err(e), 1 + n),
                    Ok(_) => {
                        let (t, m) = rule_type_name(ts, i + 1 + n);
                        match t {
                            Err(e) => (Err(e), 1 + n + m),
                            Ok(ty) => (Ok(((name, ts[i].1), ty)), 1 + n + m),
                        }
                    },
                }
            },
            _ => (Err(unexpected(ts[i])), 1),
        }
    }
}

/// The rest of a parameter list: `(',' typed_binding)*`, up to `)`.
#[verifier::opaque]
pub open spec fn rule_params_rest(ts: Seq<TokenV>, j: int, acc: Seq<ParamV>) -> Parsed<
    Seq<ParamV>,
>
    decreases rem(ts, j),
{
    if !present(ts, j) {
        (Err(ParseError::UnexpectedEOF), 0)
    } else {
        match ts[j].0 {
            TokenKindV::Comma => {
                if !present(ts, j + 1) {
                    (Err(ParseError::UnexpectedEOF), 1)
                } else if ts[j + 1].0 is Identifier {
                    let (p, n) = rule_typed_binding(ts, j + 1);
                    match p {
                        Err(e) => (Err(e), 1 + n),
                        Ok(param) => after(1 + n, rule_params_rest(ts, j + 1 + n, acc.push(param))),
                    }
                } else {
                    (Err(unexpected(ts[j + 1])), 1)
                }
            },
            TokenKindV::RParen => (Ok(acc), 0),
            _ => (Err(unexpected(ts[j])), 0),
        }
    }
}

/// `param_list := ε | typed_binding (',' typed_binding)*`, up to `)`.
#[verifier::opaque]
pub open spec fn rule_param_list(ts: Seq<TokenV>, i: int) -> Parsed<Seq<ParamV>> {
    if !present(ts, i) {
        (Err(ParseError::UnexpectedEOF), 0)
    } else {
        match ts[i].0 {
            TokenKindV::Identifier(_) => {
                let (p, n) = rule_typed_binding(ts, i);
                match p {
                    Err(e) => (Err(e), n),
                    Ok(param) => after(n, rule_params_rest(ts, i + n, seq![param])),
                }
            },
            TokenKindV::RParen => (Ok(seq![]), 0),
            _ => (Err(unexpected(ts[i])), 0),
        }
    }
}

/// A block: `'{' statement* '}'`.
#[verifier::opaque]
pub open spec fn rule_block(ts: Seq<TokenV>, i: int) -> Parsed<BlockV>
    decreases rem(ts, i), 7int,
{
    if !present(ts, i) {
        (Err(ParseError::UnexpectedEOF), 0)
    } else if !(ts[i].0 is LBrace) {
        (Err(unexpected(ts[i])), 1)
    } else {
        let start = ts[i].1.0;
        let (r, m) = rule_items(ts, i + 1, seq![]);
        match r {
            Err(e) => (Err(e), 1 + m),
            Ok(stmts) => {
                let k = i + 1 + m;
                if !present(ts, k) {
                    (Err(ParseError::UnexpectedEOF), 1 + m)
                } else {
                    let (c, n) = rule_consume(ts, k, TokenKindV::RBrace);
                    match c {
                        Err(e) => (Err(e), 1 + m + n),
                        Ok(_) => (Ok((stmts, Span(start, ts[k].1.1))), 1 + m + n),
                    }
                }
            },
        }
    }
}

/// The statements of a block, up to its closing `}`. A statement that is
/// read always consumes at least one token; the check on `n` says so.
#[verifier::opaque]
pub open spec fn rule_items(ts: Seq<TokenV>, j: int, acc: Seq<(StmtV, Span)>) -> Parsed<
    Seq<(StmtV, Span)>,
>
    decreases rem(ts, j), 30int,
{
    if !present(ts, j) {
        (Err(ParseError::UnexpectedEOF), 0)
    } else if ts[j].0 == TokenKindV::Keyword(Keyword::Let) || is_expr_first(ts[j].0) {
        let (r, n) = rule_statement(ts, j);
        match r {
            Err(e) => (Err(e), n),
            Ok(s) => if n > 0 {
                after(n, rule_items(ts, j + n, acc.push(s)))
            } else {
                (Err(ParseError::UnexpectedEOF), n)
            },
        }
    } else if ts[j].0 is RBrace {
        (Ok(acc), 0)
    } else {
        (Err(unexpected(ts[j])), 0)
    }
}

/// `statement := bind ';' | expr ';'? `
#[verifier::opaque]
pub open spec fn rule_statement(ts: Seq<TokenV>, j: int) -> Parsed<(StmtV, Span)>
    decreases rem(ts, j), 29int,
{
    if !present(ts, j) {
        (Err(ParseError::UnexpectedEOF), 0)
    } else if ts[j].0 == TokenKindV::Keyword(Keyword::Let) {
        let (b, n) = rule_bind(ts, j);
        match b {
            Err(e) => (Err(e), n),
            Ok(bind) => {
                let (c, m) = rule_consume(ts, j + n, TokenKindV::Semicolon);
                match c {
                    Err(e) => (Err(e), n + m),
                    Ok(_) => (Ok(bind), n + m),
                }
            },
        }
    } else if is_expr_first(ts[j].0) {
        let start = ts[j].1.0;
        let (r, n) = rule_assign(ts, j);
        match r {
            Err(e) => (Err(e), n),
            Ok(e) => {
                let k = j + n;
                if !present(ts, k) {
                    (Err(ParseError::UnexpectedEOF), n)
                } else if ts[k].0 is Semicolon {
                    (Ok((StmtV::SemicolonnedExpr(e), Span(start, ts[k].1.1))), n + 1)
                } else {
                    (Ok((StmtV::Expression(e), Span(start, e.1.1))), n)
                }
            },
        }
    } else {
        (Err(unexpected(ts[j])), 0)
    }
}

/// `bind := 'let' typed_binding ('=' expr)?`
#[verifier::opaque]
pub open spec fn rule_bind(ts: Seq<TokenV>, j: int) -> Parsed<(StmtV, Span)>
    decreases rem(ts, j), 28int,
{
    let (c, n0) = rule_consume(ts, j, TokenKindV::Keyword(Keyword::Let));
    match c {
        Err(e) => (Err(e), n0),
        Ok(let_span) => {
            let (b, n) = rule_typed_binding(ts, j + 1);
            match b {
                Err(e) => (Err(e), 1 + n),
                Ok(binding) => {
                    let k = j + 1 + n;
                    if !present(ts, k) {
                        (Err(ParseError::UnexpectedEOF), 1 + n)
                    } else if ts[k].0 is Equal {
                        let (r, m) = rule_expr(ts, k + 1);
                        match r {
                            Err(e) => (Err(e), 1 + n + 1 + m),
                            Ok(init) => (
                                Ok(
                                    (
                                        StmtV::Bind {
                                            name: binding.0,
                                            ty: binding.1,
                                            initializer: Some(init),
                                        },
                                        Span(let_span.0, init.1.1),
                                    ),
                                ),
                                1 + n + 1 + m,
                            ),
                        }
                    } else {
                        (
                            Ok(
                                (
                                    StmtV::Bind {
                                        name: binding.0,
                                        ty: binding.1,
                                        initializer: None,
                                    },
                                    Span(let_span.0, binding.1.1.1),
                                ),
                            ),
                            1 + n,
                        )
                    }
                },
            }
        },
    }
}

/// `expr := assign`
#[verifier::opaque]
pub open spec fn rule_expr(ts: Seq<TokenV>, i: int) -> Parsed<(ExprV, Span)>
    decreases rem(ts, i), 27int,
{
    rule_assign(ts, i)
}

/// `assign := logic_expr ('=' expr)?`
#[verifier::opaque]
pub open spec fn rule_assign(ts: Seq<TokenV>, i: int) -> Parsed<(ExprV, Span)>
    decreases rem(ts, i), 26int,
{
    let (r, n) = rule_logical_or(ts, i);
    match r {
        Err(e) => (Err(e), n),
        Ok(lhs) => {
            let k = i + n;
            if !present(ts, k) {
                (Err(ParseError::UnexpectedEOF), n)
            } else if ts[k].0 is Equal {
                let (r2, m) = rule_expr(ts, k + 1);
                match r2 {
                    Err(e) => (Err(e), n + 1 + m),
                    Ok(rhs) => (
                        Ok(
                            (
                                ExprV::Assign { lhs: Box::new(lhs), expr: Box::new(rhs) },
                                Span(lhs.1.0, rhs.1.1),
                            ),
                        ),
                        n + 1 + m,
                    ),
                }
            } else {
                (Ok(lhs), n)
            }
        },
    }
}

/// A binary-operator node.
pub open spec fn bin(lhs: (ExprV, Span), rhs: (ExprV, Span), op: BinOp, start: usize) -> (
    ExprV,
    Span,
) {
    (ExprV::BinOp { lhs: Box::new(lhs), rhs: Box::new(rhs), op }, Span(start, rhs.1.1))
}

/// `logical_or := logical_and ('||' logical_and)*`
#[verifier::opaque]
pub open spec fn rule_logical_or(ts: Seq<TokenV>, i: int) -> Parsed<(ExprV, Span)>
    decreases rem(ts, i), 25int,
{
    let (r, n) = rule_logical_and(ts, i);
    match r {
        Err(e) => (Err(e), n),
        Ok(lhs) => after(n, rule_or_rest(ts, i + n, lhs, lhs.1.0)),
    }
}

#[verifier::opaque]
pub open spec fn rule_or_rest(ts: Seq<TokenV>, j: int, lhs: (ExprV, Span), start: usize) -> Parsed<
    (ExprV, Span),
>
    decreases rem(ts, j), 24int,
{
    if !present(ts, j) {
        (Err(ParseError::UnexpectedEOF), 0)
    } else if ts[j].0 is DoubleVbar {
        let (r, m) = rule_logical_and(ts, j + 1);
        match r {
            Err(e) => (Err(e), 1 + m),
            Ok(rhs) => after(
                1 + m,
                rule_or_rest(ts, j + 1 + m, bin(lhs, rhs, BinOp::LogicalOr, start), start),
            ),
        }
    } else {
        (Ok(lhs), 0)
    }
}

/// `logical_and := equality ('&&' equality)*`
#[verifier::opaque]
pub open spec fn rule_logical_and(ts: Seq<TokenV>, i: int) -> Parsed<(ExprV, Span)>
    decreases rem(ts, i), 23int,
{
    let (r, n) = rule_equality(ts, i);
    match r {
        Err(e) => (Err(e), n),
        Ok(lhs) => after(n, rule_and_rest(ts, i + n, lhs, lhs.1.0)),
    }
}

#[verifier::opaque]
pub open spec fn rule_and_rest(ts: Seq<TokenV>, j: int, lhs: (ExprV, Span), start: usize) -> Parsed<
    (ExprV, Span),
>
    decreases rem(ts, j), 22int,
{
    if !present(ts, j) {
        (Err(ParseError::UnexpectedEOF), 0)
    } else if ts[j].0 is DoubleAmpersand {
        let (r, m) = rule_equality(ts, j + 1);
        match r {
            Err(e) => (Err(e), 1 + m),
            Ok(rhs) => after(
                1 + m,
                rule_and_rest(ts, j + 1 + m, bin(lhs, rhs, BinOp::LogicalAnd, start), start),
            ),
        }
    } else {
        (Ok(lhs), 0)
    }
}

/// The operator of an equality test, if `k` is one.
pub open spec fn equality_op(k: TokenKindV) -> Option<BinOp> {
    match k {
        TokenKindV::DoubleEqual => Some(BinOp::Equal),
        TokenKindV::NE => Some(BinOp::NotEqual),
        _ => None,
    }
}

/// `equality := order (('==' | '!=') order)*`
#[verifier::opaque]
pub open spec fn rule_equality(ts: Seq<TokenV>, i: int) -> Parsed<(ExprV, Span)>
    decreases rem(ts, i), 21int,
{
    let (r, n) = rule_order(ts, i);
    match r {
        Err(e) => (Err(e), n),
        Ok(lhs) => after(n, rule_equality_rest(ts, i + n, lhs, lhs.1.0)),
    }
}

#[verifier::opaque]
pub open spec fn rule_equality_rest(
    ts: Seq<TokenV>,
    j: int,
    lhs: (ExprV, Span),
    start: usize,
) -> Parsed<(ExprV, Span)>
    decreases rem(ts, j), 20int,
{
    if !present(ts, j) {
        (Err(ParseError::UnexpectedEOF), 0)
    } else {
        match equality_op(ts[j].0) {
            Some(op) => {
                let (r, m) = rule_order(ts, j + 1);
                match r {
                    Err(e) => (Err(e), 1 + m),
                    Ok(rhs) => after(
                        1 + m,
                        rule_equality_rest(ts, j + 1 + m, bin(lhs, rhs, op, start), start),
                    ),
                }
            },
            None => (Ok(lhs), 0),
        }
    }
}

/// The operator of a comparison, if `k` is one.
pub open spec fn order_op(k: TokenKindV) -> Option<BinOp> {
    match k {
        TokenKindV::LT => Some(BinOp::LT),
        TokenKindV::GT => Some(BinOp::GT),
        TokenKindV::LE => Some(BinOp::LE),
        TokenKindV::GE => Some(BinOp::GE),
        _ => None,
    }
}

/// `order := operation (('<' | '>' | '<=' | '>=') operation)*`
#[verifier::opaque]
pub open spec fn rule_order(ts: Seq<TokenV>, i: int) -> Parsed<(ExprV, Span)>
    decreases rem(ts, i), 19int,
{
    let (r, n) = rule_addition(ts, i);
    match r {
        Err(e) => (Err(e), n),
        Ok(lhs) => after(n, rule_order_rest(ts, i + n, lhs, lhs.1.0)),
    }
}

#[verifier::opaque]
pub open spec fn rule_order_rest(ts: Seq<TokenV>, j: int, lhs: (ExprV, Span), start: usize) -> Parsed<
    (ExprV, Span),
>
    decreases rem(ts, j), 18int,
{
    if !present(ts, j) {
        (Err(ParseError::UnexpectedEOF), 0)
    } else {
        match order_op(ts[j].0) {
            Some(op) => {
                let (r, m) = rule_addition(ts, j + 1);
                match r {
                    Err(e) => (Err(e), 1 + m),
                    Ok(rhs) => after(
                        1 + m,
                        rule_order_rest(ts, j + 1 + m, bin(lhs, rhs, op, start), start),
                    ),
                }
            },
            None => (Ok(lhs), 0),
        }
    }
}

/// The operator of an addition, if `k` is one.
pub open spec fn addition_op(k: TokenKindV) -> Option<BinOp> {
    match k {
        TokenKindV::Plus => Some(BinOp::Add),
        TokenKindV::Minus => Some(BinOp::Sub),
        _ => None,
    }
}

/// `addition := multiply (('+' | '-') multiply)*`
#[verifier::opaque]
pub open spec fn rule_addition(ts: Seq<TokenV>, i: int) -> Parsed<(ExprV, Span)>
    decreases rem(ts, i), 17int,
{
    let (r, n) = rule_multiply(ts, i);
    match r {
        Err(e) => (Err(e), n),
        Ok(lhs) => after(n, rule_addition_rest(ts, i + n, lhs, lhs.1.0)),
    }
}

#[verifier::opaque]
pub open spec fn rule_addition_rest(
    ts: Seq<TokenV>,
    j: int,
    lhs: (ExprV, Span),
    start: usize,
) -> Parsed<(ExprV, Span)>
    decreases rem(ts, j), 16int,
{
    if !present(ts, j) {
        (Err(ParseError::UnexpectedEOF), 0)
    } else {
        match addition_op(ts[j].0) {
            Some(op) => {
                let (r, m) = rule_multiply(ts, j + 1);
                match r {
                    Err(e) => (Err(e), 1 + m),
                    Ok(rhs) => after(
                        1 + m,
                        rule_addition_rest(ts, j + 1 + m, bin(lhs, rhs, op, start), start),
                    ),
                }
            },
            None => (Ok(lhs), 0),
        }
    }
}

/// The operator of a multiplication, if `k` is one.
pub open spec fn multiply_op(k: TokenKindV) -> Option<BinOp> {
    match k {
        TokenKindV::Asterisk => Some(BinOp::Mul),
        TokenKindV::Slash => Some(BinOp::Div),
        TokenKindV::Percent => Some(BinOp::Rem),
        _ => None,
    }
}

/// `multiply := unary_op (('*' | '/' | '%') unary_op)*`
#[verifier::opaque]
pub open spec fn rule_multiply(ts: Seq<TokenV>, i: int) -> Parsed<(ExprV, Span)>
    decreases rem(ts, i), 15int,
{
    let (r, n) = rule_unary_op(ts, i);
    match r {
        Err(e) => (Err(e), n),
        Ok(lhs) => after(n, rule_multiply_rest(ts, i + n, lhs, lhs.1.0)),
    }
}

#[verifier::opaque]
pub open spec fn rule_multiply_rest(
    ts: Seq<TokenV>,
    j: int,
    lhs: (ExprV, Span),
    start: usize,
) -> Parsed<(ExprV, Span)>
    decreases rem(ts, j), 14int,
{
    if !present(ts, j) {
        (Err(ParseError::UnexpectedEOF), 0)
    } else {
        match multiply_op(ts[j].0) {
            Some(op) => {
                let (r, m) = rule_unary_op(ts, j + 1);
                match r {
                    Err(e) => (Err(e), 1 + m),
                    Ok(rhs) => after(
                        1 + m,
                        rule_multiply_rest(ts, j + 1 + m, bin(lhs, rhs, op, start), start),
                    ),
                }
            },
            None => (Ok(lhs), 0),
        }
    }
}

/// `unary_op := '-' factor | '!' factor | factor`
#[verifier::opaque]
pub open spec fn rule_unary_op(ts: Seq<TokenV>, i: int) -> Parsed<(ExprV, Span)>
    decreases rem(ts, i), 13int,
{
    if !present(ts, i) {
        (Err(ParseError::UnexpectedEOF), 0)
    } else if ts[i].0 is Minus || ts[i].0 is Exclamation {
        let op = if ts[i].0 is Minus {
            UniOp::Neg
        } else {
            UniOp::Inv
        };
        let (r, m) = rule_factor(ts, i + 1);
        match r {
            Err(e) => (Err(e), 1 + m),
            Ok(operand) => (
                Ok(
                    (
                        ExprV::UniOp { operand: Box::new(operand), op },
                        Span(ts[i].1.0, operand.1.1),
                    ),
                ),
                1 + m,
            ),
        }
    } else {
        rule_factor(ts, i)
    }
}

/// `factor := number | '(' expr ')' | fn_call | true | false | unit | if_expr | block`
#[verifier::opaque]
pub open spec fn rule_factor(ts: Seq<TokenV>, i: int) -> Parsed<(ExprV, Span)>
    decreases rem(ts, i), 12int,
{
    if !present(ts, i) {
        (Err(ParseError::UnexpectedEOF), 0)
    } else {
        match ts[i].0 {
            TokenKindV::Number(v) => (Ok((ExprV::Number(v), ts[i].1)), 1),
            TokenKindV::LParen => {
                let (r, m) = rule_expr(ts, i + 1);
                match r {
                    Err(e) => (Err(e), 1 + m),
                    Ok(inner) => {
                        let (c, n) = rule_consume(ts, i + 1 + m, TokenKindV::RParen);
                        match c {
                            Err(e) => (Err(e), 1 + m + n),
                            Ok(close) => (Ok((inner.0, Span(ts[i].1.0, close.1))), 1 + m + n),
                        }
                    },
                }
            },
            TokenKindV::Identifier(_) => rule_fn_call(ts, i),
            TokenKindV::Keyword(Keyword::True) => (Ok((ExprV::Bool(true), ts[i].1)), 1),
            TokenKindV::Keyword(Keyword::False) => (Ok((ExprV::Bool(false), ts[i].1)), 1),
            TokenKindV::Keyword(Keyword::Unit) => (Ok((ExprV::Unit, ts[i].1)), 1),
            TokenKindV::Keyword(Keyword::If) => rule_if_expr(ts, i),
            TokenKindV::LBrace => {
                let (r, n) = rule_block(ts, i);
                match r {
                    Err(e) => (Err(e), n),
                    Ok(b) => (Ok((ExprV::Block(b), b.1)), n),
                }
            },
            _ => (Err(unexpected(ts[i])), 0),
        }
    }
}

/// The arguments after the first: `(',' expr)*`, up to `)`.
#[verifier::opaque]
pub open spec fn rule_args_rest(ts: Seq<TokenV>, j: int, acc: Seq<(ExprV, Span)>) -> Parsed<
    Seq<(ExprV, Span)>,
>
    decreases rem(ts, j), 9int,
{
    if !present(ts, j) {
        (Err(ParseError::UnexpectedEOF), 0)
    } else if ts[j].0 is RParen {
        (Ok(acc), 0)
    } else if ts[j].0 is Comma {
        let (r, m) = rule_expr(ts, j + 1);
        match r {
            Err(e) => (Err(e), 1 + m),
            Ok(arg) => after(1 + m, rule_args_rest(ts, j + 1 + m, acc.push(arg))),
        }
    } else {
        (Err(unexpected(ts[j])), 0)
    }
}

/// The arguments of a call, after its `(`: `ε | expr (',' expr)*`, up to `)`.
#[verifier::opaque]
pub open spec fn rule_args(ts: Seq<TokenV>, j: int) -> Parsed<Seq<(ExprV, Span)>>
    decreases rem(ts, j), 28int,
{
    if !present(ts, j) {
        (Err(ParseError::UnexpectedEOF), 0)
    } else if ts[j].0 is Comma {
        (Err(unexpected(ts[j])), 1)
    } else if ts[j].0 is RParen {
        rule_args_rest(ts, j, seq![])
    } else if is_expr_first(ts[j].0) {
        let (r, m) = rule_expr(ts, j);
        match r {
            Err(e) => (Err(e), m),
            Ok(arg) => after(m, rule_args_rest(ts, j + m, seq![arg])),
        }
    } else {
        (Err(unexpected(ts[j])), 0)
    }
}

/// `fn_call := identifier ('(' args ')')?`; without the parentheses, a variable.
#[verifier::opaque]
pub open spec fn rule_fn_call(ts: Seq<TokenV>, i: int) -> Parsed<(ExprV, Span)>
    decreases rem(ts, i), 11int,
{
    if !present(ts, i) {
        (Err(ParseError::UnexpectedEOF), 0)
    } else {
        match ts[i].0 {
            TokenKindV::Identifier(name) => {
                if !present(ts, i + 1) {
                    (Err(ParseError::UnexpectedEOF), 1)
                } else if ts[i + 1].0 is LParen {
                    let (r, m) = rule_args(ts, i + 2);
                    match r {
                        Err(e) => (Err(e), 2 + m),
                        Ok(args) => {
                            let (c, n) = rule_consume(ts, i + 2 + m, TokenKindV::RParen);
                            match c {
                                Err(e) => (Err(e), 2 + m + n),
                                Ok(close) => (
                                    Ok(
                                        (
                                            ExprV::FnCall { name, args },
                                            Span(ts[i].1.0, close.1),
                                        ),
                                    ),
                                    2 + m + n,
                                ),
                            }
                        },
                    }
                } else {
                    (Ok((ExprV::Value(name), ts[i].1)), 1)
                }
            },
            _ => (Err(ParseError::UnexpectedToken(ts[i].1)), 1),
        }
    }
}

/// The `else if` branches and the `else` block of an `if`, with the end of
/// the last branch read.
pub type ElsePartV = (Seq<(IfV, Span)>, Option<BlockV>, usize);

/// `(else if logic_expr block)* (else block)?`
#[verifier::opaque]
pub open spec fn rule_else(ts: Seq<TokenV>, j: int, branches: Seq<(IfV, Span)>, end: usize) -> Parsed<
    ElsePartV,
>
    decreases rem(ts, j), 8int,
{
    if !present(ts, j) {
        (Err(ParseError::UnexpectedEOF), 0)
    } else if ts[j].0 == TokenKindV::Keyword(Keyword::Else) {
        if !present(ts, j + 1) {
            (Err(ParseError::UnexpectedEOF), 1)
        } else if ts[j + 1].0 == TokenKindV::Keyword(Keyword::If) {
            let start = ts[j + 1].1.0;
            let (r, m) = rule_logical_or(ts, j + 2);
            match r {
                Err(e) => (Err(e), 2 + m),
                Ok(cond) => {
                    let (b, n) = rule_block(ts, j + 2 + m);
                    match b {
                        Err(e) => (Err(e), 2 + m + n),
                        Ok(body) => after(
                            2 + m + n,
                            rule_else(
                                ts,
                                j + 2 + m + n,
                                branches.push((IfV { cond, body }, Span(start, body.1.1))),
                                body.1.1,
                            ),
                        ),
                    }
                },
            }
        } else if ts[j + 1].0 is LBrace {
            let (b, n) = rule_block(ts, j + 1);
            match b {
                Err(e) => (Err(e), 1 + n),
                Ok(body) => (Ok((branches, Some(body), body.1.1)), 1 + n),
            }
        } else {
            (Err(unexpected(ts[j + 1])), 2)
        }
    } else {
        (Ok((branches, None, end)), 0)
    }
}

/// `if_expr := 'if' logic_expr block (else ...)`
#[verifier::opaque]
pub open spec fn rule_if_expr(ts: Seq<TokenV>, i: int) -> Parsed<(ExprV, Span)>
    decreases rem(ts, i), 10int,
{
    if !present(ts, i) {
        (Err(ParseError::UnexpectedEOF), 0)
    } else if ts[i].0 != TokenKindV::Keyword(Keyword::If) {
        (Err(unexpected(ts[i])), 1)
    } else {
        let start = ts[i].1.0;
        let (r, m) = rule_logical_or(ts, i + 1);
        match r {
            Err(e) => (Err(e), 1 + m),
            Ok(cond) => {
                let (b, n) = rule_block(ts, i + 1 + m);
                match b {
                    Err(e) => (Err(e), 1 + m + n),
                    Ok(body) => {
                        let first = (IfV { cond, body }, Span(start, body.1.1));
                        let (rest, k) = rule_else(ts, i + 1 + m + n, seq![], body.1.1);
                        match rest {
                            Err(e) => (Err(e), 1 + m + n + k),
                            Ok(part) => (
                                Ok(
                                    (
                                        ExprV::If(Box::new(first), part.0, part.1),
                                        Span(start, part.2),
                                    ),
                                ),
                                1 + m + n + k,
                            ),
                        }
                    },
                }
            },
        }
    }
}

/// `fn_decl := 'fn' identifier '(' param_list ')' ('->' type_name)? block`;
/// without an arrow the return type is `unit`, spanning `fn` to `)`.
#[verifier::opaque]
pub open spec fn rule_fn_decl(ts: Seq<TokenV>, i: int) -> Parsed<FnDeclV> {
    let (c, n0) = rule_consume(ts, i, TokenKindV::Keyword(Keyword::Fn));
    match c {
        Err(e) => (Err(e), n0),
        Ok(fn_span) => {
            if !present(ts, i + 1) {
                (Err(ParseError::UnexpectedEOF), 1)
            } else {
                match ts[i + 1].0 {
                    TokenKindV::Identifier(name) => {
                        let (c2, n2) = rule_consume(ts, i + 2, TokenKindV::LParen);
                        match c2 {
                            Err(e) => (Err(e), 2 + n2),
                            Ok(_) => {
                                let (p, n3) = rule_param_list(ts, i + 3);
                                match p {
                                    Err(e) => (Err(e), 3 + n3),
                                    Ok(params) => {
                                        let (c4, n4) = rule_consume(
                                            ts,
                                            i + 3 + n3,
                                            TokenKindV::RParen,
                                        );
                                        match c4 {
                                            Err(e) => (Err(e), 3 + n3 + n4),
                                            Ok(close) => {
                                                let k = i + 4 + n3;
                                                rule_fn_decl_tail(
                                                    ts,
                                                    k,
                                                    (name, ts[i + 1].1),
                                                    params,
                                                    Span(fn_span.0, close.1),
                                                    4 + n3,
                                                )
                                            },
                                        }
                                    },
                                }
                            },
                        }
                    },
                    _ => (Err(unexpected(ts[i + 1])), 2),
                }
            }
        },
    }
}

/// The return type and body of a function declaration, read from `k`, where
/// `used` tokens were consumed before and `header` spans `fn` to `)`.
#[verifier::opaque]
pub open spec fn rule_fn_decl_tail(
    ts: Seq<TokenV>,
    k: int,
    name: (Seq<char>, Span),
    params: Seq<ParamV>,
    header: Span,
    used: nat,
) -> Parsed<FnDeclV> {
    if !present(ts, k) {
        (Err(ParseError::UnexpectedEOF), used)
    } else {
        let (t, n5) = if ts[k].0 is Arrow {
            let (r, m) = rule_type_name(ts, k + 1);
            (r, 1 + m)
        } else {
            (Ok((TypeName::Unit, header)), 0nat)
        };
        match t {
            Err(e) => (Err(e), used + n5),
            Ok(ret_ty) => {
                let (b, n6) = rule_block(ts, k + n5);
                match b {
                    Err(e) => (Err(e), used + n5 + n6),
                    Ok(body) => (Ok(FnDeclV { name, params, ret_ty, body }), used + n5 + n6),
                }
            },
        }
    }
}

/// The declarations of a program from position `j` on, up to the end of
/// input. A declaration that is read always consumes a token.
#[verifier::opaque]
pub open spec fn rule_decls(ts: Seq<TokenV>, j: int, acc: Seq<FnDeclV>) -> Parsed<Seq<FnDeclV>>
    decreases rem(ts, j),
{
    let (d, n) = rule_fn_decl(ts, j);
    match d {
        Err(e) => (Err(e), n),
        Ok(decl) => {
            let k = j + n;
            if !present(ts, k) {
                (Err(ParseError::UnexpectedEOF), n)
            } else if ts[k].0 is EOF {
                (Ok(acc.push(decl)), n + 1)
            } else if n > 0 && present(ts, j) {
                after(n, rule_decls(ts, k, acc.push(decl)))
            } else {
                (Err(ParseError::UnexpectedEOF), n)
            }
        },
    }
}

/// `program := fn_decl+ EOF`
#[verifier::opaque]
pub open spec fn rule_program(ts: Seq<TokenV>) -> Parsed<Seq<FnDeclV>> {
    rule_decls(ts, 0, seq![])
}

} // verus!
