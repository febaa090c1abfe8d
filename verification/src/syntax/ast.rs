//! The syntax tree of monye programs and its mathematical view.
use vstd::prelude::*;
use crate::syntax::lexer::{PrimitiveType, Span};

verus! {

pub type Ident<'src> = &'src str;

/// A node together with the part of the source it was read from.
#[derive(Clone, Debug)]
pub struct Spanned<T>(pub T, pub Span);

impl<T> Spanned<T> {
    pub fn node(&self) -> (r: &T)
        ensures
            *r == self.0,
    {
        &self.0
    }

    pub fn span(&self) -> (r: Span)
        ensures
            r == self.1,
    {
        self.1
    }
}

#[derive(Debug)]
pub struct Program<'src>(pub Vec<Declaration<'src>>);

#[derive(Debug)]
pub enum Declaration<'src> {
    FnDecl {
        name: Spanned<Ident<'src>>,
        params: Vec<(Spanned<Ident<'src>>, Spanned<TypeName>)>,
        ret_ty: Spanned<TypeName>,
        body: Spanned<Vec<Spanned<Statement<'src>>>>,
    },
}

#[derive(Debug)]
pub enum Statement<'src> {
    Bind {
        name: Spanned<Ident<'src>>,
        ty: Spanned<TypeName>,
        initializer: Option<Spanned<Expression<'src>>>,
    },
    SemicolonnedExpr(Spanned<Expression<'src>>),
    Expression(Spanned<Expression<'src>>),
}

#[derive(Debug)]
#[allow(inconsistent_fields)]
pub enum Expression<'src> {
    Assign { lhs: Box<Spanned<Expression<'src>>>, expr: Box<Spanned<Expression<'src>>> },
    BinOp { lhs: Box<Spanned<Expression<'src>>>, rhs: Box<Spanned<Expression<'src>>>, op: BinOp },
    UniOp { operand: Box<Spanned<Expression<'src>>>, op: UniOp },
    FnCall { name: Ident<'src>, args: Vec<Spanned<Expression<'src>>> },
    Number(u64),
    Value(Ident<'src>),
    Bool(bool),
    Unit,
    If(
        Box<Spanned<IfExpr<'src>>>,
        Vec<Spanned<IfExpr<'src>>>,
        Option<Spanned<Vec<Spanned<Statement<'src>>>>>,
    ),
    Block(Spanned<Vec<Spanned<Statement<'src>>>>),
}

/// One guarded branch of an `if`: its condition and its body.
#[derive(Debug)]
pub struct IfExpr<'src>(pub Spanned<Expression<'src>>, pub Spanned<Vec<Spanned<Statement<'src>>>>);

impl<'src> IfExpr<'src> {
    pub fn cond(&self) -> (r: &Spanned<Expression<'src>>)
        ensures
            *r == self.0,
    {
        &self.0
    }

    pub fn body(&self) -> (r: &Spanned<Vec<Spanned<Statement<'src>>>>)
        ensures
            *r == self.1,
    {
        &self.1
    }
}

#[derive(Clone, Copy, Debug, PartialEq, Eq, Structural, Hash)]
pub enum TypeName {
    Primitive(PrimitiveType),
    Unit,
    Never,
}

#[derive(Clone, Copy, Debug, PartialEq, Eq, Structural)]
pub enum BinOp {
    Add,
    Sub,
    Mul,
    Div,
    Rem,
    Or,
    And,
    LogicalOr,
    LogicalAnd,
    Equal,
    NotEqual,
    LT,
    GT,
    LE,
    GE,
}

#[derive(Clone, Copy, Debug, PartialEq, Eq, Structural)]
pub enum UniOp {
    Neg,
    Inv,
}

/* The mathematical view of the syntax tree: names as character sequences,
   vectors as sequences. */

/// A statement list with its span.
pub type BlockV = (Seq<(StmtV, Span)>, Span);

#[allow(inconsistent_fields)]
pub enum ExprV {
    Assign { lhs: Box<(ExprV, Span)>, expr: Box<(ExprV, Span)> },
    BinOp { lhs: Box<(ExprV, Span)>, rhs: Box<(ExprV, Span)>, op: BinOp },
    UniOp { operand: Box<(ExprV, Span)>, op: UniOp },
    FnCall { name: Seq<char>, args: Seq<(ExprV, Span)> },
    Number(u64),
    Value(Seq<char>),
    Bool(bool),
    Unit,
    If(Box<(IfV, Span)>, Seq<(IfV, Span)>, Option<BlockV>),
    Block(BlockV),
}

pub struct IfV {
    pub cond: (ExprV, Span),
    pub body: BlockV,
}

pub enum StmtV {
    Bind { name: (Seq<char>, Span), ty: (TypeName, Span), initializer: Option<(ExprV, Span)> },
    SemicolonnedExpr((ExprV, Span)),
    Expression((ExprV, Span)),
}

/// A parameter: its name and its type, each with its span.
pub type ParamV = ((Seq<char>, Span), (TypeName, Span));

pub struct FnDeclV {
    pub name: (Seq<char>, Span),
    pub params: Seq<ParamV>,
    pub ret_ty: (TypeName, Span),
    pub body: BlockV,
}

#[verifier::opaque]
pub open spec fn expr_view<'src>(e: Expression<'src>) -> ExprV
    decreases e,
{
    match e {
        Expression::Assign { lhs, expr } => ExprV::Assign {
            lhs: Box::new((expr_view(lhs.0), lhs.1)),
            expr: Box::new((expr_view(expr.0), expr.1)),
        },
        Expression::BinOp { lhs, rhs, op } => ExprV::BinOp {
            lhs: Box::new((expr_view(lhs.0), lhs.1)),
            rhs: Box::new((expr_view(rhs.0), rhs.1)),
            op,
        },
        Expression::UniOp { operand, op } => ExprV::UniOp {
            operand: Box::new((expr_view(operand.0), operand.1)),
            op,
        },
        Expression::FnCall { name, args } => {
            proof {
                assert forall|k: int| 0 <= k < args@.len() implies decreases_to!(e => args@[k].0) by {
                    assert(decreases_to!(e => args));
                    assert(decreases_to!(args => args@));
                    assert(decreases_to!(args@ => args@[k]));
                    assert(decreases_to!(args@[k] => args@[k].0));
                }
            }
            ExprV::FnCall {
                name: name@,
                args: Seq::new(
                    args@.len(),
                    |k: int|
                        if 0 <= k < args@.len() {
                            (expr_view(args@[k].0), args@[k].1)
                        } else {
                            (ExprV::Unit, Span(0, 0))
                        },
                ),
            }
        },
        Expression::Number(n) => ExprV::Number(n),
        Expression::Value(name) => ExprV::Value(name@),
        Expression::Bool(b) => ExprV::Bool(b),
        Expression::Unit => ExprV::Unit,
        Expression::If(first, else_ifs, else_clause) => {
            proof {
                assert forall|k: int| 0 <= k < else_ifs@.len() implies decreases_to!(e => else_ifs@[k].0) by {
                    assert(decreases_to!(e => else_ifs));
                    assert(decreases_to!(else_ifs => else_ifs@));
                    assert(decreases_to!(else_ifs@ => else_ifs@[k]));
                    assert(decreases_to!(else_ifs@[k] => else_ifs@[k].0));
                }
            }
            ExprV::If(
                Box::new((if_view(first.0), first.1)),
                Seq::new(
                    else_ifs@.len(),
                    |k: int|
                        if 0 <= k < else_ifs@.len() {
                            (if_view(else_ifs@[k].0), else_ifs@[k].1)
                        } else {
                            (IfV { cond: (ExprV::Unit, Span(0, 0)), body: (seq![], Span(0, 0)) }, Span(0, 0))
                        },
                ),
                match else_clause {
                    Some(b) => Some((stmts_view(b.0), b.1)),
                    None => None,
                },
            )
        },
        Expression::Block(b) => ExprV::Block((stmts_view(b.0), b.1)),
    }
}

pub open spec fn if_view<'src>(x: IfExpr<'src>) -> IfV
    decreases x,
{
    IfV { cond: (expr_view(x.0.0), x.0.1), body: (stmts_view(x.1.0), x.1.1) }
}

#[verifier::opaque]
pub open spec fn stmts_view<'src>(v: Vec<Spanned<Statement<'src>>>) -> Seq<(StmtV, Span)>
    decreases v,
{
    proof {
        assert forall|k: int| 0 <= k < v@.len() implies decreases_to!(v => v@[k].0) by {
            assert(decreases_to!(v => v@));
            assert(decreases_to!(v@ => v@[k]));
            assert(decreases_to!(v@[k] => v@[k].0));
        }
    }
    Seq::new(
        v@.len(),
        |k: int|
            if 0 <= k < v@.len() {
                (stmt_view(v@[k].0), v@[k].1)
            } else {
                (StmtV::Expression((ExprV::Unit, Span(0, 0))), Span(0, 0))
            },
    )
}

#[verifier::opaque]
pub open spec fn stmt_view<'src>(s: Statement<'src>) -> StmtV
    decreases s,
{
    match s {
        Statement::Bind { name, ty, initializer } => StmtV::Bind {
            name: (name.0@, name.1),
            ty: (ty.0, ty.1),
            initializer: match initializer {
                Some(e) => Some((expr_view(e.0), e.1)),
                None => None,
            },
        },
        Statement::SemicolonnedExpr(e) => StmtV::SemicolonnedExpr((expr_view(e.0), e.1)),
        Statement::Expression(e) => StmtV::Expression((expr_view(e.0), e.1)),
    }
}

pub open spec fn sexpr_view<'src>(e: Spanned<Expression<'src>>) -> (ExprV, Span) {
    (expr_view(e.0), e.1)
}

pub open spec fn sif_view<'src>(x: Spanned<IfExpr<'src>>) -> (IfV, Span) {
    (if_view(x.0), x.1)
}

pub open spec fn sstmt_view<'src>(s: Spanned<Statement<'src>>) -> (StmtV, Span) {
    (stmt_view(s.0), s.1)
}

pub open spec fn block_view<'src>(b: Spanned<Vec<Spanned<Statement<'src>>>>) -> BlockV {
    (stmts_view(b.0), b.1)
}

pub open spec fn param_view<'src>(p: (Spanned<Ident<'src>>, Spanned<TypeName>)) -> ParamV {
    ((p.0.0@, p.0.1), (p.1.0, p.1.1))
}

pub open spec fn decl_view<'src>(d: Declaration<'src>) -> FnDeclV {
    match d {
        Declaration::FnDecl { name, params, ret_ty, body } => FnDeclV {
            name: (name.0@, name.1),
            params: params@.map_values(|p: (Spanned<Ident<'src>>, Spanned<TypeName>)| param_view(p)),
            ret_ty: (ret_ty.0, ret_ty.1),
            body: block_view(body),
        },
    }
}

pub open spec fn program_view<'src>(p: Program<'src>) -> Seq<FnDeclV> {
    p.0@.map_values(|d: Declaration<'src>| decl_view(d))
}

} // verus!
