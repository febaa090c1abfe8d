//! What translation computes, stated over the syntax tree: the code and the
//! type of each expression, block and function, the constants gathered on
//! the way, or the error reported.
//!
//! An outcome is `Done` with the results, `Fail` with the error that the
//! translator returns, or `Abort` where a register index or a negated
//! literal overflows its machine integer; the translator does not accept
//! the inputs whose outcome is `Abort`.
use vstd::prelude::*;
use crate::instruction::{typed_op, Instruction, OpCode};
use crate::syntax::ast::{BinOp, Declaration, Expression, IfExpr, Spanned, Statement, TypeName, UniOp};
use crate::syntax::lexer::{PrimitiveType, Span};
use crate::translate::env::{free_reg, lookup_func, lookup_var, with_var, GEnvV, LEnvV};
use crate::translate::error::{ErrorKindV, ErrorV, Stop, SyntaxError, TranslateError};
use crate::translate::host::{host_defs, host_functions_view};
use crate::translate::lir::{code_fits, function_spec, FunctionV, SigV};
use crate::translate::typing::{fallback, type_cast};

verus! {

pub enum Outcome<T> {
    Done(T),
    Fail(ErrorV),
    Abort,
}

/// Code, the type of its value, and the constants after it was translated.
pub type ExprOut = (Seq<Instruction>, TypeName, Seq<u64>);

/// The first position from `k` on where the constant `n` stands, or -1.
pub open spec fn const_index(c: Seq<u64>, n: u64, k: int) -> int
    decreases c.len() - k,
{
    if k < 0 || k >= c.len() {
        -1
    } else if c[k] == n {
        k
    } else {
        const_index(c, n, k + 1)
    }
}

/// The constants with `n` among them, and its index: an equal constant is
/// shared, a new one is appended.
pub open spec fn with_const(c: Seq<u64>, n: u64) -> (Seq<u64>, u16) {
    let i = const_index(c, n, 0);
    if i >= 0 {
        (c, i as u16)
    } else {
        (c.push(n), c.len() as u16)
    }
}

/// Whether an operator is a logical connective or a comparison, which the
/// logical translation handles.
pub open spec fn is_logical(op: BinOp) -> bool {
    match op {
        BinOp::LogicalOr | BinOp::LogicalAnd | BinOp::Equal | BinOp::NotEqual | BinOp::LT
        | BinOp::GT | BinOp::LE | BinOp::GE => true,
        _ => false,
    }
}

/// The second component of the termination measure of `expr_code`.
pub open spec fn expr_rank<'src>(e: Expression<'src>) -> int {
    match e {
        Expression::BinOp { op, .. } => if is_logical(op) {
            2
        } else {
            0
        },
        _ => 0,
    }
}

/// The high half of a jump offset.
pub open spec fn jump_hi(n: usize) -> u16 {
    ((n as i32) >> 16i32) as u16
}

/// The low half of a jump offset.
pub open spec fn jump_lo(n: usize) -> u16 {
    ((n as i32) & 0xffffi32) as u16
}

/// `Fail` and `Abort` passed on to a caller with another result type.
pub open spec fn pass<T, U>(o: Outcome<T>) -> Outcome<U> {
    match o {
        Outcome::Fail(e) => Outcome::Fail(e),
        _ => Outcome::Abort,
    }
}

/// The translation of an expression into code that leaves its value in
/// register `t`, where the context expects the type `exp`.
#[verifier::opaque]
pub open spec fn expr_code<'src>(
    g: GEnvV,
    l: LEnvV,
    c: Seq<u64>,
    t: u16,
    se: Spanned<Expression<'src>>,
    exp: Option<TypeName>,
) -> Outcome<ExprOut>
    decreases se.0, expr_rank(se.0),
{
    let span = se.1;
    match se.0 {
        Expression::Assign { lhs, expr } => match lhs.0 {
            Expression::Value(to) => match lookup_var(l, to@) {
                None => Outcome::Fail((ErrorKindV::UndefinedVariable(to@), lhs.1)),
                Some((lty, reg)) => match expr_code(g, l, c, t, *expr, Some(lty)) {
                    Outcome::Done((code, rty, c2)) => match type_cast(lty, rty) {
                        Err(k) => Outcome::Fail((k, span)),
                        Ok(ty) => Outcome::Done(
                            (code.push(Instruction(OpCode::Mov, reg, t, 0)), ty, c2),
                        ),
                    },
                    o => pass(o),
                },
            },
            _ => Outcome::Fail((ErrorKindV::SyntaxError(SyntaxError::InvalidAssignment), lhs.1)),
        },
        Expression::BinOp { lhs, rhs, op } => if is_logical(op) {
            logic_code(g, l, c, t, se)
        } else {
            match expr_code(g, l, c, t, *lhs, exp) {
                Outcome::Done((lcode, lty, c1)) => if t >= 0xffff {
                    Outcome::Abort
                } else {
                    match expr_code(g, l, c1, (t + 1) as u16, *rhs, exp) {
                        Outcome::Done((rcode, rty, c2)) => match type_cast(lty, rty) {
                            Err(k) => Outcome::Fail((k, span)),
                            Ok(ty) => match ty {
                                TypeName::Primitive(p) => match typed_op(op, fallback(p)) {
                                    Some(opc) => Outcome::Done(
                                        (
                                            (lcode + rcode).push(
                                                Instruction(opc, t, t, (t + 1) as u16),
                                            ),
                                            ty,
                                            c2,
                                        ),
                                    ),
                                    None => Outcome::Fail((ErrorKindV::OperationUndefined(ty), span)),
                                },
                                _ => Outcome::Fail((ErrorKindV::OperationUndefined(ty), span)),
                            },
                        },
                        o => pass(o),
                    }
                },
                o => pass(o),
            }
        },
        Expression::FnCall { name, args } => if t >= 0xffff {
            Outcome::Abort
        } else {
            match lookup_func(g, name@) {
                None => Outcome::Fail((ErrorKindV::UndefinedFunction(name@), span)),
                Some((sig, fid)) => if sig.0.len() != args@.len() {
                    Outcome::Fail(
                        (
                            ErrorKindV::InvalidArgumentCount(sig.0.len() as usize, args@.len() as usize),
                            span,
                        ),
                    )
                } else {
                    match args_code(g, l, c, t as int + 1, sig.0, args, 0, seq![], span) {
                        Outcome::Done((code, c2)) => Outcome::Done(
                            (
                                code.push(Instruction(OpCode::FnCall, fid, t, sig.0.len() as u16)),
                                sig.1,
                                c2,
                            ),
                        ),
                        o => pass(o),
                    }
                },
            }
        },
        Expression::Number(n) => {
            let (c2, id) = with_const(c, n);
            Outcome::Done(
                (
                    seq![Instruction(OpCode::Const, t, id, 0)],
                    match exp {
                        Some(ty) => ty,
                        None => TypeName::Primitive(PrimitiveType::Integer),
                    },
                    c2,
                ),
            )
        },
        Expression::UniOp { operand, op } => match (operand.0, op) {
            (Expression::Number(n), UniOp::Neg) => {
                let ty = match exp {
                    Some(ty) => ty,
                    None => TypeName::Primitive(PrimitiveType::I32),
                };
                match ty {
                    TypeName::Primitive(p) => if p == PrimitiveType::I8 || p == PrimitiveType::I16
                        || p == PrimitiveType::I32 || p == PrimitiveType::I64 || p
                        == PrimitiveType::Integer {
                        if (n as i64) == i64::MIN {
                            Outcome::Abort
                        } else {
                            let (c2, id) = with_const(c, (-(n as i64)) as u64);
                            Outcome::Done((seq![Instruction(OpCode::Const, t, id, 0)], ty, c2))
                        }
                    } else {
                        Outcome::Fail((ErrorKindV::CannotNegate(p), span))
                    },
                    _ => Outcome::Fail((ErrorKindV::OperationUndefined(ty), span)),
                }
            },
            _ => match expr_code(g, l, c, t, *operand, exp) {
                Outcome::Done((code, ty0, c1)) => {
                    let cast = match exp {
                        Some(x) => type_cast(ty0, x),
                        None => Ok(ty0),
                    };
                    match cast {
                        Err(k) => Outcome::Fail((k, span)),
                        Ok(ty) => match ty {
                            TypeName::Primitive(p0) => {
                                let p = fallback(p0);
                                match (op, p) {
                                    (UniOp::Neg, PrimitiveType::I8) => Outcome::Done(
                                        (code.push(Instruction(OpCode::NegI8, t, t, 0)), TypeName::Primitive(p), c1),
                                    ),
                                    (UniOp::Neg, PrimitiveType::I16) => Outcome::Done(
                                        (code.push(Instruction(OpCode::NegI16, t, t, 0)), TypeName::Primitive(p), c1),
                                    ),
                                    (UniOp::Neg, PrimitiveType::I32) => Outcome::Done(
                                        (code.push(Instruction(OpCode::NegI32, t, t, 0)), TypeName::Primitive(p), c1),
                                    ),
                                    (UniOp::Neg, PrimitiveType::I64) => Outcome::Done(
                                        (code.push(Instruction(OpCode::NegI64, t, t, 0)), TypeName::Primitive(p), c1),
                                    ),
                                    (UniOp::Neg, PrimitiveType::U8) | (UniOp::Neg, PrimitiveType::U16)
                                    | (UniOp::Neg, PrimitiveType::U32) | (UniOp::Neg, PrimitiveType::U64) =>
                                        Outcome::Fail((ErrorKindV::CannotNegate(p), span)),
                                    _ => Outcome::Fail(
                                        (ErrorKindV::OperationUndefined(TypeName::Primitive(p)), span),
                                    ),
                                }
                            },
                            _ => Outcome::Fail((ErrorKindV::OperationUndefined(ty), span)),
                        },
                    }
                },
                o => pass(o),
            },
        },
        Expression::Value(name) => match lookup_var(l, name@) {
            None => Outcome::Fail((ErrorKindV::UndefinedVariable(name@), span)),
            Some((ty, reg)) => Outcome::Done((seq![Instruction(OpCode::Mov, t, reg, 0)], ty, c)),
        },
        Expression::Bool(b) => {
            let (c2, id) = with_const(c, if b { 1 } else { 0 });
            match exp {
                Some(ty) => if ty == TypeName::Primitive(PrimitiveType::Bool) {
                    Outcome::Done((seq![Instruction(OpCode::Const, t, id, 0)], ty, c2))
                } else {
                    Outcome::Fail(
                        (ErrorKindV::MismatchedTypes(TypeName::Primitive(PrimitiveType::Bool), ty), span),
                    )
                },
                None => Outcome::Done(
                    (
                        seq![Instruction(OpCode::Const, t, id, 0)],
                        TypeName::Primitive(PrimitiveType::Bool),
                        c2,
                    ),
                ),
            }
        },
        Expression::Unit => Outcome::Done((seq![], TypeName::Unit, c)),
        Expression::If(first, else_ifs, else_clause) => {
            proof {
                assert(decreases_to!(se.0 => first));
                assert(decreases_to!(first => (*first).0));
            }
            match branch_code(g, l, c, t, *first, exp) {
                Outcome::Done((b0, c1)) => match branches_code(g, l, c1, t, else_ifs, 0, seq![b0], exp) {
                    Outcome::Done((bs, c2)) => match else_clause {
                        Some(eb) => match block_code(g, l, c2, t, eb, exp) {
                            Outcome::Done((ecode, ety, c3)) => match assemble(t, bs, Some((ecode, ety, eb.1)), exp, span) {
                                Outcome::Done((code, ty)) => Outcome::Done((code, ty, c3)),
                                o => pass(o),
                            },
                            o => pass(o),
                        },
                        None => match assemble(t, bs, None, exp, span) {
                            Outcome::Done((code, ty)) => Outcome::Done((code, ty, c2)),
                            o => pass(o),
                        },
                    },
                    o => pass(o),
                },
                o => pass(o),
            }
        },
        Expression::Block(b) => block_code(g, l, c, t, b, exp),
    }
}

/// The translation of a condition or a comparison: code that leaves its
/// truth value in register `t`.
#[verifier::opaque]
pub open spec fn logic_code<'src>(
    g: GEnvV,
    l: LEnvV,
    c: Seq<u64>,
    t: u16,
    se: Spanned<Expression<'src>>,
) -> Outcome<ExprOut>
    decreases se.0, 1int,
{
    let span = se.1;
    match se.0 {
        Expression::BinOp { lhs, rhs, op } => if is_logical(op) {
            if t >= 0xffff {
                Outcome::Abort
            } else {
                let u = (t + 1) as u16;
                match logic_code(g, l, c, t, *lhs) {
                    Outcome::Done((lcode, lty, c1)) => match logic_code(g, l, c1, u, *rhs) {
                        Outcome::Done((rcode, rty, c2)) => match type_cast(lty, rty) {
                            Err(k) => Outcome::Fail((k, span)),
                            Ok(ty0) => {
                                let ty = if ty0 == TypeName::Primitive(PrimitiveType::Integer) {
                                    TypeName::Primitive(PrimitiveType::I32)
                                } else {
                                    ty0
                                };
                                match compare_insn(op, ty, t, u) {
                                    Ok(i) => Outcome::Done(
                                        (
                                            (lcode + rcode).push(i),
                                            TypeName::Primitive(PrimitiveType::Bool),
                                            c2,
                                        ),
                                    ),
                                    Err(k) => Outcome::Fail((k, span)),
                                }
                            },
                        },
                        o => pass(o),
                    },
                    o => pass(o),
                }
            }
        } else {
            expr_code(g, l, c, t, se, None)
        },
        _ => expr_code(g, l, c, t, se, None),
    }
}

/// The instruction that combines the operands in registers `t` and `u` by
/// a logical operator or a comparison at type `ty`, or the error.
pub open spec fn compare_insn(op: BinOp, ty: TypeName, t: u16, u: u16) -> Result<Instruction, ErrorKindV> {
    let bool_ty = TypeName::Primitive(PrimitiveType::Bool);
    match op {
        BinOp::LogicalAnd => if ty == bool_ty {
            Ok(Instruction(OpCode::And, t, t, u))
        } else {
            Err(ErrorKindV::MismatchedTypes(bool_ty, ty))
        },
        BinOp::LogicalOr => if ty == bool_ty {
            Ok(Instruction(OpCode::Or, t, t, u))
        } else {
            Err(ErrorKindV::MismatchedTypes(bool_ty, ty))
        },
        BinOp::LT | BinOp::LE | BinOp::GT | BinOp::GE => match ty {
            TypeName::Primitive(p) => {
                let base = if op == BinOp::LT || op == BinOp::GT {
                    BinOp::LT
                } else {
                    BinOp::LE
                };
                match typed_op(base, p) {
                    Some(o) => if op == BinOp::LT || op == BinOp::LE {
                        Ok(Instruction(o, t, t, u))
                    } else {
                        Ok(Instruction(o, t, u, t))
                    },
                    None => Err(ErrorKindV::OperationUndefined(ty)),
                }
            },
            _ => Err(ErrorKindV::OperationUndefined(ty)),
        },
        BinOp::Equal => Ok(Instruction(OpCode::EQ, t, t, u)),
        BinOp::NotEqual => Ok(Instruction(OpCode::NE, t, t, u)),
        _ => Err(ErrorKindV::OperationUndefined(ty)),
    }
}

/// The arguments of a call from the `k`-th on: each is translated into the
/// register after the previous one, starting at `base`, and must fit its
/// parameter type.
#[verifier::opaque]
pub open spec fn args_code<'src>(
    g: GEnvV,
    l: LEnvV,
    c: Seq<u64>,
    base: int,
    params: Seq<TypeName>,
    args: Vec<Spanned<Expression<'src>>>,
    k: int,
    acc: Seq<Instruction>,
    span: Span,
) -> Outcome<(Seq<Instruction>, Seq<u64>)>
    decreases args@, args@.len() - k,
{
    if k < 0 || k >= args@.len() || k >= params.len() {
        Outcome::Done((acc, c))
    } else if base + k > 0xffff {
        Outcome::Abort
    } else {
        proof {
            assert(decreases_to!(args@ => args@[k]));
        }
        match expr_code(g, l, c, (base + k) as u16, args@[k], None) {
            Outcome::Done((code, ty, c1)) => match type_cast(params[k], ty) {
                Err(_) => Outcome::Fail((ErrorKindV::InvalidArgumentType(params[k], ty), span)),
                Ok(_) => args_code(g, l, c1, base, params, args, k + 1, acc + code, span),
            },
            o => pass(o),
        }
    }
}

/// A branch of an `if` translated: the condition's code, type and span,
/// the body's code and type, and the branch's span.
pub type BranchOut = (Seq<Instruction>, TypeName, Span, Seq<Instruction>, TypeName, Span);

#[verifier::opaque]
pub open spec fn branch_code<'src>(
    g: GEnvV,
    l: LEnvV,
    c: Seq<u64>,
    t: u16,
    b: Spanned<IfExpr<'src>>,
    exp: Option<TypeName>,
) -> Outcome<(BranchOut, Seq<u64>)>
    decreases b.0, 1int,
{
    match logic_code(g, l, c, t, b.0.0) {
        Outcome::Done((cond, cty, c1)) => match block_code(g, l, c1, t, b.0.1, exp) {
            Outcome::Done((body, bty, c2)) => Outcome::Done(((cond, cty, b.0.0.1, body, bty, b.1), c2)),
            o => pass(o),
        },
        o => pass(o),
    }
}

/// The `else if` branches from the `k`-th on, appended to `acc`.
#[verifier::opaque]
pub open spec fn branches_code<'src>(
    g: GEnvV,
    l: LEnvV,
    c: Seq<u64>,
    t: u16,
    bs: Vec<Spanned<IfExpr<'src>>>,
    k: int,
    acc: Seq<BranchOut>,
    exp: Option<TypeName>,
) -> Outcome<(Seq<BranchOut>, Seq<u64>)>
    decreases bs@, bs@.len() - k,
{
    if k < 0 || k >= bs@.len() {
        Outcome::Done((acc, c))
    } else {
        proof {
            assert(decreases_to!(bs@ => bs@[k]));
            assert(decreases_to!(bs@[k] => bs@[k].0));
        }
        match branch_code(g, l, c, t, bs@[k], exp) {
            Outcome::Done((b, c1)) => branches_code(g, l, c1, t, bs, k + 1, acc.push(b), exp),
            o => pass(o),
        }
    }
}

/// The type of an `if` so far merged with that of another branch's body.
pub open spec fn merge_branch(cur: Option<TypeName>, ty: TypeName, span: Span) -> Result<Option<TypeName>, ErrorV> {
    match (cur, ty) {
        (None, _) => Ok(Some(ty)),
        (Some(c), TypeName::Never) => Ok(Some(c)),
        (Some(TypeName::Never), _) => Ok(Some(ty)),
        (Some(c), _) => if c == ty {
            Ok(Some(c))
        } else {
            Err((ErrorKindV::MismatchedTypes(c, ty), span))
        },
    }
}

/// The code of the guarded branches from the `k`-th on appended to `code`,
/// each as its condition, a jump past its body when false, its body, and a
/// placeholder at the position recorded in `exits`; with the type so far.
pub open spec fn lay_branches(
    t: u16,
    bs: Seq<BranchOut>,
    k: int,
    code: Seq<Instruction>,
    exits: Seq<int>,
    ty: Option<TypeName>,
) -> Outcome<(Seq<Instruction>, Seq<int>, Option<TypeName>)>
    decreases bs.len() - k,
{
    if k < 0 || k >= bs.len() {
        Outcome::Done((code, exits, ty))
    } else {
        let (cond, cty, cspan, body, bty, span) = bs[k];
        if cty != TypeName::Primitive(PrimitiveType::Bool) {
            Outcome::Fail((ErrorKindV::MismatchedTypes(TypeName::Primitive(PrimitiveType::Bool), cty), cspan))
        } else if body.len() + 1 > usize::MAX {
            Outcome::Abort
        } else {
            let n = (body.len() + 1) as usize;
            let code1 = (code + cond).push(Instruction(OpCode::JumpZ, t, jump_hi(n), jump_lo(n)))
                + body;
            let code2 = code1.push(Instruction(OpCode::Nop, 0, 0, 0));
            match merge_branch(ty, bty, span) {
                Err(e) => Outcome::Fail(e),
                Ok(ty2) => lay_branches(t, bs, k + 1, code2, exits.push(code1.len() as int), ty2),
            }
        }
    }
}

/// The code with the placeholders at `exits`, from the `k`-th on, replaced
/// by jumps to its end.
pub open spec fn patch_exits(code: Seq<Instruction>, exits: Seq<int>, k: int) -> Seq<Instruction>
    decreases exits.len() - k,
{
    if k < 0 || k >= exits.len() {
        code
    } else {
        let n = (code.len() - exits[k] - 1) as usize;
        patch_exits(code.update(exits[k], Instruction(OpCode::Jump, 0, jump_hi(n), jump_lo(n))), exits, k + 1)
    }
}

/// The code and type of an `if` from its translated branches and its
/// translated `else` block, if any.
pub open spec fn assemble(
    t: u16,
    bs: Seq<BranchOut>,
    els: Option<(Seq<Instruction>, TypeName, Span)>,
    exp: Option<TypeName>,
    span: Span,
) -> Outcome<(Seq<Instruction>, TypeName)> {
    match lay_branches(t, bs, 0, seq![], seq![], exp) {
        Outcome::Fail(e) => Outcome::Fail(e),
        Outcome::Abort => Outcome::Abort,
        Outcome::Done((code, exits, ty)) => {
            let finished: Outcome<(Seq<Instruction>, Option<TypeName>)> = match els {
                Some((ecode, ety, espan)) => match ty {
                    Some(TypeName::Never) => Outcome::Done((code + ecode, Some(ety))),
                    Some(cur) => if cur == ety {
                        Outcome::Done((code + ecode, Some(cur)))
                    } else {
                        Outcome::Fail((ErrorKindV::MismatchedTypes(cur, ety), espan))
                    },
                    None => Outcome::Abort,
                },
                None => match ty {
                    Some(TypeName::Unit) | Some(TypeName::Never) => Outcome::Done((code, ty)),
                    Some(cur) => Outcome::Fail((ErrorKindV::MismatchedTypes(TypeName::Unit, cur), span)),
                    None => Outcome::Abort,
                },
            };
            match finished {
                Outcome::Done((code2, Some(ty2))) => Outcome::Done((patch_exits(code2, exits, 0), ty2)),
                Outcome::Done((_, None)) => Outcome::Abort,
                o => pass(o),
            }
        },
    }
}

/// The translation of a block into code that leaves its value in register
/// `t`.
#[verifier::opaque]
pub open spec fn block_code<'src>(
    g: GEnvV,
    l: LEnvV,
    c: Seq<u64>,
    t: u16,
    b: Spanned<Vec<Spanned<Statement<'src>>>>,
    exp: Option<TypeName>,
) -> Outcome<ExprOut>
    decreases b.0@, b.0@.len() + 2,
{
    if b.0@.len() == 0 {
        Outcome::Done((seq![], TypeName::Unit, c))
    } else {
        stmts_code(g, l, c, t, b.0, 0, exp, seq![], None)
    }
}

/// The state of a block's translation after some statements: the variables,
/// the constants, the code, and the latest expression statement's type and
/// register.
pub type BlockState = (LEnvV, Seq<u64>, Seq<Instruction>, Option<(TypeName, u16)>);

/// The state after one more statement of a block; `is_last` tells whether
/// it is the block's last, whose value may take the expected type.
#[verifier::opaque]
pub open spec fn stmt_step<'src>(
    g: GEnvV,
    l: LEnvV,
    c: Seq<u64>,
    s: Spanned<Statement<'src>>,
    is_last: bool,
    exp: Option<TypeName>,
    acc: Seq<Instruction>,
    last: Option<(TypeName, u16)>,
) -> Outcome<BlockState>
    decreases s, 0int,
{
    match s.0 {
        Statement::Bind { name, ty, initializer } => {
            let reg = free_reg(l);
            let l2 = with_var(l, name.0@, ty.0, reg);
            match initializer {
                Some(init) => match expr_code(g, l2, c, reg, init, Some(ty.0)) {
                    Outcome::Done((code, ety, c1)) => match type_cast(ty.0, ety) {
                        Err(e) => Outcome::Fail((e, init.1)),
                        Ok(_) => Outcome::Done((l2, c1, acc + code, None)),
                    },
                    o => pass(o),
                },
                None => Outcome::Done((l2, c, acc, last)),
            }
        },
        Statement::Expression(e) => {
            let reg = free_reg(l);
            match expr_code(g, l, c, reg, e, if is_last { exp } else { None }) {
                Outcome::Done((code, ety, c1)) => Outcome::Done((l, c1, acc + code, Some((ety, reg)))),
                o => pass(o),
            }
        },
        Statement::SemicolonnedExpr(e) => {
            let reg = free_reg(l);
            match expr_code(g, l, c, reg, e, None) {
                Outcome::Done((code, _, c1)) => Outcome::Done((l, c1, acc + code, Some((TypeName::Unit, reg)))),
                o => pass(o),
            }
        },
    }
}

/// The statements of a block from the `k`-th on, after the code `acc`;
/// `last` is the type and register of the latest expression statement's
/// value, which becomes the block's value.
#[verifier::opaque]
pub open spec fn stmts_code<'src>(
    g: GEnvV,
    l: LEnvV,
    c: Seq<u64>,
    t: u16,
    ss: Vec<Spanned<Statement<'src>>>,
    k: int,
    exp: Option<TypeName>,
    acc: Seq<Instruction>,
    last: Option<(TypeName, u16)>,
) -> Outcome<ExprOut>
    decreases ss@, ss@.len() - k + 1,
{
    if k < 0 || k >= ss@.len() {
        match last {
            Some((ty, reg)) => Outcome::Done((acc.push(Instruction(OpCode::Mov, t, reg, 0)), ty, c)),
            None => Outcome::Done((acc, TypeName::Unit, c)),
        }
    } else {
        proof {
            assert(decreases_to!(ss@ => ss@[k]));
        }
        match stmt_step(g, l, c, ss@[k], k == ss@.len() - 1, exp, acc, last) {
            Outcome::Done((l2, c2, acc2, last2)) => stmts_code(g, l2, c2, t, ss, k + 1, exp, acc2, last2),
            o => pass(o),
        }
    }
}

/// The type that a context gives, if any.
pub open spec fn expected(e: Option<&TypeName>) -> Option<TypeName> {
    match e {
        Some(t) => Some(*t),
        None => None,
    }
}

/// The types of a list of parameters.
pub open spec fn param_types<'src>(params: Seq<(Spanned<&'src str>, Spanned<TypeName>)>) -> Seq<TypeName> {
    params.map_values(|p: (Spanned<&'src str>, Spanned<TypeName>)| p.1.0)
}

/// The signature that a declaration states.
pub open spec fn sig_of<'src>(d: Declaration<'src>) -> SigV {
    match d {
        Declaration::FnDecl { params, ret_ty, .. } => (param_types(params@), ret_ty.0),
    }
}

/// The name that a declaration declares.
pub open spec fn name_of<'src>(d: Declaration<'src>) -> Seq<char> {
    match d {
        Declaration::FnDecl { name, .. } => name.0@,
    }
}

/// The function environment after the declarations from the `k`-th on are
/// registered, in order.
pub open spec fn register_decls<'src>(decls: Seq<Declaration<'src>>, k: int, g: GEnvV) -> GEnvV
    decreases decls.len() - k,
{
    if k < 0 || k >= decls.len() {
        g
    } else {
        register_decls(decls, k + 1, g.push((name_of(decls[k]), sig_of(decls[k]))))
    }
}

/// The variables of a function after its parameters from the `k`-th on are
/// bound, in order.
pub open spec fn params_env<'src>(params: Seq<(Spanned<&'src str>, Spanned<TypeName>)>, k: int, l: LEnvV) -> LEnvV
    decreases params.len() - k,
{
    if k < 0 || k >= params.len() {
        l
    } else {
        params_env(params, k + 1, with_var(l, params[k].0.0@, params[k].1.0, free_reg(l)))
    }
}

/// The translation of one function declaration: its body's code followed by
/// a return of register 0, whose value must fit the declared return type.
#[verifier::opaque]
pub open spec fn fn_code<'src>(g: GEnvV, d: Declaration<'src>) -> Outcome<FunctionV> {
    match d {
        Declaration::FnDecl { name, params, ret_ty, body } => {
            let l = params_env(params@, 0, seq![]);
            match block_code(g, l, seq![], 0, body, Some(ret_ty.0)) {
                Outcome::Done((code, ty, c)) => {
                    let code2 = code.push(Instruction(OpCode::Ret, 0, 0, 0));
                    match type_cast(ret_ty.0, ty) {
                        Err(k) => Outcome::Fail((k, ret_ty.1)),
                        Ok(_) => match lookup_func(g, name.0@) {
                            Some((_, fid)) => if code_fits(code2) {
                                Outcome::Done(function_spec(name.0@, fid, sig_of(d), code2, c))
                            } else {
                                Outcome::Abort
                            },
                            None => Outcome::Abort,
                        },
                    }
                },
                o => pass(o),
            }
        },
    }
}

/// The translations of the declarations from the `k`-th on, appended to
/// `acc`; the first failure ends it.
pub open spec fn fns_code<'src>(g: GEnvV, decls: Seq<Declaration<'src>>, k: int, acc: Seq<FunctionV>) -> Outcome<Seq<FunctionV>>
    decreases decls.len() - k,
{
    if k < 0 || k >= decls.len() {
        Outcome::Done(acc)
    } else {
        match fn_code(g, decls[k]) {
            Outcome::Done(f) => fns_code(g, decls, k + 1, acc.push(f)),
            o => pass(o),
        }
    }
}

/// The translation of a program: the host functions followed by the
/// program's functions, in the order of their declarations.
pub open spec fn program_code<'src>(decls: Seq<Declaration<'src>>) -> Outcome<Seq<FunctionV>> {
    let g = register_decls(decls, 0, host_defs());
    match fns_code(g, decls, 0, seq![]) {
        Outcome::Done(fs) => Outcome::Done(host_functions_view() + fs),
        o => pass(o),
    }
}

/// The executable result agrees with the outcome `o`, with `c` the constants
/// after the call.
pub open spec fn result_matches(
    r: Result<(Vec<Instruction>, TypeName), TranslateError>,
    c: Seq<u64>,
    o: Outcome<ExprOut>,
) -> bool {
    match o {
        Outcome::Done((code, ty, c2)) => r matches Ok(x) && x.0@ == code && x.1 == ty && c == c2,
        Outcome::Fail(e) => r matches Err(x) && x@ == e,
        Outcome::Abort => true,
    }
}

/// The executable result agrees with the outcome `o`, overflow included,
/// with `c` the constants after the call.
pub open spec fn checked_matches(
    r: Result<(Vec<Instruction>, TypeName), Stop>,
    c: Seq<u64>,
    o: Outcome<ExprOut>,
) -> bool {
    match o {
        Outcome::Done((code, ty, c2)) => r matches Ok(x) && x.0@ == code && x.1 == ty && c == c2,
        Outcome::Fail(e) => r matches Err(Stop::Error(x)) && x@ == e,
        Outcome::Abort => r matches Err(Stop::Overflow),
    }
}

} // verus!
