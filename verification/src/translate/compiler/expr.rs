//! Translation of expressions.
use vstd::prelude::*;
use crate::instruction::{BinOpExt, Instruction, OpCode};
use crate::syntax::ast::{BinOp, Expression, IfExpr, Spanned, TypeName, UniOp};
use crate::syntax::lexer::{PrimitiveType, Span};
use crate::translate::compiler::block::checked_block;
use crate::translate::compiler::logic::checked_logic;
use crate::translate::env::{GlobalEnv, LocalEnv};
use crate::translate::error::{ErrorKind, Stop, SyntaxError, TranslateError};
use crate::translate::lir::{ConstId, Reg};
use crate::translate::model::{
    args_code, assemble, branch_code, checked_matches, branches_code, const_index, expected, expr_code, is_logical, jump_hi,
    jump_lo, lay_branches, merge_branch, pass, patch_exits, result_matches, with_const, BranchOut,
    ExprOut, Outcome,
};
use crate::translate::typing::{fallback_type, TypeNameExt, DEFAULT_FALLBACK_TYPE};

verus! {

/// The second component of the translator's termination measure.
pub open spec fn exec_rank<'src>(e: Expression<'src>) -> int {
    match e {
        Expression::BinOp { op, .. } => if is_logical(op) {
            3
        } else {
            1
        },
        _ => 1,
    }
}

/// A translated branch of an `if`.
pub type Branch = (Vec<Instruction>, TypeName, Span, Vec<Instruction>, TypeName, Span);

pub open spec fn branch_view(b: Branch) -> BranchOut {
    (b.0@, b.1, b.2, b.3@, b.4, b.5)
}

pub open spec fn branches_view(v: Seq<Branch>) -> Seq<BranchOut> {
    v.map_values(|b: Branch| branch_view(b))
}

pub open spec fn exits_view(v: Seq<usize>) -> Seq<int> {
    v.map_values(|x: usize| x as int)
}

pub open spec fn else_view(e: Option<(Vec<Instruction>, TypeName, Span)>) -> Option<(Seq<Instruction>, TypeName, Span)> {
    match e {
        Some(x) => Some((x.0@, x.1, x.2)),
        None => None,
    }
}

/// Whether `op` is translated as a logical operator or comparison.
pub fn is_logical_op(op: BinOp) -> (r: bool)
    ensures
        r == is_logical(op),
{
    match op {
        BinOp::LogicalOr | BinOp::LogicalAnd | BinOp::Equal | BinOp::NotEqual | BinOp::LT
        | BinOp::GT | BinOp::LE | BinOp::GE => true,
        _ => false,
    }
}

/// The index of the constant `n`, which is appended unless an equal one is
/// there.
pub fn add_const(constants: &mut Vec<u64>, n: u64) -> (r: ConstId)
    ensures
        (final(constants)@, r.0) == with_const(old(constants)@, n),
{
    let mut k: usize = 0;
    while k < constants.len()
        invariant
            k <= constants@.len(),
            constants@ == old(constants)@,
            const_index(constants@, n, 0) == const_index(constants@, n, k as int),
        decreases constants@.len() - k,
    {
        if constants[k] == n {
            return ConstId(k as u16);
        }
        k += 1;
    }
    constants.push(n);
    ConstId((constants.len() - 1) as u16)
}

/// The two halves of a jump offset.
pub fn split_offset(n: usize) -> (r: (u16, u16))
    ensures
        r == (jump_hi(n), jump_lo(n)),
{
    let offset = n as i32;
    ((offset >> 16i32) as u16, (offset & 0xffffi32) as u16)
}

/// Appends a copy of `src` to `dst`.
pub fn extend_code(dst: &mut Vec<Instruction>, src: &Vec<Instruction>)
    ensures
        final(dst)@ == old(dst)@ + src@,
{
    let ghost start = dst@;
    for k in 0..src.len()
        invariant
            dst@ == start + src@.take(k as int),
    {
        dst.push(src[k]);
        proof {
            assert(src@.take(k + 1) == src@.take(k as int).push(src@[k as int]));
        }
    }
    proof {
        assert(src@.take(src@.len() as int) == src@);
    }
}

/// Code that leaves the value of `spanned_expr` in `target_reg`, and its
/// type.
pub fn translate_expr<'src>(
    global_env: &mut GlobalEnv,
    local_env: &LocalEnv,
    constants: &mut Vec<u64>,
    target_reg: Reg,
    spanned_expr: &Spanned<Expression<'src>>,
    expected_ty: Option<&TypeName>,
) -> (r: Result<(Vec<Instruction>, TypeName), TranslateError>)
    requires
        !(expr_code(old(global_env)@, local_env@, old(constants)@, target_reg.0, *spanned_expr, expected(expected_ty)) is Abort),
    ensures
        final(global_env)@ == old(global_env)@,
        result_matches(
            r,
            final(constants)@,
            expr_code(old(global_env)@, local_env@, old(constants)@, target_reg.0, *spanned_expr, expected(expected_ty)),
        ),
{
    match checked_expr(global_env, local_env, constants, target_reg, spanned_expr, expected_ty) {
        Ok(x) => Ok(x),
        Err(Stop::Error(e)) => Err(e),
        Err(Stop::Overflow) => {
            // excluded by the precondition
            proof {
                assert(false);
            }
            Err(TranslateError(ErrorKind::NothingReturned, spanned_expr.1))
        },
    }
}

/// `translate_expr`, reporting overflow where the program exceeds the
/// register machine's limits.
pub fn checked_expr<'src>(
    global_env: &mut GlobalEnv,
    local_env: &LocalEnv,
    constants: &mut Vec<u64>,
    target_reg: Reg,
    spanned_expr: &Spanned<Expression<'src>>,
    expected_ty: Option<&TypeName>,
) -> (r: Result<(Vec<Instruction>, TypeName), Stop>)
    ensures
        final(global_env)@ == old(global_env)@,
        checked_matches(
            r,
            final(constants)@,
            expr_code(old(global_env)@, local_env@, old(constants)@, target_reg.0, *spanned_expr, expected(expected_ty)),
        ),
    decreases spanned_expr.0, exec_rank(spanned_expr.0),
{
    proof {
        reveal(expr_code);
        reveal(branch_code);
        reveal(branches_code);
        reveal(args_code);
    }
    match &spanned_expr.0 {
        Expression::Assign { .. } => translate_assign(global_env, local_env, constants, target_reg, spanned_expr),
        Expression::BinOp { op, .. } => if is_logical_op(*op) {
            checked_logic(global_env, local_env, constants, target_reg, spanned_expr)
        } else {
            translate_binop(global_env, local_env, constants, target_reg, spanned_expr, expected_ty)
        },
        Expression::FnCall { .. } => translate_call(global_env, local_env, constants, target_reg, spanned_expr),
        Expression::Number(n) => {
            let id = add_const(constants, *n);
            let mut result = Vec::new();
            result.push(Instruction(OpCode::Const, target_reg.0, id.0, 0));
            let ty = match expected_ty {
                Some(ty) => *ty,
                None => TypeName::Primitive(PrimitiveType::Integer),
            };
            Ok((result, ty))
        },
        Expression::UniOp { .. } => translate_uniop(global_env, local_env, constants, target_reg, spanned_expr, expected_ty),
        Expression::Value(name) => {
            let (ty, reg) = match local_env.get_variable(name) {
                Some((ty, reg)) => (*ty, reg),
                None => {
                    return Err(Stop::Error(TranslateError(ErrorKind::UndefinedVariable((*name).to_owned()), spanned_expr.1)));
                },
            };
            let mut result = Vec::new();
            result.push(Instruction(OpCode::Mov, target_reg.0, reg.0, 0));
            Ok((result, ty))
        },
        Expression::Bool(b) => {
            let id = add_const(constants, if *b { 1 } else { 0 });
            let ty = match expected_ty {
                Some(ty) => if *ty == TypeName::Primitive(PrimitiveType::Bool) {
                    *ty
                } else {
                    return Err(
                        Stop::Error(
                            TranslateError(
                                ErrorKind::MismatchedTypes(TypeName::Primitive(PrimitiveType::Bool), *ty),
                                spanned_expr.1,
                            ),
                        ),
                    );
                },
                None => TypeName::Primitive(PrimitiveType::Bool),
            };
            let mut result = Vec::new();
            result.push(Instruction(OpCode::Const, target_reg.0, id.0, 0));
            Ok((result, ty))
        },
        Expression::Unit => Ok((Vec::new(), TypeName::Unit)),
        Expression::If(..) => translate_if(global_env, local_env, constants, target_reg, spanned_expr, expected_ty),
        Expression::Block(b) => checked_block(
            global_env,
            Some(local_env.duplicate()),
            constants,
            target_reg,
            b,
            expected_ty,
        ),
    }
}

fn translate_assign<'src>(
    global_env: &mut GlobalEnv,
    local_env: &LocalEnv,
    constants: &mut Vec<u64>,
    target_reg: Reg,
    spanned_expr: &Spanned<Expression<'src>>,
) -> (r: Result<(Vec<Instruction>, TypeName), Stop>)
    requires
        spanned_expr.0 is Assign,
    ensures
        final(global_env)@ == old(global_env)@,
        checked_matches(
            r,
            final(constants)@,
            expr_code(old(global_env)@, local_env@, old(constants)@, target_reg.0, *spanned_expr, None),
        ),
    decreases spanned_expr.0, 0int,
{
    proof {
        reveal(expr_code);
        reveal(branch_code);
        reveal(branches_code);
        reveal(args_code);
    }
    let Expression::Assign { lhs, expr } = &spanned_expr.0 else {
        return Ok((Vec::new(), TypeName::Unit));
    };
    let assigned_to = match &lhs.0 {
        Expression::Value(name) => *name,
        _ => {
            return Err(Stop::Error(TranslateError(ErrorKind::SyntaxError(SyntaxError::InvalidAssignment), lhs.1)));
        },
    };
    let (lhs_type, reg) = match local_env.get_variable(assigned_to) {
        Some((ty, reg)) => (*ty, reg),
        None => {
            return Err(Stop::Error(TranslateError(ErrorKind::UndefinedVariable(assigned_to.to_owned()), lhs.1)));
        },
    };
    let (mut result, rhs_type) = checked_expr(global_env, local_env, constants, target_reg, expr, Some(&lhs_type))?;
    let expr_type = match lhs_type.try_cast(&rhs_type) {
        Ok(ty) => ty,
        Err(e) => {
            return Err(Stop::Error(TranslateError(e, spanned_expr.1)));
        },
    };
    result.push(Instruction(OpCode::Mov, reg.0, target_reg.0, 0));
    Ok((result, expr_type))
}

fn translate_binop<'src>(
    global_env: &mut GlobalEnv,
    local_env: &LocalEnv,
    constants: &mut Vec<u64>,
    target_reg: Reg,
    spanned_expr: &Spanned<Expression<'src>>,
    expected_ty: Option<&TypeName>,
) -> (r: Result<(Vec<Instruction>, TypeName), Stop>)
    requires
        spanned_expr.0 matches Expression::BinOp { op, .. } && !is_logical(op),
    ensures
        final(global_env)@ == old(global_env)@,
        checked_matches(
            r,
            final(constants)@,
            expr_code(old(global_env)@, local_env@, old(constants)@, target_reg.0, *spanned_expr, expected(expected_ty)),
        ),
    decreases spanned_expr.0, 0int,
{
    proof {
        reveal(expr_code);
        reveal(branch_code);
        reveal(branches_code);
        reveal(args_code);
    }
    let Expression::BinOp { lhs, rhs, op } = &spanned_expr.0 else {
        return Ok((Vec::new(), TypeName::Unit));
    };
    let span = spanned_expr.1;
    let (mut result, lhs_type) = checked_expr(global_env, local_env, constants, target_reg, lhs, expected_ty)?;
    if target_reg.0 >= 0xffff {
        return Err(Stop::Overflow);
    }
    let rhs_reg = Reg(target_reg.0 + 1);
    let (mut rhs_result, rhs_type) = checked_expr(global_env, local_env, constants, rhs_reg, rhs, expected_ty)?;
    result.append(&mut rhs_result);
    let expr_type = match lhs_type.try_cast(&rhs_type) {
        Ok(ty) => ty,
        Err(e) => {
            return Err(Stop::Error(TranslateError(e, span)));
        },
    };
    let ty = match expr_type {
        TypeName::Primitive(p) => fallback_type(p),
        _ => {
            return Err(Stop::Error(TranslateError(ErrorKind::OperationUndefined(expr_type), span)));
        },
    };
    let opc = match op.to_typed_op(ty) {
        Some(opc) => opc,
        None => {
            return Err(Stop::Error(TranslateError(ErrorKind::OperationUndefined(expr_type), span)));
        },
    };
    result.push(Instruction(opc, target_reg.0, target_reg.0, target_reg.0 + 1));
    Ok((result, expr_type))
}

fn translate_call<'src>(
    global_env: &mut GlobalEnv,
    local_env: &LocalEnv,
    constants: &mut Vec<u64>,
    target_reg: Reg,
    spanned_expr: &Spanned<Expression<'src>>,
) -> (r: Result<(Vec<Instruction>, TypeName), Stop>)
    requires
        spanned_expr.0 is FnCall,
    ensures
        final(global_env)@ == old(global_env)@,
        checked_matches(
            r,
            final(constants)@,
            expr_code(old(global_env)@, local_env@, old(constants)@, target_reg.0, *spanned_expr, None),
        ),
    decreases spanned_expr.0, 0int,
{
    proof {
        reveal(expr_code);
        reveal(branch_code);
        reveal(branches_code);
        reveal(args_code);
    }
    let Expression::FnCall { name, args } = &spanned_expr.0 else {
        return Ok((Vec::new(), TypeName::Unit));
    };
    let span = spanned_expr.1;
    if target_reg.0 >= 0xffff {
        return Err(Stop::Overflow);
    }
    let arg_base = target_reg.0 + 1;
    let (signature, func_id) = match global_env.get_func(name) {
        Some((signature, func_id)) => (signature.copy(), func_id),
        None => {
            return Err(Stop::Error(TranslateError(ErrorKind::UndefinedFunction((*name).to_owned()), span)));
        },
    };
    let argc = signature.params().len() as u16;
    let ret_ty = *signature.ret_ty();
    if signature.params().len() != args.len() {
        return Err(Stop::Error(TranslateError(ErrorKind::InvalidArgumentCount(signature.params().len(), args.len()), span)));
    }
    let ghost g = global_env@;
    let ghost c0 = constants@;
    let mut result: Vec<Instruction> = Vec::new();
    let mut k: usize = 0;
    while k < args.len()
        invariant
            global_env@ == g,
            k <= args@.len(),
            args@.len() == signature@.0.len(),
            arg_base == target_reg.0 + 1,
            old(global_env)@ == g,
            old(constants)@ == c0,
            spanned_expr.0 == (Expression::FnCall { name: *name, args: *args }),
            !(args_code(g, local_env@, c0, arg_base as int, signature@.0, *args, 0, seq![], span) is Done)
                ==> expr_code(g, local_env@, c0, target_reg.0, *spanned_expr, None) == pass::<(Seq<Instruction>, Seq<u64>), ExprOut>(
                args_code(g, local_env@, c0, arg_base as int, signature@.0, *args, 0, seq![], span),
            ),
            args_code(g, local_env@, c0, arg_base as int, signature@.0, *args, 0, seq![], span)
                == args_code(g, local_env@, constants@, arg_base as int, signature@.0, *args, k as int, result@, span),
        decreases args@.len() - k,
    {
        proof {
            reveal(expr_code);
            reveal(branch_code);
            reveal(branches_code);
            reveal(args_code);
        }
        proof {
            assert(decreases_to!(spanned_expr.0 => *args));
            assert(decreases_to!(*args => args@));
            assert(decreases_to!(args@ => args@[k as int]));
            assert(decreases_to!(args@[k as int] => args@[k as int].0));
        }
        if k > 0xffff - arg_base as usize {
            return Err(Stop::Overflow);
        }
        let dest = Reg(arg_base + k as u16);
        let (mut insn_seq, ty) = checked_expr(global_env, local_env, constants, dest, &args[k], None)?;
        let param_type = signature.params()[k];
        match param_type.try_cast(&ty) {
            Ok(_) => {},
            Err(_) => {
                return Err(Stop::Error(TranslateError(ErrorKind::InvalidArgumentType(param_type, ty), span)));
            },
        }
        result.append(&mut insn_seq);
        k += 1;
    }
    result.push(Instruction(OpCode::FnCall, func_id.0, target_reg.0, argc));
    Ok((result, ret_ty))
}

fn translate_uniop<'src>(
    global_env: &mut GlobalEnv,
    local_env: &LocalEnv,
    constants: &mut Vec<u64>,
    target_reg: Reg,
    spanned_expr: &Spanned<Expression<'src>>,
    expected_ty: Option<&TypeName>,
) -> (r: Result<(Vec<Instruction>, TypeName), Stop>)
    requires
        spanned_expr.0 is UniOp,
    ensures
        final(global_env)@ == old(global_env)@,
        checked_matches(
            r,
            final(constants)@,
            expr_code(old(global_env)@, local_env@, old(constants)@, target_reg.0, *spanned_expr, expected(expected_ty)),
        ),
    decreases spanned_expr.0, 0int,
{
    proof {
        reveal(expr_code);
        reveal(branch_code);
        reveal(branches_code);
        reveal(args_code);
    }
    let Expression::UniOp { operand, op } = &spanned_expr.0 else {
        return Ok((Vec::new(), TypeName::Unit));
    };
    let span = spanned_expr.1;
    if let Expression::Number(n) = operand.0 {
        if *op == UniOp::Neg {
            let ty = match expected_ty {
                Some(ty) => *ty,
                None => TypeName::Primitive(DEFAULT_FALLBACK_TYPE),
            };
            match ty {
                TypeName::Primitive(p) => {
                    if p == PrimitiveType::I8 || p == PrimitiveType::I16 || p == PrimitiveType::I32
                        || p == PrimitiveType::I64 || p == PrimitiveType::Integer {
                        let v = n as i64;
                        if v == i64::MIN {
                            return Err(Stop::Overflow);
                        }
                        let id = add_const(constants, (-v) as u64);
                        let mut result = Vec::new();
                        result.push(Instruction(OpCode::Const, target_reg.0, id.0, 0));
                        return Ok((result, ty));
                    } else {
                        return Err(Stop::Error(TranslateError(ErrorKind::CannotNegate(p), span)));
                    }
                },
                _ => {
                    return Err(Stop::Error(TranslateError(ErrorKind::OperationUndefined(ty), span)));
                },
            }
        }
    }
    let (mut result, operand_ty) = checked_expr(global_env, local_env, constants, target_reg, operand, expected_ty)?;
    let ty = match expected_ty {
        Some(expected) => match operand_ty.try_cast(expected) {
            Ok(ty) => ty,
            Err(e) => {
                return Err(Stop::Error(TranslateError(e, span)));
            },
        },
        None => operand_ty,
    };
    let p = match ty {
        TypeName::Primitive(p) => fallback_type(p),
        _ => {
            return Err(Stop::Error(TranslateError(ErrorKind::OperationUndefined(ty), span)));
        },
    };
    let opc = match (*op, p) {
        (UniOp::Neg, PrimitiveType::I8) => OpCode::NegI8,
        (UniOp::Neg, PrimitiveType::I16) => OpCode::NegI16,
        (UniOp::Neg, PrimitiveType::I32) => OpCode::NegI32,
        (UniOp::Neg, PrimitiveType::I64) => OpCode::NegI64,
        (UniOp::Neg, PrimitiveType::U8) | (UniOp::Neg, PrimitiveType::U16) | (UniOp::Neg, PrimitiveType::U32)
        | (UniOp::Neg, PrimitiveType::U64) => {
            return Err(Stop::Error(TranslateError(ErrorKind::CannotNegate(p), span)));
        },
        _ => {
            return Err(Stop::Error(TranslateError(ErrorKind::OperationUndefined(TypeName::Primitive(p)), span)));
        },
    };
    result.push(Instruction(opc, target_reg.0, target_reg.0, 0));
    Ok((result, TypeName::Primitive(p)))
}

fn translate_branch<'src>(
    global_env: &mut GlobalEnv,
    local_env: &LocalEnv,
    constants: &mut Vec<u64>,
    target_reg: Reg,
    branch: &Spanned<IfExpr<'src>>,
    expected_ty: Option<&TypeName>,
) -> (r: Result<Branch, Stop>)
    ensures
        final(global_env)@ == old(global_env)@,
        match branch_code(old(global_env)@, local_env@, old(constants)@, target_reg.0, *branch, expected(expected_ty)) {
            Outcome::Done((b, c)) => r matches Ok(x) && branch_view(x) == b && final(constants)@ == c,
            Outcome::Fail(e) => r matches Err(Stop::Error(x)) && x@ == e,
            Outcome::Abort => r matches Err(Stop::Overflow),
        },
    decreases branch.0, 4int,
{
    proof {
        reveal(expr_code);
        reveal(branch_code);
        reveal(branches_code);
        reveal(args_code);
    }
    let (cond, cond_ty) = checked_logic(global_env, local_env, constants, target_reg, branch.0.cond())?;
    let (body, body_ty) = checked_block(
        global_env,
        Some(local_env.duplicate()),
        constants,
        target_reg,
        branch.0.body(),
        expected_ty,
    )?;
    Ok((cond, cond_ty, branch.0.cond().span(), body, body_ty, branch.span()))
}

fn translate_if<'src>(
    global_env: &mut GlobalEnv,
    local_env: &LocalEnv,
    constants: &mut Vec<u64>,
    target_reg: Reg,
    spanned_expr: &Spanned<Expression<'src>>,
    expected_ty: Option<&TypeName>,
) -> (r: Result<(Vec<Instruction>, TypeName), Stop>)
    requires
        spanned_expr.0 is If,
    ensures
        final(global_env)@ == old(global_env)@,
        checked_matches(
            r,
            final(constants)@,
            expr_code(old(global_env)@, local_env@, old(constants)@, target_reg.0, *spanned_expr, expected(expected_ty)),
        ),
    decreases spanned_expr.0, 0int,
{
    proof {
        reveal(expr_code);
        reveal(branch_code);
        reveal(branches_code);
        reveal(args_code);
    }
    let Expression::If(first, else_ifs, else_clause) = &spanned_expr.0 else {
        return Ok((Vec::new(), TypeName::Unit));
    };
    let ghost g = global_env@;
    let ghost c_orig = constants@;
    let b0 = translate_branch(global_env, local_env, constants, target_reg, first, expected_ty)?;
    let ghost c1 = constants@;
    let mut branches: Vec<Branch> = Vec::new();
    branches.push(b0);
    proof {
        assert(branches_view(branches@) =~= seq![branch_view(b0)]);
    }
    let mut k: usize = 0;
    while k < else_ifs.len()
        invariant
            global_env@ == g,
            k <= else_ifs@.len(),
            old(global_env)@ == g,
            old(constants)@ == c_orig,
            spanned_expr.0 == Expression::If(*first, *else_ifs, *else_clause),
            !(branches_code(g, local_env@, c1, target_reg.0, *else_ifs, 0, seq![branch_view(b0)], expected(expected_ty)) is Done)
                ==> expr_code(g, local_env@, c_orig, target_reg.0, *spanned_expr, expected(expected_ty)) == pass::<(Seq<BranchOut>, Seq<u64>), ExprOut>(
                branches_code(g, local_env@, c1, target_reg.0, *else_ifs, 0, seq![branch_view(b0)], expected(expected_ty)),
            ),
            branches_code(g, local_env@, c1, target_reg.0, *else_ifs, 0, seq![branch_view(b0)], expected(expected_ty))
                == branches_code(g, local_env@, constants@, target_reg.0, *else_ifs, k as int, branches_view(branches@), expected(expected_ty)),
        decreases else_ifs@.len() - k,
    {
        proof {
            reveal(expr_code);
            reveal(branch_code);
            reveal(branches_code);
            reveal(args_code);
        }
        proof {
            assert(decreases_to!(spanned_expr.0 => *else_ifs));
            assert(decreases_to!(*else_ifs => else_ifs@));
            assert(decreases_to!(else_ifs@ => else_ifs@[k as int]));
            assert(decreases_to!(else_ifs@[k as int] => else_ifs@[k as int].0));
        }
        let ghost before = branches@;
        let b = translate_branch(global_env, local_env, constants, target_reg, &else_ifs[k], expected_ty)?;
        branches.push(b);
        proof {
            assert(branches_view(branches@) =~= branches_view(before).push(branch_view(b)));
        }
        k += 1;
    }
    let else_branch = match else_clause {
        Some(body) => {
            let (code, ty) = checked_block(
                global_env,
                Some(local_env.duplicate()),
                constants,
                target_reg,
                body,
                expected_ty,
            )?;
            Some((code, ty, body.1))
        },
        None => None,
    };
    assemble_if(target_reg, &branches, else_branch, expected_ty, spanned_expr.1)
}

/// Lays out the translated branches of an `if`, checks their types, and
/// points each branch's exit jump at the end.
fn assemble_if(
    target_reg: Reg,
    branches: &Vec<Branch>,
    else_branch: Option<(Vec<Instruction>, TypeName, Span)>,
    expected_ty: Option<&TypeName>,
    span: Span,
) -> (r: Result<(Vec<Instruction>, TypeName), Stop>)
    ensures
        match assemble(target_reg.0, branches_view(branches@), else_view(else_branch), expected(expected_ty), span) {
            Outcome::Done((code, ty)) => r matches Ok(x) && x.0@ == code && x.1 == ty,
            Outcome::Fail(e) => r matches Err(Stop::Error(x)) && x@ == e,
            Outcome::Abort => r matches Err(Stop::Overflow),
        },
{
    let ghost bs = branches_view(branches@);
    let mut result: Vec<Instruction> = Vec::new();
    let mut expr_ty: Option<TypeName> = match expected_ty {
        Some(ty) => Some(*ty),
        None => None,
    };
    let mut exits: Vec<usize> = Vec::new();
    let mut k: usize = 0;
    proof {
        assert(exits_view(exits@) =~= Seq::<int>::empty());
    }
    while k < branches.len()
        invariant
            k <= branches@.len(),
            bs == branches_view(branches@),
            lay_branches(target_reg.0, bs, 0, seq![], seq![], expected(expected_ty))
                == lay_branches(target_reg.0, bs, k as int, result@, exits_view(exits@), expr_ty),
            forall|i: int| 0 <= i < exits@.len() ==> exits@[i] < result@.len(),
        decreases branches@.len() - k,
    {
        let (cond, cond_ty, cond_span, body, body_ty, branch_span) = &branches[k];
        proof {
            assert(bs[k as int] == branch_view(branches@[k as int]));
        }
        if *cond_ty != TypeName::Primitive(PrimitiveType::Bool) {
            return Err(
                Stop::Error(
                    TranslateError(
                        ErrorKind::MismatchedTypes(TypeName::Primitive(PrimitiveType::Bool), *cond_ty),
                        *cond_span,
                    ),
                ),
            );
        }
        if body.len() == usize::MAX {
            return Err(Stop::Overflow);
        }
        let (b, c) = split_offset(body.len() + 1);
        extend_code(&mut result, cond);
        result.push(Instruction(OpCode::JumpZ, target_reg.0, b, c));
        extend_code(&mut result, body);
        let ghost exit = result@.len();
        result.push(Instruction(OpCode::Nop, 0, 0, 0));
        let ghost before = exits@;
        exits.push(result.len() - 1);
        proof {
            assert(exits_view(exits@) =~= exits_view(before).push(exit as int));
        }
        expr_ty = match (expr_ty, *body_ty) {
            (None, _) => Some(*body_ty),
            (Some(current), TypeName::Never) => Some(current),
            (Some(TypeName::Never), _) => Some(*body_ty),
            (Some(current), _) => if current == *body_ty {
                Some(current)
            } else {
                return Err(Stop::Error(TranslateError(ErrorKind::MismatchedTypes(current, *body_ty), *branch_span)));
            },
        };
        k += 1;
    }
    match else_branch {
        Some((body, body_ty, else_span)) => {
            extend_code(&mut result, &body);
            expr_ty = match expr_ty {
                Some(TypeName::Never) => Some(body_ty),
                Some(current) => if current == body_ty {
                    Some(current)
                } else {
                    return Err(Stop::Error(TranslateError(ErrorKind::MismatchedTypes(current, body_ty), else_span)));
                },
                None => {
                    return Err(Stop::Overflow);
                },
            };
        },
        None => {
            match expr_ty {
                Some(TypeName::Unit) | Some(TypeName::Never) => {},
                Some(current) => {
                    return Err(Stop::Error(TranslateError(ErrorKind::MismatchedTypes(TypeName::Unit, current), span)));
                },
                None => {
                    return Err(Stop::Overflow);
                },
            }
        },
    }
    let ghost laid = result@;
    let mut j: usize = 0;
    while j < exits.len()
        invariant
            j <= exits@.len(),
            result@.len() == laid.len(),
            forall|i: int| 0 <= i < exits@.len() ==> exits@[i] < laid.len(),
            patch_exits(laid, exits_view(exits@), 0) == patch_exits(result@, exits_view(exits@), j as int),
        decreases exits@.len() - j,
    {
        let index = exits[j];
        let (b, c) = split_offset(result.len() - index - 1);
        result.set(index, Instruction(OpCode::Jump, 0, b, c));
        j += 1;
    }
    let ty = match expr_ty {
        Some(ty) => ty,
        None => {
            return Err(Stop::Overflow);
        },
    };
    Ok((result, ty))
}

} // verus!
