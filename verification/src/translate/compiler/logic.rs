//! Translation of conditions: logical operators and comparisons.
use vstd::prelude::*;
use crate::instruction::{BinOpExt, Instruction, OpCode};
use crate::syntax::ast::{BinOp, Expression, Spanned, TypeName};
use crate::syntax::lexer::PrimitiveType;
use crate::translate::compiler::expr::{checked_expr, is_logical_op};
use crate::translate::env::{GlobalEnv, LocalEnv};
use crate::translate::error::{ErrorKind, Stop, TranslateError};
use crate::translate::lir::Reg;
use crate::translate::model::{checked_matches, compare_insn, logic_code, result_matches};
use crate::translate::typing::TypeNameExt;

verus! {

/// Code that leaves in `target_reg` the truth value of a logical operation
/// or comparison, or the value of any other expression; and its type.
pub fn translate_logic_expr<'src>(
    global_env: &mut GlobalEnv,
    local_env: &LocalEnv,
    constants: &mut Vec<u64>,
    target_reg: Reg,
    spanned_expr: &Spanned<Expression<'src>>,
) -> (r: Result<(Vec<Instruction>, TypeName), TranslateError>)
    requires
        !(logic_code(old(global_env)@, local_env@, old(constants)@, target_reg.0, *spanned_expr) is Abort),
    ensures
        final(global_env)@ == old(global_env)@,
        result_matches(
            r,
            final(constants)@,
            logic_code(old(global_env)@, local_env@, old(constants)@, target_reg.0, *spanned_expr),
        ),
{
    match checked_logic(global_env, local_env, constants, target_reg, spanned_expr) {
        Ok(x) => Ok(x),
        Err(Stop::Error(e)) => Err(e),
        Err(Stop::Overflow) => {
            // excluded by the precondition
            proof {
                assert(false);
            }
            Err(TranslateError(ErrorKind::NothingReturned, spanned_expr.1))
        },
    }
}

/// `translate_logic_expr`, reporting overflow where the program exceeds the
/// register machine's limits.
pub fn checked_logic<'src>(
    global_env: &mut GlobalEnv,
    local_env: &LocalEnv,
    constants: &mut Vec<u64>,
    target_reg: Reg,
    spanned_expr: &Spanned<Expression<'src>>,
) -> (r: Result<(Vec<Instruction>, TypeName), Stop>)
    ensures
        final(global_env)@ == old(global_env)@,
        checked_matches(
            r,
            final(constants)@,
            logic_code(old(global_env)@, local_env@, old(constants)@, target_reg.0, *spanned_expr),
        ),
    decreases spanned_expr.0, 2int,
{
    proof {
        reveal(logic_code);
    }
    let span = spanned_expr.1;
    match &spanned_expr.0 {
        Expression::BinOp { lhs, rhs, op } => {
            if !is_logical_op(*op) {
                return checked_expr(global_env, local_env, constants, target_reg, spanned_expr, None);
            }
            if target_reg.0 >= 0xffff {
                return Err(Stop::Overflow);
            }
            let lhs_target_reg = target_reg;
            let rhs_target_reg = Reg(target_reg.0 + 1);
            let (mut result, lhs_ty) = checked_logic(global_env, local_env, constants, lhs_target_reg, lhs)?;
            let (mut rhs_result, rhs_ty) = checked_logic(global_env, local_env, constants, rhs_target_reg, rhs)?;
            result.append(&mut rhs_result);
            let target_ty = match lhs_ty.try_cast(&rhs_ty) {
                Ok(ty) => if ty == TypeName::Primitive(PrimitiveType::Integer) {
                    TypeName::Primitive(PrimitiveType::I32)
                } else {
                    ty
                },
                Err(e) => {
                    return Err(Stop::Error(TranslateError(e, span)));
                },
            };
            let insn = match compare(*op, target_ty, target_reg.0, rhs_target_reg.0) {
                Ok(insn) => insn,
                Err(kind) => {
                    return Err(Stop::Error(TranslateError(kind, span)));
                },
            };
            result.push(insn);
            Ok((result, TypeName::Primitive(PrimitiveType::Bool)))
        },
        _ => checked_expr(global_env, local_env, constants, target_reg, spanned_expr, None),
    }
}

/// The instruction that combines registers `t` and `u` by a logical
/// operator or comparison at type `ty`.
fn compare(op: BinOp, ty: TypeName, t: u16, u: u16) -> (r: Result<Instruction, ErrorKind>)
    ensures
        match compare_insn(op, ty, t, u) {
            Ok(i) => r == Ok::<Instruction, ErrorKind>(i),
            Err(k) => r matches Err(e) && e@ == k,
        },
{
    let bool_ty = TypeName::Primitive(PrimitiveType::Bool);
    match op {
        BinOp::LogicalAnd => if ty == bool_ty {
            Ok(Instruction(OpCode::And, t, t, u))
        } else {
            Err(ErrorKind::MismatchedTypes(bool_ty, ty))
        },
        BinOp::LogicalOr => if ty == bool_ty {
            Ok(Instruction(OpCode::Or, t, t, u))
        } else {
            Err(ErrorKind::MismatchedTypes(bool_ty, ty))
        },
        BinOp::LT | BinOp::LE | BinOp::GT | BinOp::GE => match ty {
            TypeName::Primitive(p) => {
                let base = if op == BinOp::LT || op == BinOp::GT {
                    BinOp::LT
                } else {
                    BinOp::LE
                };
                match base.to_typed_op(p) {
                    Some(o) => if op == BinOp::LT || op == BinOp::LE {
                        Ok(Instruction(o, t, t, u))
                    } else {
                        Ok(Instruction(o, t, u, t))
                    },
                    None => Err(ErrorKind::OperationUndefined(ty)),
                }
            },
            _ => Err(ErrorKind::OperationUndefined(ty)),
        },
        BinOp::Equal => Ok(Instruction(OpCode::EQ, t, t, u)),
        BinOp::NotEqual => Ok(Instruction(OpCode::NE, t, t, u)),
        _ => Err(ErrorKind::OperationUndefined(ty)),
    }
}

} // verus!
