//! Translation of blocks.
use vstd::prelude::*;
use crate::instruction::{Instruction, OpCode};
use crate::syntax::ast::{Spanned, Statement, TypeName};
use crate::translate::compiler::expr::checked_expr;
use crate::translate::env::{GlobalEnv, LocalEnv};
use crate::translate::error::{ErrorKind, Stop, TranslateError};
use crate::translate::lir::Reg;
use crate::translate::model::{
    block_code, checked_matches, expected, result_matches, stmt_step, stmts_code, Outcome,
};
use crate::translate::typing::TypeNameExt;

verus! {

/// The variables that a block starts with: those given, or none.
pub open spec fn env_of(e: Option<LocalEnv>) -> Seq<(Seq<char>, TypeName, u16)> {
    match e {
        Some(l) => l@,
        None => seq![],
    }
}

/// Code that runs the statements of `block` and leaves the value of its
/// last expression statement in `target_reg`, and that value's type.
pub fn translate_block<'src>(
    global_env: &mut GlobalEnv,
    local_env: Option<LocalEnv>,
    constants: &mut Vec<u64>,
    target_reg: Reg,
    block: &Spanned<Vec<Spanned<Statement<'src>>>>,
    expected_ty: Option<&TypeName>,
) -> (r: Result<(Vec<Instruction>, TypeName), TranslateError>)
    requires
        !(block_code(old(global_env)@, env_of(local_env), old(constants)@, target_reg.0, *block, expected(expected_ty)) is Abort),
    ensures
        final(global_env)@ == old(global_env)@,
        result_matches(
            r,
            final(constants)@,
            block_code(old(global_env)@, env_of(local_env), old(constants)@, target_reg.0, *block, expected(expected_ty)),
        ),
{
    match checked_block(global_env, local_env, constants, target_reg, block, expected_ty) {
        Ok(x) => Ok(x),
        Err(Stop::Error(e)) => Err(e),
        Err(Stop::Overflow) => {
            // excluded by the precondition
            proof {
                assert(false);
            }
            Err(TranslateError(ErrorKind::NothingReturned, block.1))
        },
    }
}

/// `translate_block`, reporting overflow where the program exceeds the
/// register machine's limits.
pub fn checked_block<'src>(
    global_env: &mut GlobalEnv,
    local_env: Option<LocalEnv>,
    constants: &mut Vec<u64>,
    target_reg: Reg,
    block: &Spanned<Vec<Spanned<Statement<'src>>>>,
    expected_ty: Option<&TypeName>,
) -> (r: Result<(Vec<Instruction>, TypeName), Stop>)
    ensures
        final(global_env)@ == old(global_env)@,
        checked_matches(
            r,
            final(constants)@,
            block_code(old(global_env)@, env_of(local_env), old(constants)@, target_reg.0, *block, expected(expected_ty)),
        ),
    decreases block.0@, block.0@.len() + 1,
{
    proof {
        reveal(block_code);
        reveal(stmts_code);
        reveal(stmt_step);
    }
    let ghost l_in = env_of(local_env);
    let mut result: Vec<Instruction> = Vec::new();
    let mut env = match local_env {
        Some(l) => l,
        None => LocalEnv::new(),
    };
    let mut last_expr_type_reg: Option<(TypeName, Reg)> = None;
    if block.0.len() == 0 {
        return Ok((Vec::new(), TypeName::Unit));
    }
    let ghost g = global_env@;
    let ghost l0 = env@;
    let ghost c0 = constants@;
    let ghost ss = block.0;
    let ghost exp = expected(expected_ty);
    let n = block.0.len();
    let mut k: usize = 0;
    while k < n
        invariant
            global_env@ == g,
            old(global_env)@ == g,
            old(constants)@ == c0,
            l_in == env_of(local_env),
            block_code(g, l_in, c0, target_reg.0, *block, exp) == stmts_code(g, l0, c0, target_reg.0, ss, 0, exp, seq![], None),
            n == ss@.len(),
            ss == block.0,
            exp == expected(expected_ty),
            k <= n,
            stmts_code(g, l0, c0, target_reg.0, ss, 0, exp, seq![], None)
                == stmts_code(g, env@, constants@, target_reg.0, ss, k as int, exp, result@, last_view(last_expr_type_reg)),
        decreases n - k,
    {
        proof {
            reveal(block_code);
            reveal(stmts_code);
            reveal(stmt_step);
        }
        proof {
            assert(decreases_to!(block.0@ => block.0@[k as int]));
        }
        let is_last_statement = k == n - 1;
        translate_statement(
            global_env,
            &mut env,
            constants,
            &block.0[k],
            is_last_statement,
            expected_ty,
            &mut result,
            &mut last_expr_type_reg,
        )?;
        k += 1;
    }
    if let Some((ty, reg)) = last_expr_type_reg {
        result.push(Instruction(OpCode::Mov, target_reg.0, reg.0, 0));
        Ok((result, ty))
    } else {
        Ok((result, TypeName::Unit))
    }
}

/// The type and register of the latest expression statement's value.
pub open spec fn last_view(last: Option<(TypeName, Reg)>) -> Option<(TypeName, u16)> {
    match last {
        Some((ty, reg)) => Some((ty, reg.0)),
        None => None,
    }
}

/// Translates one statement of a block, after the code in `result`; `last`
/// is the type and register of the latest expression statement's value.
fn translate_statement<'src>(
    global_env: &mut GlobalEnv,
    local_env: &mut LocalEnv,
    constants: &mut Vec<u64>,
    statement: &Spanned<Statement<'src>>,
    is_last_statement: bool,
    expected_ty: Option<&TypeName>,
    result: &mut Vec<Instruction>,
    last: &mut Option<(TypeName, Reg)>,
) -> (r: Result<(), Stop>)
    ensures
        final(global_env)@ == old(global_env)@,
        match stmt_step(old(global_env)@, old(local_env)@, old(constants)@, *statement, is_last_statement, expected(expected_ty), old(result)@, last_view(*old(last))) {
            Outcome::Done((l2, c2, acc2, last2)) => r is Ok && final(local_env)@ == l2 && final(constants)@ == c2
                && final(result)@ == acc2 && last_view(*final(last)) == last2,
            Outcome::Fail(e) => r matches Err(Stop::Error(x)) && x@ == e,
            Outcome::Abort => r matches Err(Stop::Overflow),
        },
    decreases statement, 0int,
{
    proof {
        reveal(block_code);
        reveal(stmts_code);
        reveal(stmt_step);
    }
    match &statement.0 {
        Statement::Bind { name, ty, initializer } => {
            let ty = ty.0;
            let reg = local_env.add_variable(name.0, &ty);
            if let Some(spanned_expr) = initializer {
                let (mut insn_seq, expr_type) = checked_expr(
                    global_env,
                    local_env,
                    constants,
                    reg,
                    spanned_expr,
                    Some(&ty),
                )?;
                match ty.try_cast(&expr_type) {
                    Ok(_) => {},
                    Err(e) => {
                        return Err(Stop::Error(TranslateError(e, spanned_expr.1)));
                    },
                }
                result.append(&mut insn_seq);
                *last = None;
            }
        },
        Statement::Expression(spanned_expr) => {
            let target = local_env.available_reg();
            let (mut insn_seq, expr_type) = checked_expr(
                global_env,
                local_env,
                constants,
                target,
                spanned_expr,
                if is_last_statement {
                    expected_ty
                } else {
                    None
                },
            )?;
            result.append(&mut insn_seq);
            *last = Some((expr_type, target));
        },
        Statement::SemicolonnedExpr(spanned_expr) => {
            let target = local_env.available_reg();
            let (mut insn_seq, _expr_type) = checked_expr(
                global_env,
                local_env,
                constants,
                target,
                spanned_expr,
                None,
            )?;
            result.append(&mut insn_seq);
            *last = Some((TypeName::Unit, target));
        },
    }
    Ok(())
}

} // verus!
