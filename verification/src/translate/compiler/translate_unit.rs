//! Translation of a whole program.
use vstd::prelude::*;
use crate::instruction::{Instruction, OpCode};
use crate::syntax::ast::{Declaration, Program, Spanned, TypeName};
use crate::syntax::lexer::Span;
use crate::translate::compiler::block::{checked_block, env_of};
use crate::translate::env::{GlobalEnv, LocalEnv};
use crate::translate::error::{ErrorKind, Stop, TranslateError};
use crate::translate::host::host_defs;
use crate::translate::lir::{fits_registers, functions_view, Function, Mochi, Reg, Signature};
use crate::translate::model::{fn_code, fns_code, param_types, params_env, program_code, register_decls, name_of, sig_of, Outcome};
use crate::translate::typing::TypeNameExt;

verus! {

/// Translates a program: registers every function, then translates each
/// declaration in order; the first error ends translation.
pub fn translate<'src>(ast: Program<'src>) -> (r: Result<Mochi, TranslateError>)
    requires
        !(program_code(ast.0@) is Abort),
    ensures
        match program_code(ast.0@) {
            Outcome::Done(fs) => r matches Ok(m) && m@.0 == fs && m@.1 == seq!['m', 'a', 'i', 'n'],
            Outcome::Fail(e) => r matches Err(x) && x@ == e,
            Outcome::Abort => true,
        },
{
    match translate_checked(ast) {
        Some(r) => r,
        None => {
            // excluded by the precondition
            proof {
                assert(false);
            }
            Err(TranslateError(ErrorKind::NothingReturned, Span(0, 0)))
        },
    }
}

/// `translate`, or `None` where the program exceeds the register machine's
/// limits: a register index or a jump distance that overflows its operand,
/// or the negation of 2^63.
pub fn translate_checked<'src>(ast: Program<'src>) -> (r: Option<Result<Mochi, TranslateError>>)
    ensures
        match program_code(ast.0@) {
            Outcome::Done(fs) => r matches Some(Ok(m)) && m@.0 == fs && m@.1 == seq!['m', 'a', 'i', 'n'],
            Outcome::Fail(e) => r matches Some(Err(x)) && x@ == e,
            Outcome::Abort => r is None,
        },
{
    let ghost decls = ast.0@;
    let mut global_env = GlobalEnv::new();
    let mut k: usize = 0;
    while k < ast.0.len()
        invariant
            decls == ast.0@,
            k <= decls.len(),
            register_decls(decls, 0, host_defs()) == register_decls(decls, k as int, global_env@),
        decreases decls.len() - k,
    {
        match &ast.0[k] {
            Declaration::FnDecl { name, params, ret_ty, .. } => {
                let signature = Signature::new(&types_of(params), &ret_ty.0);
                global_env.add_func(name.0, &signature);
            },
        }
        k += 1;
    }
    let ghost g = global_env@;
    let mut functions: Vec<Function> = Vec::new();
    proof {
        assert(functions_view(functions@) =~= Seq::empty());
    }
    let mut k: usize = 0;
    while k < ast.0.len()
        invariant
            decls == ast.0@,
            k <= decls.len(),
            global_env@ == g,
            register_decls(decls, 0, host_defs()) == g,
            fns_code(g, decls, 0, seq![]) == fns_code(g, decls, k as int, functions_view(functions@)),
        decreases decls.len() - k,
    {
        let function = match translate_fn(&mut global_env, &ast.0[k]) {
            Ok(f) => f,
            Err(Stop::Error(e)) => {
                return Some(Err(e));
            },
            Err(Stop::Overflow) => {
                return None;
            },
        };
        let ghost before = functions@;
        functions.push(function);
        proof {
            assert(functions_view(functions@) =~= functions_view(before).push(function@));
        }
        k += 1;
    }
    Some(Ok(Mochi::new(functions)))
}

/// The types of a list of parameters.
fn types_of<'src>(params: &Vec<(Spanned<&'src str>, Spanned<TypeName>)>) -> (r: Vec<TypeName>)
    ensures
        r@ == param_types(params@),
{
    let mut r = Vec::new();
    for k in 0..params.len()
        invariant
            r@ == param_types(params@).take(k as int),
    {
        r.push(params[k].1.0);
        proof {
            assert(param_types(params@).take(k + 1) == param_types(params@).take(k as int).push(params@[k as int].1.0));
        }
    }
    proof {
        assert(param_types(params@).take(params@.len() as int) == param_types(params@));
    }
    r
}

/// Translates one function declaration.
fn translate_fn<'src>(global_env: &mut GlobalEnv, decl: &Declaration<'src>) -> (r: Result<Function, Stop>)
    ensures
        final(global_env)@ == old(global_env)@,
        match fn_code(old(global_env)@, *decl) {
            Outcome::Done(f) => r matches Ok(x) && x@ == f,
            Outcome::Fail(e) => r matches Err(Stop::Error(x)) && x@ == e,
            Outcome::Abort => r matches Err(Stop::Overflow),
        },
{
    proof {
        reveal(fn_code);
    }
    let Declaration::FnDecl { name, params, ret_ty, body } = decl;
    let mut local_env = LocalEnv::new();
    let mut constants: Vec<u64> = Vec::new();
    let target_reg = Reg(0);
    let mut k: usize = 0;
    while k < params.len()
        invariant
            k <= params@.len(),
            params_env(params@, 0, seq![]) == params_env(params@, k as int, local_env@),
        decreases params@.len() - k,
    {
        local_env.add_variable(params[k].0.0, &params[k].1.0);
        k += 1;
    }
    let (mut insn_seq, ty) = checked_block(
        global_env,
        Some(local_env),
        &mut constants,
        target_reg,
        body,
        Some(&ret_ty.0),
    )?;
    insn_seq.push(Instruction(OpCode::Ret, target_reg.0, 0, 0));
    match ret_ty.0.try_cast(&ty) {
        Ok(_) => {},
        Err(e) => {
            return Err(Stop::Error(TranslateError(e, ret_ty.1)));
        },
    }
    let signature = Signature::new(&types_of(params), &ret_ty.0);
    let func_id = match global_env.get_func(name.0) {
        Some((_, func_id)) => func_id,
        None => {
            return Err(Stop::Overflow);
        },
    };
    if !fits_registers(&insn_seq) {
        return Err(Stop::Overflow);
    }
    Ok(Function::new(name.0, func_id, &signature, insn_seq, constants))
}

} // verus!
