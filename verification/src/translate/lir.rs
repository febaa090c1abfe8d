//! The translated program: functions of register-machine code.
use vstd::prelude::*;
use crate::instruction::{reg_bound, reg_bound_fits, Instruction, OpCode};
use crate::syntax::ast::TypeName;
use crate::translate::host::{host_functions, host_functions_view};

verus! {

#[derive(Debug)]
pub struct Mochi {
    pub functions: Vec<Function>,
    pub entry_point: String,
}

#[derive(Debug, Clone, Copy, PartialEq, Eq, Structural, Hash, PartialOrd, Ord)]
pub struct FuncId(pub u16);

#[derive(Debug, Clone, Copy, PartialEq, Eq, Structural, Hash, PartialOrd, Ord)]
pub struct Reg(pub u16);

#[derive(Debug, Clone, Copy, PartialEq, Eq, Structural, Hash, PartialOrd, Ord)]
pub struct ConstId(pub u16);

#[derive(Debug)]
pub struct Function {
    pub name: String,
    pub func_id: FuncId,
    pub signature: Signature,
    pub code: Vec<Instruction>,
    pub register_count: u16,
    pub constants: Vec<u64>,
}

#[derive(Debug, PartialEq, Eq, Hash)]
pub struct Signature {
    pub params: Vec<TypeName>,
    pub ret_ty: TypeName,
}

/// A signature: the parameter types and the return type.
pub type SigV = (Seq<TypeName>, TypeName);

/// A function with its name, code and constants as sequences.
pub struct FunctionV {
    pub name: Seq<char>,
    pub func_id: u16,
    pub signature: SigV,
    pub code: Seq<Instruction>,
    pub register_count: u16,
    pub constants: Seq<u64>,
}

impl View for Signature {
    type V = SigV;

    open spec fn view(&self) -> SigV {
        (self.params@, self.ret_ty)
    }
}

impl View for Function {
    type V = FunctionV;

    open spec fn view(&self) -> FunctionV {
        FunctionV {
            name: self.name@,
            func_id: self.func_id.0,
            signature: self.signature@,
            code: self.code@,
            register_count: self.register_count,
            constants: self.constants@,
        }
    }
}

pub open spec fn functions_view(v: Seq<Function>) -> Seq<FunctionV> {
    v.map_values(|f: Function| f@)
}

impl View for Mochi {
    type V = (Seq<FunctionV>, Seq<char>);

    open spec fn view(&self) -> (Seq<FunctionV>, Seq<char>) {
        (functions_view(self.functions@), self.entry_point@)
    }
}

/// The highest register that the code names, or 0 where it names none.
pub open spec fn max_reg(code: Seq<Instruction>) -> int
    decreases code.len(),
{
    if code.len() == 0 {
        0
    } else {
        let rest = max_reg(code.drop_last());
        match reg_bound(code.last()) {
            Some(n) => if n > rest {
                n
            } else {
                rest
            },
            None => rest,
        }
    }
}

/// Whether the registers of `code`, and one more, can be counted in `u16`.
pub open spec fn code_fits(code: Seq<Instruction>) -> bool {
    &&& forall|i: int| 0 <= i < code.len() ==> reg_bound_fits(#[trigger] code[i])
    &&& max_reg(code) < u16::MAX
}

/// The function that `Function::new` builds from these parts.
pub open spec fn function_spec(
    name: Seq<char>,
    func_id: u16,
    signature: SigV,
    code: Seq<Instruction>,
    constants: Seq<u64>,
) -> FunctionV {
    FunctionV {
        name,
        func_id,
        signature,
        code,
        register_count: (max_reg(code) + 1) as u16,
        constants,
    }
}

/// Copies a list of types.
pub fn copy_types(v: &Vec<TypeName>) -> (r: Vec<TypeName>)
    ensures
        r@ == v@,
{
    let mut r = Vec::new();
    for k in 0..v.len()
        invariant
            r@ == v@.take(k as int),
    {
        r.push(v[k]);
        proof {
            assert(v@.take(k + 1) == v@.take(k as int).push(v@[k as int]));
        }
    }
    proof {
        assert(v@.take(v@.len() as int) == v@);
    }
    r
}

impl Mochi {
    /// The host functions followed by `functions`; the entry point is `main`.
    pub fn new(functions: Vec<Function>) -> (r: Self)
        ensures
            r@.0 == host_functions_view() + functions_view(functions@),
            r@.1 == seq!['m', 'a', 'i', 'n'],
    {
        let mut all = host_functions();
        let mut rest = functions;
        let ghost before = all@;
        let ghost added = rest@;
        all.append(&mut rest);
        proof {
            assert(functions_view(all@) =~= functions_view(before) + functions_view(added));
        }
        let entry_point = "main".to_owned();
        proof {
            reveal_strlit("main");
        }
        Mochi { functions: all, entry_point }
    }
}

impl Function {
    /// A function whose register count is one more than the highest register
    /// that its code names.
    pub fn new(
        name: &str,
        func_id: FuncId,
        signature: &Signature,
        code: Vec<Instruction>,
        constants: Vec<u64>,
    ) -> (r: Self)
        requires
            code_fits(code@),
        ensures
            r@ == function_spec(name@, func_id.0, signature@, code@, constants@),
    {
        let mut max: u16 = 0;
        for k in 0..code.len()
            invariant
                code_fits(code@),
                max == max_reg(code@.take(k as int)),
        {
            proof {
                lemma_max_reg_prefix(code@, k + 1);
                assert(code@.take(k + 1).drop_last() == code@.take(k as int));
                assert(reg_bound_fits(code@[k as int]));
            }
            let m = code[k].max_reg_index().unwrap_or(0);
            if m > max {
                max = m;
            }
        }
        proof {
            assert(code@.take(code@.len() as int) == code@);
        }
        Function {
            name: name.to_owned(),
            func_id,
            signature: signature.copy(),
            code,
            register_count: max + 1,
            constants,
        }
    }
}

/// Whether the registers of `code`, and one more, can be counted in `u16`.
pub fn fits_registers(code: &Vec<Instruction>) -> (r: bool)
    ensures
        r == code_fits(code@),
{
    let mut max: u16 = 0;
    for k in 0..code.len()
        invariant
            forall|i: int| 0 <= i < k ==> reg_bound_fits(#[trigger] code@[i]),
            max == max_reg(code@.take(k as int)),
    {
        let insn = code[k];
        if insn.0 == OpCode::FnCall && insn.2 as u32 + insn.3 as u32 > 0xffff {
            proof {
                assert(!reg_bound_fits(code@[k as int]));
            }
            return false;
        }
        proof {
            lemma_max_reg_prefix(code@, k + 1);
            assert(code@.take(k + 1).drop_last() == code@.take(k as int));
            assert(reg_bound_fits(code@[k as int]));
        }
        let m = insn.max_reg_index().unwrap_or(0);
        if m > max {
            max = m;
        }
    }
    proof {
        assert(code@.take(code@.len() as int) == code@);
    }
    max < 0xffff
}

/// The highest register of a prefix is at most that of the whole.
proof fn lemma_max_reg_prefix(code: Seq<Instruction>, k: int)
    requires
        0 <= k <= code.len(),
    ensures
        max_reg(code.take(k)) <= max_reg(code),
        max_reg(code) >= 0,
    decreases code.len(),
{
    if code.len() > 0 {
        if k == code.len() {
            assert(code.take(k) == code);
            lemma_max_reg_prefix(code.drop_last(), 0);
        } else {
            lemma_max_reg_prefix(code.drop_last(), k);
            assert(code.drop_last().take(k) == code.take(k));
        }
    } else {
        assert(code.take(k) == code);
    }
}

impl Signature {
    pub fn new(params: &Vec<TypeName>, ret_ty: &TypeName) -> (r: Self)
        ensures
            r@ == (params@, *ret_ty),
    {
        Signature { params: copy_types(params), ret_ty: *ret_ty }
    }

    pub fn params(&self) -> (r: &Vec<TypeName>)
        ensures
            r@ == self.params@,
    {
        &self.params
    }

    pub fn ret_ty(&self) -> (r: &TypeName)
        ensures
            *r == self.ret_ty,
    {
        &self.ret_ty
    }

    /// A copy of this signature.
    pub fn copy(&self) -> (r: Self)
        ensures
            r@ == self@,
    {
        Signature::new(&self.params, &self.ret_ty)
    }
}

} // verus!
