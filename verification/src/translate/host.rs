//! The functions that the host provides to every program.
use vstd::prelude::*;
use crate::syntax::ast::TypeName;
use crate::syntax::lexer::PrimitiveType;
use crate::translate::lir::{function_spec, functions_view, FuncId, Function, FunctionV, SigV, Signature};

verus! {

/// The name and signature of each host function, in the order of their ids:
/// `putc`, which takes a `u32` and returns unit.
pub open spec fn host_defs() -> Seq<(Seq<char>, SigV)> {
    seq![(seq!['p', 'u', 't', 'c'], (seq![TypeName::Primitive(PrimitiveType::U32)], TypeName::Unit))]
}

/// The host functions: no code and no constants of their own.
pub open spec fn host_functions_view() -> Seq<FunctionV> {
    seq![function_spec(host_defs()[0].0, 0, host_defs()[0].1, seq![], seq![])]
}

/// The host functions, each with its id.
pub fn host_functions() -> (r: Vec<Function>)
    ensures
        functions_view(r@) == host_functions_view(),
{
    let mut params = Vec::new();
    params.push(TypeName::Primitive(PrimitiveType::U32));
    let signature = Signature { params, ret_ty: TypeName::Unit };
    let putc = Function::new("putc", FuncId(0), &signature, Vec::new(), Vec::new());
    proof {
        reveal_strlit("putc");
        assert("putc"@ =~= seq!['p', 'u', 't', 'c']);
        assert(signature.params@ =~= seq![TypeName::Primitive(PrimitiveType::U32)]);
        assert(putc@ == host_functions_view()[0]);
    }
    let mut r = Vec::new();
    r.push(putc);
    proof {
        assert(functions_view(r@) =~= host_functions_view());
    }
    r
}

} // verus!
