//! The environments of translation: the functions of the program, and the
//! variables of a function with the register that holds each.
use vstd::prelude::*;
use crate::syntax::ast::TypeName;
use crate::text::str_eq;
use crate::translate::host::{host_defs, host_functions};
use crate::translate::lir::{FuncId, Reg, SigV, Signature};

verus! {

/// The functions known to translation, by name.
pub type GEnvV = Seq<(Seq<char>, SigV)>;

/// The variables in scope: name, type and register.
pub type LEnvV = Seq<(Seq<char>, TypeName, u16)>;

/// The first position from `k` on where a function named `name` stands, or
/// -1.
pub open spec fn func_index(g: GEnvV, name: Seq<char>, k: int) -> int
    decreases g.len() - k,
{
    if k < 0 || k >= g.len() {
        -1
    } else if g[k].0 == name {
        k
    } else {
        func_index(g, name, k + 1)
    }
}

/// The signature and id of the first function named `name`.
pub open spec fn lookup_func(g: GEnvV, name: Seq<char>) -> Option<(SigV, u16)> {
    let i = func_index(g, name, 0);
    if i >= 0 {
        Some((g[i].1, i as u16))
    } else {
        None
    }
}

/// The first position from `k` on where a variable named `name` stands, or
/// -1.
pub open spec fn var_index(l: LEnvV, name: Seq<char>, k: int) -> int
    decreases l.len() - k,
{
    if k < 0 || k >= l.len() {
        -1
    } else if l[k].0 == name {
        k
    } else {
        var_index(l, name, k + 1)
    }
}

/// The type and register of the variable `name`.
pub open spec fn lookup_var(l: LEnvV, name: Seq<char>) -> Option<(TypeName, u16)> {
    let i = var_index(l, name, 0);
    if i >= 0 {
        Some((l[i].1, l[i].2))
    } else {
        None
    }
}

/// Whether some variable is held in register `r`.
pub open spec fn reg_used(l: LEnvV, r: int) -> bool {
    exists|i: int| 0 <= i < l.len() && l[i].2 == r
}

/// The first register from `r` on below 0xffff that no variable holds; 0
/// where all are taken.
pub open spec fn free_reg_from(l: LEnvV, r: int) -> u16
    decreases 0xffff - r,
{
    if r < 0 || r >= 0xffff {
        0
    } else if reg_used(l, r) {
        free_reg_from(l, r + 1)
    } else {
        r as u16
    }
}

/// The register that the next variable or temporary gets.
pub open spec fn free_reg(l: LEnvV) -> u16 {
    free_reg_from(l, 0)
}

/// The environment with `name` bound to type `ty` in register `reg`,
/// replacing an earlier binding of the name.
pub open spec fn with_var(l: LEnvV, name: Seq<char>, ty: TypeName, reg: u16) -> LEnvV {
    let i = var_index(l, name, 0);
    if i >= 0 {
        l.update(i, (name, ty, reg))
    } else {
        l.push((name, ty, reg))
    }
}

/// No name is bound twice.
pub open spec fn names_unique(l: LEnvV) -> bool {
    forall|i: int, j: int| 0 <= i < j < l.len() ==> l[i].0 != l[j].0
}

#[derive(Debug)]
pub struct GlobalEnv {
    func_defs: Vec<(String, Signature)>,
}

impl View for GlobalEnv {
    type V = GEnvV;

    closed spec fn view(&self) -> GEnvV {
        Seq::new(self.func_defs@.len(), |i: int| (self.func_defs@[i].0@, self.func_defs@[i].1@))
    }
}

impl GlobalEnv {
    /// The environment that knows the host functions.
    pub fn new() -> (r: Self)
        ensures
            r@ == host_defs(),
    {
        let hosts = host_functions();
        let mut func_defs: Vec<(String, Signature)> = Vec::new();
        let mut k: usize = 0;
        while k < hosts.len()
            invariant
                k <= hosts@.len(),
                func_defs@.len() == k,
                forall|i: int| 0 <= i < k ==> #[trigger] func_defs@[i].0@ == hosts@[i].name@
                    && func_defs@[i].1@ == hosts@[i].signature@,
            decreases hosts@.len() - k,
        {
            func_defs.push((hosts[k].name.clone(), hosts[k].signature.copy()));
            k += 1;
        }
        let r = GlobalEnv { func_defs };
        proof {
            assert(crate::translate::lir::functions_view(hosts@) == crate::translate::host::host_functions_view());
            assert(crate::translate::lir::functions_view(hosts@).len() == hosts@.len());
            assert(hosts@.len() == 1);
            assert(crate::translate::lir::functions_view(hosts@)[0] == hosts@[0]@);
            assert(r@ =~= host_defs());
        }
        r
    }

    /// Adds a function; its id is its position.
    pub fn add_func(&mut self, name: &str, signature: &Signature) -> (r: FuncId)
        ensures
            final(self)@ == old(self)@.push((name@, signature@)),
            r.0 == old(self)@.len() as u16,
    {
        let func_id = FuncId(self.func_defs.len() as u16);
        self.func_defs.push((name.to_owned(), signature.copy()));
        proof {
            assert(final(self)@ =~= old(self)@.push((name@, signature@)));
        }
        func_id
    }

    /// The signature and id of the first function named `name`.
    pub fn get_func(&self, name: &str) -> (r: Option<(&Signature, FuncId)>)
        ensures
            match lookup_func(self@, name@) {
                Some((sig, id)) => r matches Some(x) && x.0@ == sig && x.1.0 == id,
                None => r is None,
            },
    {
        let mut k: usize = 0;
        while k < self.func_defs.len()
            invariant
                k <= self.func_defs@.len(),
                func_index(self@, name@, 0) == func_index(self@, name@, k as int),
            decreases self.func_defs@.len() - k,
        {
            if str_eq(self.func_defs[k].0.as_str(), name) {
                return Some((&self.func_defs[k].1, FuncId(k as u16)));
            }
            k += 1;
        }
        None
    }
}

#[derive(Debug)]
pub struct LocalEnv {
    variables: Vec<(String, TypeName, Reg)>,
}

impl View for LocalEnv {
    type V = LEnvV;

    closed spec fn view(&self) -> LEnvV {
        Seq::new(
            self.variables@.len(),
            |i: int| (self.variables@[i].0@, self.variables@[i].1, self.variables@[i].2.0),
        )
    }
}

impl LocalEnv {
    /// An environment with no variables.
    pub fn new() -> (r: Self)
        ensures
            r@ == Seq::<(Seq<char>, TypeName, u16)>::empty(),
    {
        let r = LocalEnv { variables: Vec::new() };
        proof {
            assert(r@ =~= Seq::<(Seq<char>, TypeName, u16)>::empty());
        }
        r
    }

    /// A copy of this environment.
    pub fn duplicate(&self) -> (r: Self)
        ensures
            r@ == self@,
    {
        let mut variables: Vec<(String, TypeName, Reg)> = Vec::new();
        for k in 0..self.variables.len()
            invariant
                variables@.len() == k,
                forall|i: int| 0 <= i < k ==> #[trigger] variables@[i] == self.variables@[i],
        {
            let (name, ty, reg) = &self.variables[k];
            variables.push((name.clone(), *ty, *reg));
        }
        let r = LocalEnv { variables };
        proof {
            assert(r@ =~= self@);
        }
        r
    }

    /// Binds `name` to type `ty` in the first free register, replacing an
    /// earlier binding of the name; returns that register.
    pub fn add_variable(&mut self, name: &str, ty: &TypeName) -> (r: Reg)
        ensures
            r.0 == free_reg(old(self)@),
            final(self)@ == with_var(old(self)@, name@, *ty, r.0),
    {
        let reg = self.available_reg();
        let mut k: usize = 0;
        while k < self.variables.len()
            invariant
                k <= self.variables@.len(),
                self@ == old(self)@,
                reg.0 == free_reg(old(self)@),
                var_index(self@, name@, 0) == var_index(self@, name@, k as int),
            decreases self.variables@.len() - k,
        {
            proof {
                assert(self@[k as int].0 == self.variables@[k as int].0@);
            }
            if str_eq(self.variables[k].0.as_str(), name) {
                let ghost before = self@;
                let entry = (name.to_owned(), *ty, reg);
                self.variables.set(k, entry);
                proof {
                    assert(self@ =~= before.update(k as int, (name@, *ty, reg.0)));
                    assert(var_index(before, name@, k as int) == k);
                }
                return reg;
            }
            k += 1;
        }
        let ghost before = self@;
        self.variables.push((name.to_owned(), *ty, reg));
        proof {
            assert(self@ =~= before.push((name@, *ty, reg.0)));
        }
        reg
    }

    /// The type and register of the variable `name`.
    pub fn get_variable(&self, name: &str) -> (r: Option<(&TypeName, Reg)>)
        ensures
            match lookup_var(self@, name@) {
                Some((ty, reg)) => r matches Some(x) && *x.0 == ty && x.1.0 == reg,
                None => r is None,
            },
    {
        let mut k: usize = 0;
        while k < self.variables.len()
            invariant
                k <= self.variables@.len(),
                var_index(self@, name@, 0) == var_index(self@, name@, k as int),
            decreases self.variables@.len() - k,
        {
            if str_eq(self.variables[k].0.as_str(), name) {
                return Some((&self.variables[k].1, self.variables[k].2));
            }
            k += 1;
        }
        None
    }

    /// The first register below 0xffff that no variable holds; register 0
    /// where all are taken.
    pub fn available_reg(&self) -> (r: Reg)
        ensures
            r.0 == free_reg(self@),
    {
        let mut r: u16 = 0;
        while r < 0xffff
            invariant
                free_reg(self@) == free_reg_from(self@, r as int),
            decreases 0xffff - r,
        {
            let mut used = false;
            let mut k: usize = 0;
            while k < self.variables.len()
                invariant
                    k <= self.variables@.len(),
                    used == exists|i: int| 0 <= i < k && self@[i].2 == r,
                decreases self.variables@.len() - k,
            {
                proof {
                    assert(self@[k as int].2 == self.variables@[k as int].2.0);
                }
                if self.variables[k].2.0 == r {
                    used = true;
                }
                k += 1;
            }
            if !used {
                return Reg(r);
            }
            r += 1;
        }
        Reg(0)
    }
}

} // verus!
