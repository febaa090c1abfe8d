//! How the type that a context expects is reconciled with the type found.
use vstd::prelude::*;
use crate::syntax::ast::TypeName;
use crate::syntax::lexer::{prim_cast, PrimitiveType};
use crate::translate::error::{ErrorKind, ErrorKindV};

verus! {

/// The type that integer literals take where nothing else decides it.
pub const DEFAULT_FALLBACK_TYPE: PrimitiveType = PrimitiveType::I32;

/// The type that a value of type `b` takes where type `a` is expected, or
/// the mismatch: `never` fits anywhere, nothing else fits where `never` is
/// expected, primitive types follow `prim_cast`, and other types must agree.
pub open spec fn type_cast(a: TypeName, b: TypeName) -> Result<TypeName, ErrorKindV> {
    match (a, b) {
        (_, TypeName::Never) => Ok(a),
        (TypeName::Never, _) => Err(ErrorKindV::MismatchedTypes(a, b)),
        (TypeName::Primitive(l), TypeName::Primitive(r)) => match prim_cast(l, r) {
            Some(p) => Ok(TypeName::Primitive(p)),
            None => Err(ErrorKindV::MismatchedTypes(a, b)),
        },
        _ => if a == b {
            Ok(a)
        } else {
            Err(ErrorKindV::MismatchedTypes(a, b))
        },
    }
}

/// The integer type used for a literal whose type is still open.
pub open spec fn fallback(p: PrimitiveType) -> PrimitiveType {
    if p == PrimitiveType::Integer {
        DEFAULT_FALLBACK_TYPE
    } else {
        p
    }
}

pub trait TypeNameExt {
    spec fn spec_type(&self) -> TypeName;

    fn try_cast(&self, other: &Self) -> (r: Result<TypeName, ErrorKind>)
        ensures
            match type_cast(self.spec_type(), other.spec_type()) {
                Ok(t) => r == Ok::<TypeName, ErrorKind>(t),
                Err(k) => r matches Err(e) && e@ == k,
            },
    ;
}

impl TypeNameExt for TypeName {
    open spec fn spec_type(&self) -> TypeName {
        *self
    }

    fn try_cast(&self, other: &Self) -> (r: Result<TypeName, ErrorKind>) {
        match (*self, *other) {
            (_, TypeName::Never) => Ok(*self),
            (TypeName::Never, _) => Err(ErrorKind::MismatchedTypes(*self, *other)),
            (TypeName::Primitive(l), TypeName::Primitive(r)) => match l.try_cast(&r) {
                Some(p) => Ok(TypeName::Primitive(p)),
                None => Err(ErrorKind::MismatchedTypes(*self, *other)),
            },
            _ => if *self == *other {
                Ok(*self)
            } else {
                Err(ErrorKind::MismatchedTypes(*self, *other))
            },
        }
    }
}

/// The fallback as an executable function.
pub fn fallback_type(p: PrimitiveType) -> (r: PrimitiveType)
    ensures
        r == fallback(p),
{
    if p == PrimitiveType::Integer {
        DEFAULT_FALLBACK_TYPE
    } else {
        p
    }
}

} // verus!
