//! The errors that translation reports.
use vstd::prelude::*;
use crate::syntax::ast::TypeName;
use crate::syntax::lexer::{PrimitiveType, Span};
use crate::text::{decimal, push_decimal};

verus! {

/// Why translation stopped: an error to report, or a limit of the register
/// machine that the program exceeds (a register index or a jump distance
/// that overflows its operand, or the negation of 2^63).
#[derive(Debug)]
pub enum Stop {
    Error(TranslateError),
    Overflow,
}

/// An error and the part of the source it concerns.
#[derive(Debug, Clone, PartialEq)]
pub struct TranslateError(pub ErrorKind, pub Span);

#[derive(Debug, Clone, PartialEq)]
pub enum ErrorKind {
    SyntaxError(SyntaxError),
    UndefinedVariable(String),
    MismatchedTypes(TypeName, TypeName),
    UndefinedFunction(String),
    InvalidArgumentCount(usize, usize),
    InvalidArgumentType(TypeName, TypeName),
    OperationUndefined(TypeName),
    CannotNegate(PrimitiveType),
    NothingReturned,
}

#[derive(Debug, Clone, Copy, PartialEq, Eq, Structural)]
pub enum SyntaxError {
    InvalidAssignment,
}

/// The error kinds with names as character sequences.
pub enum ErrorKindV {
    SyntaxError(SyntaxError),
    UndefinedVariable(Seq<char>),
    MismatchedTypes(TypeName, TypeName),
    UndefinedFunction(Seq<char>),
    InvalidArgumentCount(usize, usize),
    InvalidArgumentType(TypeName, TypeName),
    OperationUndefined(TypeName),
    CannotNegate(PrimitiveType),
    NothingReturned,
}

/// An error kind and its span.
pub type ErrorV = (ErrorKindV, Span);

impl View for ErrorKind {
    type V = ErrorKindV;

    open spec fn view(&self) -> ErrorKindV {
        match self {
            ErrorKind::SyntaxError(e) => ErrorKindV::SyntaxError(*e),
            ErrorKind::UndefinedVariable(s) => ErrorKindV::UndefinedVariable(s@),
            ErrorKind::MismatchedTypes(a, b) => ErrorKindV::MismatchedTypes(*a, *b),
            ErrorKind::UndefinedFunction(s) => ErrorKindV::UndefinedFunction(s@),
            ErrorKind::InvalidArgumentCount(a, b) => ErrorKindV::InvalidArgumentCount(*a, *b),
            ErrorKind::InvalidArgumentType(a, b) => ErrorKindV::InvalidArgumentType(*a, *b),
            ErrorKind::OperationUndefined(t) => ErrorKindV::OperationUndefined(*t),
            ErrorKind::CannotNegate(p) => ErrorKindV::CannotNegate(*p),
            ErrorKind::NothingReturned => ErrorKindV::NothingReturned,
        }
    }
}

impl View for TranslateError {
    type V = ErrorV;

    open spec fn view(&self) -> ErrorV {
        (self.0@, self.1)
    }
}

impl TranslateError {
    pub fn kind(&self) -> (r: &ErrorKind)
        ensures
            *r == self.0,
    {
        &self.0
    }

    pub fn span(&self) -> (r: Span)
        ensures
            r == self.1,
    {
        self.1
    }
}

/// The name of a primitive type as its `Debug` form writes it.
pub open spec fn prim_debug(p: PrimitiveType) -> Seq<char> {
    match p {
        PrimitiveType::I8 => "I8"@,
        PrimitiveType::U8 => "U8"@,
        PrimitiveType::I16 => "I16"@,
        PrimitiveType::U16 => "U16"@,
        PrimitiveType::I32 => "I32"@,
        PrimitiveType::U32 => "U32"@,
        PrimitiveType::I64 => "I64"@,
        PrimitiveType::U64 => "U64"@,
        PrimitiveType::Integer => "Integer"@,
        PrimitiveType::Bool => "Bool"@,
    }
}

/// A type as its `Debug` form writes it.
pub open spec fn type_debug(t: TypeName) -> Seq<char> {
    match t {
        TypeName::Primitive(p) => "Primitive("@ + prim_debug(p) + ")"@,
        TypeName::Unit => "Unit"@,
        TypeName::Never => "Never"@,
    }
}

/// The human-readable description of an error kind.
pub open spec fn error_message(k: ErrorKindV) -> Seq<char> {
    match k {
        ErrorKindV::SyntaxError(SyntaxError::InvalidAssignment) => "invalid assignment"@,
        ErrorKindV::UndefinedVariable(name) => "undefined variable \""@ + name + "\""@,
        ErrorKindV::MismatchedTypes(expected, actual) => "mismatched types; expected "@ + type_debug(expected)
            + ", found "@ + type_debug(actual),
        ErrorKindV::UndefinedFunction(name) => "undefined function \""@ + name + "\""@,
        ErrorKindV::InvalidArgumentCount(expected, actual) => "invalid argument count; expected "@ + decimal(
            expected as nat,
        ) + ", found "@ + decimal(actual as nat),
        ErrorKindV::InvalidArgumentType(expected, actual) => "invalid argument type; expected "@ + type_debug(
            expected,
        ) + ", found "@ + type_debug(actual),
        ErrorKindV::NothingReturned => "nothing returned"@,
        ErrorKindV::OperationUndefined(t) => "operation is undefined for "@ + type_debug(t),
        ErrorKindV::CannotNegate(p) => "cannot negate type \""@ + prim_debug(p) + "\""@,
    }
}

fn push_prim_debug(s: &mut String, p: PrimitiveType)
    ensures
        final(s)@ == old(s)@ + prim_debug(p),
{
    match p {
        PrimitiveType::I8 => s.append("I8"),
        PrimitiveType::U8 => s.append("U8"),
        PrimitiveType::I16 => s.append("I16"),
        PrimitiveType::U16 => s.append("U16"),
        PrimitiveType::I32 => s.append("I32"),
        PrimitiveType::U32 => s.append("U32"),
        PrimitiveType::I64 => s.append("I64"),
        PrimitiveType::U64 => s.append("U64"),
        PrimitiveType::Integer => s.append("Integer"),
        PrimitiveType::Bool => s.append("Bool"),
    }
}

fn push_type_debug(s: &mut String, t: TypeName)
    ensures
        final(s)@ == old(s)@ + type_debug(t),
{
    match t {
        TypeName::Primitive(p) => {
            s.append("Primitive(");
            push_prim_debug(s, p);
            s.append(")");
            proof {
                assert(final(s)@ =~= old(s)@ + type_debug(t));
            }
        },
        TypeName::Unit => s.append("Unit"),
        TypeName::Never => s.append("Never"),
    }
}

impl TranslateError {
    /// The human-readable description of the error; the span is not part
    /// of it.
    pub fn message(&self) -> (r: String)
        ensures
            r@ == error_message(self.0@),
    {
        let mut s = String::new();
        match &self.0 {
            ErrorKind::SyntaxError(SyntaxError::InvalidAssignment) => s.append("invalid assignment"),
            ErrorKind::UndefinedVariable(name) => {
                s.append("undefined variable \"");
                s.append(name.as_str());
                s.append("\"");
            },
            ErrorKind::MismatchedTypes(expected, actual) => {
                s.append("mismatched types; expected ");
                push_type_debug(&mut s, *expected);
                s.append(", found ");
                push_type_debug(&mut s, *actual);
            },
            ErrorKind::UndefinedFunction(name) => {
                s.append("undefined function \"");
                s.append(name.as_str());
                s.append("\"");
            },
            ErrorKind::InvalidArgumentCount(expected, actual) => {
                s.append("invalid argument count; expected ");
                push_decimal(&mut s, *expected as u64);
                s.append(", found ");
                push_decimal(&mut s, *actual as u64);
            },
            ErrorKind::InvalidArgumentType(expected, actual) => {
                s.append("invalid argument type; expected ");
                push_type_debug(&mut s, *expected);
                s.append(", found ");
                push_type_debug(&mut s, *actual);
            },
            ErrorKind::NothingReturned => s.append("nothing returned"),
            ErrorKind::OperationUndefined(t) => {
                s.append("operation is undefined for ");
                push_type_debug(&mut s, *t);
            },
            ErrorKind::CannotNegate(p) => {
                s.append("cannot negate type \"");
                push_prim_debug(&mut s, *p);
                s.append("\"");
            },
        }
        proof {
            assert(s@ =~= error_message(self.0@));
        }
        s
    }
}

} // verus!
