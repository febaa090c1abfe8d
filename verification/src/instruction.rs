//! The instruction set of the register machine that monye programs are
//! translated to.
use vstd::prelude::*;
use crate::syntax::ast::BinOp;
use crate::syntax::lexer::PrimitiveType;

verus! {

/// An instruction: an operation and three operands, whose meaning depends
/// on the operation (registers, a constant's index, a function's id, or the
/// two halves of a jump offset).
#[derive(Debug, Clone, Copy, PartialEq, Eq, Structural)]
pub struct Instruction(pub OpCode, pub u16, pub u16, pub u16);

#[derive(Debug, Clone, Copy, PartialEq, Eq, Structural)]
pub enum OpCode {
    Nop,
    Const,
    Mov,
    FnCall,
    Ret,
    AddU8,
    AddI8,
    AddU16,
    AddI16,
    AddU32,
    AddI32,
    AddU64,
    AddI64,
    SubU8,
    SubI8,
    SubU16,
    SubI16,
    SubU32,
    SubI32,
    SubU64,
    SubI64,
    MulU8,
    MulI8,
    MulU16,
    MulI16,
    MulU32,
    MulI32,
    MulU64,
    MulI64,
    DivU8,
    DivI8,
    DivU16,
    DivI16,
    DivU32,
    DivI32,
    DivU64,
    DivI64,
    RemU8,
    RemI8,
    RemU16,
    RemI16,
    RemU32,
    RemI32,
    RemU64,
    RemI64,
    NegI8,
    NegI16,
    NegI32,
    NegI64,
    Jump,
    JumpZ,
    JumpNZ,
    EQ,
    NE,
    Inv,
    And,
    Or,
    Xor,
    LTI8,
    LTI16,
    LTI32,
    LTI64,
    LTU8,
    LTU16,
    LTU32,
    LTU64,
    LEI8,
    LEI16,
    LEI32,
    LEI64,
    LEU8,
    LEU16,
    LEU32,
    LEU64,
}

/// The highest register that an instruction names, as an integer: the
/// call's last argument register may lie beyond `u16`.
pub open spec fn reg_bound(i: Instruction) -> Option<int> {
    match i.0 {
        OpCode::Nop | OpCode::Jump => None,
        OpCode::Const | OpCode::Ret | OpCode::JumpZ | OpCode::JumpNZ => Some(i.1 as int),
        OpCode::NegI8 | OpCode::NegI16 | OpCode::NegI32 | OpCode::NegI64
        | OpCode::Mov | OpCode::Inv => Some(if i.1 >= i.2 { i.1 as int } else { i.2 as int }),
        OpCode::FnCall => Some(i.2 + i.3),
        _ => Some(
            if i.1 >= i.2 && i.1 >= i.3 {
                i.1 as int
            } else if i.2 >= i.3 {
                i.2 as int
            } else {
                i.3 as int
            },
        ),
    }
}

/// Whether the highest register of `i` is an index that `u16` holds.
pub open spec fn reg_bound_fits(i: Instruction) -> bool {
    match reg_bound(i) {
        Some(n) => n <= u16::MAX,
        None => true,
    }
}

impl Instruction {
    /// The highest register index that this instruction reads or writes;
    /// `None` for those that name no register.
    pub fn max_reg_index(&self) -> (r: Option<u16>)
        requires
            reg_bound_fits(*self),
        ensures
            match reg_bound(*self) {
                Some(n) => r == Some(n as u16),
                None => r is None,
            },
    {
        match self.0 {
            OpCode::Nop | OpCode::Jump => None,
            OpCode::Const | OpCode::Ret | OpCode::JumpZ | OpCode::JumpNZ => Some(self.1),
            OpCode::NegI8 | OpCode::NegI16 | OpCode::NegI32 | OpCode::NegI64
        | OpCode::Mov | OpCode::Inv => Some(
                if self.1 >= self.2 {
                    self.1
                } else {
                    self.2
                },
            ),
            OpCode::FnCall => Some(self.2 + self.3),
            _ => Some(
                if self.1 >= self.2 && self.1 >= self.3 {
                    self.1
                } else if self.2 >= self.3 {
                    self.2
                } else {
                    self.3
                },
            ),
        }
    }
}

/// The operation that performs `op` on operands of type `ty`, where there is
/// one: arithmetic on the integer types, and the `<` and `<=` tests.
pub open spec fn typed_op(op: BinOp, ty: PrimitiveType) -> Option<OpCode> {
    match (op, ty) {
        (BinOp::Add, PrimitiveType::U8) => Some(OpCode::AddU8),
        (BinOp::Add, PrimitiveType::I8) => Some(OpCode::AddI8),
        (BinOp::Add, PrimitiveType::U16) => Some(OpCode::AddU16),
        (BinOp::Add, PrimitiveType::I16) => Some(OpCode::AddI16),
        (BinOp::Add, PrimitiveType::U32) => Some(OpCode::AddU32),
        (BinOp::Add, PrimitiveType::I32) => Some(OpCode::AddI32),
        (BinOp::Add, PrimitiveType::U64) => Some(OpCode::AddU64),
        (BinOp::Add, PrimitiveType::I64) => Some(OpCode::AddI64),
        (BinOp::Sub, PrimitiveType::U8) => Some(OpCode::SubU8),
        (BinOp::Sub, PrimitiveType::I8) => Some(OpCode::SubI8),
        (BinOp::Sub, PrimitiveType::U16) => Some(OpCode::SubU16),
        (BinOp::Sub, PrimitiveType::I16) => Some(OpCode::SubI16),
        (BinOp::Sub, PrimitiveType::U32) => Some(OpCode::SubU32),
        (BinOp::Sub, PrimitiveType::I32) => Some(OpCode::SubI32),
        (BinOp::Sub, PrimitiveType::U64) => Some(OpCode::SubU64),
        (BinOp::Sub, PrimitiveType::I64) => Some(OpCode::SubI64),
        (BinOp::Mul, PrimitiveType::U8) => Some(OpCode::MulU8),
        (BinOp::Mul, PrimitiveType::I8) => Some(OpCode::MulI8),
        (BinOp::Mul, PrimitiveType::U16) => Some(OpCode::MulU16),
        (BinOp::Mul, PrimitiveType::I16) => Some(OpCode::MulI16),
        (BinOp::Mul, PrimitiveType::U32) => Some(OpCode::MulU32),
        (BinOp::Mul, PrimitiveType::I32) => Some(OpCode::MulI32),
        (BinOp::Mul, PrimitiveType::U64) => Some(OpCode::MulU64),
        (BinOp::Mul, PrimitiveType::I64) => Some(OpCode::MulI64),
        (BinOp::Div, PrimitiveType::U8) => Some(OpCode::DivU8),
        (BinOp::Div, PrimitiveType::I8) => Some(OpCode::DivI8),
        (BinOp::Div, PrimitiveType::U16) => Some(OpCode::DivU16),
        (BinOp::Div, PrimitiveType::I16) => Some(OpCode::DivI16),
        (BinOp::Div, PrimitiveType::U32) => Some(OpCode::DivU32),
        (BinOp::Div, PrimitiveType::I32) => Some(OpCode::DivI32),
        (BinOp::Div, PrimitiveType::U64) => Some(OpCode::DivU64),
        (BinOp::Div, PrimitiveType::I64) => Some(OpCode::DivI64),
        (BinOp::Rem, PrimitiveType::U8) => Some(OpCode::RemU8),
        (BinOp::Rem, PrimitiveType::I8) => Some(OpCode::RemI8),
        (BinOp::Rem, PrimitiveType::U16) => Some(OpCode::RemU16),
        (BinOp::Rem, PrimitiveType::I16) => Some(OpCode::RemI16),
        (BinOp::Rem, PrimitiveType::U32) => Some(OpCode::RemU32),
        (BinOp::Rem, PrimitiveType::I32) => Some(OpCode::RemI32),
        (BinOp::Rem, PrimitiveType::U64) => Some(OpCode::RemU64),
        (BinOp::Rem, PrimitiveType::I64) => Some(OpCode::RemI64),
        (BinOp::LT, PrimitiveType::I8) => Some(OpCode::LTI8),
        (BinOp::LT, PrimitiveType::I16) => Some(OpCode::LTI16),
        (BinOp::LT, PrimitiveType::I32) => Some(OpCode::LTI32),
        (BinOp::LT, PrimitiveType::I64) => Some(OpCode::LTI64),
        (BinOp::LT, PrimitiveType::U8) => Some(OpCode::LTU8),
        (BinOp::LT, PrimitiveType::U16) => Some(OpCode::LTU16),
        (BinOp::LT, PrimitiveType::U32) => Some(OpCode::LTU32),
        (BinOp::LT, PrimitiveType::U64) => Some(OpCode::LTU64),
        (BinOp::LE, PrimitiveType::I8) => Some(OpCode::LEI8),
        (BinOp::LE, PrimitiveType::I16) => Some(OpCode::LEI16),
        (BinOp::LE, PrimitiveType::I32) => Some(OpCode::LEI32),
        (BinOp::LE, PrimitiveType::I64) => Some(OpCode::LEI64),
        (BinOp::LE, PrimitiveType::U8) => Some(OpCode::LEU8),
        (BinOp::LE, PrimitiveType::U16) => Some(OpCode::LEU16),
        (BinOp::LE, PrimitiveType::U32) => Some(OpCode::LEU32),
        (BinOp::LE, PrimitiveType::U64) => Some(OpCode::LEU64),
        _ => None,
    }
}

pub trait BinOpExt {
    fn to_typed_op(&self, ty: PrimitiveType) -> (r: Option<OpCode>)
        ensures
            r == typed_op(self.spec_op(), ty),
    ;

    spec fn spec_op(&self) -> BinOp;
}

impl BinOpExt for BinOp {
    open spec fn spec_op(&self) -> BinOp {
        *self
    }

    fn to_typed_op(&self, ty: PrimitiveType) -> (r: Option<OpCode>) {
        match (*self, ty) {
        (BinOp::Add, PrimitiveType::U8) => Some(OpCode::AddU8),
        (BinOp::Add, PrimitiveType::I8) => Some(OpCode::AddI8),
        (BinOp::Add, PrimitiveType::U16) => Some(OpCode::AddU16),
        (BinOp::Add, PrimitiveType::I16) => Some(OpCode::AddI16),
        (BinOp::Add, PrimitiveType::U32) => Some(OpCode::AddU32),
        (BinOp::Add, PrimitiveType::I32) => Some(OpCode::AddI32),
        (BinOp::Add, PrimitiveType::U64) => Some(OpCode::AddU64),
        (BinOp::Add, PrimitiveType::I64) => Some(OpCode::AddI64),
        (BinOp::Sub, PrimitiveType::U8) => Some(OpCode::SubU8),
        (BinOp::Sub, PrimitiveType::I8) => Some(OpCode::SubI8),
        (BinOp::Sub, PrimitiveType::U16) => Some(OpCode::SubU16),
        (BinOp::Sub, PrimitiveType::I16) => Some(OpCode::SubI16),
        (BinOp::Sub, PrimitiveType::U32) => Some(OpCode::SubU32),
        (BinOp::Sub, PrimitiveType::I32) => Some(OpCode::SubI32),
        (BinOp::Sub, PrimitiveType::U64) => Some(OpCode::SubU64),
        (BinOp::Sub, PrimitiveType::I64) => Some(OpCode::SubI64),
        (BinOp::Mul, PrimitiveType::U8) => Some(OpCode::MulU8),
        (BinOp::Mul, PrimitiveType::I8) => Some(OpCode::MulI8),
        (BinOp::Mul, PrimitiveType::U16) => Some(OpCode::MulU16),
        (BinOp::Mul, PrimitiveType::I16) => Some(OpCode::MulI16),
        (BinOp::Mul, PrimitiveType::U32) => Some(OpCode::MulU32),
        (BinOp::Mul, PrimitiveType::I32) => Some(OpCode::MulI32),
        (BinOp::Mul, PrimitiveType::U64) => Some(OpCode::MulU64),
        (BinOp::Mul, PrimitiveType::I64) => Some(OpCode::MulI64),
        (BinOp::Div, PrimitiveType::U8) => Some(OpCode::DivU8),
        (BinOp::Div, PrimitiveType::I8) => Some(OpCode::DivI8),
        (BinOp::Div, PrimitiveType::U16) => Some(OpCode::DivU16),
        (BinOp::Div, PrimitiveType::I16) => Some(OpCode::DivI16),
        (BinOp::Div, PrimitiveType::U32) => Some(OpCode::DivU32),
        (BinOp::Div, PrimitiveType::I32) => Some(OpCode::DivI32),
        (BinOp::Div, PrimitiveType::U64) => Some(OpCode::DivU64),
        (BinOp::Div, PrimitiveType::I64) => Some(OpCode::DivI64),
        (BinOp::Rem, PrimitiveType::U8) => Some(OpCode::RemU8),
        (BinOp::Rem, PrimitiveType::I8) => Some(OpCode::RemI8),
        (BinOp::Rem, PrimitiveType::U16) => Some(OpCode::RemU16),
        (BinOp::Rem, PrimitiveType::I16) => Some(OpCode::RemI16),
        (BinOp::Rem, PrimitiveType::U32) => Some(OpCode::RemU32),
        (BinOp::Rem, PrimitiveType::I32) => Some(OpCode::RemI32),
        (BinOp::Rem, PrimitiveType::U64) => Some(OpCode::RemU64),
        (BinOp::Rem, PrimitiveType::I64) => Some(OpCode::RemI64),
        (BinOp::LT, PrimitiveType::I8) => Some(OpCode::LTI8),
        (BinOp::LT, PrimitiveType::I16) => Some(OpCode::LTI16),
        (BinOp::LT, PrimitiveType::I32) => Some(OpCode::LTI32),
        (BinOp::LT, PrimitiveType::I64) => Some(OpCode::LTI64),
        (BinOp::LT, PrimitiveType::U8) => Some(OpCode::LTU8),
        (BinOp::LT, PrimitiveType::U16) => Some(OpCode::LTU16),
        (BinOp::LT, PrimitiveType::U32) => Some(OpCode::LTU32),
        (BinOp::LT, PrimitiveType::U64) => Some(OpCode::LTU64),
        (BinOp::LE, PrimitiveType::I8) => Some(OpCode::LEI8),
        (BinOp::LE, PrimitiveType::I16) => Some(OpCode::LEI16),
        (BinOp::LE, PrimitiveType::I32) => Some(OpCode::LEI32),
        (BinOp::LE, PrimitiveType::I64) => Some(OpCode::LEI64),
        (BinOp::LE, PrimitiveType::U8) => Some(OpCode::LEU8),
        (BinOp::LE, PrimitiveType::U16) => Some(OpCode::LEU16),
        (BinOp::LE, PrimitiveType::U32) => Some(OpCode::LEU32),
        (BinOp::LE, PrimitiveType::U64) => Some(OpCode::LEU64),
            _ => None,
        }
    }
}

} // verus!
